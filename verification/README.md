# leptos_wasi

Serves a Leptos application from a WASI HTTP component. The library in
`src/` holds the decisions, each with a contract proved by Verus:

- `handler`: the routing state of one request. A server function, a static
  file, a response decided beforehand (such as `413 Payload Too Large`), or a
  registered application route answers it; the first that claims the request
  wins, and `handle_with_context` says which one does.
- `static_files`: which request paths fall under a static-file prefix, how the
  file path is percent-decoded, the refusal of paths holding `..` or a
  backslash before the user's file handler is called, and the file extension
  (read as a Unix path) that picks the media type.
- `redirect` and `header`: where a form submission is sent back to, and the
  guarantee that every `Location` set on a server function's response stays on
  the site.
- `routes` and `router`: how the application's routes are written as path
  patterns, how optional parameters are expanded, and their registration with
  the `routefinder` router: every kept route whose pattern parses is
  registered, in order, and those the router can match against without
  stopping (no wildcard before the end, no parameter after non-ASCII text)
  answer requests.
- `body`: the 16 MiB request-body limit and the collection of streamed bodies.
- `decode`, `text`, `response`, `wasi_buf`: percent-decoding, byte searches,
  preset responses and the body-frame buffer.

`app/` is the asynchronous plumbing around it: reading the request body,
running server functions, server-side rendering with Leptos, and handing the
response to the host, through the WASI Preview 3 APIs (`handler`) or the
Preview 2 ones (`p2`, which writes the response in chunks).

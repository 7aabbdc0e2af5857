//! Routing and response decisions for serving a Leptos application from a
//! WASI HTTP component: which server function, static file, preset response
//! or rendered route answers a request, how request bodies are limited, how
//! static-file paths are decoded and checked, and where redirects may lead.

pub mod body;
pub mod decode;
pub mod handler;
pub mod header;
pub mod redirect;
pub mod response;
pub mod router;
pub mod routes;
pub mod static_files;
pub mod text;
pub mod wasi_buf;

pub use body::{BodyCollector, MAX_REQUEST_BODY_SIZE};
pub use decode::url_decode;
pub use handler::{BuildOutcome, Dispatch, Handler, RequestHead, RouteError};
pub use header::{accepts_html, sanitize_referrer};
pub use redirect::{finish_server_fn_response, redirect, RedirectAction, RedirectOutcome};
pub use response::{not_found_response, Body, PresetResponse};
pub use routes::{into_route_listing, to_rf_str_representation, PathSegment};
pub use static_files::{static_lookup, StaticLookup};
pub use wasi_buf::WasiBuf;

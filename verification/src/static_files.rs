use vstd::prelude::*;
use vstd::string::StringSliceAdditionalSpecFns;
use vstd::utf8::{
    decode_utf8, encode_utf8, is_char_boundary, is_continuation_byte, length_of_first_scalar,
    pop_first_scalar, valid_utf8,
};

use crate::decode::{spec_url_decode, url_decode};
use crate::header::slash;
use crate::text::{bytes_contain, bytes_contain_byte, bytes_end_with, bytes_start_with, contains_seq, ends_with, starts_with};

verus! {

/// `..`
pub open spec fn dot_dot() -> Seq<u8> {
    seq!['.' as u8, '.' as u8]
}

/// A request path falls under a prefix: it is the prefix itself, or it
/// continues the prefix at a segment boundary (the next byte is a slash, or
/// the prefix ends with one). A path that only shares the prefix's text, such
/// as `/static-page` for `/static`, does not fall under it.
pub open spec fn prefix_matches(req: Seq<u8>, prefix: Seq<u8>) -> bool {
    ||| req == prefix
    ||| starts_with(req, prefix) && (starts_with(req.skip(prefix.len() as int), slash())
        || ends_with(prefix, slash()))
}

/// The bytes with their leading slashes removed.
pub open spec fn skip_slashes(s: Seq<u8>) -> Seq<u8>
    decreases s.len(),
{
    if s.len() > 0 && s[0] == '/' as u8 {
        skip_slashes(s.skip(1))
    } else {
        s
    }
}

/// A decoded file path that would leave the served directory: it holds `..` or
/// a backslash.
pub open spec fn is_traversal(path: Seq<u8>) -> bool {
    contains_seq(path, dot_dot()) || path.contains('\\' as u8)
}

/// The file path that a request path under a prefix asks for: what follows the
/// prefix, without leading slashes, percent-decoded.
pub open spec fn static_file_path(req: Seq<char>, prefix: Seq<char>) -> Seq<char> {
    let rel = skip_slashes(encode_utf8(req).skip(encode_utf8(prefix).len() as int));
    spec_url_decode(decode_utf8(rel))
}

/// A request path that shares the prefix's text without continuing it at a
/// segment boundary (say `/static-page` against `/static`) is not served as a
/// static file.
pub proof fn look_alike_paths_do_not_match(req: Seq<u8>, prefix: Seq<u8>)
    requires
        starts_with(req, prefix),
        req.len() > prefix.len(),
        req[prefix.len() as int] != '/' as u8,
        !ends_with(prefix, slash()),
    ensures
        !prefix_matches(req, prefix),
{
    assert(req.skip(prefix.len() as int).take(1)[0] == req[prefix.len() as int]);
}

/// What the static-file rule makes of a request path.
#[derive(Debug)]
pub enum StaticLookup {
    /// The path does not fall under the prefix.
    NoMatch,
    /// The path falls under the prefix but its file path would leave the
    /// served directory: the answer is `404 Not Found`.
    Rejected,
    /// The file to look up, by its decoded path.
    Serve(String),
}

/// A byte just after an ASCII byte in UTF-8 starts a character.
proof fn lemma_boundary_after_ascii(bytes: Seq<u8>, j: int)
    requires
        valid_utf8(bytes),
        0 < j <= bytes.len(),
        bytes[j - 1] < 0x80,
    ensures
        is_char_boundary(bytes, j),
    decreases bytes.len(),
{
    let n = length_of_first_scalar(bytes);
    if j - 1 < n {
        if n > 1 {
            if j - 1 > 0 {
                assert(is_continuation_byte(bytes[j - 1]));
            }
        }
        assert(n == 1);
        assert(pop_first_scalar(bytes).len() == bytes.len() - 1);
        assert(is_char_boundary(pop_first_scalar(bytes), 0));
    } else {
        let rest = pop_first_scalar(bytes);
        assert(rest[j - n - 1] == bytes[j - 1]);
        lemma_boundary_after_ascii(rest, j - n);
    }
}

/// Decides how the static-file rule treats a request path under a prefix.
pub fn static_lookup(req_path: &str, prefix_path: &str) -> (r: StaticLookup)
    ensures
        r is NoMatch <==> !prefix_matches(req_path.spec_bytes(), prefix_path.spec_bytes()),
        r is Rejected <==> prefix_matches(req_path.spec_bytes(), prefix_path.spec_bytes())
            && is_traversal(encode_utf8(static_file_path(req_path@, prefix_path@))),
        r matches StaticLookup::Serve(p) ==> p@ == static_file_path(req_path@, prefix_path@)
            && !is_traversal(encode_utf8(p@)),
{
    let req = req_path.as_bytes();
    let pre = prefix_path.as_bytes();
    let one_slash: Vec<u8> = vec!['/' as u8];
    assert(one_slash@ =~= slash());
    let same = req.len() == pre.len() && bytes_start_with(req, pre);
    proof {
        if same {
            assert(req@ =~= pre@.take(pre@.len() as int));
            assert(pre@.take(pre@.len() as int) =~= pre@);
        }
        if req@ == pre@ {
            assert(req@.take(pre@.len() as int) =~= pre@);
        }
    }
    let is_match = if same {
        true
    } else if bytes_start_with(req, pre) {
        let (_, rest) = req.split_at(pre.len());
        bytes_start_with(rest, one_slash.as_slice()) || bytes_end_with(pre, one_slash.as_slice())
    } else {
        false
    };
    if !is_match {
        return StaticLookup::NoMatch;
    }
    let ghost k = pre@.len() as int;
    let mut j: usize = pre.len();
    assert(req@.skip(k) =~= req@.skip(j as int));
    while j < req.len() && req[j] == '/' as u8
        invariant
            k <= j <= req@.len(),
            req@.len() == req.len(),
            skip_slashes(req@.skip(j as int)) == skip_slashes(req@.skip(k)),
            j > k ==> req@[j - 1] == '/' as u8,
        decreases req@.len() - j,
    {
        assert(req@.skip(j as int).skip(1) =~= req@.skip(j + 1));
        j = j + 1;
    }
    assert(skip_slashes(req@.skip(j as int)) == req@.skip(j as int));
    proof {
        vstd::utf8::encode_utf8_valid_utf8(req_path@);
        vstd::utf8::is_char_boundary_start_end_of_seq(req@);
        if 0 < j < req@.len() {
            if j > k {
                lemma_boundary_after_ascii(req@, j as int);
            } else {
                assert(ends_with(pre@, slash()) || req@.skip(k).take(1) == slash());
                if req@.skip(k).take(1) == slash() {
                    assert(req@[j as int] == '/' as u8);
                } else {
                    assert(pre@.skip(pre@.len() - 1)[0] == '/' as u8);
                    assert(req@.take(k)[k - 1] == pre@[k - 1]);
                    lemma_boundary_after_ascii(req@, j as int);
                }
            }
        }
    }
    let (_, trimmed) = req_path.split_at(j);
    proof {
        vstd::utf8::encode_utf8_decode_utf8(trimmed@);
        assert(trimmed.spec_bytes() =~= req@.skip(j as int));
    }
    let decoded = url_decode(trimmed);
    let dots: Vec<u8> = vec!['.' as u8, '.' as u8];
    assert(dots@ =~= dot_dot());
    let db = decoded.as_str().as_bytes();
    if bytes_contain(db, dots.as_slice()) || bytes_contain_byte(db, '\\' as u8) {
        return StaticLookup::Rejected;
    }
    StaticLookup::Serve(decoded)
}

/// The number of bytes after the last slash (all of them when there is none).
pub open spec fn tail_len(b: Seq<u8>) -> nat
    decreases b.len(),
{
    if b.len() == 0 || b.last() == '/' as u8 {
        0
    } else {
        1 + tail_len(b.drop_last())
    }
}

/// The last component of a path, read as a Unix path: trailing slashes and
/// `.` components are passed over; `None` when nothing is left, or when the
/// component is `..`.
pub open spec fn file_name(b: Seq<u8>) -> Option<Seq<u8>>
    decreases b.len(),
{
    if b.len() == 0 {
        None
    } else if b.last() == '/' as u8 {
        file_name(b.drop_last())
    } else {
        let seg = b.subrange(b.len() - tail_len(b), b.len() as int);
        if seg == seq!['.' as u8] {
            file_name(b.drop_last())
        } else if seg == dot_dot() {
            None
        } else {
            Some(seg)
        }
    }
}

/// The number of bytes after the last dot (all of them when there is none).
pub open spec fn after_last_dot(f: Seq<u8>) -> nat
    decreases f.len(),
{
    if f.len() == 0 || f.last() == '.' as u8 {
        0
    } else {
        1 + after_last_dot(f.drop_last())
    }
}

/// The extension of a file name: what follows its last dot, or nothing when
/// it has no dot or its only dot leads it.
pub open spec fn name_extension(f: Seq<u8>) -> Seq<u8> {
    let d = f.len() - after_last_dot(f);
    if d <= 1 {
        Seq::empty()
    } else {
        f.subrange(d, f.len() as int)
    }
}

/// The extension of a path's file name, empty when it has none.
pub open spec fn path_extension(b: Seq<u8>) -> Seq<u8> {
    match file_name(b) {
        Some(f) => name_extension(f),
        None => Seq::empty(),
    }
}

/// The media type that `mime_guess` gives for a file extension,
/// `application/octet-stream` when it knows none.
pub uninterp spec fn mime_type_for_extension(ext: Seq<char>) -> Seq<char>;

/// The media type of a file, by the extension of its path.
pub open spec fn mime_type_for(path: Seq<char>) -> Seq<char> {
    mime_type_for_extension(decode_utf8(path_extension(encode_utf8(path))))
}

/// Guesses the media type for a file extension
/// (`mime_guess::MimeGuess::from_ext`, then `first_or_octet_stream`). Claims
/// only that the result is the one named by `mime_type_for_extension`; the
/// table of extensions is left unsaid.
#[verifier::external_body]
fn guess_mime_type_for_extension(ext: &str) -> (r: String)
    ensures
        r@ == mime_type_for_extension(ext@),
{
    mime_guess::MimeGuess::from_ext(ext).first_or_octet_stream().as_ref().to_string()
}

/// Finds the last component of a path, as the range of its bytes.
fn file_name_range(b: &[u8]) -> (r: Option<(usize, usize)>)
    ensures
        r is None <==> file_name(b@) is None,
        r matches Some((s, e)) ==> {
            &&& s < e <= b@.len()
            &&& file_name(b@) == Some(b@.subrange(s as int, e as int))
            &&& (e == b@.len() || b@[e as int] < 128)
        },
{
    let ghost bs = b@;
    let mut end: usize = b.len();
    assert(bs.take(end as int) =~= bs);
    while end > 0
        invariant
            end <= bs.len(),
            bs == b@,
            file_name(bs.take(end as int)) == file_name(bs),
            end == bs.len() || bs[end as int] < 128,
        decreases end,
    {
        let ghost cur = bs.take(end as int);
        assert(cur.drop_last() =~= bs.take(end - 1));
        assert(cur.last() == bs[end - 1]);
        if b[end - 1] == '/' as u8 {
            end = end - 1;
        } else {
            let mut s: usize = end;
            while s > 0 && b[s - 1] != '/' as u8
                invariant
                    s <= end <= bs.len(),
                    bs == b@,
                    tail_len(bs.take(end as int)) == (end - s) + tail_len(bs.take(s as int)),
                decreases s,
            {
                assert(bs.take(s as int).drop_last() =~= bs.take(s - 1));
                assert(bs.take(s as int).last() == bs[s - 1]);
                s = s - 1;
            }
            assert(tail_len(bs.take(s as int)) == 0) by {
                if s > 0 {
                    assert(bs.take(s as int).last() == bs[s - 1]);
                }
            }
            let ghost seg = cur.subrange(end - tail_len(cur), end as int);
            assert(seg =~= bs.subrange(s as int, end as int));
            if end - s == 1 && b[s] == '.' as u8 {
                assert(seg =~= seq!['.' as u8]);
                end = s;
            } else if end - s == 2 && b[s] == '.' as u8 && b[s + 1] == '.' as u8 {
                assert(seg =~= dot_dot());
                return None;
            } else {
                assert(seg != seq!['.' as u8]) by {
                    if seg == seq!['.' as u8] {
                        assert(seg.len() == 1 && seg[0] == '.' as u8);
                    }
                }
                assert(seg != dot_dot()) by {
                    if seg == dot_dot() {
                        assert(seg.len() == 2 && seg[0] == '.' as u8 && seg[1] == '.' as u8);
                    }
                }
                return Some((s, end));
            }
        }
    }
    None
}

/// The extension of a path's file name, empty when it has none.
pub fn file_extension(path: &str) -> (r: &str)
    ensures
        r.spec_bytes() == path_extension(path.spec_bytes()),
{
    let b = path.as_bytes();
    let ghost bs = b@;
    proof {
        vstd::utf8::encode_utf8_valid_utf8(path@);
        vstd::utf8::is_char_boundary_start_end_of_seq(bs);
    }
    let (s, e) = match file_name_range(b) {
        None => {
            let (_, empty) = path.split_at(b.len());
            assert(empty.spec_bytes() =~= Seq::<u8>::empty());
            return empty;
        },
        Some(range) => range,
    };
    let ghost f = bs.subrange(s as int, e as int);
    let mut k: usize = e;
    assert(f.take(k - s) =~= f);
    while k > s && b[k - 1] != '.' as u8
        invariant
            s <= k <= e <= bs.len(),
            bs == b@,
            f == bs.subrange(s as int, e as int),
            after_last_dot(f) == (e - k) + after_last_dot(f.take(k - s)),
        decreases k,
    {
        assert(f.take(k - s).drop_last() =~= f.take(k - s - 1));
        assert(f.take(k - s).last() == bs[k - 1]);
        k = k - 1;
    }
    assert(after_last_dot(f.take(k - s)) == 0) by {
        if k > s {
            assert(f.take(k - s).last() == bs[k - 1]);
        }
    }
    if k <= s + 1 {
        let (_, empty) = path.split_at(b.len());
        assert(empty.spec_bytes() =~= Seq::<u8>::empty());
        return empty;
    }
    proof {
        lemma_boundary_after_ascii(bs, k as int);
    }
    let (_, rest) = path.split_at(k);
    let ghost rb = rest.spec_bytes();
    proof {
        vstd::utf8::encode_utf8_valid_utf8(rest@);
        vstd::utf8::is_char_boundary_start_end_of_seq(rb);
        if e < bs.len() {
            assert(rb[e - k] == bs[e as int]);
            vstd::utf8::is_char_boundary_iff_not_is_continuation_byte(rb, e - k);
        } else {
            assert(rb.len() == e - k);
        }
    }
    let (ext, _) = rest.split_at(e - k);
    assert(ext.spec_bytes() =~= f.subrange(k - s, f.len() as int));
    ext
}

/// Guesses the media type of a file by the extension of its path,
/// `application/octet-stream` when the extension is unknown or missing.
pub fn guess_mime_type(path: &str) -> (r: String)
    ensures
        r@ == mime_type_for(path@),
{
    let ext = file_extension(path);
    proof {
        vstd::utf8::encode_utf8_decode_utf8(ext@);
    }
    guess_mime_type_for_extension(ext)
}

} // verus!

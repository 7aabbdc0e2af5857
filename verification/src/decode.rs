use vstd::prelude::*;
use vstd::utf8::*;

verus! {

/// The value of an ASCII hexadecimal digit, either case.
pub open spec fn hex_digit_value(b: u8) -> Option<u8> {
    if 48 <= b <= 57 {
        Some((b - 48) as u8)
    } else if 97 <= b <= 102 {
        Some((b - 87) as u8)
    } else if 65 <= b <= 70 {
        Some((b - 55) as u8)
    } else {
        None
    }
}

/// The byte that the two bytes after a `%` stand for: both read together as an
/// unsigned base-16 number, where the first may also be a plus sign.
pub open spec fn escape_value(hi: u8, lo: u8) -> Option<u8> {
    if hi == 43 {
        hex_digit_value(lo)
    } else {
        match (hex_digit_value(hi), hex_digit_value(lo)) {
            (Some(h), Some(l)) => Some((h * 16 + l) as u8),
            _ => None,
        }
    }
}

/// Replaces each `%` followed by two bytes that form an escape by the byte it
/// stands for; every other byte is kept as it is.
pub open spec fn percent_decode(s: Seq<u8>) -> Seq<u8>
    decreases s.len(),
{
    if s.len() == 0 {
        seq![]
    } else if s[0] == 37 && s.len() > 2 && escape_value(s[1], s[2]) is Some {
        seq![escape_value(s[1], s[2])->0] + percent_decode(s.skip(3))
    } else {
        seq![s[0]] + percent_decode(s.skip(1))
    }
}

/// The text that `url_decode` gives for `s`: the percent-decoded bytes when they
/// form UTF-8, else `s` unchanged.
pub open spec fn spec_url_decode(s: Seq<char>) -> Seq<char> {
    let decoded = percent_decode(encode_utf8(s));
    if valid_utf8(decoded) {
        decode_utf8(decoded)
    } else {
        s
    }
}

/// An ASCII byte occurs in the UTF-8 encoding of a character, and then as its
/// first byte, exactly when it encodes that very character.
pub proof fn lemma_encoded_scalar_ascii(ch: char, b: u8)
    requires
        b < 128,
    ensures
        encode_scalar(ch as u32).contains(b) <==> ch == b as char,
        encode_scalar(ch as u32)[0] == b <==> ch == b as char,
{
    broadcast use vstd::utf8::char_u32_cast;

    let c = ch as u32;
    let head = encode_scalar(c);
    assert(((b as char) as u32) == b as u32);
    vstd::utf8::char_u32_cast(b as char, b as u32);
    if has_width_1_encoding(c) {
        assert(leading_byte_width_1(c) as u32 == c) by (bit_vector)
            requires
                c <= 0x7f,
        ;
        assert(head[0] == leading_byte_width_1(c));
        if head.contains(b) {
            assert(c == b as u32);
            vstd::utf8::char_u32_cast(ch, c);
        }
        if ch == b as char {
            assert(head[0] == b);
        }
    } else {
        assert(0xC0 | ((c >> 6) & 0x1F) as u8 >= 0x80) by (bit_vector);
        assert(0xE0 | ((c >> 12) & 0x0F) as u8 >= 0x80) by (bit_vector);
        assert(0xF0 | ((c >> 18) & 0x7) as u8 >= 0x80) by (bit_vector);
        assert(0x80 | (c & 0x3F) as u8 >= 0x80) by (bit_vector);
        assert(0x80 | ((c >> 6) & 0x3F) as u8 >= 0x80) by (bit_vector);
        assert(0x80 | ((c >> 12) & 0x3F) as u8 >= 0x80) by (bit_vector);
        assert(!head.contains(b));
        if ch == b as char {
            assert(c == b as u32);
        }
    }
}

/// An ASCII byte begins the UTF-8 encoding of a non-empty text exactly when the
/// text begins with the character it encodes.
pub proof fn lemma_encoded_first_ascii(s: Seq<char>, b: u8)
    requires
        b < 128,
        s.len() > 0,
    ensures
        encode_utf8(s)[0] == b <==> s[0] == b as char,
{
    lemma_encoded_scalar_ascii(s[0], b);
    char_is_scalar(s[0]);
    assert(encode_utf8(s)[0] == encode_scalar(s[0] as u32)[0]);
}

/// An ASCII byte occurs in the UTF-8 encoding of a text exactly when the
/// character it encodes occurs in the text.
pub proof fn lemma_encoded_ascii_byte(s: Seq<char>, b: u8)
    requires
        b < 128,
    ensures
        encode_utf8(s).contains(b) <==> s.contains(b as char),
    decreases s.len(),
{
    if s.len() > 0 {
        let head = encode_scalar(s[0] as u32);
        let tail = encode_utf8(s.drop_first());
        lemma_encoded_ascii_byte(s.drop_first(), b);
        lemma_encoded_scalar_ascii(s[0], b);
        assert(encode_utf8(s) == head + tail);
        if s.contains(b as char) {
            let k = choose|k: int| 0 <= k < s.len() && s[k] == b as char;
            if k > 0 {
                assert(s.drop_first()[k - 1] == b as char);
            }
        }
        if s.drop_first().contains(b as char) {
            let k = choose|k: int| 0 <= k < s.drop_first().len() && s.drop_first()[k] == b as char;
            assert(s[k + 1] == b as char);
        }
        if encode_utf8(s).contains(b) {
            let k = choose|k: int| 0 <= k < encode_utf8(s).len() && encode_utf8(s)[k] == b;
            if k >= head.len() {
                assert(tail[k - head.len()] == b);
            } else {
                assert(head[k] == b);
            }
        }
        if tail.contains(b) {
            let k = choose|k: int| 0 <= k < tail.len() && tail[k] == b;
            assert(encode_utf8(s)[k + head.len()] == b);
        }
        if head.contains(b) {
            let k = choose|k: int| 0 <= k < head.len() && head[k] == b;
            assert(encode_utf8(s)[k] == b);
        }
        if s[0] == b as char {
            assert(s.contains(b as char));
        }
    }
}

/// Bytes that hold no `%` are left unchanged by percent-decoding.
pub proof fn lemma_percent_decode_no_escape(s: Seq<u8>)
    requires
        !s.contains(37u8),
    ensures
        percent_decode(s) == s,
    decreases s.len(),
{
    if s.len() > 0 {
        assert(!s.skip(1).contains(37u8)) by {
            if s.skip(1).contains(37u8) {
                let k = choose|k: int| 0 <= k < s.skip(1).len() && s.skip(1)[k] == 37u8;
                assert(s[k + 1] == 37u8);
            }
        }
        lemma_percent_decode_no_escape(s.skip(1));
        assert(s =~= seq![s[0]] + s.skip(1));
    }
}

/// A path without `%` is given back unchanged by `url_decode`.
pub proof fn url_decode_without_escapes_is_identity(s: Seq<char>)
    requires
        !s.contains('%'),
    ensures
        spec_url_decode(s) == s,
{
    lemma_encoded_ascii_byte(s, 37u8);
    assert((37u8 as char) == '%');
    lemma_percent_decode_no_escape(encode_utf8(s));
    encode_utf8_valid_utf8(s);
    encode_utf8_decode_utf8(s);
}

/// The ASCII hexadecimal digit for a value below 16, in upper or lower case.
pub open spec fn hex_char(n: u8, upper: bool) -> u8 {
    if n < 10 {
        (48 + n) as u8
    } else if upper {
        (55 + n) as u8
    } else {
        (87 + n) as u8
    }
}

/// Every byte written as `%` and its two hexadecimal digits, in either case.
pub open spec fn percent_encode(s: Seq<u8>, upper: bool) -> Seq<u8>
    decreases s.len(),
{
    if s.len() == 0 {
        seq![]
    } else {
        seq![37u8, hex_char(s[0] / 16, upper), hex_char(s[0] % 16, upper)] + percent_encode(
            s.skip(1),
            upper,
        )
    }
}

/// The two hexadecimal digits of any byte, in either case, read after a `%`
/// give that byte back: no byte value is left undecoded.
pub proof fn escapes_decode_every_byte(b: u8, upper: bool)
    ensures
        escape_value(hex_char(b / 16, upper), hex_char(b % 16, upper)) == Some(b),
        percent_decode(seq![37u8, hex_char(b / 16, upper), hex_char(b % 16, upper)]) == seq![b],
{
    let hi = hex_char(b / 16, upper);
    let lo = hex_char(b % 16, upper);
    assert(hex_digit_value(hi) == Some(b / 16));
    assert(hex_digit_value(lo) == Some(b % 16));
    assert(hi != 43);
    assert((b / 16) * 16 + b % 16 == b);
    let t = seq![37u8, hi, lo];
    assert(t.skip(3) =~= Seq::<u8>::empty());
    assert(percent_decode(t.skip(3)) =~= Seq::<u8>::empty());
    assert(percent_decode(t) =~= seq![b]);
}

/// Percent-decoding undoes percent-encoding: a byte string with every byte
/// written as `%` and two hexadecimal digits decodes to itself.
pub proof fn percent_decode_inverts_encoding(s: Seq<u8>, upper: bool)
    ensures
        percent_decode(percent_encode(s, upper)) == s,
    decreases s.len(),
{
    if s.len() > 0 {
        let e = percent_encode(s, upper);
        escapes_decode_every_byte(s[0], upper);
        percent_decode_inverts_encoding(s.skip(1), upper);
        assert(e.skip(3) =~= percent_encode(s.skip(1), upper));
        assert(e[0] == 37u8 && e[1] == hex_char(s[0] / 16, upper) && e[2] == hex_char(
            s[0] % 16,
            upper,
        ));
        assert(s =~= seq![s[0]] + s.skip(1));
    }
}

fn hex_digit(b: u8) -> (r: Option<u8>)
    ensures
        r == hex_digit_value(b),
{
    if 48 <= b && b <= 57 {
        Some(b - 48)
    } else if 97 <= b && b <= 102 {
        Some(b - 87)
    } else if 65 <= b && b <= 70 {
        Some(b - 55)
    } else {
        None
    }
}

/// Reads the two bytes after a `%` as the byte they stand for, if they do.
pub fn escape(hi: u8, lo: u8) -> (r: Option<u8>)
    ensures
        r == escape_value(hi, lo),
{
    if hi == 43 {
        hex_digit(lo)
    } else {
        match (hex_digit(hi), hex_digit(lo)) {
            (Some(h), Some(l)) => Some(h * 16 + l),
            _ => None,
        }
    }
}

/// Percent-decodes a byte string.
pub fn percent_decode_bytes(s: &[u8]) -> (r: Vec<u8>)
    ensures
        r@ == percent_decode(s@),
{
    let mut out: Vec<u8> = Vec::new();
    let mut i: usize = 0;
    assert(s@.skip(0) =~= s@);
    while i < s.len()
        invariant
            i <= s@.len(),
            s@.len() == s.len(),
            out@ + percent_decode(s@.skip(i as int)) == percent_decode(s@),
        decreases s@.len() - i,
    {
        let ghost rest = s@.skip(i as int);
        let mut value: Option<u8> = None;
        if s[i] == 37 && s.len() - i > 2 {
            value = escape(s[i + 1], s[i + 2]);
        }
        match value {
            Some(v) => {
                assert(rest.skip(3) =~= s@.skip(i + 3));
                out.push(v);
                proof {
                    assert(percent_decode(rest) == seq![v] + percent_decode(rest.skip(3)));
                    assert(out@ =~= (out@.drop_last() + seq![v]));
                }
                assert(out@ + percent_decode(s@.skip(i + 3)) =~= percent_decode(s@));
                i = i + 3;
            },
            None => {
                assert(rest.skip(1) =~= s@.skip(i + 1));
                let b = s[i];
                out.push(b);
                proof {
                    assert(percent_decode(rest) == seq![b] + percent_decode(rest.skip(1)));
                }
                assert(out@ + percent_decode(s@.skip(i + 1)) =~= percent_decode(s@));
                i = i + 1;
            },
        }
    }
    assert(percent_decode(s@.skip(i as int)) =~= Seq::<u8>::empty());
    assert(out@ =~= out@ + Seq::<u8>::empty());
    out
}

/// Builds a `String` from bytes when they are UTF-8 (`String::from_utf8`).
/// Claims what the standard library documents: the bytes are accepted exactly
/// when they form valid UTF-8, and the string then holds the characters they
/// encode.
#[verifier::external_body]
fn string_from_utf8(bytes: Vec<u8>) -> (r: Option<String>)
    ensures
        r is Some <==> valid_utf8(bytes@),
        r matches Some(t) ==> t@ == decode_utf8(bytes@),
{
    String::from_utf8(bytes).ok()
}

/// Decodes percent escapes in a URL path. When the decoded bytes are not
/// UTF-8, the path is given back unchanged.
pub fn url_decode(s: &str) -> (r: String)
    ensures
        r@ == spec_url_decode(s@),
{
    let decoded = percent_decode_bytes(s.as_bytes());
    match string_from_utf8(decoded) {
        Some(t) => t,
        None => s.to_owned(),
    }
}

} // verus!

use leptos_wasi::decode::percent_decode_bytes;
use leptos_wasi::url_decode;

#[test]
fn decodes_an_escaped_space() {
    assert_eq!(url_decode("my%20file.css"), "my file.css");
}

#[test]
fn decodes_multibyte_escapes() {
    assert_eq!(url_decode("caf%C3%A9.txt"), "café.txt");
    assert_eq!(url_decode("%e2%82%ac"), "€");
}

#[test]
fn keeps_text_without_escapes() {
    assert_eq!(url_decode("assets/icons/logo.svg"), "assets/icons/logo.svg");
    assert_eq!(url_decode(""), "");
    assert_eq!(url_decode("déjà vu"), "déjà vu");
}

#[test]
fn keeps_incomplete_or_invalid_escapes() {
    assert_eq!(url_decode("100%"), "100%");
    assert_eq!(url_decode("a%2"), "a%2");
    assert_eq!(url_decode("%zz"), "%zz");
    assert_eq!(url_decode("%-1x"), "%-1x");
}

#[test]
fn an_escape_needs_a_byte_after_its_two_digits() {
    // A `%` is only read as an escape when at least two bytes follow it,
    // so an escape at the very end is still decoded.
    assert_eq!(url_decode("a%41"), "aA");
    assert_eq!(url_decode("%41%"), "A%");
}

#[test]
fn reads_a_plus_sign_as_the_high_digit_of_a_number() {
    assert_eq!(url_decode("%+a"), "\n");
    assert_eq!(url_decode("%+41"), "\u{4}1");
}

#[test]
fn falls_back_when_the_decoded_bytes_are_not_utf8() {
    assert_eq!(url_decode("%e9t%e9"), "%e9t%e9");
    assert_eq!(url_decode("%ff"), "%ff");
}

#[test]
fn decodes_traversal_escapes_so_they_can_be_refused() {
    assert_eq!(url_decode("%2e%2e/secret"), "../secret");
    assert_eq!(url_decode("a%5Cb"), "a\\b");
}

#[test]
fn percent_decoding_works_on_bytes() {
    assert_eq!(percent_decode_bytes(b"a%20b%2"), b"a b%2".to_vec());
    assert_eq!(percent_decode_bytes(b"%ff%FF"), vec![255u8, 255u8]);
    assert_eq!(percent_decode_bytes(b""), Vec::<u8>::new());
}


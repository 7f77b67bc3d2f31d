use forum::base36::{decode36, encode36};
use forum::slug::slugify;

#[test]
fn encode_zero() {
    assert_eq!(encode36(0), "0");
}

#[test]
fn encode_single_digits() {
    assert_eq!(encode36(9), "9");
    assert_eq!(encode36(10), "a");
    assert_eq!(encode36(35), "z");
}

#[test]
fn encode_carries() {
    assert_eq!(encode36(36), "10");
    assert_eq!(encode36(36 * 36), "100");
    assert_eq!(encode36(1295), "zz");
    assert_eq!(encode36(12345), "9ix");
}

#[test]
fn decode_simple() {
    assert_eq!(decode36("0"), Some(0));
    assert_eq!(decode36("z"), Some(35));
    assert_eq!(decode36("10"), Some(36));
    assert_eq!(decode36("9ix"), Some(12345));
}

#[test]
fn decode_accepts_upper_case() {
    assert_eq!(decode36("Z"), Some(35));
    assert_eq!(decode36("9IX"), Some(12345));
}

#[test]
fn decode_rejects_empty_and_bad_digits() {
    assert_eq!(decode36(""), None);
    assert_eq!(decode36("-1"), None);
    assert_eq!(decode36("a b"), None);
    assert_eq!(decode36("!"), None);
}

#[test]
fn decode_rejects_overflow() {
    assert_eq!(decode36("1y2p0ij32e8e7"), Some(i64::MAX));
    assert_eq!(decode36("1y2p0ij32e8e8"), None);
    assert_eq!(decode36("zzzzzzzzzzzzzzzz"), None);
}

#[test]
fn round_trip_samples() {
    for n in [0i64, 1, 35, 36, 1295, 1296, 123456789, i64::MAX] {
        assert_eq!(decode36(&encode36(n)), Some(n));
    }
}

#[test]
fn slugify_title_with_punctuation() {
    assert_eq!(slugify("Hello, World!"), "hello-world");
}

#[test]
fn slugify_strips_quotes_inside_words() {
    assert_eq!(slugify("Don't Stop"), "dont-stop");
    assert_eq!(slugify("\"Quoted\" words"), "quoted-words");
}

#[test]
fn slugify_quote_only_word_leaves_empty_segment() {
    assert_eq!(slugify("a '' b"), "a--b");
}

#[test]
fn slugify_collapses_separators() {
    assert_eq!(slugify("  many   spaces\tand: punct.  "), "many-spaces-and-punct");
}

#[test]
fn slugify_lowers_ascii_only() {
    assert_eq!(slugify("MiXeD CaSe 123"), "mixed-case-123");
    assert_eq!(slugify("Éa B"), "Éa-b");
}

#[test]
fn slugify_empty_and_all_separators() {
    assert_eq!(slugify(""), "");
    assert_eq!(slugify("!!! ???"), "");
}

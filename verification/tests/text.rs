use dynomite_derive::text::{decimal_string, hexadecimal_string, string_literal};

fn value_of(literal: &str) -> String {
    syn::parse_str::<syn::LitStr>(literal).expect("a string literal").value()
}

#[test]
fn decimal_of_small_numbers() {
    assert_eq!(decimal_string(0), "0");
    assert_eq!(decimal_string(7), "7");
    assert_eq!(decimal_string(9), "9");
}

#[test]
fn decimal_of_longer_numbers() {
    assert_eq!(decimal_string(10), "10");
    assert_eq!(decimal_string(101), "101");
    assert_eq!(decimal_string(12345), "12345");
    assert_eq!(decimal_string(4294967295), "4294967295");
}

#[test]
fn decimal_of_the_largest_number() {
    assert_eq!(decimal_string(usize::MAX), format!("{}", usize::MAX));
}

#[test]
fn hexadecimal_is_lower_case_without_padding() {
    assert_eq!(hexadecimal_string(0), "0");
    assert_eq!(hexadecimal_string(10), "a");
    assert_eq!(hexadecimal_string(16), "10");
    assert_eq!(hexadecimal_string(0x1f600), "1f600");
    assert_eq!(hexadecimal_string(u32::MAX), "ffffffff");
}

#[test]
fn literal_of_a_plain_name() {
    assert_eq!(string_literal("actualName"), "\"actualName\"");
    assert_eq!(string_literal(""), "\"\"");
    assert_eq!(string_literal("a b~!"), "\"a b~!\"");
}

#[test]
fn literal_escapes_quote_and_backslash() {
    assert_eq!(string_literal("a\"b"), "\"a\\u{22}b\"");
    assert_eq!(string_literal("a\\b"), "\"a\\u{5c}b\"");
}

#[test]
fn literal_escapes_what_is_not_printable_ascii() {
    assert_eq!(string_literal("\n"), "\"\\u{a}\"");
    assert_eq!(string_literal("\u{7f}"), "\"\\u{7f}\"");
    assert_eq!(string_literal("é"), "\"\\u{e9}\"");
    assert_eq!(string_literal("😀"), "\"\\u{1f600}\"");
}

#[test]
fn literal_denotes_the_string_it_was_made_of() {
    let samples = vec![
        "",
        "id",
        "actualName",
        "with space",
        "quote\"inside",
        "back\\slash",
        "tab\tnew\nline\r",
        "nul\0char",
        "ünïcödé",
        "日本語",
        "😀 mixed \" \\ {} }{",
        "\u{10ffff}",
    ];
    for s in samples {
        assert_eq!(value_of(&string_literal(s)), s);
    }
}

use modality_ros_hook::text::{
    bytes_to_hex, concatenate, has_prefix, i128_to_decimal, join, normalize_string_for_attr_key,
    replace_char, split_non_alphanumeric, str_eq, strip_all_leading,
    strip_one_leading, trim, u128_to_decimal,
};

#[test]
fn normalize_replaces_punctuation_and_lowercases() {
    assert_eq!(normalize_string_for_attr_key("Foo Bar!".to_string()), "foo_bar");
    assert_eq!(normalize_string_for_attr_key("CPU Load (%)".to_string()), "cpu_load");
    assert_eq!(normalize_string_for_attr_key("a  b".to_string()), "a_b");
    assert_eq!(normalize_string_for_attr_key(" Hello, World! ".to_string()), "hello_world");
    assert_eq!(normalize_string_for_attr_key("already_ok".to_string()), "already_ok");
    assert_eq!(normalize_string_for_attr_key("--".to_string()), "");
    assert_eq!(normalize_string_for_attr_key("".to_string()), "");
}

#[test]
fn normalize_is_idempotent_on_examples() {
    for s in ["Foo Bar!", " Hello, World! ", "x__y", "CPU Load (%)"] {
        let once = normalize_string_for_attr_key(s.to_string());
        assert_eq!(normalize_string_for_attr_key(once.clone()), once);
    }
}

#[test]
fn normalize_keeps_unicode_letters() {
    assert_eq!(normalize_string_for_attr_key("Temp Ünit".to_string()), "temp_ünit");
}

#[test]
fn split_keeps_empty_pieces() {
    assert_eq!(split_non_alphanumeric("a--b"), vec!["a", "", "b"]);
    assert_eq!(split_non_alphanumeric(""), vec![""]);
    assert_eq!(split_non_alphanumeric("x."), vec!["x", ""]);
}

#[test]
fn decimal_rendering() {
    assert_eq!(u128_to_decimal(0), "0");
    assert_eq!(u128_to_decimal(1234567890), "1234567890");
    assert_eq!(u128_to_decimal(u128::MAX), u128::MAX.to_string());
    assert_eq!(i128_to_decimal(-42), "-42");
    assert_eq!(i128_to_decimal(i128::MIN), i128::MIN.to_string());
    assert_eq!(i128_to_decimal(7), "7");
}

#[test]
fn hex_rendering_two_digits_per_byte() {
    assert_eq!(bytes_to_hex(&[0x00, 0x0f, 0xa0, 0xff]), "000fa0ff");
    assert_eq!(bytes_to_hex(&[]), "");
    let gid = [0xabu8; 24];
    assert_eq!(bytes_to_hex(&gid).len(), 48);
}

#[test]
fn joining_and_concatenation() {
    let parts = vec!["velocity".to_string(), "x".to_string()];
    assert_eq!(join(&parts, "."), "velocity.x");
    assert_eq!(join(&vec![], "."), "");
    assert_eq!(join(&vec!["one".to_string()], "."), "one");
    assert_eq!(concatenate("event.", "name"), "event.name");
}

#[test]
fn stripping_leading_characters() {
    assert_eq!(strip_one_leading("//a/b", '/'), "/a/b");
    assert_eq!(strip_all_leading("//a/b", '/'), "a/b");
    assert_eq!(strip_all_leading("a/b", '/'), "a/b");
    assert_eq!(strip_all_leading("///", '/'), "");
    assert_eq!(replace_char("a/b/c", '/', '.'), "a.b.c");
}

#[test]
fn trimming_whitespace() {
    assert_eq!(trim("  /chatter \t\n"), "/chatter");
    assert_eq!(trim(""), "");
    assert_eq!(trim(" \u{2003}x\u{2003} "), "x");
}

#[test]
fn comparisons() {
    assert!(str_eq("abc", "abc"));
    assert!(!str_eq("abc", "abd"));
    assert!(has_prefix("event.name", "event."));
    assert!(!has_prefix("even", "event."));
}

#[test]
fn normalized_keys_hold_lowercase_letters_digits_and_single_underscores() {
    for s in ["Foo Bar!", "__A__B__", "x1-Y2", "(%)", "  Mixed CASE  words 42 "] {
        let k = normalize_string_for_attr_key(s.to_string());
        assert!(k.chars().all(|c| c.is_ascii_lowercase() || c.is_ascii_digit() || c == '_'));
        assert!(!k.starts_with('_') && !k.ends_with('_') && !k.contains("__"));
        assert_eq!(normalize_string_for_attr_key(k.clone()), k);
    }
    assert_eq!(normalize_string_for_attr_key("__A__B__".to_string()), "a_b");
    assert_eq!(normalize_string_for_attr_key("  Mixed CASE  words 42 ".to_string()), "mixed_case_words_42");
}

#[test]
fn trimming_uses_every_unicode_whitespace() {
    assert_eq!(trim("\u{3000}\u{85}\u{a0}x y\u{2028}\u{202f}\u{205f}\u{1680}\u{b}\u{c}"), "x y");
    assert_eq!(trim("\u{200b}x"), "\u{200b}x");
}

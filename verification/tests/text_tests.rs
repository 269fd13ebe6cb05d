use openrouter_models::text::{char_is_whitespace, is_blank_str, lowercase_equals};

#[test]
fn white_space_test_agrees_with_std_on_every_char() {
    for u in 0u32..=0x10FFFF {
        if let Some(c) = char::from_u32(u) {
            assert_eq!(char_is_whitespace(c), c.is_whitespace(), "code point {u:#x}");
        }
    }
}

#[test]
fn blank_means_trim_is_empty() {
    for s in ["", " ", "\t\n", "\u{3000}", " a ", "x", "\u{200b}"] {
        assert_eq!(is_blank_str(s), s.trim().is_empty(), "{s:?}");
    }
}

#[test]
fn lowercase_equals_agrees_with_to_ascii_lowercase() {
    for (value, target) in [("TEXT", "text"), ("Image", "image"), ("ÄB", "äb"), ("tex", "text")] {
        assert_eq!(lowercase_equals(value, target), value.to_ascii_lowercase() == target);
    }
}

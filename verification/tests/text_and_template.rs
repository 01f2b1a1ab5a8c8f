use herdr_title::spinner::{is_spinner_glyph, strip_leading_spinner};
use herdr_title::template::substitute_window_title_tokens;
use herdr_title::text::{chars_of, is_whitespace, join_spaced, trim, trim_start};

#[test]
fn whitespace_agrees_with_the_standard_library_on_every_character() {
    for c in '\u{0}'..=char::MAX {
        assert_eq!(is_whitespace(c), c.is_whitespace(), "{:?}", c);
    }
}

#[test]
fn trimming_agrees_with_the_standard_library() {
    for s in [
        "",
        " ",
        "\t\r\n",
        "a",
        " a",
        "a ",
        "\u{3000}a b\u{a0}",
        "\u{200b}a\u{200b}",
        "  … — ·  ",
        "\u{85}\u{1680}x\u{2028}\u{2029}\u{202f}\u{205f}",
    ] {
        assert_eq!(trim(s), s.trim());
        assert_eq!(trim_start(s), s.trim_start());
    }
}

#[test]
fn characters_are_scalar_values() {
    assert_eq!(chars_of("a⠹…"), vec!['a', '⠹', '…']);
    assert_eq!(chars_of(""), Vec::<char>::new());
}

#[test]
fn joining_agrees_with_the_standard_library() {
    let lists: [&[&str]; 6] = [&[], &[""], &["⠹"], &["⠹", "●"], &["", ""], &["a", "", "b"]];
    for parts in lists {
        assert_eq!(join_spaced(parts), parts.join(" "));
    }
}

#[test]
fn spinner_glyphs_are_braille_and_ten_stars() {
    let mut glyphs = 0;
    for c in '\u{0}'..=char::MAX {
        if is_spinner_glyph(c) {
            glyphs += 1;
            assert!(!c.is_whitespace());
        }
    }
    assert_eq!(glyphs, 256 + 10);
    for c in ['\u{2800}', '\u{28ff}', '✶', '✳', '✻', '✽', '✢', '✥', '✦', '✧', '❋', '❂'] {
        assert!(is_spinner_glyph(c));
    }
    for c in ['\u{27ff}', '\u{2900}', '*', '●', '✓', ' ', 'a'] {
        assert!(!is_spinner_glyph(c));
    }
}

#[test]
fn only_one_spinner_is_stripped() {
    assert_eq!(strip_leading_spinner("⠐ ⠹ twice"), "⠹ twice");
    assert_eq!(strip_leading_spinner("⠐⠹"), "⠹");
    assert_eq!(strip_leading_spinner("⠐"), "");
    assert_eq!(strip_leading_spinner("⠐   "), "");
    assert_eq!(strip_leading_spinner(""), "");
    assert_eq!(strip_leading_spinner("   "), "");
    assert_eq!(strip_leading_spinner("text ⠐"), "text ⠐");
    assert_eq!(strip_leading_spinner(" trailing kept "), "trailing kept ");
    assert_eq!(strip_leading_spinner("✻tight"), "tight");
}

#[test]
fn braces_that_form_no_known_token_are_kept() {
    for format in ["", "plain", "}", "{", "{}", "a{b", "}{", "{workspace", "{ tab }", "{Tab}", "{{"] {
        assert_eq!(substitute_window_title_tokens(format, "W", "T"), format);
    }
}

#[test]
fn a_token_reaches_to_the_next_closing_brace() {
    assert_eq!(
        substitute_window_title_tokens("{a {workspace} {tab}", "W", "T"),
        "{a {workspace} T"
    );
    assert_eq!(substitute_window_title_tokens("{{tab}}", "W", "T"), "{{tab}}");
    assert_eq!(substitute_window_title_tokens("{tab}}", "W", "T"), "T}");
    assert_eq!(substitute_window_title_tokens("{tab} {work", "W", "T"), "T {work");
    assert_eq!(
        substitute_window_title_tokens("{tab}{workspace}{tab}", "W", "T"),
        "TWT"
    );
    assert_eq!(substitute_window_title_tokens("… {tab} —", "W", "⠹"), "… ⠹ —");
}

#[test]
fn substituted_values_are_not_searched() {
    assert_eq!(
        substitute_window_title_tokens("{workspace}/{tab}", "{tab}", "{workspace}"),
        "{tab}/{workspace}"
    );
    assert_eq!(
        substitute_window_title_tokens("{workspace}tab}", "{", "T"),
        "{tab}"
    );
    assert_eq!(substitute_window_title_tokens("{workspace}{tab}", "", ""), "");
}

#[test]
fn tokens_that_stand_for_themselves_change_nothing() {
    for format in ["{workspace}", "x{tab}y{unknown}{", "{{workspace}}", "no tokens"] {
        assert_eq!(
            substitute_window_title_tokens(format, "{workspace}", "{tab}"),
            format
        );
    }
}

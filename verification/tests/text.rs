use amdgpu_settings::info::marks_selected;
use amdgpu_settings::text::{
    bytes_equal, find_marker, holds_byte, lines_of, push_text, text_copy, text_from, trim_bounds,
};

fn trimmed(text: &str) -> &str {
    let (start, end) = trim_bounds(text.as_bytes());
    &text[start..end]
}

#[test]
fn lines_end_at_line_feeds() {
    assert_eq!(lines_of(""), Vec::<String>::new());
    assert_eq!(lines_of("a"), vec!["a"]);
    assert_eq!(lines_of("a\n"), vec!["a"]);
    assert_eq!(lines_of("a\nb"), vec!["a", "b"]);
    assert_eq!(lines_of("a\n\nb\n"), vec!["a", "", "b"]);
    assert_eq!(lines_of("\n"), vec![""]);
    assert_eq!(lines_of("\n\n"), vec!["", ""]);
}

#[test]
fn carriage_return_belongs_to_the_line_ending_only_before_a_line_feed() {
    assert_eq!(lines_of("a\r\nb\r\n"), vec!["a", "b"]);
    assert_eq!(lines_of("a\r"), vec!["a\r"]);
    assert_eq!(lines_of("a\r\r\n"), vec!["a\r"]);
    assert_eq!(lines_of("a\rb\n"), vec!["a\rb"]);
    assert_eq!(lines_of("\r\n"), vec![""]);
}

#[test]
fn lines_agree_with_the_standard_library() {
    let samples = [
        "", "\n", "\r\n", "a", "a\n", "a\r\n", "a\nb", "a\n\n", "\n\na", "é\nü\r\n\u{2028}x\n",
        "GPU#: 0\nPOWER_CAP:\n180000000\n", "x\r", "\r", "\r\r\n\r",
    ];
    for text in samples {
        let expected: Vec<String> = text.lines().map(str::to_string).collect();
        assert_eq!(lines_of(text), expected, "{:?}", text);
    }
}

#[test]
fn white_space_is_trimmed_at_both_ends() {
    assert_eq!(trimmed(""), "");
    assert_eq!(trimmed("   "), "");
    assert_eq!(trimmed("a"), "a");
    assert_eq!(trimmed("  a b \t"), "a b");
    assert_eq!(trimmed("\u{b}\u{c}\r\nx\n"), "x");
    assert_eq!(trimmed("\u{85}\u{a0}x\u{1680}"), "x");
    assert_eq!(trimmed("\u{2000}\u{200a}x\u{2028}\u{2029}\u{202f}\u{205f}\u{3000}"), "x");
}

#[test]
fn what_is_no_white_space_is_kept() {
    assert_eq!(trimmed("\u{200b}x\u{200b}"), "\u{200b}x\u{200b}");
    assert_eq!(trimmed("\u{180e}x"), "\u{180e}x");
    assert_eq!(trimmed("\u{feff}x"), "\u{feff}x");
    assert_eq!(trimmed("\u{1}x\u{7f}"), "\u{1}x\u{7f}");
    assert_eq!(trimmed("é "), "é");
    assert_eq!(trimmed(" \u{2030}"), "\u{2030}");
}

#[test]
fn trimming_agrees_with_the_standard_library() {
    for code in 0u32..0x3100 {
        if let Some(c) = char::from_u32(code) {
            let text = format!("{}x{}", c, c);
            assert_eq!(trimmed(&text), text.trim(), "U+{:04X}", code);
            let text = format!("{}{}", c, c);
            assert_eq!(trimmed(&text), text.trim(), "U+{:04X}", code);
        }
    }
}

#[test]
fn first_marker_is_found() {
    assert_eq!(find_marker(b"500Mhz", 0, b'M'), 3);
    assert_eq!(find_marker(b"500Mhz", 3, b'M'), 3);
    assert_eq!(find_marker(b"500Mhz", 4, b'M'), 6);
    assert_eq!(find_marker(b"MM", 0, b'M'), 0);
    assert_eq!(find_marker(b"MM", 1, b'M'), 1);
    assert_eq!(find_marker(b"500", 0, b'M'), 3);
    assert_eq!(find_marker(b"", 0, b'M'), 0);
}

#[test]
fn byte_strings_are_compared() {
    assert!(bytes_equal(b"", b""));
    assert!(bytes_equal(b"abc", b"abc"));
    assert!(!bytes_equal(b"abc", b"abd"));
    assert!(!bytes_equal(b"abc", b"ab"));
    assert!(!bytes_equal(b"ab", b"abc"));
}

#[test]
fn text_is_copied_and_appended() {
    let mut out = text_from("héllo");
    assert_eq!(out, "héllo");
    assert_eq!(text_copy(&out), "héllo");
    push_text(&mut out, " wörld");
    push_text(&mut out, "");
    assert_eq!(out, "héllo wörld");
}

#[test]
fn selected_profile_line_holds_an_asterisk() {
    assert!(marks_selected("  1 3D_FULL_SCREEN*:"));
    assert!(marks_selected("*"));
    assert!(!marks_selected("  0 BOOTUP_DEFAULT :"));
    assert!(!marks_selected(""));
    assert!(holds_byte("a=b", b'='));
    assert!(!holds_byte("a=b", b'c'));
}

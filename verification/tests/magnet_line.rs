use anirena::format_magnet_line;

#[test]
fn magnet_line_is_clickable_in_interactive_terminals() {
    let magnet = "magnet:?xt=urn:btih:example";

    assert_eq!(
        format_magnet_line(magnet, true),
        "🧲  \x1b]8;;magnet:?xt=urn:btih:example\x1b\\magnet:?xt=urn:btih:example\x1b]8;;\x1b\\"
    );
}

#[test]
fn magnet_line_is_plain_when_output_is_redirected() {
    let magnet = "magnet:?xt=urn:btih:example";

    assert_eq!(
        format_magnet_line(magnet, false),
        "🧲  magnet:?xt=urn:btih:example"
    );
}

#[test]
fn magnet_line_does_not_hyperlink_control_characters() {
    let magnet = "magnet:?xt=urn:btih:example\x1b]8;;https://example.com\n";
    let formatted = format_magnet_line(magnet, true);

    assert_eq!(
        formatted,
        "🧲  magnet:?xt=urn:btih:example]8;;https://example.com"
    );
    assert!(!formatted.contains('\x1b'));
    assert!(!formatted.contains('\n'));
}

#[test]
fn magnet_line_strips_c1_control_characters() {
    let formatted = format_magnet_line("magnet:?a\u{85}b\u{9f}c\u{a0}", false);
    assert_eq!(formatted, "🧲  magnet:?abc\u{a0}");
}

#[test]
fn magnet_line_of_an_empty_magnet_is_the_prefix() {
    assert_eq!(format_magnet_line("", false), "🧲  ");
    assert_eq!(format_magnet_line("", true), "🧲  \x1b]8;;\x1b\\\x1b]8;;\x1b\\");
}

#[test]
fn magnet_line_with_delete_character_is_plain() {
    assert_eq!(format_magnet_line("ab\u{7f}", true), "🧲  ab");
    assert_eq!(format_magnet_line("a~b", true), "🧲  \x1b]8;;a~b\x1b\\a~b\x1b]8;;\x1b\\");
}

use zellaude::config::{config_text, save_config_command};
use zellaude::text::{
    is_blank, is_control, is_whitespace, parse_u32, sanitize_tab_title, shell_escape, trim,
    MAX_TAB_TITLE,
};

fn all_chars() -> Vec<char> {
    let mut chars: Vec<char> = Vec::new();
    let mut n: u32 = 0;
    while n <= 0x10ffff {
        if let Some(c) = char::from_u32(n) {
            chars.push(c);
        }
        n += 1;
    }
    chars
}

#[test]
fn control_codes_are_those_of_std() {
    for c in all_chars() {
        assert_eq!(is_control(c), c.is_control(), "{:?}", c);
    }
}

#[test]
fn white_space_is_that_of_std() {
    for c in all_chars() {
        assert_eq!(is_whitespace(c), c.is_whitespace(), "{:?}", c);
    }
}

#[test]
fn trim_agrees_with_std() {
    let samples = [
        "",
        " ",
        "   ",
        "a",
        " a",
        "a ",
        " a b ",
        "\t\n a\u{a0}b \u{3000}",
        "\u{2003}ü\u{2028}",
        "\u{200b}x\u{200b}",
        "\u{85}é\u{85}",
    ];
    for s in samples {
        assert_eq!(trim(s), s.trim());
        assert_eq!(is_blank(s), s.trim().is_empty());
    }
}

#[test]
fn numbers_are_read_as_std_reads_them() {
    let samples = [
        "", "+", "-", "0", "7", "+7", "-7", "++7", "007", "4294967295", "4294967296",
        "+4294967295", "99999999999999999999999999", "1 ", " 1", "1a", "a1", "1_000", "٣", "0x10",
        "00000000000000000000000000001",
    ];
    for s in samples {
        assert_eq!(parse_u32(s), s.parse::<u32>().ok(), "{:?}", s);
    }
}

#[test]
fn titles_lose_control_codes_and_outer_space() {
    assert_eq!(sanitize_tab_title("  hello \u{7} world\n"), "hello  world");
    assert_eq!(sanitize_tab_title("\u{1b}]0;x\u{7}"), "]0;x");
    assert_eq!(sanitize_tab_title("\u{9b}  \t\r\n "), "");
    assert_eq!(sanitize_tab_title(""), "");
}

#[test]
fn titles_are_trimmed_after_control_codes_are_dropped() {
    assert_eq!(sanitize_tab_title("\u{0} \u{0}x\u{0} \u{0}"), "x");
}

#[test]
fn titles_are_cut_to_forty_characters() {
    let forty = "é".repeat(40);
    assert_eq!(MAX_TAB_TITLE, 40);
    assert_eq!(sanitize_tab_title(&forty), forty);
    assert_eq!(sanitize_tab_title(&format!("{}zz", forty)), forty);
    assert_eq!(sanitize_tab_title(&format!("   {}zz", forty)), forty);
}

#[test]
fn a_cut_can_leave_space_at_the_end() {
    let raw = format!("{} more", "x".repeat(39));
    let once = sanitize_tab_title(&raw);
    assert_eq!(once, format!("{} ", "x".repeat(39)));
    assert_eq!(sanitize_tab_title(&once), "x".repeat(39));
}

#[test]
fn quotes_are_escaped_for_the_shell() {
    assert_eq!(shell_escape(""), "");
    assert_eq!(shell_escape("plain"), "plain");
    assert_eq!(shell_escape("it's"), "it'\\''s");
    assert_eq!(shell_escape("''"), "'\\'''\\''");
    assert_eq!(shell_escape("a\"b\\c$d"), "a\"b\\c$d");
    for s in ["", "it's", "''", "no quotes", "é'ü"] {
        assert_eq!(shell_escape(s), s.replace('\'', "'\\''"));
    }
}

#[test]
fn the_save_command_holds_the_quoted_settings() {
    assert_eq!(
        save_config_command("{\"a\":\"it's\"}"),
        "mkdir -p \"$HOME/.config/zellij/plugins\" && printf '%s' '{\"a\":\"it'\\''s\"}' > \"$HOME/.config/zellij/plugins/zellaude.json\""
    );
}

#[test]
fn the_load_output_is_decoded_and_trimmed() {
    assert_eq!(config_text(b" {\"tab_titles\":true}\n"), "{\"tab_titles\":true}");
    assert_eq!(config_text(b"{}\n"), "{}");
    assert_eq!(config_text(b""), "");
    assert_eq!(config_text("\u{3000}\u{fc}\u{a0}".as_bytes()), "\u{fc}");
}

#[test]
fn malformed_load_output_is_replaced() {
    assert_eq!(config_text(b"  a\xffb\xc3 "), "a\u{fffd}b\u{fffd}");
    let bytes = [0x7b, 0xe2, 0x82, 0x7d, 0x0a];
    assert_eq!(config_text(&bytes), String::from_utf8_lossy(&bytes).trim());
}

use rgbpc::sync::theme_color_from_text;
use rgbpc::theme::parse_theme_color;

#[test]
fn prefers_rgb_over_accent_when_both_exist() {
    let content = "accent = \"#112233\"\nrgb = \"#445566\"\n";
    assert_eq!(parse_theme_color(content), Some("445566".to_string()));
}

#[test]
fn falls_back_to_accent_when_rgb_missing() {
    let content = "accent = \"#112233\"\n";
    assert_eq!(parse_theme_color(content), Some("112233".to_string()));
}

#[test]
fn first_line_of_a_kind_wins_and_malformed_lines_are_skipped() {
    let content = "rgb = \"\"\naccent=a=b\naccent = '#abc'\r\nrgb=\"##00ff00\"\nrgb = \"#111111\"\n";
    assert_eq!(parse_theme_color(content), Some("00ff00".to_string()));
    assert_eq!(parse_theme_color("accent_color = \"#0a0b0c\""), Some("0a0b0c".to_string()));
    assert_eq!(parse_theme_color("foreground = \"#ffffff\"\n"), None);
    assert_eq!(parse_theme_color(""), None);
}

#[test]
fn missing_theme_colour_is_reported() {
    assert_eq!(theme_color_from_text("x = 1\n"), Err("No color found in theme".to_string()));
    assert_eq!(theme_color_from_text("rgb = \"#123456\""), Ok("123456".to_string()));
}

use nezha_cyber::ui::theme::{all_theme_names, get_theme, Color};

#[test]
fn get_theme_cyber_dark_default() {
    let theme = get_theme("default");
    assert_eq!(theme.bg, Color::Rgb(18, 18, 24));
    assert_eq!(theme.accent, Color::Rgb(0, 212, 255));
}

#[test]
fn get_theme_daylight_by_name() {
    let theme = get_theme("daylight");
    assert_eq!(theme.bg, Color::Rgb(245, 245, 250));
    assert_eq!(theme.fg, Color::Rgb(30, 30, 40));
}

#[test]
fn get_theme_light_alias_returns_daylight() {
    let theme = get_theme("light");
    assert_eq!(theme.bg, Color::Rgb(245, 245, 250));
}

#[test]
fn get_theme_unknown_falls_back_to_cyber_dark() {
    let theme = get_theme("nonexistent");
    assert_eq!(theme.bg, Color::Rgb(18, 18, 24));
}

#[test]
fn get_theme_preserves_name_in_return() {
    let theme = get_theme("custom-theme");
    assert_eq!(theme.name, "custom-theme");
}

#[test]
fn get_theme_cyber_dark_has_expected_colors() {
    let theme = get_theme("default");
    assert_eq!(theme.sidebar_bg, Color::Rgb(14, 14, 20));
    assert_eq!(theme.user_msg_color, Color::Rgb(100, 200, 255));
    assert_eq!(theme.assistant_msg_color, Color::Rgb(200, 220, 240));
    assert_eq!(theme.success_color, Color::Rgb(80, 255, 120));
    assert_eq!(theme.warning_color, Color::Rgb(255, 200, 60));
}

#[test]
fn two_themes_have_different_accent_colors() {
    let dark = get_theme("default");
    let light = get_theme("daylight");
    assert_ne!(dark.accent, light.accent);
}

#[test]
fn get_theme_empty_string_returns_cyber_dark() {
    let theme = get_theme("");
    assert_eq!(theme.bg, Color::Rgb(18, 18, 24));
}

#[test]
fn get_theme_dracula() {
    let theme = get_theme("dracula");
    assert_eq!(theme.bg, Color::Rgb(40, 42, 54));
    assert_eq!(theme.accent, Color::Rgb(189, 147, 249));
}

#[test]
fn get_theme_gruvbox() {
    let theme = get_theme("gruvbox");
    assert_eq!(theme.bg, Color::Rgb(40, 40, 40));
    assert_eq!(theme.accent, Color::Rgb(184, 187, 38));
}

#[test]
fn get_theme_solarized_dark() {
    let theme = get_theme("solarized-dark");
    assert_eq!(theme.bg, Color::Rgb(0, 43, 54));
    assert_eq!(theme.accent, Color::Rgb(181, 137, 0));
}

#[test]
fn get_theme_nord() {
    let theme = get_theme("nord");
    assert_eq!(theme.bg, Color::Rgb(46, 52, 64));
    assert_eq!(theme.accent, Color::Rgb(136, 192, 208));
}

#[test]
fn get_theme_monokai() {
    let theme = get_theme("monokai");
    assert_eq!(theme.bg, Color::Rgb(39, 40, 34));
    assert_eq!(theme.accent, Color::Rgb(166, 226, 46));
}

#[test]
fn get_theme_tokyo_night() {
    let theme = get_theme("tokyo-night");
    assert_eq!(theme.bg, Color::Rgb(26, 27, 38));
    assert_eq!(theme.accent, Color::Rgb(122, 162, 247));
}

#[test]
fn get_theme_catppuccin() {
    let theme = get_theme("catppuccin");
    assert_eq!(theme.bg, Color::Rgb(30, 30, 46));
    assert_eq!(theme.accent, Color::Rgb(203, 166, 247));
}

#[test]
fn get_theme_one_dark() {
    let theme = get_theme("one-dark");
    assert_eq!(theme.bg, Color::Rgb(40, 44, 52));
    assert_eq!(theme.accent, Color::Rgb(97, 175, 239));
}

#[test]
fn get_theme_everforest() {
    let theme = get_theme("everforest");
    assert_eq!(theme.bg, Color::Rgb(45, 53, 59));
    assert_eq!(theme.accent, Color::Rgb(167, 192, 128));
}

#[test]
fn all_themes_have_different_backgrounds() {
    let names = [
        "default", "daylight", "dracula", "gruvbox", "solarized-dark",
        "nord", "monokai", "tokyo-night", "catppuccin", "one-dark", "everforest",
    ];
    let mut seen = std::collections::HashSet::new();
    for name in &names {
        let theme = get_theme(name);
        let key = format!("{:?}", theme.bg);
        assert!(seen.insert(key), "主题 {} 的背景色与其他主题重复", name);
    }
}

#[test]
fn all_theme_names_are_valid() {
    for name in all_theme_names() {
        let theme = get_theme(name);
        assert!(!theme.name.is_empty());
    }
}

#[test]
fn cyber_dark_name_selects_default_scheme() {
    let a = get_theme("cyber-dark");
    let b = get_theme("default");
    assert_eq!(a.bg, b.bg);
    assert_eq!(a.border_color, Color::Rgb(50, 50, 70));
    assert_eq!(a.name, "cyber-dark");
}

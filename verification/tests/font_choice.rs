use mado::fonts::{pick_font_family, pick_icon_font, pick_japanese_font, trim_chars};

fn names(list: &[&str]) -> Vec<String> {
    list.iter().map(|name| name.to_string()).collect()
}

#[test]
fn finds_the_configured_family_ignoring_case_and_spaces() {
    let families = names(&["SF Mono", "HackGen Console NF", "Menlo"]);
    assert_eq!(pick_font_family(&families, "hackgen console nf"), Some(1));
    assert_eq!(pick_font_family(&families, "  Menlo\t"), Some(2));
    assert_eq!(pick_font_family(&families, "Courier"), None);
}

#[test]
fn finds_configured_font_case_insensitively() {
    let families = names(&["HackGen Console NF"]);
    assert_eq!(pick_font_family(&families, "hackgen console nf"), Some(0));
}

#[test]
fn prefers_the_earliest_japanese_candidate() {
    let families = names(&["Noto Sans JP", "Arial", "meiryo"]);
    assert_eq!(pick_japanese_font(&families), Some(2));
    assert_eq!(pick_japanese_font(&names(&["Arial"])), None);
}

#[test]
fn falls_back_to_any_nerd_font_for_icons() {
    assert_eq!(pick_icon_font(&names(&["Arial", "Symbols Nerd Font", "HackGen35 Console NF"])), Some(2));
    assert_eq!(pick_icon_font(&names(&["Arial", "Iosevka Nerd Font"])), Some(1));
    assert_eq!(pick_icon_font(&names(&["Arial"])), None);
}

#[test]
fn trims_white_space_on_both_ends() {
    assert_eq!(trim_chars(" \u{3000}a b\n").iter().collect::<String>(), "a b");
    assert!(trim_chars("   ").is_empty());
}

use mado::config::{
    default_config_template, default_font_family, font_family_is_valid, window_size_is_valid,
    WindowTheme, DEFAULT_WINDOW_HEIGHT, DEFAULT_WINDOW_WIDTH,
};
use mado::process::{nvim_not_found_message, LaunchArgument, NvimLaunchOptions};
use mado::ui_protocol::{ensure_linegrid_support, open_file_params, ui_attach_params, LinegridError};
use mado::msgpack::MsgValue;

#[test]
fn default_template_matches_defaults() {
    let parsed: toml::Table = toml::from_str(default_config_template()).unwrap();
    let font = parsed["font"].as_table().unwrap();
    let window = parsed["window"].as_table().unwrap();
    assert_eq!(font["family"].as_str(), Some(default_font_family().as_str()));
    assert_eq!(font["size"].as_float(), Some(15.0));
    assert_eq!(window["width"].as_integer(), Some(i64::from(DEFAULT_WINDOW_WIDTH)));
    assert_eq!(window["height"].as_integer(), Some(i64::from(DEFAULT_WINDOW_HEIGHT)));
    assert_eq!(window["theme"].as_str(), Some("auto"));
    assert_eq!(window["opacity"].as_float(), Some(1.0));
    assert_eq!(window["blur"].as_bool(), Some(false));
    assert_eq!(WindowTheme::default(), WindowTheme::Auto);
}

#[test]
fn accepts_only_safe_window_sizes_and_named_fonts() {
    assert!(window_size_is_valid(DEFAULT_WINDOW_WIDTH, DEFAULT_WINDOW_HEIGHT));
    assert!(!window_size_is_valid(1, 640));
    assert!(!window_size_is_valid(960, 199));
    assert!(window_size_is_valid(16_384, 16_384));
    assert!(!window_size_is_valid(16_385, 640));
    assert!(font_family_is_valid("HackGen Console NF"));
    assert!(!font_family_is_valid(" \t\u{3000}"));
    assert!(!font_family_is_valid(""));
}

#[test]
fn builds_the_embedded_command_line() {
    let plain = NvimLaunchOptions { executable: "nvim", files: vec![], clean: false };
    assert_eq!(plain.arguments(), [LaunchArgument::Embed]);
    let clean = NvimLaunchOptions { executable: "nvim", files: vec!["a.txt", "b.txt"], clean: true };
    assert_eq!(
        clean.arguments(),
        [
            LaunchArgument::Clean,
            LaunchArgument::Embed,
            LaunchArgument::EndOfOptions,
            LaunchArgument::File(0),
            LaunchArgument::File(1),
        ]
    );
    assert_eq!(LaunchArgument::Embed.option_text(), Some("--embed"));
    assert_eq!(LaunchArgument::File(0).option_text(), None);
}

#[test]
fn lists_the_places_searched_for_neovim() {
    let message = nvim_not_found_message(&vec!["/a/nvim".to_string(), "/b/nvim".to_string()]);
    assert_eq!(message, "Neovim was not found. Set MADO_NVIM or add nvim to PATH. Checked: /a/nvim, /b/nvim");
    assert_eq!(
        nvim_not_found_message(&vec![]),
        "Neovim was not found. Set MADO_NVIM or add nvim to PATH. Checked: "
    );
}

#[test]
fn requires_linegrid_support() {
    let metadata = MsgValue::Dict(vec![(
        MsgValue::from_str("ui_options"),
        MsgValue::Array(vec![MsgValue::from_str("rgb"), MsgValue::from_str("ext_linegrid")]),
    )]);
    let info = MsgValue::Array(vec![MsgValue::from_u64(1), metadata]);
    assert_eq!(ensure_linegrid_support(&info), Ok(()));
    let without = MsgValue::Array(vec![MsgValue::from_u64(1), MsgValue::Dict(vec![])]);
    assert_eq!(ensure_linegrid_support(&without), Err(LinegridError::Unsupported));
    assert_eq!(ensure_linegrid_support(&MsgValue::Nil), Err(LinegridError::InvalidMetadata));
}

#[test]
fn builds_attach_and_open_requests() {
    let attach = ui_attach_params(80, 24);
    assert_eq!(attach[0], MsgValue::from_u64(80));
    assert_eq!(attach[1], MsgValue::from_u64(24));
    let params = open_file_params("/tmp/x.md");
    assert_eq!(params.len(), 2);
    assert_eq!(params[1], MsgValue::Dict(vec![]));
}

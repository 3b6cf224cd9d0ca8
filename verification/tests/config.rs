use smol_dfr::config::{
    first_missing_setting, load_config, workspace_colours_would_panic, parse_color_str, parse_hex_color, user_cfg_path, BaseConfigProxy, ConfigProxy,
    ConfigReloadTracker, VolumeConfigProxy, WidgetConfig, WidgetEntry, WorkspacesConfigProxy,
    DEFAULT_FONT_SIZE_BITS,
};

fn entry(text: &str, keys: Vec<u16>) -> WidgetEntry {
    WidgetEntry { action: keys, width: None, color: None, widget: WidgetConfig::Text { text: text.to_string() } }
}

fn empty() -> ConfigProxy {
    ConfigProxy {
        media_layer_default: None,
        show_button_outlines: None,
        font_family: None,
        font_size: None,
        font_style: None,
        adaptive_brightness: None,
        active_brightness: None,
        primary_layer_keys: None,
        media_layer_keys: None,
        workspaces: None,
        volume: None,
    }
}

fn system() -> ConfigProxy {
    ConfigProxy {
        media_layer_default: Some(false),
        show_button_outlines: Some(true),
        font_family: None,
        font_size: None,
        font_style: None,
        adaptive_brightness: Some(false),
        active_brightness: Some(128),
        primary_layer_keys: Some(vec![entry("F1", vec![59])]),
        media_layer_keys: Some(vec![entry("vol", vec![115])]),
        workspaces: None,
        volume: None,
    }
}

fn text_of(e: &WidgetEntry) -> String {
    match &e.widget {
        WidgetConfig::Text { text } => text.clone(),
        _ => "?".to_string(),
    }
}

#[test]
fn colors_parse() {
    assert_eq!(parse_color_str("#FF8800"), Some((255, 136, 0)));
    assert_eq!(parse_color_str("ff8800"), Some((255, 136, 0)));
    assert_eq!(parse_color_str("+F+F+F"), Some((15, 15, 15)));
    assert_eq!(parse_color_str("#FF88"), None);
    assert_eq!(parse_color_str("GG0000"), None);
    assert_eq!(parse_color_str("ééé"), None);
}

#[test]
fn widget_colors_report_errors() {
    assert_eq!(parse_hex_color(None), Ok(None));
    assert_eq!(parse_hex_color(Some("#102030".to_string())), Ok(Some((16, 32, 48))));
    assert_eq!(
        parse_hex_color(Some("12345".to_string())),
        Err("Color must be 6 hex digits, e.g. \"FF8800\"".to_string())
    );
    assert_eq!(
        parse_hex_color(Some("12345x".to_string())),
        Err("invalid digit found in string".to_string())
    );
}

#[test]
fn system_config_alone() {
    let (cfg, layers) = load_config(system(), None, 2008).unwrap();
    assert!(cfg.show_button_outlines);
    assert_eq!(cfg.active_brightness, 128);
    assert_eq!(cfg.font_family, "");
    assert_eq!(cfg.font_size, DEFAULT_FONT_SIZE_BITS);
    assert_eq!(f64::from_bits(cfg.font_size), 20.0);
    assert!(cfg.font_bold && !cfg.font_italic);
    assert_eq!(text_of(&layers[0][0]), "F1");
    assert_eq!(text_of(&layers[1][0]), "vol");
    assert_eq!(layers[0].len(), 1);
}

#[test]
fn user_settings_win_and_media_first() {
    let mut user = empty();
    user.media_layer_default = Some(true);
    user.active_brightness = Some(200);
    user.font_style = Some("Italic  light".to_string());
    user.font_size = Some(14.5f64.to_bits());
    let (cfg, layers) = load_config(system(), Some(user), 2008).unwrap();
    assert_eq!(cfg.active_brightness, 200);
    assert!(!cfg.font_bold && cfg.font_italic);
    assert_eq!(f64::from_bits(cfg.font_size), 14.5);
    assert_eq!(text_of(&layers[0][0]), "vol");
    assert_eq!(text_of(&layers[1][0]), "F1");
}

#[test]
fn wide_bars_get_escape_first() {
    let (_, layers) = load_config(system(), None, 2170).unwrap();
    for layer in &layers {
        assert_eq!(layer.len(), 2);
        assert_eq!(text_of(&layer[0]), "esc");
        assert_eq!(layer[0].action, vec![1]);
    }
    assert_eq!(text_of(&layers[0][1]), "F1");
}

#[test]
fn missing_settings_are_reported_in_order() {
    let mut c = system();
    c.media_layer_keys = None;
    c.active_brightness = None;
    assert_eq!(load_config(c, None, 100).err().unwrap(), "missing MediaLayerKeys in config");
    let mut c = system();
    c.show_button_outlines = None;
    c.active_brightness = None;
    assert_eq!(load_config(c, None, 100).err().unwrap(), "missing ShowButtonOutlines in config");
    let mut c = system();
    c.active_brightness = None;
    assert_eq!(load_config(c, None, 100).err().unwrap(), "missing ActiveBrightness in config");
    let mut c = system();
    c.media_layer_default = None;
    assert_eq!(load_config(c, None, 100).err().unwrap(), "missing MediaLayerDefault in config");
}

#[test]
fn workspace_and_volume_tables() {
    let mut user = empty();
    user.workspaces = Some(WorkspacesConfigProxy {
        provider: Some("niri".to_string()),
        active_color: Some("#00FF00".to_string()),
        urgent_color: Some("nonsense".to_string()),
    });
    user.volume = Some(VolumeConfigProxy { pulse_server: Some("unix:/x".to_string()) });
    let (cfg, _) = load_config(system(), Some(user), 100).unwrap();
    let ws = cfg.workspaces.unwrap();
    assert_eq!(ws.active_color, Some((0, 255, 0)));
    assert_eq!(ws.urgent_color, None);
    assert_eq!(cfg.volume.unwrap().pulse_server.as_deref(), Some("unix:/x"));
}

#[test]
fn legacy_system_file_has_no_layers() {
    let base = BaseConfigProxy {
        media_layer_default: Some(true),
        show_button_outlines: Some(false),
        font_family: Some("Sans".to_string()),
        font_size: None,
        font_style: None,
        adaptive_brightness: Some(true),
        active_brightness: Some(10),
    };
    let c = base.into_config_proxy();
    assert!(c.primary_layer_keys.is_none() && c.media_layer_keys.is_none());
    assert_eq!(load_config(c, None, 100).err().unwrap(), "missing MediaLayerKeys in config");
}

#[test]
fn reload_success_announced_after_failure() {
    let mut t = ConfigReloadTracker::new();
    assert!(!t.record(true));
    assert!(!t.record(false));
    assert!(t.record(true));
    assert!(!t.record(true));
}

#[test]
fn config_paths() {
    assert_eq!(user_cfg_path(true), "config.toml");
    assert_eq!(user_cfg_path(false), "/etc/smol-dfr/config.toml");
}

#[test]
fn missing_setting_reported_before_colours_are_read() {
    let mut c = system();
    c.show_button_outlines = None;
    c.workspaces = Some(WorkspacesConfigProxy {
        provider: None,
        active_color: Some("1\u{e9}345".to_string()),
        urgent_color: None,
    });
    assert_eq!(first_missing_setting(&c).as_deref(), Some("missing ShowButtonOutlines in config"));
    assert_eq!(load_config(c, None, 100).err().unwrap(), "missing ShowButtonOutlines in config");
    assert_eq!(first_missing_setting(&system()), None);
}

#[test]
fn reload_replaces_or_keeps_the_configuration() {
    let (mut cfg, mut layers) = load_config(system(), None, 100).unwrap();
    let mut t = ConfigReloadTracker::new();
    let mut other = system();
    other.active_brightness = Some(7);
    let loaded = load_config(other, None, 100);
    assert_eq!(t.apply(&mut cfg, &mut layers, loaded), (true, false));
    assert_eq!(cfg.active_brightness, 7);
    assert_eq!(t.apply(&mut cfg, &mut layers, Err("bad".to_string())), (false, false));
    assert_eq!(cfg.active_brightness, 7);
    assert_eq!(layers[0].len(), 1);
    let loaded = load_config(system(), None, 100);
    assert_eq!(t.apply(&mut cfg, &mut layers, loaded), (true, true));
    assert_eq!(cfg.active_brightness, 128);
}

#[test]
fn colours_only_read_when_complete() {
    let bad = Some(WorkspacesConfigProxy {
        provider: None,
        active_color: Some("1\u{e9}345".to_string()),
        urgent_color: None,
    });
    let mut c = system();
    c.workspaces = bad;
    assert!(workspace_colours_would_panic(&c, &None));
    let mut user = empty();
    user.workspaces = Some(WorkspacesConfigProxy {
        provider: None,
        active_color: Some("#00FF00".to_string()),
        urgent_color: None,
    });
    assert!(!workspace_colours_would_panic(&c, &Some(user)));
    let mut incomplete = empty();
    incomplete.show_button_outlines = Some(true);
    let mut c2 = system();
    c2.show_button_outlines = None;
    c2.workspaces = Some(WorkspacesConfigProxy {
        provider: None,
        active_color: Some("1\u{e9}345".to_string()),
        urgent_color: None,
    });
    assert!(!workspace_colours_would_panic(&c2, &None));
    assert!(workspace_colours_would_panic(&c2, &Some(incomplete)));
    assert!(!workspace_colours_would_panic(&system(), &None));
}

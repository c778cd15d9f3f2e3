use canviz::config::{
    expand_path, expand_path_with, BackgroundMode, Config, DefaultConfig, MonitorConfig,
    MonitorTable, SortingMethod, TransitionType, WorkspaceConfig,
};

#[test]
fn test_default_config() {
    let config = Config::default();
    assert!(!config.workspaces.enabled);
    assert_eq!(config.default.transition, TransitionType::Fade);
    assert_eq!(config.default.mode, BackgroundMode::Cover);
}

#[test]
fn test_expand_path() {
    let expanded = expand_path("~/Pictures/test.jpg");
    assert!(!expanded.starts_with("~"));
}

#[test]
fn expand_with_home_directory() {
    let home = Some("/home/ada".to_string());
    assert_eq!(expand_path_with("~/Pictures/a.png", &home), "/home/ada/Pictures/a.png");
    assert_eq!(expand_path_with("~", &home), "/home/ada/");
    assert_eq!(expand_path_with("/img/a.png", &home), "/img/a.png");
    assert_eq!(expand_path_with("~user/a.png", &home), "~user/a.png");
    let slash_home = Some("/root/".to_string());
    assert_eq!(expand_path_with("~/a.png", &slash_home), "/root/a.png");
    assert_eq!(expand_path_with("~/a.png", &None), "~/a.png");
}

#[test]
fn default_settings_values() {
    let d = DefaultConfig::default();
    assert!(d.path.is_none());
    assert_eq!(d.transition_time, 300);
    let m = MonitorConfig::default();
    assert_eq!(m.path, "");
    assert_eq!(m.sorting, SortingMethod::Random);
    assert!(m.recursive);
    assert!(m.transition.is_none());
}

#[test]
fn monitor_config_from_defaults() {
    let mut config = Config::default();
    config.default.path = Some("/img/default.png".to_string());
    config.default.transition = TransitionType::Wipe;
    config.default.transition_time = 500;
    let m = config.get_monitor_config("HDMI-A-1");
    assert_eq!(m.path, "/img/default.png");
    assert_eq!(m.transition, Some(TransitionType::Wipe));
    assert_eq!(m.transition_time, Some(500));
    assert_eq!(m.mode, Some(BackgroundMode::Cover));
    let from = MonitorConfig::from_default(&DefaultConfig::default());
    assert_eq!(from.path, "");
    assert_eq!(from.transition_time, Some(300));
}

#[test]
fn monitor_config_own_entry_wins() {
    let mut config = Config::default();
    let mut own = MonitorConfig::default();
    own.path = "/img/dp1.png".to_string();
    own.transition = Some(TransitionType::Instant);
    config.monitors.insert("DP-1".to_string(), own);
    let m = config.get_monitor_config("DP-1");
    assert_eq!(m.path, "/img/dp1.png");
    assert_eq!(m.transition, Some(TransitionType::Instant));
    assert_eq!(config.get_monitor_config("DP-2").path, "");
}

#[test]
fn monitor_table_insert_replaces() {
    let mut table = MonitorTable::new();
    assert!(table.get("DP-1").is_none());
    let mut a = MonitorConfig::default();
    a.path = "/a".to_string();
    table.insert("DP-1".to_string(), a);
    let mut b = MonitorConfig::default();
    b.path = "/b".to_string();
    table.insert("DP-1".to_string(), b);
    assert_eq!(table.get("DP-1").unwrap().path, "/b");
}

#[test]
fn wallpaper_lookup_order() {
    let home = Some("/home/ada".to_string());
    let mut config = Config::default();
    assert_eq!(config.wallpaper_with_home("DP-1", 1, &home), None);
    config.default.path = Some("~/default.png".to_string());
    assert_eq!(
        config.wallpaper_with_home("DP-1", 1, &home),
        Some("/home/ada/default.png".to_string())
    );
    let mut own = MonitorConfig::default();
    own.path = "/img/dp1.png".to_string();
    config.monitors.insert("DP-1".to_string(), own);
    assert_eq!(config.wallpaper_with_home("DP-1", 1, &home), Some("/img/dp1.png".to_string()));
    let mut ws = WorkspaceConfig::default();
    ws.wallpapers.insert(3, "/img/ws3.png".to_string());
    config.workspaces = ws;
    assert_eq!(config.wallpaper_with_home("DP-1", 3, &home), Some("/img/dp1.png".to_string()));
    config.workspaces.enabled = true;
    assert_eq!(config.wallpaper_with_home("DP-1", 3, &home), Some("/img/ws3.png".to_string()));
    assert_eq!(config.wallpaper_with_home("DP-1", 4, &home), Some("/img/dp1.png".to_string()));
    assert_eq!(config.get_wallpaper_for_workspace("DP-1", 3), Some("/img/ws3.png".to_string()));
}

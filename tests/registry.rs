use canviz::config::{Config, MonitorConfig, TransitionType};
use canviz::registry::{resolve_output_name, SurfaceRegistry};
use canviz::surface::Phase;

#[test]
fn unnamed_output_is_unknown() {
    assert_eq!(resolve_output_name(None), "unknown");
    assert_eq!(resolve_output_name(Some("DP-1".to_string())), "DP-1");
}

#[test]
fn add_lookup_and_remove_outputs() {
    let mut config = Config::default();
    let mut own = MonitorConfig::default();
    own.path = "/img/dp1.png".to_string();
    own.transition = Some(TransitionType::Slide);
    config.monitors.insert("DP-1".to_string(), own);
    let mut reg: SurfaceRegistry<u32, &str> = SurfaceRegistry::new();
    let i = reg.add_output("DP-1".to_string(), "handles-1", &config);
    let j = reg.add_output("HDMI-A-1".to_string(), "handles-2", &config);
    assert_eq!(reg.len(), 2);
    assert_eq!(reg.position("DP-1"), Some(i));
    assert_eq!(reg.position("HDMI-A-1"), Some(j));
    assert_eq!(reg.position("eDP-1"), None);
    let e = reg.entry(i);
    assert_eq!(e.handles, "handles-1");
    assert_eq!(e.surface.config().path, "/img/dp1.png");
    assert_eq!(e.surface.phase(), Phase::Unconfigured);
    assert_eq!(reg.entry(j).surface.config().transition, Some(TransitionType::Fade));
    reg.entry_mut(i).surface.configure(1920, 1080);
    assert!(reg.entry(i).surface.is_configured());
    let k = reg.add_output("DP-1".to_string(), "handles-3", &config);
    assert_eq!(reg.len(), 2);
    assert_eq!(reg.entry(k).handles, "handles-3");
    assert!(!reg.entry(k).surface.is_configured());
    assert!(reg.remove_output("DP-1").is_some());
    assert!(reg.remove_output("DP-1").is_none());
    assert_eq!(reg.len(), 1);
    assert_eq!(reg.position("HDMI-A-1"), Some(0));
}

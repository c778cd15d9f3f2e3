use canviz::config::{MonitorConfig, TransitionType};
use canviz::surface::{fallback_color, ConfigurePlan, OutputSurface, Phase, ScalePlan};

fn fade_config(path: &str) -> MonitorConfig {
    let mut c = MonitorConfig::default();
    c.path = path.to_string();
    c.transition = Some(TransitionType::Fade);
    c.transition_time = Some(300);
    c
}

#[test]
fn first_configure_creates_context_and_presents_at_full_progress() {
    let mut s: OutputSurface<u32> = OutputSurface::new("DP-1".to_string(), fade_config("/img/a.png"));
    assert_eq!(s.phase(), Phase::Unconfigured);
    assert_eq!(s.configure(1920, 1080), ConfigurePlan::CreateContext { width: 1920, height: 1080 });
    assert_eq!(s.phase(), Phase::Configuring);
    s.attach_renderer();
    assert!(s.load_wallpaper(1, "/img/a.png".to_string()));
    assert_eq!(s.phase(), Phase::Steady);
    assert_eq!(s.current_wallpaper(), Some(&"/img/a.png".to_string()));
    let delta = s.start_frame(1000).unwrap();
    assert_eq!(delta, 16);
    let plan = s.finish_frame(delta);
    assert_eq!(plan.damage_width, 1920);
    assert_eq!(plan.damage_height, 1080);
    assert!(!plan.request_frame);
    assert_eq!(s.renderer().unwrap().progress(), (300, 300));
}

#[test]
fn set_wallpaper_while_steady_runs_two_frames() {
    let mut s: OutputSurface<u32> = OutputSurface::new("DP-1".to_string(), fade_config("/img/a.png"));
    s.configure(1920, 1080);
    s.attach_renderer();
    s.load_wallpaper(1, "/img/a.png".to_string());
    let d = s.start_frame(1000).unwrap();
    s.finish_frame(d);
    assert!(s.load_wallpaper(2, "/img/b.png".to_string()));
    assert_eq!(s.renderer().unwrap().progress(), (0, 300));
    assert_eq!(s.renderer().unwrap().previous(), Some(&1));
    let d = s.start_frame(1150).unwrap();
    assert_eq!(d, 150);
    assert!(s.finish_frame(d).request_frame);
    assert_eq!(s.renderer().unwrap().progress(), (150, 300));
    let d = s.start_frame(1300).unwrap();
    assert_eq!(d, 150);
    assert!(!s.finish_frame(d).request_frame);
    assert_eq!(s.renderer().unwrap().progress(), (300, 300));
    assert_eq!(s.renderer().unwrap().previous(), None);
    assert_eq!(s.renderer().unwrap().current(), Some(&2));
    assert_eq!(s.current_wallpaper(), Some(&"/img/b.png".to_string()));
}

#[test]
fn same_size_configure_keeps_context() {
    let mut s: OutputSurface<u32> = OutputSurface::new("DP-1".to_string(), fade_config("/img/a.png"));
    s.configure(2560, 1440);
    s.attach_renderer();
    assert_eq!(s.configure(2560, 1440), ConfigurePlan::Keep);
    assert_eq!(s.configure(1280, 720), ConfigurePlan::Resize { width: 1280, height: 720 });
}

#[test]
fn same_scale_is_noop() {
    let mut s: OutputSurface<u32> = OutputSurface::new("DP-1".to_string(), fade_config("/img/a.png"));
    s.configure(1920, 1080);
    s.attach_renderer();
    assert_eq!(s.set_scale_factor(1), ScalePlan::Unchanged);
    assert_eq!(s.set_scale_factor(2), ScalePlan::ResizeAndRedraw { width: 3840, height: 2160 });
    assert_eq!(s.device_size(), (3840, 2160));
    assert_eq!(s.set_scale_factor(2), ScalePlan::Unchanged);
}

#[test]
fn scale_before_configure_only_redraws() {
    let mut s: OutputSurface<u32> = OutputSurface::new("DP-1".to_string(), fade_config("/img/a.png"));
    assert_eq!(s.set_scale_factor(2), ScalePlan::Redraw);
    assert_eq!(s.configure(1920, 1080), ConfigurePlan::CreateContext { width: 3840, height: 2160 });
}

#[test]
fn zero_size_is_clamped_to_fallback() {
    let mut s: OutputSurface<u32> = OutputSurface::new("DP-1".to_string(), fade_config("/img/a.png"));
    assert_eq!(s.configure(0, 0), ConfigurePlan::CreateContext { width: 1920, height: 1080 });
    assert_eq!(s.size(), (1920, 1080));
    s.attach_renderer();
    assert_eq!(s.configure(0, 0), ConfigurePlan::Keep);
}

#[test]
fn failed_initial_load_shows_fallback() {
    let mut s: OutputSurface<u32> = OutputSurface::new("DP-1".to_string(), fade_config("/img/missing.png"));
    s.configure(1920, 1080);
    s.attach_renderer();
    assert!(s.needs_fallback());
    assert_eq!(fallback_color(), (30, 30, 40));
    assert!(s.show_fallback(7));
    assert!(!s.needs_fallback());
    assert_eq!(s.phase(), Phase::Steady);
    assert_eq!(s.current_wallpaper(), None);
    let d = s.start_frame(5).unwrap();
    assert!(!s.finish_frame(d).request_frame);
}

#[test]
fn draw_before_configure_is_skipped() {
    let mut s: OutputSurface<u32> = OutputSurface::new("DP-1".to_string(), fade_config("/img/a.png"));
    assert_eq!(s.start_frame(10), None);
    assert!(!s.load_wallpaper(1, "/img/a.png".to_string()));
    assert!(!s.show_fallback(1));
    s.configure(800, 600);
    assert_eq!(s.start_frame(20), None);
}

#[test]
fn frame_clock_saturates() {
    let mut s: OutputSurface<u32> = OutputSurface::new("DP-1".to_string(), fade_config("/img/a.png"));
    s.configure(800, 600);
    s.attach_renderer();
    assert_eq!(s.start_frame(100), Some(16));
    assert_eq!(s.start_frame(90), Some(0));
    assert_eq!(s.start_frame(90 + 5_000_000_000), Some(u32::MAX));
}

#[test]
fn engine_takes_monitor_settings() {
    let mut c = MonitorConfig::default();
    c.transition = Some(TransitionType::Wipe);
    c.transition_time = Some(120);
    let mut s: OutputSurface<u32> = OutputSurface::new("HDMI-A-1".to_string(), c);
    s.configure(10, 10);
    s.attach_renderer();
    assert_eq!(s.renderer().unwrap().kind(), TransitionType::Wipe);
    s.load_wallpaper(1, "a".to_string());
    s.load_wallpaper(2, "b".to_string());
    assert_eq!(s.renderer().unwrap().progress(), (0, 120));
    let mut plain: OutputSurface<u32> = OutputSurface::new("X".to_string(), MonitorConfig::default());
    plain.configure(10, 10);
    plain.attach_renderer();
    assert_eq!(plain.renderer().unwrap().kind(), TransitionType::Fade);
    plain.load_wallpaper(1, "a".to_string());
    plain.load_wallpaper(2, "b".to_string());
    assert_eq!(plain.renderer().unwrap().progress(), (0, 300));
    assert_eq!(plain.output_name(), "X");
}

#[test]
fn initial_path_expands_or_falls_back() {
    let s: OutputSurface<u32> = OutputSurface::new("DP-1".to_string(), fade_config("~/walls"));
    assert_eq!(s.initial_path_with(&Some("/home/ada".to_string())), Some("/home/ada/walls".to_string()));
    let empty: OutputSurface<u32> = OutputSurface::new("DP-1".to_string(), MonitorConfig::default());
    assert_eq!(empty.initial_path_with(&Some("/home/ada".to_string())), None);
    assert_eq!(empty.initial_path(), None);
}

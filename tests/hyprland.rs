use canviz::hyprland::{parse_event, parse_i32_field};

#[test]
fn parses_workspace_v2_line() {
    let e = parse_event("workspacev2>>3,code").unwrap();
    assert_eq!(e.workspace_id, 3);
    assert_eq!(e.workspace_name, "code");
    assert_eq!(e.monitor, "");
    let e = parse_event("workspacev2>>-98,special:scratch,extra").unwrap();
    assert_eq!(e.workspace_id, -98);
    assert_eq!(e.workspace_name, "special:scratch");
}

#[test]
fn parses_focused_monitor_line() {
    let e = parse_event("focusedmon>>DP-1,5").unwrap();
    assert_eq!(e.workspace_id, 5);
    assert_eq!(e.workspace_name, "");
    assert_eq!(e.monitor, "DP-1");
}

#[test]
fn ignores_other_or_malformed_lines() {
    assert!(parse_event("workspace>>3").is_none());
    assert!(parse_event("workspacev2>>3").is_none());
    assert!(parse_event("workspacev2>>x,code").is_none());
    assert!(parse_event("focusedmon>>DP-1").is_none());
    assert!(parse_event("focusedmon>>DP-1,five").is_none());
    assert!(parse_event("activewindow>>kitty,title").is_none());
    assert!(parse_event("").is_none());
}

#[test]
fn i32_fields_follow_std_parse() {
    for s in ["0", "7", "+7", "-7", "2147483647", "-2147483648", "007", "", "-", "+", "2147483648", "-2147483649", "99999999999", "1 ", " 1", "1a", "--1"] {
        assert_eq!(parse_i32_field(s), s.parse::<i32>().ok(), "field {:?}", s);
    }
}

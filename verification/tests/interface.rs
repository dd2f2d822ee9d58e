use tailscale_nodes::state::{is_search_char, AppState, SearchKey};
use tailscale_nodes::tailscale::{NodeInfo, TailscaleStatus};
use tailscale_nodes::ui::{
    button_background, button_command, button_label, copied_message, copies_ip, error_text,
    notice_visible, os_kind, primary_ip, row_action, row_background, row_label, screen_for,
    shown_online, status_dot, target_fps, OsKind, Rgb, RowAction, Screen,
};

fn node(host: &str) -> NodeInfo {
    NodeInfo {
        id: None,
        host_name: host.to_string(),
        dns_name: None,
        tailscale_ips: Vec::new(),
        online: None,
        exit_node: false,
        exit_node_option: false,
        os: None,
        last_seen: None,
    }
}

#[test]
fn os_icons() {
    assert_eq!(os_kind(&Some("linux".to_string())), OsKind::Linux);
    assert_eq!(os_kind(&Some("windows".to_string())), OsKind::Windows);
    assert_eq!(os_kind(&Some("macOS".to_string())), OsKind::Linux);
    assert_eq!(os_kind(&Some("macos".to_string())), OsKind::Apple);
    assert_eq!(os_kind(&Some("darwin".to_string())), OsKind::Apple);
    assert_eq!(os_kind(&Some("ios".to_string())), OsKind::Apple);
    assert_eq!(os_kind(&Some("android".to_string())), OsKind::Android);
    assert_eq!(os_kind(&Some("freebsd".to_string())), OsKind::Linux);
    assert_eq!(os_kind(&None), OsKind::Linux);
}

#[test]
fn row_actions() {
    let mut offering = node("exit");
    offering.exit_node_option = true;
    assert_eq!(row_action(&offering, false), RowAction::UseExitNode);
    let mut in_use = offering.clone();
    in_use.exit_node = true;
    assert_eq!(row_action(&in_use, false), RowAction::StopExitNode);
    let plain = node("plain");
    assert_eq!(row_action(&plain, false), RowAction::Nothing);
    assert_eq!(row_action(&plain, true), RowAction::ShowMe);
    assert_eq!(row_action(&offering, true), RowAction::ShowMe);
    let mut me_exit = node("me");
    me_exit.exit_node = true;
    assert_eq!(row_action(&me_exit, true), RowAction::StopExitNode);
    let mut used_not_offered = node("odd");
    used_not_offered.exit_node = true;
    assert_eq!(row_action(&used_not_offered, false), RowAction::Nothing);
}

#[test]
fn button_commands() {
    let stop = button_command(RowAction::StopExitNode, "100.64.0.5").unwrap();
    assert_eq!(stop.args, vec!["tailscale", "up", "--exit-node="]);
    let start = button_command(RowAction::UseExitNode, "100.64.0.5").unwrap();
    assert_eq!(start.program, "distrobox-host-exec");
    assert_eq!(start.args, vec!["tailscale", "up", "--exit-node", "100.64.0.5"]);
    assert!(button_command(RowAction::ShowMe, "x").is_none());
    assert!(button_command(RowAction::Nothing, "x").is_none());
}

#[test]
fn row_texts() {
    let mut n = node("laptop");
    assert_eq!(row_label(&n), "laptop");
    n.id = Some("nodeid".to_string());
    assert_eq!(row_label(&n), "nodeid");
    assert_eq!(button_label("nodeid"), "btn-nodeid");
    assert_eq!(primary_ip(&n), "");
    n.tailscale_ips = vec!["100.64.0.8".to_string(), "fd7a::8".to_string()];
    assert_eq!(primary_ip(&n), "100.64.0.8");
}

#[test]
fn online_display_defaults_to_online() {
    let mut n = node("x");
    assert!(shown_online(&n));
    n.online = Some(false);
    assert!(!shown_online(&n));
    n.online = Some(true);
    assert!(shown_online(&n));
}

#[test]
fn colours() {
    assert_eq!(row_background(true, false, false), Rgb { r: 50, g: 50, b: 50 });
    assert_eq!(row_background(false, false, false), Rgb { r: 35, g: 35, b: 35 });
    assert_eq!(row_background(false, true, false), Rgb { r: 70, g: 70, b: 70 });
    assert_eq!(row_background(true, true, true), Rgb { r: 0, g: 80, b: 0 });
    assert_eq!(button_background(true, false), Rgb { r: 150, g: 0, b: 0 });
    assert_eq!(button_background(true, true), Rgb { r: 200, g: 0, b: 0 });
    assert_eq!(button_background(false, false), Rgb { r: 0, g: 120, b: 0 });
    assert_eq!(button_background(false, true), Rgb { r: 0, g: 160, b: 0 });
    assert_eq!(status_dot(true), Rgb { r: 0, g: 255, b: 0 });
    assert_eq!(status_dot(false), Rgb { r: 150, g: 150, b: 150 });
}

#[test]
fn clicking_copies_only_an_address() {
    assert!(copies_ip(true, true, "100.64.0.1"));
    assert!(!copies_ip(true, true, ""));
    assert!(!copies_ip(false, true, "100.64.0.1"));
    assert!(!copies_ip(true, false, "100.64.0.1"));
    assert_eq!(copied_message("100.64.0.1"), "Copied 100.64.0.1 to clipboard");
    assert_eq!(error_text("boom"), "Error: boom");
}

#[test]
fn screens() {
    assert_eq!(screen_for(true, false, false), Screen::Loading);
    assert_eq!(screen_for(true, false, true), Screen::Loading);
    assert_eq!(screen_for(true, true, true), Screen::Failure);
    assert_eq!(screen_for(false, false, true), Screen::Failure);
    assert_eq!(screen_for(false, true, false), Screen::Nodes);
    assert_eq!(screen_for(true, true, false), Screen::Nodes);
    assert_eq!(screen_for(false, false, false), Screen::Blank);
}

#[test]
fn frame_rate_and_notice() {
    assert_eq!(target_fps(false, true, 0, false), 1);
    assert_eq!(target_fps(true, false, 2001, true), 1);
    assert_eq!(target_fps(true, false, 2000, true), 60);
    assert_eq!(target_fps(true, true, 5001, false), 15);
    assert_eq!(target_fps(true, true, 5001, true), 60);
    assert_eq!(target_fps(true, true, 100, false), 60);
    assert!(notice_visible(0));
    assert!(notice_visible(3000));
    assert!(!notice_visible(3001));
}

#[test]
fn search_keys() {
    assert!(is_search_char(' '));
    assert!(is_search_char('~'));
    assert!(!is_search_char('\u{7f}'));
    assert!(!is_search_char('\n'));
    assert!(!is_search_char('\u{e9}'));
    let mut s = AppState::new();
    s.handle_key(SearchKey::Typed('a'));
    s.handle_key(SearchKey::Typed('\n'));
    s.handle_key(SearchKey::Typed('b'));
    assert_eq!(s.search_query, "ab");
    assert!(s.data_changed);
    s.handle_key(SearchKey::Backspace);
    assert_eq!(s.search_query, "a");
    s.handle_key(SearchKey::Escape);
    assert_eq!(s.search_query, "");
    s.handle_key(SearchKey::Backspace);
    assert_eq!(s.search_query, "");
}

#[test]
fn refused_key_does_not_mark_change() {
    let mut s = AppState::new();
    s.handle_key(SearchKey::Typed('\t'));
    assert!(!s.data_changed);
    assert_eq!(s.search_query, "");
}

#[test]
fn backspace_undoes_typing() {
    let mut s = AppState::new();
    s.handle_key(SearchKey::Typed('q'));
    s.handle_key(SearchKey::Typed('x'));
    s.handle_key(SearchKey::Backspace);
    assert_eq!(s.search_query, "q");
}

#[test]
fn start_up_state() {
    let s = AppState::new();
    assert!(s.status.is_none());
    assert!(s.loading);
    assert!(s.error.is_none());
    assert!(s.status_msg.is_none());
    assert_eq!(s.search_query, "");
    assert!(!s.data_changed);
    assert_eq!(s.screen(), Screen::Loading);
}

#[test]
fn refresh_outcomes() {
    let mut s = AppState::new();
    s.record_refresh(Err("Tailscale command failed: x".to_string()));
    assert!(!s.loading);
    assert!(s.status.is_none());
    assert_eq!(s.error.as_deref(), Some("Tailscale command failed: x"));
    assert_eq!(s.screen(), Screen::Failure);
    s.record_refresh(Ok(TailscaleStatus::new(node("me"), None)));
    assert!(s.error.is_none());
    assert_eq!(s.status.as_ref().unwrap().self_node.host_name, "me");
    assert!(s.data_changed);
    assert_eq!(s.screen(), Screen::Nodes);
}

#[test]
fn exit_node_change_states() {
    let mut s = AppState::new();
    s.record_refresh(Ok(TailscaleStatus::new(node("me"), None)));
    s.begin_exit_node_change();
    assert!(s.loading);
    s.exit_node_change_failed("Tailscale up failed: no".to_string());
    assert!(!s.loading);
    assert_eq!(s.error.as_deref(), Some("Tailscale up failed: no"));
    assert_eq!(s.screen(), Screen::Failure);
}

#[test]
fn copy_notice_is_taken_once() {
    let mut s = AppState::new();
    s.record_copy("100.64.0.2");
    let (msg, changed) = s.take_frame_signals();
    assert_eq!(msg.as_deref(), Some("Copied 100.64.0.2 to clipboard"));
    assert!(changed);
    let (msg, changed) = s.take_frame_signals();
    assert!(msg.is_none());
    assert!(!changed);
}

use tailscale_nodes::tailscale::{
    check_output, clear_exit_node_command, exit_node_command, failure_message, status_command,
    ExitNodeStatus, NodeInfo, TailscaleOp, TailscaleStatus,
};
use tailscale_nodes::text::{chars_of, contains_str, lex_compare, same_text, strip_nul};

fn node(host: &str) -> NodeInfo {
    NodeInfo {
        id: None,
        host_name: host.to_string(),
        dns_name: None,
        tailscale_ips: Vec::new(),
        online: None,
        exit_node: false,
        exit_node_option: false,
        os: None,
        last_seen: None,
    }
}

#[test]
fn strip_nul_removes_every_nul() {
    assert_eq!(strip_nul("a\0b\0\0c"), "abc");
    assert_eq!(strip_nul("\0"), "");
    assert_eq!(strip_nul("plain"), "plain");
    assert_eq!(strip_nul(""), "");
    assert_eq!(strip_nul("h\u{e9}\0llo"), "h\u{e9}llo");
}

#[test]
fn strip_nul_twice_is_strip_nul_once() {
    let once = strip_nul("x\0y\0");
    assert_eq!(strip_nul(&once), once);
}

#[test]
fn chars_and_equality() {
    assert_eq!(chars_of("ab\u{e9}"), vec!['a', 'b', '\u{e9}']);
    assert!(same_text("linux", "linux"));
    assert!(!same_text("linux", "Linux"));
    assert!(!same_text("lin", "linux"));
}

#[test]
fn substring_search() {
    assert!(contains_str("my-laptop", "lap"));
    assert!(contains_str("my-laptop", ""));
    assert!(contains_str("abc", "abc"));
    assert!(!contains_str("abc", "abcd"));
    assert!(!contains_str("my-laptop", "LAP"));
    assert!(contains_str("100.64.0.1", "64.0"));
}

#[test]
fn lexicographic_compare() {
    let a = chars_of("apple");
    let b = chars_of("apricot");
    let c = chars_of("app");
    assert_eq!(lex_compare(&a, &b), -1);
    assert_eq!(lex_compare(&b, &a), 1);
    assert_eq!(lex_compare(&c, &a), -1);
    assert_eq!(lex_compare(&a, &a), 0);
    let empty: Vec<char> = Vec::new();
    assert_eq!(lex_compare(&empty, &a), -1);
}

#[test]
fn sanitize_cleans_node_texts_but_not_the_id() {
    let mut n = NodeInfo {
        id: Some("n\0id".to_string()),
        host_name: "ho\0st".to_string(),
        dns_name: Some("host.\0ts.net".to_string()),
        tailscale_ips: vec!["100.\064.0.1".to_string(), "fd7a::1\0".to_string()],
        online: Some(true),
        exit_node: true,
        exit_node_option: false,
        os: Some("lin\0ux".to_string()),
        last_seen: Some("2024\0-01-01".to_string()),
    };
    n.sanitize();
    assert_eq!(n.id.as_deref(), Some("n\0id"));
    assert_eq!(n.host_name, "host");
    assert_eq!(n.dns_name.as_deref(), Some("host.ts.net"));
    assert_eq!(n.tailscale_ips, vec!["100.64.0.1".to_string(), "fd7a::1".to_string()]);
    assert_eq!(n.online, Some(true));
    assert!(n.exit_node);
    assert!(!n.exit_node_option);
    assert_eq!(n.os.as_deref(), Some("linux"));
    assert_eq!(n.last_seen.as_deref(), Some("2024-01-01"));
}

#[test]
fn sanitize_twice_is_sanitize_once() {
    let mut n = node("a\0b");
    n.tailscale_ips = vec!["1\0".to_string()];
    n.sanitize();
    let host = n.host_name.clone();
    let ips = n.tailscale_ips.clone();
    n.sanitize();
    assert_eq!(n.host_name, host);
    assert_eq!(n.tailscale_ips, ips);
}

#[test]
fn sanitize_status_cleans_self_and_peers() {
    let mut s = TailscaleStatus::new(
        node("me\0"),
        Some(ExitNodeStatus { id: Some("x\0".to_string()), online: true, tailscale_ips: vec![] }),
    );
    s.add_peer("key\0one".to_string(), node("p\0one"));
    s.add_peer("key2".to_string(), node("ptwo\0"));
    s.sanitize();
    assert_eq!(s.self_node.host_name, "me");
    assert_eq!(s.peer.len(), 2);
    assert_eq!(s.peer[0].0, "key\0one");
    assert_eq!(s.peer[0].1.host_name, "pone");
    assert_eq!(s.peer[1].0, "key2");
    assert_eq!(s.peer[1].1.host_name, "ptwo");
    assert_eq!(s.exit_node_status.unwrap().id.as_deref(), Some("x\0"));
}

#[test]
fn add_peer_replaces_same_key_and_appends_new_key() {
    let mut s = TailscaleStatus::new(node("me"), None);
    s.add_peer("k1".to_string(), node("first"));
    s.add_peer("k2".to_string(), node("second"));
    s.add_peer("k1".to_string(), node("again"));
    assert_eq!(s.peer.len(), 2);
    assert_eq!(s.peer[0].0, "k1");
    assert_eq!(s.peer[0].1.host_name, "again");
    assert_eq!(s.peer[1].0, "k2");
    assert_eq!(s.peer[1].1.host_name, "second");
}

#[test]
fn status_command_runs_status_json_on_the_host() {
    let c = status_command();
    assert_eq!(c.program, "distrobox-host-exec");
    assert_eq!(c.args, vec!["tailscale", "status", "--json"]);
}

#[test]
fn exit_node_commands() {
    let c = exit_node_command("100.64.0.7");
    assert_eq!(c.program, "distrobox-host-exec");
    assert_eq!(c.args, vec!["tailscale", "up", "--exit-node", "100.64.0.7"]);
    let d = clear_exit_node_command();
    assert_eq!(d.program, "distrobox-host-exec");
    assert_eq!(d.args, vec!["tailscale", "up", "--exit-node="]);
}

#[test]
fn failure_messages() {
    assert_eq!(failure_message(TailscaleOp::Status, "boom"), "Tailscale command failed: boom");
    assert_eq!(failure_message(TailscaleOp::Up, "denied"), "Tailscale up failed: denied");
}

#[test]
fn check_output_success_and_failure() {
    assert_eq!(check_output(TailscaleOp::Status, true, b"ignored"), Ok(()));
    assert_eq!(
        check_output(TailscaleOp::Status, false, b"not running"),
        Err("Tailscale command failed: not running".to_string())
    );
    assert_eq!(
        check_output(TailscaleOp::Up, false, b"bad\xffbyte"),
        Err("Tailscale up failed: bad\u{FFFD}byte".to_string())
    );
    assert_eq!(check_output(TailscaleOp::Up, false, b""), Err("Tailscale up failed: ".to_string()));
}

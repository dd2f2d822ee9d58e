use tailscale_nodes::order::sorted_peers;
use tailscale_nodes::search::{
    display_order, filter_visible, matches_lowered, node_matches, visible_nodes, NodeRef,
};
use tailscale_nodes::tailscale::{NodeInfo, TailscaleStatus};

fn node(host: &str, online: Option<bool>, last_seen: Option<&str>, ips: &[&str]) -> NodeInfo {
    NodeInfo {
        id: None,
        host_name: host.to_string(),
        dns_name: None,
        tailscale_ips: ips.iter().map(|s| s.to_string()).collect(),
        online,
        exit_node: false,
        exit_node_option: false,
        os: None,
        last_seen: last_seen.map(|s| s.to_string()),
    }
}

fn status(peers: Vec<NodeInfo>) -> TailscaleStatus {
    let mut s = TailscaleStatus::new(node("MyDesk", Some(true), None, &["100.64.0.1"]), None);
    for (i, p) in peers.into_iter().enumerate() {
        s.add_peer(format!("key{}", i), p);
    }
    s
}

#[test]
fn online_peers_come_first() {
    let s = status(vec![
        node("alpha", Some(false), None, &[]),
        node("beta", Some(true), None, &[]),
        node("gamma", None, None, &[]),
        node("delta", Some(true), None, &[]),
    ]);
    // online: beta, delta (by name); then offline alpha, gamma (by name)
    assert_eq!(sorted_peers(&s), vec![1, 3, 0, 2]);
}

#[test]
fn most_recently_seen_first_then_by_name() {
    let s = status(vec![
        node("zeta", Some(false), Some("2024-01-01T00:00:00Z"), &[]),
        node("eta", Some(false), Some("2024-03-01T00:00:00Z"), &[]),
        node("theta", Some(false), None, &[]),
        node("beta", Some(false), Some("2024-01-01T00:00:00Z"), &[]),
    ]);
    // eta (March), then beta and zeta (January, by name), then theta (never seen)
    assert_eq!(sorted_peers(&s), vec![1, 3, 0, 2]);
}

#[test]
fn host_name_order_is_by_code_point() {
    let s = status(vec![
        node("b", Some(true), None, &[]),
        node("B", Some(true), None, &[]),
        node("a", Some(true), None, &[]),
    ]);
    assert_eq!(sorted_peers(&s), vec![1, 2, 0]);
}

#[test]
fn tied_peers_keep_report_order() {
    let s = status(vec![
        node("same", Some(true), Some("t"), &["1"]),
        node("same", Some(true), Some("t"), &["2"]),
        node("same", Some(true), Some("t"), &["3"]),
    ]);
    assert_eq!(sorted_peers(&s), vec![0, 1, 2]);
}

#[test]
fn no_peers_sorts_to_nothing() {
    let s = status(vec![]);
    assert!(sorted_peers(&s).is_empty());
    assert_eq!(display_order(&s), vec![NodeRef::Local]);
}

#[test]
fn display_order_puts_this_machine_first() {
    let s = status(vec![node("b", Some(false), None, &[]), node("a", Some(true), None, &[])]);
    assert_eq!(display_order(&s), vec![NodeRef::Local, NodeRef::Peer(1), NodeRef::Peer(0)]);
}

#[test]
fn empty_search_shows_everything() {
    let s = status(vec![node("b", Some(false), None, &[]), node("a", Some(true), None, &[])]);
    assert_eq!(
        visible_nodes(&s, ""),
        vec![NodeRef::Local, NodeRef::Peer(1), NodeRef::Peer(0)]
    );
}

#[test]
fn search_matches_host_names_ignoring_case() {
    let s = status(vec![
        node("Work-Laptop", Some(true), None, &["100.64.0.2"]),
        node("phone", Some(true), None, &["100.64.0.3"]),
    ]);
    assert_eq!(visible_nodes(&s, "LAPTOP"), vec![NodeRef::Peer(0)]);
    assert_eq!(visible_nodes(&s, "desk"), vec![NodeRef::Local]);
}

#[test]
fn search_matches_addresses_as_typed() {
    let s = status(vec![
        node("laptop", Some(true), None, &["100.64.0.2", "fd7a:115c::2"]),
        node("phone", Some(true), None, &["100.64.0.3"]),
    ]);
    assert_eq!(visible_nodes(&s, "0.3"), vec![NodeRef::Peer(1)]);
    assert_eq!(visible_nodes(&s, "fd7a"), vec![NodeRef::Peer(0)]);
    assert_eq!(visible_nodes(&s, "FD7A"), Vec::<NodeRef>::new());
    assert_eq!(visible_nodes(&s, "100.64"), vec![NodeRef::Local, NodeRef::Peer(0), NodeRef::Peer(1)]);
}

#[test]
fn filter_keeps_given_order() {
    let s = status(vec![node("alpha", Some(true), None, &[]), node("alpine", Some(true), None, &[])]);
    let order = vec![NodeRef::Peer(1), NodeRef::Local, NodeRef::Peer(0)];
    assert_eq!(filter_visible(&s, &order, "alp"), vec![NodeRef::Peer(1), NodeRef::Peer(0)]);
}

#[test]
fn node_matches_lowercases_host_and_query() {
    let n = node("MyLaptop", Some(true), None, &["100.64.0.9"]);
    assert!(node_matches(&n, "LAPTOP"));
    assert!(node_matches(&n, "mylap"));
    assert!(node_matches(&n, "0.9"));
    assert!(node_matches(&n, ""));
    assert!(!node_matches(&n, "desk"));
}

#[test]
fn matches_lowered_rule() {
    let ips = vec!["100.64.0.1".to_string()];
    assert!(matches_lowered("host", &ips, "", ""));
    assert!(matches_lowered("host", &ips, "OS", "os"));
    assert!(matches_lowered("host", &ips, "64", "64"));
    assert!(!matches_lowered("host", &ips, "X", "x"));
}

//! Which nodes the list shows, and in what order: this machine first, then
//! the peers in list order, keeping those that match the search text.

use vstd::prelude::*;
use crate::order::{is_sorted_order, lemma_sorted_order_unique, peer_nodes, sorted_peers};
use crate::tailscale::{texts, NodeInfo, NodeInfoView, TailscaleStatus, TailscaleStatusView};
use crate::text::{contains_str, contains_text, lowercase_of, occurs_at, to_lowercase};

verus! {

/// A node of a report: this machine, or the peer at a report position.
#[derive(Clone, Copy, Debug, PartialEq, Eq, Structural)]
pub enum NodeRef {
    Local,
    Peer(usize),
}

/// The node a reference names.
pub open spec fn node_at(v: TailscaleStatusView, n: NodeRef) -> NodeInfoView {
    match n {
        NodeRef::Local => v.self_node,
        NodeRef::Peer(i) => v.peer[i as int].1,
    }
}

/// The reference names a node of the report.
pub open spec fn ref_in(v: TailscaleStatusView, n: NodeRef) -> bool {
    match n {
        NodeRef::Local => true,
        NodeRef::Peer(i) => i < v.peer.len(),
    }
}

/// The peer list order of a report (unique: see `lemma_sorted_order_unique`).
pub open spec fn list_order(v: TailscaleStatusView) -> Seq<usize> {
    choose|r: Seq<usize>| is_sorted_order(peer_nodes(v), r)
}

/// This machine followed by the peers at the given positions.
pub open spec fn display_sequence(order: Seq<usize>) -> Seq<NodeRef> {
    seq![NodeRef::Local] + order.map_values(|i: usize| NodeRef::Peer(i))
}

/// Some address contains the search text.
pub open spec fn ip_matches(ips: Seq<Seq<char>>, query: Seq<char>) -> bool {
    exists|i: int| 0 <= i < ips.len() && contains_text(#[trigger] ips[i], query)
}

/// The search rule, given the lowercased host name and search text: an empty
/// search matches everything; otherwise the lowercased host name must contain
/// the lowercased search text, or some address must contain the search text as
/// typed.
pub open spec fn matches_query(
    host_lower: Seq<char>,
    ips: Seq<Seq<char>>,
    query: Seq<char>,
    query_lower: Seq<char>,
) -> bool {
    query.len() == 0 || contains_text(host_lower, query_lower) || ip_matches(ips, query)
}

/// A node is shown for a search text.
pub open spec fn node_shown(node: NodeInfoView, query: Seq<char>) -> bool {
    matches_query(lowercase_of(node.host_name), node.tailscale_ips, query, lowercase_of(query))
}

/// The test that keeps the nodes of a report shown for a search text.
pub open spec fn shown_in(v: TailscaleStatusView, query: Seq<char>) -> spec_fn(NodeRef) -> bool {
    |n: NodeRef| node_shown(node_at(v, n), query)
}

/// Applies the search rule to a host name and search text already lowercased.
pub fn matches_lowered(host_lower: &str, ips: &Vec<String>, query: &str, query_lower: &str) -> (r: bool)
    ensures
        r == matches_query(host_lower@, texts(ips@), query@, query_lower@),
{
    if query.is_empty() {
        return true;
    }
    if contains_str(host_lower, query_lower) {
        return true;
    }
    let n = ips.len();
    let mut i: usize = 0;
    while i < n
        invariant
            n == ips@.len(),
            i <= n,
            forall|j: int| 0 <= j < i ==> !contains_text(#[trigger] texts(ips@)[j], query@),
        decreases n - i,
    {
        if contains_str(ips[i].as_str(), query) {
            proof {
                assert(contains_text(texts(ips@)[i as int], query@));
            }
            return true;
        }
        i = i + 1;
    }
    false
}

/// Whether a node is shown for a search text.
pub fn node_matches(node: &NodeInfo, query: &str) -> (r: bool)
    ensures
        r == node_shown(node@, query@),
{
    let host_lower = to_lowercase(node.host_name.as_str());
    let query_lower = to_lowercase(query);
    matches_lowered(host_lower.as_str(), &node.tailscale_ips, query, query_lower.as_str())
}

/// The nodes of `nodes` that are shown for a search text, in the same order.
pub fn filter_visible(status: &TailscaleStatus, nodes: &Vec<NodeRef>, query: &str) -> (r: Vec<NodeRef>)
    requires
        forall|i: int| 0 <= i < nodes@.len() ==> ref_in(status@, #[trigger] nodes@[i]),
    ensures
        r@ == nodes@.filter(shown_in(status@, query@)),
{
    let query_lower = to_lowercase(query);
    let ghost pred = shown_in(status@, query@);
    let n = nodes.len();
    let mut out: Vec<NodeRef> = Vec::new();
    let mut i: usize = 0;
    while i < n
        invariant
            n == nodes@.len(),
            i <= n,
            query_lower@ == lowercase_of(query@),
            pred == shown_in(status@, query@),
            forall|j: int| 0 <= j < nodes@.len() ==> ref_in(status@, #[trigger] nodes@[j]),
            out@ == nodes@.subrange(0, i as int).filter(pred),
        decreases n - i,
    {
        let item = nodes[i];
        assert(ref_in(status@, nodes@[i as int]));
        let node = match item {
            NodeRef::Local => &status.self_node,
            NodeRef::Peer(k) => &status.peer[k].1,
        };
        let host_lower = to_lowercase(node.host_name.as_str());
        let keep = matches_lowered(host_lower.as_str(), &node.tailscale_ips, query, query_lower.as_str());
        proof {
            reveal_with_fuel(Seq::<NodeRef>::filter, 1);
            assert(nodes@.subrange(0, i + 1).drop_last() =~= nodes@.subrange(0, i as int));
            assert(node@ == node_at(status@, item));
            assert(keep == pred(item));
        }
        if keep {
            out.push(item);
        }
        i = i + 1;
    }
    assert(nodes@.subrange(0, n as int) =~= nodes@);
    out
}

/// This machine followed by the peers in list order.
pub fn display_order(status: &TailscaleStatus) -> (r: Vec<NodeRef>)
    ensures
        r@ == display_sequence(list_order(status@)),
        forall|i: int| 0 <= i < r@.len() ==> ref_in(status@, #[trigger] r@[i]),
        r@.len() == status@.peer.len() + 1,
        r@[0] == NodeRef::Local,
        forall|i: int|
            0 <= i < status@.peer.len() ==> #[trigger] r@[i + 1] == NodeRef::Peer(list_order(status@)[i]),
        forall|p: usize| p < status@.peer.len() ==> #[trigger] r@.contains(NodeRef::Peer(p)),
{
    let sorted = sorted_peers(status);
    let mut out: Vec<NodeRef> = Vec::new();
    out.push(NodeRef::Local);
    let n = sorted.len();
    let mut i: usize = 0;
    while i < n
        invariant
            n == sorted@.len(),
            is_sorted_order(peer_nodes(status@), sorted@),
            i <= n,
            out@ == seq![NodeRef::Local] + sorted@.subrange(0, i as int).map_values(
                |k: usize| NodeRef::Peer(k),
            ),
        decreases n - i,
    {
        out.push(NodeRef::Peer(sorted[i]));
        proof {
            assert(sorted@.subrange(0, i + 1).map_values(|k: usize| NodeRef::Peer(k))
                =~= sorted@.subrange(0, i as int).map_values(|k: usize| NodeRef::Peer(k)).push(
                NodeRef::Peer(sorted@[i as int]),
            ));
        }
        i = i + 1;
    }
    proof {
        assert(sorted@.subrange(0, n as int) =~= sorted@);
        lemma_sorted_order_unique(peer_nodes(status@), sorted@, list_order(status@));
        lemma_display_lists_every_peer(status@, sorted@);
        assert forall|i: int| 0 <= i < out@.len() implies ref_in(status@, #[trigger] out@[i]) by {
            if i > 0 {
                assert(out@[i] == NodeRef::Peer(sorted@[i - 1]));
                assert(sorted@[i - 1] < peer_nodes(status@).len());
            }
        }
    }
    out
}

/// The nodes the list shows for a search text: this machine, then the peers
/// in list order, keeping only those shown for the search text.
pub fn visible_nodes(status: &TailscaleStatus, query: &str) -> (r: Vec<NodeRef>)
    ensures
        r@ == display_sequence(list_order(status@)).filter(shown_in(status@, query@)),
        query@.len() == 0 ==> r@.len() == status@.peer.len() + 1 && r@[0] == NodeRef::Local
            && forall|p: usize| p < status@.peer.len() ==> #[trigger] r@.contains(NodeRef::Peer(p)),
{
    let all = display_order(status);
    let r = filter_visible(status, &all, query);
    proof {
        if query@.len() == 0 {
            assert(query@ =~= Seq::<char>::empty());
            lemma_empty_query_shows_all(status@, all@);
        }
    }
    r
}

/// With an empty search text every node is shown, in list order.
pub proof fn lemma_empty_query_shows_all(v: TailscaleStatusView, s: Seq<NodeRef>)
    ensures
        s.filter(shown_in(v, Seq::empty())) == s,
    decreases s.len(),
{
    reveal_with_fuel(Seq::<NodeRef>::filter, 1);
    if s.len() > 0 {
        lemma_empty_query_shows_all(v, s.drop_last());
        assert(s.drop_last().push(s.last()) =~= s);
    }
}

/// This machine heads the list whenever it is shown.
pub proof fn lemma_local_first_when_shown(v: TailscaleStatusView, order: Seq<usize>, query: Seq<char>)
    requires
        node_shown(v.self_node, query),
    ensures
        display_sequence(order).filter(shown_in(v, query)).len() > 0,
        display_sequence(order).filter(shown_in(v, query))[0] == NodeRef::Local,
{
    let head = seq![NodeRef::Local];
    let rest = order.map_values(|i: usize| NodeRef::Peer(i));
    let p = shown_in(v, query);
    Seq::filter_distributes_over_add(head, rest, p);
    reveal_with_fuel(Seq::<NodeRef>::filter, 2);
    assert(head.drop_last() =~= Seq::<NodeRef>::empty());
    assert(head.filter(p) =~= head);
}

/// The displayed list is this machine followed by exactly one entry for each
/// position of the given peer order, in that order.
pub proof fn lemma_display_sequence_shape(order: Seq<usize>)
    ensures
        display_sequence(order).len() == order.len() + 1,
        display_sequence(order)[0] == NodeRef::Local,
        forall|i: int|
            0 <= i < order.len() ==> #[trigger] display_sequence(order)[i + 1] == NodeRef::Peer(order[i]),
{
}

/// For any list order of a report's peers, the displayed list has one entry per
/// peer plus this machine, and every peer of the report is in it.
pub proof fn lemma_display_lists_every_peer(v: TailscaleStatusView, order: Seq<usize>)
    requires
        is_sorted_order(peer_nodes(v), order),
    ensures
        display_sequence(order).len() == v.peer.len() + 1,
        forall|p: usize| p < v.peer.len() ==> #[trigger] display_sequence(order).contains(NodeRef::Peer(p)),
{
    lemma_display_sequence_shape(order);
    assert forall|p: usize| p < v.peer.len() implies #[trigger] display_sequence(order).contains(NodeRef::Peer(p)) by {
        assert(order.contains(p));
        let i = choose|i: int| 0 <= i < order.len() && order[i] == p;
        assert(display_sequence(order)[i + 1] == NodeRef::Peer(p));
    }
}

/// Every text contains itself.
pub proof fn lemma_text_contains_itself(s: Seq<char>)
    ensures
        contains_text(s, s),
{
    assert(s.subrange(0, s.len() as int) =~= s);
    assert(occurs_at(s, s, 0));
}

/// A piece surrounded by any text is found in it.
pub proof fn lemma_text_contains_piece(before: Seq<char>, piece: Seq<char>, after: Seq<char>)
    ensures
        contains_text(before + piece + after, piece),
{
    let hay = before + piece + after;
    assert(hay.subrange(before.len() as int, (before.len() + piece.len()) as int) =~= piece);
    assert(occurs_at(hay, piece, before.len() as int));
}

/// A needle longer than the text is never found in it.
pub proof fn lemma_longer_needle_not_found(hay: Seq<char>, needle: Seq<char>)
    requires
        needle.len() > hay.len(),
    ensures
        !contains_text(hay, needle),
{
}

/// A node is shown whenever its lowercased host name contains the lowercased
/// search text, whatever its addresses.
pub proof fn lemma_host_piece_shown(
    host_lower: Seq<char>,
    ips: Seq<Seq<char>>,
    query: Seq<char>,
    query_lower: Seq<char>,
)
    requires
        contains_text(host_lower, query_lower),
    ensures
        matches_query(host_lower, ips, query, query_lower),
{
}

/// A node is shown whenever one of its addresses contains the search text as typed.
pub proof fn lemma_ip_piece_shown(
    host_lower: Seq<char>,
    ips: Seq<Seq<char>>,
    query: Seq<char>,
    query_lower: Seq<char>,
    j: int,
)
    requires
        0 <= j < ips.len(),
        contains_text(ips[j], query),
    ensures
        matches_query(host_lower, ips, query, query_lower),
{
}

/// An empty search text shows every node.
pub proof fn lemma_empty_query_matches(host_lower: Seq<char>, ips: Seq<Seq<char>>, query_lower: Seq<char>)
    ensures
        matches_query(host_lower, ips, Seq::empty(), query_lower),
{
}

/// With a non-empty search text, a node whose lowercased host name does not
/// contain the lowercased search text and none of whose addresses contains the
/// search text is hidden.
pub proof fn lemma_no_piece_hidden(
    host_lower: Seq<char>,
    ips: Seq<Seq<char>>,
    query: Seq<char>,
    query_lower: Seq<char>,
)
    requires
        query.len() > 0,
        !contains_text(host_lower, query_lower),
        forall|j: int| 0 <= j < ips.len() ==> !contains_text(#[trigger] ips[j], query),
    ensures
        !matches_query(host_lower, ips, query, query_lower),
{
}

/// With a non-empty search text, a node is hidden when neither its lowercased
/// host name contains the lowercased search text nor any of its addresses
/// contains the search text.
pub proof fn lemma_node_hidden(node: NodeInfoView, query: Seq<char>)
    requires
        query.len() > 0,
        !contains_text(lowercase_of(node.host_name), lowercase_of(query)),
        forall|j: int| 0 <= j < node.tailscale_ips.len() ==> !contains_text(#[trigger] node.tailscale_ips[j], query),
    ensures
        !node_shown(node, query),
{
}

/// Searching for a node's own host name shows it.
pub proof fn lemma_search_by_own_name(node: NodeInfoView, query: Seq<char>)
    requires
        query == node.host_name,
    ensures
        node_shown(node, query),
{
    lemma_text_contains_itself(lowercase_of(query));
}

/// Searching for any piece of a node's host name, as it is written, shows it
/// when lowercasing the host name keeps that piece's lowercased form in place.
pub proof fn lemma_search_by_name_piece(node: NodeInfoView, query: Seq<char>, before: Seq<char>, after: Seq<char>)
    requires
        lowercase_of(node.host_name) == before + lowercase_of(query) + after,
    ensures
        node_shown(node, query),
{
    lemma_text_contains_piece(before, lowercase_of(query), after);
}

/// Searching for any piece of one of a node's addresses shows it.
pub proof fn lemma_search_by_address_piece(node: NodeInfoView, query: Seq<char>, j: int, before: Seq<char>, after: Seq<char>)
    requires
        0 <= j < node.tailscale_ips.len(),
        node.tailscale_ips[j] == before + query + after,
    ensures
        node_shown(node, query),
{
    lemma_text_contains_piece(before, query, after);
}

} // verus!

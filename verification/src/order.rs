//! The order in which peers are listed: online peers first, then the most
//! recently seen, then by host name; peers that tie keep their report order.

use vstd::prelude::*;
use crate::tailscale::{NodeInfo, NodeInfoView, TailscaleStatus, TailscaleStatusView};
use crate::text::{
    chars_of, lemma_lex_order_antisymmetric, lemma_lex_order_direction, lemma_lex_order_range,
    lemma_lex_order_transitive,
    lemma_lex_order_zero_iff_equal, lex_compare, lex_order,
};

verus! {

/// Whether a node counts as online when ordering: an unknown state counts as offline.
pub open spec fn online_for_order(n: NodeInfoView) -> bool {
    match n.online {
        Some(b) => b,
        None => false,
    }
}

/// The last-seen time used when ordering: an unknown time counts as the empty text.
pub open spec fn last_seen_for_order(n: NodeInfoView) -> Seq<char> {
    match n.last_seen {
        Some(s) => s,
        None => Seq::empty(),
    }
}

/// How two nodes compare in the list: -1 when `a` is listed first, 1 when `b`
/// is, 0 when they tie. Online before offline; then the later last-seen time
/// (compared as text) first; then host names in alphabetical order.
pub open spec fn node_order(a: NodeInfoView, b: NodeInfoView) -> int {
    let ao = online_for_order(a);
    let bo = online_for_order(b);
    if ao != bo {
        if ao {
            -1
        } else {
            1
        }
    } else if lex_order(last_seen_for_order(b), last_seen_for_order(a)) != 0 {
        lex_order(last_seen_for_order(b), last_seen_for_order(a))
    } else {
        lex_order(a.host_name, b.host_name)
    }
}

/// The peer at report position `x` is listed before the one at `y`: it comes
/// first in the order, or ties with it and came first in the report.
pub open spec fn listed_before(nodes: Seq<NodeInfoView>, x: usize, y: usize) -> bool {
    node_order(nodes[x as int], nodes[y as int]) < 0 || (node_order(nodes[x as int], nodes[y as int]) == 0 && x < y)
}

/// `r` lists every report position of `nodes` once, in the list order.
pub open spec fn is_sorted_order(nodes: Seq<NodeInfoView>, r: Seq<usize>) -> bool {
    &&& r.len() == nodes.len()
    &&& forall|i: int| 0 <= i < r.len() ==> #[trigger] r[i] < nodes.len()
    &&& forall|x: usize| x < nodes.len() ==> #[trigger] r.contains(x)
    &&& forall|i: int, j: int| #![trigger r[i], r[j]] 0 <= i < j < r.len() ==> r[i] != r[j]
    &&& forall|i: int, j: int|
        #![trigger r[i], r[j]]
        0 <= i < j < r.len() ==> listed_before(nodes, r[i], r[j])
}

/// The peer records of a report, in report order.
pub open spec fn peer_nodes(v: TailscaleStatusView) -> Seq<NodeInfoView> {
    v.peer.map_values(|e: (Seq<char>, NodeInfoView)| e.1)
}

/// Swapping the two nodes flips the order.
pub proof fn lemma_node_order_antisymmetric(a: NodeInfoView, b: NodeInfoView)
    ensures
        node_order(a, b) == -node_order(b, a),
        -1 <= node_order(a, b) <= 1,
{
    lemma_lex_order_antisymmetric(last_seen_for_order(a), last_seen_for_order(b));
    lemma_lex_order_antisymmetric(a.host_name, b.host_name);
    lemma_lex_order_range(last_seen_for_order(b), last_seen_for_order(a));
    lemma_lex_order_range(a.host_name, b.host_name);
}

/// Two nodes tie exactly when they agree on the online state, the last-seen
/// time and the host name.
pub proof fn lemma_node_order_tie(a: NodeInfoView, b: NodeInfoView)
    ensures
        node_order(a, b) == 0 <==> (online_for_order(a) == online_for_order(b)
            && last_seen_for_order(a) == last_seen_for_order(b) && a.host_name == b.host_name),
{
    lemma_lex_order_zero_iff_equal(last_seen_for_order(b), last_seen_for_order(a));
    lemma_lex_order_zero_iff_equal(a.host_name, b.host_name);
}

/// The order is transitive, and strict as soon as one step is strict.
pub proof fn lemma_node_order_transitive(a: NodeInfoView, b: NodeInfoView, c: NodeInfoView)
    ensures
        node_order(a, b) <= 0 && node_order(b, c) <= 0 ==> node_order(a, c) <= 0,
        node_order(a, b) < 0 && node_order(b, c) <= 0 ==> node_order(a, c) < 0,
        node_order(a, b) <= 0 && node_order(b, c) < 0 ==> node_order(a, c) < 0,
{
    let la = last_seen_for_order(a);
    let lb = last_seen_for_order(b);
    let lc = last_seen_for_order(c);
    lemma_lex_order_transitive(lc, lb, la);
    lemma_lex_order_transitive(a.host_name, b.host_name, c.host_name);
    lemma_lex_order_zero_iff_equal(lb, la);
    lemma_lex_order_zero_iff_equal(lc, lb);
    lemma_lex_order_zero_iff_equal(lc, la);
    lemma_lex_order_zero_iff_equal(a.host_name, b.host_name);
    lemma_lex_order_zero_iff_equal(b.host_name, c.host_name);
}

/// What a node contributes to the order, as characters.
struct OrderKey {
    online: bool,
    last_seen: Vec<char>,
    host: Vec<char>,
}

impl OrderKey {
    spec fn describes(&self, n: NodeInfoView) -> bool {
        &&& self.online == online_for_order(n)
        &&& self.last_seen@ == last_seen_for_order(n)
        &&& self.host@ == n.host_name
    }
}

fn order_key(n: &NodeInfo) -> (k: OrderKey)
    ensures
        k.describes(n@),
{
    let online = match n.online {
        Some(b) => b,
        None => false,
    };
    let last_seen = match &n.last_seen {
        Some(s) => chars_of(s.as_str()),
        None => Vec::new(),
    };
    let host = chars_of(n.host_name.as_str());
    OrderKey { online, last_seen, host }
}

fn compare_keys(a: &OrderKey, b: &OrderKey, Ghost(na): Ghost<NodeInfoView>, Ghost(nb): Ghost<NodeInfoView>) -> (r: i8)
    requires
        a.describes(na),
        b.describes(nb),
    ensures
        r as int == node_order(na, nb),
{
    if a.online != b.online {
        if a.online {
            -1
        } else {
            1
        }
    } else {
        let l = lex_compare(&b.last_seen, &a.last_seen);
        if l != 0 {
            l
        } else {
            lex_compare(&a.host, &b.host)
        }
    }
}

/// The report positions of the peers, in the order the list shows them.
pub fn sorted_peers(status: &TailscaleStatus) -> (r: Vec<usize>)
    ensures
        is_sorted_order(peer_nodes(status@), r@),
{
    let ghost nodes = peer_nodes(status@);
    let n = status.peer.len();
    let mut keys: Vec<OrderKey> = Vec::new();
    let mut k: usize = 0;
    while k < n
        invariant
            n == status.peer@.len(),
            nodes == peer_nodes(status@),
            k <= n,
            keys@.len() == k,
            forall|j: int| 0 <= j < k ==> (#[trigger] keys@[j]).describes(nodes[j]),
        decreases n - k,
    {
        let key = order_key(&status.peer[k].1);
        keys.push(key);
        k = k + 1;
    }
    let mut order: Vec<usize> = Vec::new();
    k = 0;
    while k < n
        invariant
            n == status.peer@.len(),
            nodes == peer_nodes(status@),
            nodes.len() == n,
            k <= n,
            keys@.len() == n,
            forall|j: int| 0 <= j < n ==> (#[trigger] keys@[j]).describes(nodes[j]),
            order@.len() == k,
            forall|i: int| 0 <= i < order@.len() ==> #[trigger] order@[i] < k,
            forall|x: usize| x < k ==> #[trigger] order@.contains(x),
            forall|i: int, j: int|
                #![trigger order@[i], order@[j]]
                0 <= i < j < order@.len() ==> order@[i] != order@[j],
            forall|i: int, j: int|
                #![trigger order@[i], order@[j]]
                0 <= i < j < order@.len() ==> listed_before(nodes, order@[i], order@[j]),
        decreases n - k,
    {
        let mut p: usize = 0;
        let mut searching = true;
        while searching && p < order.len()
            invariant
                nodes.len() == n,
                k < n,
                keys@.len() == n,
                forall|j: int| 0 <= j < n ==> (#[trigger] keys@[j]).describes(nodes[j]),
                forall|i: int| 0 <= i < order@.len() ==> #[trigger] order@[i] < k,
                p <= order@.len(),
                forall|q: int| 0 <= q < p ==> node_order(nodes[k as int], nodes[#[trigger] order@[q] as int]) >= 0,
                !searching ==> p < order@.len() && node_order(nodes[k as int], nodes[order@[p as int] as int]) < 0,
            decreases order@.len() - p, (if searching { 1int } else { 0int }),
        {
            let other = order[p];
            let c = compare_keys(&keys[k], &keys[other], Ghost(nodes[k as int]), Ghost(nodes[other as int]));
            if c < 0 {
                searching = false;
            } else {
                p = p + 1;
            }
        }
        let ghost before = order@;
        order.insert(p, k);
        proof {
            let after = order@;
            assert(after == before.insert(p as int, k));
            assert forall|i: int| 0 <= i < after.len() implies #[trigger] after[i] < k + 1 by {
                if i < p {
                    assert(after[i] == before[i]);
                } else if i > p {
                    assert(after[i] == before[i - 1]);
                }
            }
            assert forall|x: usize| x < k + 1 implies #[trigger] after.contains(x) by {
                if x == k {
                    assert(after[p as int] == k);
                } else {
                    assert(before.contains(x));
                    let i = choose|i: int| 0 <= i < before.len() && before[i] == x;
                    if i < p {
                        assert(after[i] == before[i]);
                    } else {
                        assert(after[i + 1] == before[i]);
                    }
                }
            }
            assert forall|i: int, j: int|
                #![trigger after[i], after[j]]
                0 <= i < j < after.len() implies after[i] != after[j] && listed_before(nodes, after[i], after[j]) by {
                if j < p {
                    assert(after[i] == before[i] && after[j] == before[j]);
                } else if j == p {
                    assert(after[i] == before[i]);
                    assert(node_order(nodes[k as int], nodes[before[i] as int]) >= 0);
                    lemma_node_order_antisymmetric(nodes[k as int], nodes[before[i] as int]);
                } else if i > p {
                    assert(after[i] == before[i - 1] && after[j] == before[j - 1]);
                } else if i == p {
                    assert(after[j] == before[j - 1]);
                    let first = before[p as int];
                    assert(node_order(nodes[k as int], nodes[first as int]) < 0);
                    if j - 1 > p {
                        assert(listed_before(nodes, before[p as int], before[j - 1]));
                    }
                    lemma_node_order_transitive(nodes[k as int], nodes[first as int], nodes[before[j - 1] as int]);
                } else {
                    assert(after[i] == before[i] && after[j] == before[j - 1]);
                }
            }
        }
        k = k + 1;
    }
    order
}

/// Positions before `i` agree in any two list orders of the same peers.
proof fn lemma_sorted_prefix_agree(nodes: Seq<NodeInfoView>, r1: Seq<usize>, r2: Seq<usize>, i: int)
    requires
        is_sorted_order(nodes, r1),
        is_sorted_order(nodes, r2),
        0 <= i <= r1.len(),
    ensures
        forall|m: int| 0 <= m < i ==> r1[m] == r2[m],
    decreases i,
{
    if i > 0 {
        lemma_sorted_prefix_agree(nodes, r1, r2, i - 1);
        let m = i - 1;
        let x = r1[m];
        let y = r2[m];
        if x != y {
            assert(r1.contains(y));
            let j = choose|j: int| 0 <= j < r1.len() && r1[j] == y;
            if j < m {
                assert(r1[j] == r2[j]);
            }
            assert(j > m);
            assert(listed_before(nodes, r1[m], r1[j]));
            assert(r2.contains(x));
            let j2 = choose|j2: int| 0 <= j2 < r2.len() && r2[j2] == x;
            if j2 < m {
                assert(r1[j2] == r2[j2]);
            }
            assert(j2 > m);
            assert(listed_before(nodes, r2[m], r2[j2]));
            lemma_node_order_antisymmetric(nodes[x as int], nodes[y as int]);
        }
    }
}

/// The list order of a set of peers is unique: peers that tie are kept in
/// report order, so nothing is left to chance.
pub proof fn lemma_sorted_order_unique(nodes: Seq<NodeInfoView>, r1: Seq<usize>, r2: Seq<usize>)
    requires
        is_sorted_order(nodes, r1),
        is_sorted_order(nodes, r2),
    ensures
        r1 == r2,
{
    lemma_sorted_prefix_agree(nodes, r1, r2, r1.len() as int);
    assert(r1 =~= r2);
}

/// What the list order means for two listed peers, the first at position `i`
/// and the second at `j > i`: an online peer never follows an offline one;
/// among peers alike in that, a later last-seen time never follows an earlier
/// one; among peers alike in both, host names are in alphabetical order; and
/// peers alike in all three keep their report order.
pub proof fn lemma_sorted_order_meaning(nodes: Seq<NodeInfoView>, r: Seq<usize>, i: int, j: int)
    requires
        is_sorted_order(nodes, r),
        0 <= i < j < r.len(),
    ensures
        ({
            let a = nodes[r[i] as int];
            let b = nodes[r[j] as int];
            &&& online_for_order(b) ==> online_for_order(a)
            &&& online_for_order(a) == online_for_order(b) ==> lex_order(
                last_seen_for_order(a),
                last_seen_for_order(b),
            ) >= 0
            &&& online_for_order(a) == online_for_order(b) && last_seen_for_order(a)
                == last_seen_for_order(b) ==> lex_order(a.host_name, b.host_name) <= 0
            &&& online_for_order(a) == online_for_order(b) && last_seen_for_order(a)
                == last_seen_for_order(b) && a.host_name == b.host_name ==> r[i] < r[j]
        }),
{
    let a = nodes[r[i] as int];
    let b = nodes[r[j] as int];
    assert(listed_before(nodes, r[i], r[j]));
    lemma_lex_order_antisymmetric(last_seen_for_order(a), last_seen_for_order(b));
    lemma_lex_order_zero_iff_equal(last_seen_for_order(b), last_seen_for_order(a));
    lemma_lex_order_zero_iff_equal(a.host_name, b.host_name);
    lemma_node_order_tie(a, b);
}

/// The list order read on the report fields: a peer reported online never
/// follows one reported offline or with no online state; among peers alike in
/// that, a peer with a last-seen time never follows one without; and among
/// peers alike in the online state and last-seen text, a host name never
/// follows a longer name it begins.
pub proof fn lemma_sorted_order_fields(nodes: Seq<NodeInfoView>, r: Seq<usize>, i: int, j: int)
    requires
        is_sorted_order(nodes, r),
        0 <= i < j < r.len(),
    ensures
        ({
            let a = nodes[r[i] as int];
            let b = nodes[r[j] as int];
            &&& b.online == Some(true) ==> a.online == Some(true)
            &&& ((a.online == Some(true) <==> b.online == Some(true)) && (b.last_seen matches Some(t)
                && t.len() > 0)) ==> (a.last_seen matches Some(u) && u.len() > 0)
            &&& (a.online == Some(true) <==> b.online == Some(true)) && a.last_seen == b.last_seen
                && b.host_name.len() < a.host_name.len() ==> a.host_name.subrange(0, b.host_name.len() as int) != b.host_name
        }),
{
    let a = nodes[r[i] as int];
    let b = nodes[r[j] as int];
    lemma_sorted_order_meaning(nodes, r, i, j);
    if (a.online == Some(true) <==> b.online == Some(true)) && b.last_seen is Some {
        let t = last_seen_for_order(b);
        let u = last_seen_for_order(a);
        if t.len() > 0 && u.len() == 0 {
            lemma_lex_order_direction(u, t, 0);
        }
    }
    if (a.online == Some(true) <==> b.online == Some(true)) && a.last_seen == b.last_seen
        && b.host_name.len() < a.host_name.len() && a.host_name.subrange(0, b.host_name.len() as int) == b.host_name {
        lemma_lex_order_direction(b.host_name, a.host_name, b.host_name.len() as int);
        lemma_lex_order_antisymmetric(a.host_name, b.host_name);
        assert forall|k: int| 0 <= k < b.host_name.len() implies b.host_name[k] == a.host_name[k] by {
            assert(a.host_name.subrange(0, b.host_name.len() as int)[k] == a.host_name[k]);
        }
        lemma_lex_order_direction(b.host_name, a.host_name, b.host_name.len() as int);
    }
}

} // verus!

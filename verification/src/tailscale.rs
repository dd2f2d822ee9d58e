//! The records `tailscale status --json` describes, their cleaning, and the
//! host commands that query and change the daemon.

use vstd::prelude::*;
use vstd::string::StringExecFns;
use crate::text::{
    decode_lossy, utf8_lossy,
    lemma_without_nul_idempotent, lemma_without_nul_is_nul_free, lemma_without_nul_keeps_nul_free,
    nul_free, strip_nul, without_nul,
};

verus! {

/// One node of the tailnet, as the status report describes it.
#[derive(Clone, Debug)]
pub struct NodeInfo {
    pub id: Option<String>,
    pub host_name: String,
    pub dns_name: Option<String>,
    pub tailscale_ips: Vec<String>,
    pub online: Option<bool>,
    pub exit_node: bool,
    pub exit_node_option: bool,
    pub os: Option<String>,
    pub last_seen: Option<String>,
}

/// The exit node currently in use, as the status report describes it.
#[derive(Clone, Debug)]
pub struct ExitNodeStatus {
    pub id: Option<String>,
    pub online: bool,
    pub tailscale_ips: Vec<String>,
}

/// The whole status report: this machine, its peers keyed by node key, and the
/// exit node in use. Each peer key occurs once (see `wf`).
#[derive(Clone, Debug)]
pub struct TailscaleStatus {
    pub self_node: NodeInfo,
    pub peer: Vec<(String, NodeInfo)>,
    pub exit_node_status: Option<ExitNodeStatus>,
}

/// A node record with every text taken as its characters.
#[verifier::ext_equal]
pub struct NodeInfoView {
    pub id: Option<Seq<char>>,
    pub host_name: Seq<char>,
    pub dns_name: Option<Seq<char>>,
    pub tailscale_ips: Seq<Seq<char>>,
    pub online: Option<bool>,
    pub exit_node: bool,
    pub exit_node_option: bool,
    pub os: Option<Seq<char>>,
    pub last_seen: Option<Seq<char>>,
}

/// An exit-node record with every text taken as its characters.
#[verifier::ext_equal]
pub struct ExitNodeStatusView {
    pub id: Option<Seq<char>>,
    pub online: bool,
    pub tailscale_ips: Seq<Seq<char>>,
}

/// A status report with every text taken as its characters.
#[verifier::ext_equal]
pub struct TailscaleStatusView {
    pub self_node: NodeInfoView,
    pub peer: Seq<(Seq<char>, NodeInfoView)>,
    pub exit_node_status: Option<ExitNodeStatusView>,
}

/// An optional text taken as its characters.
pub open spec fn opt_text(o: Option<String>) -> Option<Seq<char>> {
    match o {
        Some(s) => Some(s@),
        None => None,
    }
}

/// A list of texts taken as characters.
pub open spec fn texts(v: Seq<String>) -> Seq<Seq<char>> {
    v.map_values(|s: String| s@)
}

/// An optional text with its NUL characters removed.
pub open spec fn opt_without_nul(o: Option<Seq<char>>) -> Option<Seq<char>> {
    match o {
        Some(s) => Some(without_nul(s)),
        None => None,
    }
}

impl View for NodeInfo {
    type V = NodeInfoView;

    open spec fn view(&self) -> NodeInfoView {
        NodeInfoView {
            id: opt_text(self.id),
            host_name: self.host_name@,
            dns_name: opt_text(self.dns_name),
            tailscale_ips: texts(self.tailscale_ips@),
            online: self.online,
            exit_node: self.exit_node,
            exit_node_option: self.exit_node_option,
            os: opt_text(self.os),
            last_seen: opt_text(self.last_seen),
        }
    }
}

impl View for ExitNodeStatus {
    type V = ExitNodeStatusView;

    open spec fn view(&self) -> ExitNodeStatusView {
        ExitNodeStatusView {
            id: opt_text(self.id),
            online: self.online,
            tailscale_ips: texts(self.tailscale_ips@),
        }
    }
}

/// A peer entry taken as characters and node view.
pub open spec fn peer_entry_view(e: (String, NodeInfo)) -> (Seq<char>, NodeInfoView) {
    (e.0@, e.1@)
}

/// An optional exit-node record taken as its view.
pub open spec fn opt_exit_view(o: Option<ExitNodeStatus>) -> Option<ExitNodeStatusView> {
    match o {
        Some(e) => Some(e@),
        None => None,
    }
}

impl View for TailscaleStatus {
    type V = TailscaleStatusView;

    open spec fn view(&self) -> TailscaleStatusView {
        TailscaleStatusView {
            self_node: self.self_node@,
            peer: self.peer@.map_values(|e: (String, NodeInfo)| peer_entry_view(e)),
            exit_node_status: opt_exit_view(self.exit_node_status),
        }
    }
}

impl NodeInfoView {
    /// The record after cleaning: NUL removed from the host name, DNS name,
    /// addresses, OS and last-seen time; the node id and flags untouched.
    pub open spec fn sanitized(self) -> NodeInfoView {
        NodeInfoView {
            id: self.id,
            host_name: without_nul(self.host_name),
            dns_name: opt_without_nul(self.dns_name),
            tailscale_ips: self.tailscale_ips.map_values(|s: Seq<char>| without_nul(s)),
            online: self.online,
            exit_node: self.exit_node,
            exit_node_option: self.exit_node_option,
            os: opt_without_nul(self.os),
            last_seen: opt_without_nul(self.last_seen),
        }
    }

    /// No cleaned text of the record holds a NUL.
    pub open spec fn is_clean(self) -> bool {
        &&& nul_free(self.host_name)
        &&& (self.dns_name matches Some(d) ==> nul_free(d))
        &&& (forall|i: int| 0 <= i < self.tailscale_ips.len() ==> nul_free(#[trigger] self.tailscale_ips[i]))
        &&& (self.os matches Some(o) ==> nul_free(o))
        &&& (self.last_seen matches Some(l) ==> nul_free(l))
    }
}

impl TailscaleStatusView {
    /// The report after cleaning: this machine's record and every peer record
    /// cleaned, peer keys and the exit-node record untouched.
    pub open spec fn sanitized(self) -> TailscaleStatusView {
        TailscaleStatusView {
            self_node: self.self_node.sanitized(),
            peer: self.peer.map_values(
                |e: (Seq<char>, NodeInfoView)| (e.0, e.1.sanitized()),
            ),
            exit_node_status: self.exit_node_status,
        }
    }

    /// No two peers share a key.
    pub open spec fn keys_unique(self) -> bool {
        forall|i: int, j: int|
            0 <= i < j < self.peer.len() ==> #[trigger] self.peer[i].0 != #[trigger] self.peer[j].0
    }

    /// Some peer has this key.
    pub open spec fn has_key(self, key: Seq<char>) -> bool {
        exists|i: int| 0 <= i < self.peer.len() && #[trigger] self.peer[i].0 == key
    }
}

/// An optional text with its NUL characters removed.
fn strip_nul_opt(o: &Option<String>) -> (r: Option<String>)
    ensures
        opt_text(r) == opt_without_nul(opt_text(*o)),
{
    match o {
        Some(s) => Some(strip_nul(s.as_str())),
        None => None,
    }
}

/// Removes NUL characters from every text of a list.
fn strip_nul_all(v: &mut Vec<String>)
    ensures
        texts(final(v)@) == texts(old(v)@).map_values(|s: Seq<char>| without_nul(s)),
{
    let n = v.len();
    let mut i: usize = 0;
    while i < n
        invariant
            n == old(v)@.len(),
            v@.len() == n,
            i <= n,
            forall|j: int| 0 <= j < i ==> (#[trigger] v@[j])@ == without_nul(old(v)@[j]@),
            forall|j: int| i <= j < n ==> #[trigger] v@[j] == old(v)@[j],
        decreases n - i,
    {
        let s = strip_nul(v[i].as_str());
        v.set(i, s);
        i = i + 1;
    }
    assert(texts(v@) =~= texts(old(v)@).map_values(|s: Seq<char>| without_nul(s)));
}

impl NodeInfo {
    /// Removes NUL characters from the host name, DNS name, addresses, OS and
    /// last-seen time, so that the texts can be drawn.
    pub fn sanitize(&mut self)
        ensures
            final(self)@ == old(self)@.sanitized(),
    {
        self.host_name = strip_nul(self.host_name.as_str());
        self.dns_name = strip_nul_opt(&self.dns_name);
        strip_nul_all(&mut self.tailscale_ips);
        self.os = strip_nul_opt(&self.os);
        self.last_seen = strip_nul_opt(&self.last_seen);
    }
}

/// Cleans every peer record of a peer list.
fn sanitize_peers(peers: &mut Vec<(String, NodeInfo)>)
    ensures
        final(peers)@.len() == old(peers)@.len(),
        forall|j: int|
            0 <= j < old(peers)@.len() ==> (#[trigger] final(peers)@[j]).0 == old(peers)@[j].0
                && final(peers)@[j].1@ == old(peers)@[j].1@.sanitized(),
{
    let n = peers.len();
    let mut i: usize = 0;
    while i < n
        invariant
            n == old(peers)@.len(),
            peers@.len() == n,
            i <= n,
            forall|j: int|
                0 <= j < i ==> (#[trigger] peers@[j]).0 == old(peers)@[j].0 && peers@[j].1@
                    == old(peers)@[j].1@.sanitized(),
            forall|j: int| i <= j < n ==> #[trigger] peers@[j] == old(peers)@[j],
        decreases n - i,
    {
        let entry = &mut peers[i];
        entry.1.sanitize();
        i = i + 1;
    }
}

impl TailscaleStatus {
    /// Every peer key occurs once.
    pub open spec fn wf(&self) -> bool {
        self@.keys_unique()
    }

    /// A report with no peers yet.
    pub fn new(self_node: NodeInfo, exit_node_status: Option<ExitNodeStatus>) -> (r: Self)
        ensures
            r.wf(),
            r.self_node == self_node,
            r.peer@.len() == 0,
            r.exit_node_status == exit_node_status,
    {
        TailscaleStatus { self_node, peer: Vec::new(), exit_node_status }
    }

    /// Records a peer under its key: a peer already under that key is replaced,
    /// otherwise the peer is added at the end.
    pub fn add_peer(&mut self, key: String, node: NodeInfo)
        requires
            old(self).wf(),
        ensures
            final(self).wf(),
            final(self).self_node == old(self).self_node,
            final(self).exit_node_status == old(self).exit_node_status,
            old(self)@.has_key(key@) ==> exists|i: int|
                0 <= i < old(self)@.peer.len() && old(self)@.peer[i].0 == key@ && final(self)@.peer
                    == old(self)@.peer.update(i, (key@, node@)),
            !old(self)@.has_key(key@) ==> final(self)@.peer == old(self)@.peer.push(
                (key@, node@),
            ),
    {
        let n = self.peer.len();
        let mut i: usize = 0;
        while i < n
            invariant
                *self == *old(self),
                old(self).wf(),
                n == self.peer@.len(),
                i <= n,
                forall|j: int| 0 <= j < i ==> (#[trigger] self.peer@[j]).0@ != key@,
            decreases n - i,
        {
            if self.peer[i].0 == key {
                let ghost before = self@.peer;
                self.peer.set(i, (key, node));
                proof {
                    assert(self@.peer =~= before.update(i as int, (key@, node@)));
                    assert(before[i as int].0 == key@);
                    assert forall|a: int, b: int| 0 <= a < b < self@.peer.len() implies
                        #[trigger] self@.peer[a].0 != #[trigger] self@.peer[b].0 by {
                        assert(before[a].0 != before[b].0);
                    }
                }
                return;
            }
            i = i + 1;
        }
        let ghost before = self@.peer;
        self.peer.push((key, node));
        proof {
            assert(self@.peer =~= before.push((key@, node@)));
            assert(!old(self)@.has_key(key@)) by {
                assert(before == old(self)@.peer);
                if old(self)@.has_key(key@) {
                    let k = choose|k: int| 0 <= k < before.len() && #[trigger] before[k].0 == key@;
                    assert(before[k] == peer_entry_view(old(self).peer@[k]));
                }
            }
            assert forall|a: int, b: int| 0 <= a < b < self@.peer.len() implies
                #[trigger] self@.peer[a].0 != #[trigger] self@.peer[b].0 by {
                if b < before.len() {
                    assert(before[a].0 != before[b].0);
                } else {
                    assert(before[a] == peer_entry_view(old(self).peer@[a]));
                }
            }
        }
    }

    /// Removes NUL characters from this machine's record and every peer record.
    pub fn sanitize(&mut self)
        ensures
            final(self)@ == old(self)@.sanitized(),
    {
        self.self_node.sanitize();
        sanitize_peers(&mut self.peer);
        assert(self@.peer =~= old(self)@.sanitized().peer);
    }
}

/// An optional text with NUL removed holds no NUL.
proof fn lemma_opt_without_nul_clean(o: Option<Seq<char>>)
    ensures
        opt_without_nul(o) matches Some(t) ==> nul_free(t),
        opt_without_nul(opt_without_nul(o)) == opt_without_nul(o),
{
    if let Some(t) = o {
        lemma_without_nul_is_nul_free(t);
        lemma_without_nul_idempotent(t);
    }
}

/// After cleaning, no cleaned text of a node record holds a NUL.
pub proof fn lemma_sanitized_is_clean(v: NodeInfoView)
    ensures
        v.sanitized().is_clean(),
{
    lemma_without_nul_is_nul_free(v.host_name);
    lemma_opt_without_nul_clean(v.dns_name);
    lemma_opt_without_nul_clean(v.os);
    lemma_opt_without_nul_clean(v.last_seen);
    assert forall|i: int| 0 <= i < v.sanitized().tailscale_ips.len() implies nul_free(
        #[trigger] v.sanitized().tailscale_ips[i],
    ) by {
        lemma_without_nul_is_nul_free(v.tailscale_ips[i]);
    }
}

/// Cleaning never touches the node id or the flags, and leaves a record
/// without NUL in its cleaned texts exactly as it was.
pub proof fn lemma_sanitize_keeps_clean_records(v: NodeInfoView)
    ensures
        v.sanitized().id == v.id,
        v.sanitized().online == v.online,
        v.sanitized().exit_node == v.exit_node,
        v.sanitized().exit_node_option == v.exit_node_option,
        v.sanitized().tailscale_ips.len() == v.tailscale_ips.len(),
        v.is_clean() ==> v.sanitized() == v,
{
    if v.is_clean() {
        lemma_without_nul_keeps_nul_free(v.host_name);
        if let Some(d) = v.dns_name {
            lemma_without_nul_keeps_nul_free(d);
        }
        if let Some(o) = v.os {
            lemma_without_nul_keeps_nul_free(o);
        }
        if let Some(l) = v.last_seen {
            lemma_without_nul_keeps_nul_free(l);
        }
        assert forall|i: int| 0 <= i < v.tailscale_ips.len() implies #[trigger] v.sanitized().tailscale_ips[i]
            == v.tailscale_ips[i] by {
            lemma_without_nul_keeps_nul_free(v.tailscale_ips[i]);
        }
        assert(v.sanitized().tailscale_ips =~= v.tailscale_ips);
        assert(v.sanitized() =~= v);
    }
}

/// Cleaning a node record twice is cleaning it once.
pub proof fn lemma_sanitize_idempotent(v: NodeInfoView)
    ensures
        v.sanitized().sanitized() == v.sanitized(),
{
    lemma_without_nul_idempotent(v.host_name);
    lemma_opt_without_nul_clean(v.dns_name);
    lemma_opt_without_nul_clean(v.os);
    lemma_opt_without_nul_clean(v.last_seen);
    assert forall|i: int| 0 <= i < v.tailscale_ips.len() implies
        #[trigger] v.sanitized().sanitized().tailscale_ips[i] == v.sanitized().tailscale_ips[i] by {
        lemma_without_nul_idempotent(v.tailscale_ips[i]);
    }
    assert(v.sanitized().sanitized().tailscale_ips =~= v.sanitized().tailscale_ips);
    assert(v.sanitized().sanitized() =~= v.sanitized());
}

/// Cleaning a report twice is cleaning it once, and cleaning keeps the peer
/// keys, so a report whose keys were unique still has unique keys.
pub proof fn lemma_status_sanitize_idempotent_keeps_keys(v: TailscaleStatusView)
    ensures
        v.sanitized().sanitized() == v.sanitized(),
        v.sanitized().peer.len() == v.peer.len(),
        forall|i: int| 0 <= i < v.peer.len() ==> #[trigger] v.sanitized().peer[i].0 == v.peer[i].0,
        v.keys_unique() ==> v.sanitized().keys_unique(),
{
    lemma_sanitize_idempotent(v.self_node);
    assert forall|i: int| 0 <= i < v.peer.len() implies
        #[trigger] v.sanitized().sanitized().peer[i] == v.sanitized().peer[i] by {
        lemma_sanitize_idempotent(v.peer[i].1);
    }
    assert(v.sanitized().sanitized().peer =~= v.sanitized().peer);
    assert(v.sanitized().sanitized() =~= v.sanitized());
    if v.keys_unique() {
        assert forall|a: int, b: int| 0 <= a < b < v.sanitized().peer.len() implies
            #[trigger] v.sanitized().peer[a].0 != #[trigger] v.sanitized().peer[b].0 by {
            assert(v.peer[a].0 != v.peer[b].0);
        }
    }
}

/// A program to run on the host and its arguments.
#[derive(Clone, Debug)]
pub struct HostCommand {
    pub program: String,
    pub args: Vec<String>,
}

/// The helper that runs a command on the host from inside the container.
pub open spec fn host_exec_program() -> Seq<char> {
    "distrobox-host-exec"@
}

/// Asks the host's daemon for its status as JSON.
pub fn status_command() -> (c: HostCommand)
    ensures
        c.program@ == host_exec_program(),
        texts(c.args@) == seq!["tailscale"@, "status"@, "--json"@],
{
    let mut args: Vec<String> = Vec::new();
    args.push("tailscale".to_owned());
    args.push("status".to_owned());
    args.push("--json".to_owned());
    let c = HostCommand { program: "distrobox-host-exec".to_owned(), args };
    assert(texts(c.args@) =~= seq!["tailscale"@, "status"@, "--json"@]);
    c
}

/// Routes this machine's traffic through the exit node at `node_ip`.
pub fn exit_node_command(node_ip: &str) -> (c: HostCommand)
    ensures
        c.program@ == host_exec_program(),
        texts(c.args@) == seq!["tailscale"@, "up"@, "--exit-node"@, node_ip@],
{
    let mut args: Vec<String> = Vec::new();
    args.push("tailscale".to_owned());
    args.push("up".to_owned());
    args.push("--exit-node".to_owned());
    args.push(node_ip.to_owned());
    let c = HostCommand { program: "distrobox-host-exec".to_owned(), args };
    assert(texts(c.args@) =~= seq!["tailscale"@, "up"@, "--exit-node"@, node_ip@]);
    c
}

/// Stops routing this machine's traffic through an exit node.
pub fn clear_exit_node_command() -> (c: HostCommand)
    ensures
        c.program@ == host_exec_program(),
        texts(c.args@) == seq!["tailscale"@, "up"@, "--exit-node="@],
{
    let mut args: Vec<String> = Vec::new();
    args.push("tailscale".to_owned());
    args.push("up".to_owned());
    args.push("--exit-node=".to_owned());
    let c = HostCommand { program: "distrobox-host-exec".to_owned(), args };
    assert(texts(c.args@) =~= seq!["tailscale"@, "up"@, "--exit-node="@]);
    c
}

/// Which daemon command ran: the status query or `tailscale up`.
#[derive(Clone, Copy, Debug, PartialEq, Eq, Structural)]
pub enum TailscaleOp {
    Status,
    Up,
}

/// The text that opens the error reported when a command fails.
pub open spec fn failure_prefix(op: TailscaleOp) -> Seq<char> {
    match op {
        TailscaleOp::Status => "Tailscale command failed: "@,
        TailscaleOp::Up => "Tailscale up failed: "@,
    }
}

/// The error reported when a command fails, given its error output as text.
pub fn failure_message(op: TailscaleOp, stderr_text: &str) -> (m: String)
    ensures
        m@ == failure_prefix(op) + stderr_text@,
{
    let mut m = match op {
        TailscaleOp::Status => "Tailscale command failed: ".to_owned(),
        TailscaleOp::Up => "Tailscale up failed: ".to_owned(),
    };
    m.append(stderr_text);
    m
}

/// Judges a finished command: success when it exited successfully, otherwise
/// the error that carries its error output (decoded leniently from UTF-8).
pub fn check_output(op: TailscaleOp, success: bool, stderr: &[u8]) -> (r: Result<(), String>)
    ensures
        success ==> r is Ok,
        !success ==> (r matches Err(m) && m@ == failure_prefix(op) + utf8_lossy(stderr@)),
{
    if success {
        Ok(())
    } else {
        let text = decode_lossy(stderr);
        Err(failure_message(op, text.as_str()))
    }
}

} // verus!

//! The decisions the node list makes for each row and each frame: which icon,
//! which button, which colours, what a click does, how fast to redraw.

use vstd::prelude::*;
use vstd::string::StringExecFns;
use crate::tailscale::{
    clear_exit_node_command, exit_node_command, host_exec_program, opt_text, texts, HostCommand,
    NodeInfo, NodeInfoView,
};
use crate::text::same_text;

verus! {

/// The operating-system family whose icon a row shows.
#[derive(Clone, Copy, Debug, PartialEq, Eq, Structural)]
pub enum OsKind {
    Linux,
    Windows,
    Apple,
    Android,
}

/// The icon family for a reported OS name; unknown or missing names get the Linux icon.
pub open spec fn os_kind_of(os: Option<Seq<char>>) -> OsKind {
    match os {
        Some(s) => if s == "linux"@ {
            OsKind::Linux
        } else if s == "windows"@ {
            OsKind::Windows
        } else if s == "macos"@ || s == "darwin"@ || s == "ios"@ {
            OsKind::Apple
        } else if s == "android"@ {
            OsKind::Android
        } else {
            OsKind::Linux
        },
        None => OsKind::Linux,
    }
}

/// The icon family for a node's reported OS.
pub fn os_kind(os: &Option<String>) -> (k: OsKind)
    ensures
        k == os_kind_of(opt_text(*os)),
{
    match os {
        Some(s) => {
            let t = s.as_str();
            if same_text(t, "linux") {
                OsKind::Linux
            } else if same_text(t, "windows") {
                OsKind::Windows
            } else if same_text(t, "macos") || same_text(t, "darwin") || same_text(t, "ios") {
                OsKind::Apple
            } else if same_text(t, "android") {
                OsKind::Android
            } else {
                OsKind::Linux
            }
        },
        None => OsKind::Linux,
    }
}

/// What the right end of a row offers.
#[derive(Clone, Copy, Debug, PartialEq, Eq, Structural)]
pub enum RowAction {
    /// A button that routes traffic through this peer.
    UseExitNode,
    /// A button that stops using the exit node.
    StopExitNode,
    /// A label marking this machine.
    ShowMe,
    /// Nothing.
    Nothing,
}

/// A button appears for a peer that offers to be an exit node, and for this
/// machine while it is one; it stops the exit node when the node is one, and
/// otherwise starts using it. This machine without a button gets its label.
pub open spec fn row_action_of(is_self: bool, exit_node: bool, exit_node_option: bool) -> RowAction {
    if (exit_node_option && !is_self) || (is_self && exit_node) {
        if exit_node {
            RowAction::StopExitNode
        } else {
            RowAction::UseExitNode
        }
    } else if is_self {
        RowAction::ShowMe
    } else {
        RowAction::Nothing
    }
}

/// What the right end of a node's row offers.
pub fn row_action(node: &NodeInfo, is_self: bool) -> (a: RowAction)
    ensures
        a == row_action_of(is_self, node.exit_node, node.exit_node_option),
{
    if (node.exit_node_option && !is_self) || (is_self && node.exit_node) {
        if node.exit_node {
            RowAction::StopExitNode
        } else {
            RowAction::UseExitNode
        }
    } else if is_self {
        RowAction::ShowMe
    } else {
        RowAction::Nothing
    }
}

/// The command a row's button runs, given the row's address; none where the
/// row has no button.
pub fn button_command(action: RowAction, ip: &str) -> (c: Option<HostCommand>)
    ensures
        action == RowAction::StopExitNode ==> (c matches Some(cmd) && cmd.program@
            == host_exec_program() && texts(cmd.args@) == seq![
            "tailscale"@,
            "up"@,
            "--exit-node="@,
        ]),
        action == RowAction::UseExitNode ==> (c matches Some(cmd) && cmd.program@
            == host_exec_program() && texts(cmd.args@) == seq![
            "tailscale"@,
            "up"@,
            "--exit-node"@,
            ip@,
        ]),
        action == RowAction::ShowMe || action == RowAction::Nothing ==> c is None,
{
    match action {
        RowAction::StopExitNode => Some(clear_exit_node_command()),
        RowAction::UseExitNode => Some(exit_node_command(ip)),
        _ => None,
    }
}

/// A row shows a node as online unless the report says it is offline.
pub open spec fn shown_online_of(n: NodeInfoView) -> bool {
    match n.online {
        Some(b) => b,
        None => true,
    }
}

/// Whether a row shows its node as online.
pub fn shown_online(node: &NodeInfo) -> (b: bool)
    ensures
        b == shown_online_of(node@),
{
    match node.online {
        Some(b) => b,
        None => true,
    }
}

/// The text a row is identified by: the node id, or the host name without one.
pub open spec fn row_label_of(n: NodeInfoView) -> Seq<char> {
    match n.id {
        Some(i) => i,
        None => n.host_name,
    }
}

/// The text a node's row is identified by.
pub fn row_label(node: &NodeInfo) -> (s: String)
    ensures
        s@ == row_label_of(node@),
{
    match &node.id {
        Some(i) => i.clone(),
        None => node.host_name.clone(),
    }
}

/// The text the button of a row is identified by.
pub fn button_label(row_label: &str) -> (s: String)
    ensures
        s@ == "btn-"@ + row_label@,
{
    let mut s = "btn-".to_owned();
    s.append(row_label);
    s
}

/// The address a row shows and copies: the node's first address, or the empty
/// text when it has none.
pub open spec fn primary_ip_of(n: NodeInfoView) -> Seq<char> {
    if n.tailscale_ips.len() > 0 {
        n.tailscale_ips[0]
    } else {
        Seq::empty()
    }
}

/// The address a node's row shows and copies.
pub fn primary_ip(node: &NodeInfo) -> (s: String)
    ensures
        s@ == primary_ip_of(node@),
{
    if node.tailscale_ips.len() > 0 {
        node.tailscale_ips[0].clone()
    } else {
        String::new()
    }
}

/// A colour as red, green and blue.
#[derive(Clone, Copy, Debug, PartialEq, Eq, Structural)]
pub struct Rgb {
    pub r: u8,
    pub g: u8,
    pub b: u8,
}

/// The background of a row: green for the exit node in use, lighter under the
/// pointer, darker for an offline node.
pub fn row_background(online: bool, hovered: bool, exit_node: bool) -> (c: Rgb)
    ensures
        exit_node ==> c == (Rgb { r: 0, g: 80, b: 0 }),
        !exit_node && hovered ==> c == (Rgb { r: 70, g: 70, b: 70 }),
        !exit_node && !hovered && online ==> c == (Rgb { r: 50, g: 50, b: 50 }),
        !exit_node && !hovered && !online ==> c == (Rgb { r: 35, g: 35, b: 35 }),
{
    if exit_node {
        Rgb { r: 0, g: 80, b: 0 }
    } else if hovered {
        Rgb { r: 70, g: 70, b: 70 }
    } else if online {
        Rgb { r: 50, g: 50, b: 50 }
    } else {
        Rgb { r: 35, g: 35, b: 35 }
    }
}

/// The background of a row's button: red to stop, green to use, brighter under
/// the pointer.
pub fn button_background(stop: bool, hovered: bool) -> (c: Rgb)
    ensures
        stop && hovered ==> c == (Rgb { r: 200, g: 0, b: 0 }),
        stop && !hovered ==> c == (Rgb { r: 150, g: 0, b: 0 }),
        !stop && hovered ==> c == (Rgb { r: 0, g: 160, b: 0 }),
        !stop && !hovered ==> c == (Rgb { r: 0, g: 120, b: 0 }),
{
    if stop {
        if hovered {
            Rgb { r: 200, g: 0, b: 0 }
        } else {
            Rgb { r: 150, g: 0, b: 0 }
        }
    } else if hovered {
        Rgb { r: 0, g: 160, b: 0 }
    } else {
        Rgb { r: 0, g: 120, b: 0 }
    }
}

/// The colour of a row's status dot: green online, grey offline.
pub fn status_dot(online: bool) -> (c: Rgb)
    ensures
        online ==> c == (Rgb { r: 0, g: 255, b: 0 }),
        !online ==> c == (Rgb { r: 150, g: 150, b: 150 }),
{
    if online {
        Rgb { r: 0, g: 255, b: 0 }
    } else {
        Rgb { r: 150, g: 150, b: 150 }
    }
}

/// A click on a row copies its address when the row has one.
pub fn copies_ip(hovered: bool, mouse_pressed: bool, ip: &str) -> (b: bool)
    ensures
        b == (hovered && mouse_pressed && ip@.len() > 0),
{
    hovered && mouse_pressed && !ip.is_empty()
}

/// The notice shown after an address was copied.
pub fn copied_message(ip: &str) -> (s: String)
    ensures
        s@ == "Copied "@ + ip@ + " to clipboard"@,
{
    let mut s = "Copied ".to_owned();
    s.append(ip);
    s.append(" to clipboard");
    s
}

/// The text shown in place of the list when the last command failed.
pub fn error_text(err: &str) -> (s: String)
    ensures
        s@ == "Error: "@ + err@,
{
    let mut s = "Error: ".to_owned();
    s.append(err);
    s
}

/// What fills the area below the search bar.
#[derive(Clone, Copy, Debug, PartialEq, Eq, Structural)]
pub enum Screen {
    /// The first report is still on its way.
    Loading,
    /// The last command failed; its error is shown.
    Failure,
    /// The node list.
    Nodes,
    /// Nothing.
    Blank,
}

/// Loading until a first report arrives; then an error takes precedence over
/// the list.
pub open spec fn screen_of(loading: bool, has_status: bool, has_error: bool) -> Screen {
    if loading && !has_status {
        Screen::Loading
    } else if has_error {
        Screen::Failure
    } else if has_status {
        Screen::Nodes
    } else {
        Screen::Blank
    }
}

/// What fills the area below the search bar.
pub fn screen_for(loading: bool, has_status: bool, has_error: bool) -> (s: Screen)
    ensures
        s == screen_of(loading, has_status, has_error),
{
    if loading && !has_status {
        Screen::Loading
    } else if has_error {
        Screen::Failure
    } else if has_status {
        Screen::Nodes
    } else {
        Screen::Blank
    }
}

/// How long a notice stays up, in milliseconds.
pub const NOTICE_MILLIS: u64 = 3000;

/// A notice stays up until more than three seconds have passed.
pub fn notice_visible(elapsed_ms: u64) -> (b: bool)
    ensures
        b == (elapsed_ms <= NOTICE_MILLIS),
{
    elapsed_ms <= NOTICE_MILLIS
}

/// The redraw rate: one frame a second when the window is not focused, or when
/// the pointer has left it and nothing happened for over two seconds; fifteen
/// when nothing happened for over five seconds and nothing is loading; sixty
/// otherwise.
pub open spec fn target_fps_of(focused: bool, cursor_on_screen: bool, idle_ms: u64, loading: bool) -> u32 {
    if !focused {
        1
    } else if !cursor_on_screen && idle_ms > 2000 {
        1
    } else if idle_ms > 5000 && !loading {
        15
    } else {
        60
    }
}

/// The redraw rate for the current frame, given how long ago the last input was.
pub fn target_fps(focused: bool, cursor_on_screen: bool, idle_ms: u64, loading: bool) -> (fps: u32)
    ensures
        fps == target_fps_of(focused, cursor_on_screen, idle_ms, loading),
{
    if !focused {
        1
    } else if !cursor_on_screen && idle_ms > 2000 {
        1
    } else if idle_ms > 5000 && !loading {
        15
    } else {
        60
    }
}

/// Which reported OS names select each icon family: "windows" the Windows
/// icon; "macos", "darwin" and "ios" the Apple icon; "android" the Android
/// icon; every other name, and no name, the Linux icon.
pub proof fn lemma_os_families(s: Seq<char>)
    ensures
        os_kind_of(Some(s)) == OsKind::Windows <==> s == "windows"@,
        os_kind_of(Some(s)) == OsKind::Apple <==> (s == "macos"@ || s == "darwin"@ || s == "ios"@),
        os_kind_of(Some(s)) == OsKind::Android <==> s == "android"@,
        os_kind_of(Some(s)) == OsKind::Linux <==> !(s == "windows"@ || s == "macos"@ || s == "darwin"@
            || s == "ios"@ || s == "android"@),
        os_kind_of(None) == OsKind::Linux,
{
    reveal_strlit("linux");
    reveal_strlit("windows");
    reveal_strlit("macos");
    reveal_strlit("darwin");
    reveal_strlit("ios");
    reveal_strlit("android");
    assert("linux"@ != "windows"@) by { assert("linux"@.len() != "windows"@.len()); }
    assert("linux"@ != "macos"@) by { assert("linux"@[0] != "macos"@[0]); }
    assert("linux"@ != "darwin"@) by { assert("linux"@.len() != "darwin"@.len()); }
    assert("linux"@ != "ios"@) by { assert("linux"@.len() != "ios"@.len()); }
    assert("linux"@ != "android"@) by { assert("linux"@.len() != "android"@.len()); }
    assert("windows"@ != "macos"@) by { assert("windows"@.len() != "macos"@.len()); }
    assert("windows"@ != "darwin"@) by { assert("windows"@.len() != "darwin"@.len()); }
    assert("windows"@ != "ios"@) by { assert("windows"@.len() != "ios"@.len()); }
    assert("windows"@ != "android"@) by { assert("windows"@[0] != "android"@[0]); }
    assert("macos"@ != "android"@) by { assert("macos"@.len() != "android"@.len()); }
    assert("darwin"@ != "android"@) by { assert("darwin"@.len() != "android"@.len()); }
    assert("ios"@ != "android"@) by { assert("ios"@.len() != "android"@.len()); }
}

/// A row has a button exactly for a peer that offers to be an exit node and for
/// this machine while it is the exit node; the button stops the exit node
/// exactly when the row's node is the exit node; only this machine is labelled
/// as itself, and only when it has no button.
pub proof fn lemma_row_action_rules(is_self: bool, exit_node: bool, exit_node_option: bool)
    ensures
        ({
            let a = row_action_of(is_self, exit_node, exit_node_option);
            &&& (a == RowAction::UseExitNode || a == RowAction::StopExitNode) <==> ((!is_self
                && exit_node_option) || (is_self && exit_node))
            &&& a == RowAction::StopExitNode ==> exit_node
            &&& a == RowAction::UseExitNode ==> !exit_node
            &&& a == RowAction::ShowMe <==> (is_self && !exit_node)
            &&& a == RowAction::Nothing <==> (!is_self && !exit_node_option)
        }),
{
}

/// Row fields: the online dot is lit unless the node is reported offline; the
/// address is the first one, or none; the row is identified by the node id,
/// or by the host name without one.
pub proof fn lemma_row_fields(n: NodeInfoView)
    ensures
        shown_online_of(n) <==> n.online != Some(false),
        n.tailscale_ips.len() > 0 ==> primary_ip_of(n) == n.tailscale_ips[0],
        n.tailscale_ips.len() == 0 ==> primary_ip_of(n).len() == 0,
        n.id matches Some(i) ==> row_label_of(n) == i,
        n.id is None ==> row_label_of(n) == n.host_name,
{
}

/// The screen: loading only before the first report; otherwise an error takes
/// precedence; the list only with a report and no error.
pub proof fn lemma_screen_rules(loading: bool, has_status: bool, has_error: bool)
    ensures
        screen_of(loading, has_status, has_error) == Screen::Loading <==> (loading && !has_status),
        screen_of(loading, has_status, has_error) == Screen::Failure <==> (has_error && !(loading
            && !has_status)),
        screen_of(loading, has_status, has_error) == Screen::Nodes <==> (has_status && !has_error),
        screen_of(loading, has_status, has_error) == Screen::Blank <==> (!loading && !has_status
            && !has_error),
{
}

/// The redraw rate is one, fifteen or sixty frames a second; one whenever the
/// window is unfocused; sixty while focused within two seconds of the last
/// input; and a longer idle time never raises it.
pub proof fn lemma_target_fps_rules(focused: bool, cursor_on_screen: bool, idle_ms: u64, later_ms: u64, loading: bool)
    requires
        idle_ms <= later_ms,
    ensures
        target_fps_of(focused, cursor_on_screen, idle_ms, loading) == 1 || target_fps_of(
            focused,
            cursor_on_screen,
            idle_ms,
            loading,
        ) == 15 || target_fps_of(focused, cursor_on_screen, idle_ms, loading) == 60,
        !focused ==> target_fps_of(focused, cursor_on_screen, idle_ms, loading) == 1,
        focused && idle_ms <= 2000 ==> target_fps_of(focused, cursor_on_screen, idle_ms, loading)
            == 60,
        focused && loading && cursor_on_screen ==> target_fps_of(focused, cursor_on_screen, idle_ms, loading) == 60,
        target_fps_of(focused, cursor_on_screen, later_ms, loading) <= target_fps_of(
            focused,
            cursor_on_screen,
            idle_ms,
            loading,
        ),
{
}

} // verus!

//! The state the node browser shares between its drawing loop and its
//! background work, and how each event changes it.

use vstd::prelude::*;
use crate::tailscale::TailscaleStatus;
use crate::text::{pop_char, push_char};
use crate::ui::{copied_message, screen_for, screen_of, Screen};

verus! {

/// A key the search bar reacts to.
#[derive(Clone, Copy, Debug, PartialEq, Eq, Structural)]
pub enum SearchKey {
    /// A typed character.
    Typed(char),
    /// Deletes the last character.
    Backspace,
    /// Clears the search text.
    Escape,
}

/// Characters the search bar accepts: printable ASCII, space to tilde.
pub open spec fn is_search_char_spec(c: char) -> bool {
    ' ' <= c && c <= '~'
}

/// Whether the search bar accepts a typed character.
pub fn is_search_char(c: char) -> (b: bool)
    ensures
        b == is_search_char_spec(c),
        b == (' ' <= c && c <= '~'),
{
    ' ' <= c && c <= '~'
}

/// The search text after a key.
pub open spec fn next_query(q: Seq<char>, key: SearchKey) -> Seq<char> {
    match key {
        SearchKey::Typed(c) => if is_search_char_spec(c) {
            q.push(c)
        } else {
            q
        },
        SearchKey::Backspace => if q.len() > 0 {
            q.drop_last()
        } else {
            q
        },
        SearchKey::Escape => Seq::empty(),
    }
}

/// Whether a key marks the data as changed: every key but a refused character.
pub open spec fn key_marks_change(key: SearchKey) -> bool {
    match key {
        SearchKey::Typed(c) => is_search_char_spec(c),
        _ => true,
    }
}

/// What the browser knows: the last report, whether a command is running, the
/// last error, a notice to show, the search text, and whether anything changed
/// since the last frame.
#[derive(Clone, Debug)]
pub struct AppState {
    pub status: Option<TailscaleStatus>,
    pub loading: bool,
    pub error: Option<String>,
    pub status_msg: Option<String>,
    pub search_query: String,
    pub data_changed: bool,
}

impl AppState {
    /// What fills the area below the search bar in this state.
    pub open spec fn screen_spec(&self) -> Screen {
        screen_of(self.loading, self.status is Some, self.error is Some)
    }

    /// What fills the area below the search bar in this state.
    pub fn screen(&self) -> (s: Screen)
        ensures
            s == self.screen_spec(),
    {
        screen_for(self.loading, self.status.is_some(), self.error.is_some())
    }

    /// The state at start-up: loading, with nothing known yet.
    pub fn new() -> (s: Self)
        ensures
            s.status is None,
            s.loading,
            s.error is None,
            s.status_msg is None,
            s.search_query@ == Seq::<char>::empty(),
            !s.data_changed,
    {
        AppState {
            status: None,
            loading: true,
            error: None,
            status_msg: None,
            search_query: String::new(),
            data_changed: false,
        }
    }

    /// Applies a key to the search text.
    pub fn handle_key(&mut self, key: SearchKey)
        ensures
            final(self).search_query@ == next_query(old(self).search_query@, key),
            final(self).data_changed == (old(self).data_changed || key_marks_change(key)),
            final(self).status == old(self).status,
            final(self).loading == old(self).loading,
            final(self).error == old(self).error,
            final(self).status_msg == old(self).status_msg,
    {
        match key {
            SearchKey::Typed(c) => {
                if is_search_char(c) {
                    push_char(&mut self.search_query, c);
                    self.data_changed = true;
                }
            },
            SearchKey::Backspace => {
                let _ = pop_char(&mut self.search_query);
                self.data_changed = true;
            },
            SearchKey::Escape => {
                self.search_query = String::new();
                self.data_changed = true;
            },
        }
    }

    /// Records the outcome of a status query: a report replaces the old one and
    /// clears the error; a failure keeps the old report and records the error.
    pub fn record_refresh(&mut self, result: Result<TailscaleStatus, String>)
        ensures
            !final(self).loading,
            final(self).data_changed,
            final(self).status_msg == old(self).status_msg,
            final(self).search_query == old(self).search_query,
            result matches Ok(s) ==> final(self).status == Some(s) && final(self).error is None,
            result matches Err(e) ==> final(self).status == old(self).status && final(self).error
                == Some(e),
            result is Ok ==> final(self).screen_spec() == Screen::Nodes,
            result is Err ==> final(self).screen_spec() == Screen::Failure,
    {
        match result {
            Ok(s) => {
                self.status = Some(s);
                self.error = None;
            },
            Err(e) => {
                self.error = Some(e);
            },
        }
        self.loading = false;
        self.data_changed = true;
    }

    /// Marks an exit-node change as running.
    pub fn begin_exit_node_change(&mut self)
        ensures
            final(self).loading,
            final(self).status == old(self).status,
            final(self).error == old(self).error,
            final(self).status_msg == old(self).status_msg,
            final(self).search_query == old(self).search_query,
            final(self).data_changed == old(self).data_changed,
    {
        self.loading = true;
    }

    /// Records a failed exit-node change.
    pub fn exit_node_change_failed(&mut self, msg: String)
        ensures
            !final(self).loading,
            final(self).error == Some(msg),
            final(self).status == old(self).status,
            final(self).status_msg == old(self).status_msg,
            final(self).search_query == old(self).search_query,
            final(self).data_changed == old(self).data_changed,
    {
        self.error = Some(msg);
        self.loading = false;
    }

    /// Records that an address was copied, so that the notice is shown.
    pub fn record_copy(&mut self, ip: &str)
        ensures
            final(self).status_msg matches Some(m) && m@ == "Copied "@ + ip@ + " to clipboard"@,
            final(self).data_changed,
            final(self).status == old(self).status,
            final(self).loading == old(self).loading,
            final(self).error == old(self).error,
            final(self).search_query == old(self).search_query,
    {
        self.status_msg = Some(copied_message(ip));
        self.data_changed = true;
    }

    /// Hands the frame the pending notice and whether anything changed, and
    /// resets both.
    pub fn take_frame_signals(&mut self) -> (r: (Option<String>, bool))
        ensures
            r.0 == old(self).status_msg,
            r.1 == old(self).data_changed,
            final(self).status_msg is None,
            !final(self).data_changed,
            final(self).status == old(self).status,
            final(self).loading == old(self).loading,
            final(self).error == old(self).error,
            final(self).search_query == old(self).search_query,
    {
        let msg = self.status_msg.take();
        let changed = self.data_changed;
        self.data_changed = false;
        (msg, changed)
    }
}

/// Deleting right after typing a character the search bar accepts gives back
/// the search text as it was.
pub proof fn lemma_backspace_undoes_typing(q: Seq<char>, c: char)
    requires
        is_search_char_spec(c),
    ensures
        next_query(next_query(q, SearchKey::Typed(c)), SearchKey::Backspace) == q,
{
    assert(q.push(c).drop_last() =~= q);
}

/// Escape leaves an empty search text whatever came before, and a refused
/// character leaves the text unchanged.
pub proof fn lemma_escape_clears_and_refused_keys_keep(q: Seq<char>, c: char)
    ensures
        next_query(q, SearchKey::Escape).len() == 0,
        !is_search_char_spec(c) ==> next_query(q, SearchKey::Typed(c)) == q,
{
}

/// Every character from space to tilde (code points 32 to 126), digits,
/// letters and punctuation alike, is appended when typed and marks a change.
pub proof fn lemma_printable_ascii_is_typed(q: Seq<char>, c: char)
    requires
        ' ' <= c && c <= '~',
    ensures
        next_query(q, SearchKey::Typed(c)) == q.push(c),
        next_query(q, SearchKey::Typed(c)).len() == q.len() + 1,
        next_query(q, SearchKey::Typed(c)).last() == c,
        key_marks_change(SearchKey::Typed(c)),
{
}

/// Every character outside space to tilde is ignored: the search text stays as
/// it was and nothing is marked changed.
pub proof fn lemma_other_chars_ignored(q: Seq<char>, c: char)
    requires
        !(' ' <= c && c <= '~'),
    ensures
        next_query(q, SearchKey::Typed(c)) == q,
        !key_marks_change(SearchKey::Typed(c)),
{
}

/// Backspace removes exactly the last character of a non-empty search text and
/// keeps the rest; on an empty one it does nothing. Either way it marks a change.
pub proof fn lemma_backspace_removes_last(q: Seq<char>)
    ensures
        q.len() > 0 ==> next_query(q, SearchKey::Backspace).len() == q.len() - 1
            && next_query(q, SearchKey::Backspace) + seq![q.last()] == q,
        q.len() == 0 ==> next_query(q, SearchKey::Backspace) == q,
        key_marks_change(SearchKey::Backspace),
        key_marks_change(SearchKey::Escape),
{
    if q.len() > 0 {
        assert(q.drop_last() + seq![q.last()] =~= q);
    }
}

/// Typing a search for an address (digits and dots) builds exactly that text.
pub proof fn lemma_typing_builds_text(q: Seq<char>, typed: Seq<char>)
    requires
        forall|i: int| 0 <= i < typed.len() ==> ' ' <= #[trigger] typed[i] && typed[i] <= '~',
    ensures
        typed_query(q, typed) == q + typed,
    decreases typed.len(),
{
    if typed.len() > 0 {
        lemma_typing_builds_text(q, typed.drop_last());
        assert(q + typed.drop_last() + seq![typed.last()] =~= q + typed);
    } else {
        assert(q + typed =~= q);
    }
}

/// The search text after typing each character of `typed` in turn.
pub open spec fn typed_query(q: Seq<char>, typed: Seq<char>) -> Seq<char>
    decreases typed.len(),
{
    if typed.len() == 0 {
        q
    } else {
        next_query(typed_query(q, typed.drop_last()), SearchKey::Typed(typed.last()))
    }
}

} // verus!

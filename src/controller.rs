//! The selection controller: list cursor, input mode, and the decision of
//! when the user's choice is final, driven one abstract key at a time.
use vstd::prelude::*;
use crate::completer::{Completer, completion_step, finalizable, strip_trailing_commas};
use crate::configstore::{ConfigStore, SshItem, refers_to};
use crate::searcher::{Searcher, filter_hosts};
use crate::text::chars_of;
use vstd::string::StrSliceExecFns;

verus! {

/// Which editor receives typed characters.
#[derive(Clone, Copy, Debug, PartialEq, Eq, Structural)]
pub enum Mode {
    Searching,
    ComposingJumps,
}

/// An abstract key event.
#[derive(Clone, Copy, Debug, PartialEq, Eq, Structural)]
pub enum Key {
    Cancel,
    Char(char),
    Delete,
    Up,
    Down,
    Confirm,
    Completion,
    Other,
}

/// What the event loop does after a key has been handled.
#[derive(Clone, Copy, Debug, PartialEq, Eq, Structural)]
pub enum Step {
    /// Keep reading keys.
    Continue,
    /// Stop without a selection.
    Quit,
    /// Stop and launch the connection that `App::launch_target` describes.
    Launch,
}

/// The cursor after one rotation over a list of length `n > 0`.
pub open spec fn rotated(selected: Option<usize>, n: int, forward: bool) -> int {
    match selected {
        Some(i) => if forward {
            (i + 1) % n
        } else {
            (i + n - 1) % n
        },
        None => 0,
    }
}

/// `t` is the text of `s` up to its first space (all of `s` without one).
pub open spec fn is_first_token(t: Seq<char>, s: Seq<char>) -> bool {
    &&& t.len() <= s.len()
    &&& s.subrange(0, t.len() as int) == t
    &&& forall|k: int| 0 <= k < t.len() ==> t[k] != ' '
    &&& (t.len() == s.len() || s[t.len() as int] == ' ')
}

/// The host identifier handed to the SSH client: the record's host up to its
/// first space.
pub fn first_token(s: &str) -> (r: String)
    ensures
        is_first_token(r@, s@),
{
    let cs = chars_of(s);
    let mut j: usize = 0;
    while j < cs.len() && cs[j] != ' '
        invariant
            cs@ == s@,
            j <= s@.len(),
            forall|k: int| 0 <= k < j ==> s@[k] != ' ',
        decreases s@.len() - j,
    {
        j = j + 1;
    }
    s.substring_char(0, j).to_owned()
}

/// Typing `c` sends it to the editor of the current mode; nothing else moves.
pub open spec fn typed(old: App, new: App, c: char) -> bool {
    &&& new.selected == old.selected
    &&& new.configstore == old.configstore
    &&& new.mode == old.mode
    &&& new.should_spawn_ssh == old.should_spawn_ssh
    &&& old.mode == Mode::Searching ==> {
        &&& new.searcher.search_string@ == old.searcher.search_string@.push(c)
        &&& new.completer == old.completer
    }
    &&& old.mode == Mode::ComposingJumps ==> {
        &&& new.completer.display_string@ == old.completer.display_string@.push(c)
        &&& new.completer.jumpers_string == old.completer.jumpers_string
        &&& new.completer.search_string == old.completer.search_string
        &&& new.completer.match_jumpers == old.completer.match_jumpers
        &&& new.completer.idx == old.completer.idx
        &&& new.completer.has_popup_input
        &&& new.searcher == old.searcher
    }
}

/// `s` without its last character; the empty text stays empty.
pub open spec fn without_last(s: Seq<char>) -> Seq<char> {
    if s.len() == 0 {
        s
    } else {
        s.drop_last()
    }
}

/// Deleting removes the last character of the editor of the current mode.
pub open spec fn deleted(old: App, new: App) -> bool {
    &&& new.selected == old.selected
    &&& new.configstore == old.configstore
    &&& new.mode == old.mode
    &&& new.should_spawn_ssh == old.should_spawn_ssh
    &&& old.mode == Mode::Searching ==> {
        &&& new.searcher.search_string@ == without_last(old.searcher.search_string@)
        &&& new.completer == old.completer
    }
    &&& old.mode == Mode::ComposingJumps ==> {
        &&& new.completer.display_string@ == without_last(old.completer.display_string@)
        &&& new.completer.jumpers_string == old.completer.jumpers_string
        &&& new.completer.search_string == old.completer.search_string
        &&& new.completer.match_jumpers == old.completer.match_jumpers
        &&& new.completer.idx == old.completer.idx
        &&& new.completer.has_popup_input
        &&& new.searcher == old.searcher
    }
}

/// Moving the cursor rotates it over the current list; only the cursor changes.
pub open spec fn moved(old: App, new: App, forward: bool) -> bool {
    &&& new.configstore == old.configstore
    &&& new.searcher == old.searcher
    &&& new.completer == old.completer
    &&& new.mode == old.mode
    &&& new.should_spawn_ssh == old.should_spawn_ssh
    &&& old.filtered().len() == 0 ==> new.selected == old.selected
    &&& old.filtered().len() > 0 ==> {
        &&& new.selected matches Some(i)
        &&& i == rotated(old.selected, old.filtered().len() as int, forward)
        &&& i < old.filtered().len()
    }
}

/// The effect of one key event on the picker, and the step that follows.
pub open spec fn key_transition(old: App, new: App, key: Key, step: Step) -> bool {
    match key {
        Key::Cancel => if old.mode == Mode::ComposingJumps {
            &&& step == Step::Continue
            &&& new.mode == Mode::Searching
            &&& new.completer.display_string@.len() == 0
            &&& new.completer.jumpers_string@.len() == 0
            &&& new.completer.search_string == old.completer.search_string
            &&& new.completer.match_jumpers == old.completer.match_jumpers
            &&& new.completer.idx == old.completer.idx
            &&& new.completer.has_popup_input
            &&& new.selected == old.selected
            &&& new.configstore == old.configstore
            &&& new.searcher == old.searcher
            &&& new.should_spawn_ssh == old.should_spawn_ssh
        } else {
            step == Step::Quit && new == old
        },
        Key::Char(c) => step == Step::Continue && typed(old, new, c),
        Key::Delete => step == Step::Continue && deleted(old, new),
        Key::Down => step == Step::Continue && if old.mode == Mode::Searching {
            moved(old, new, true)
        } else {
            new == old
        },
        Key::Up => step == Step::Continue && if old.mode == Mode::Searching {
            moved(old, new, false)
        } else {
            new == old
        },
        Key::Completion => step == Step::Continue && if old.mode == Mode::ComposingJumps {
            &&& completion_step(old.completer, new.completer, old.configstore.items@)
            &&& new.selected == old.selected
            &&& new.configstore == old.configstore
            &&& new.searcher == old.searcher
            &&& new.mode == old.mode
            &&& new.should_spawn_ssh == old.should_spawn_ssh
        } else {
            new == old
        },
        Key::Confirm => if old.selected_record() is None {
            step == Step::Continue && new == old
        } else if old.mode == Mode::Searching {
            step == Step::Continue && new == (App { mode: Mode::ComposingJumps, ..old })
        } else if finalizable(old.completer) {
            step == Step::Launch && new == (App { should_spawn_ssh: true, ..old })
        } else {
            step == Step::Continue && new == old
        },
        Key::Other => step == Step::Continue && new == old,
    }
}

/// The whole picker state.
pub struct App {
    /// The cursor into the currently filtered list.
    pub selected: Option<usize>,
    pub configstore: ConfigStore,
    pub searcher: Searcher,
    pub completer: Completer,
    /// Set once the user has confirmed a host and a jump chain.
    pub should_spawn_ssh: bool,
    pub mode: Mode,
}

impl App {
    /// The list the user currently sees.
    pub open spec fn filtered(&self) -> Seq<SshItem> {
        filter_hosts(self.searcher.search_string@, self.configstore.items@)
    }

    /// The record under the cursor, if the cursor is inside the list.
    pub open spec fn selected_record(&self) -> Option<SshItem> {
        match self.selected {
            Some(i) => if i < self.filtered().len() {
                Some(self.filtered()[i as int])
            } else {
                None
            },
            None => None,
        }
    }

    /// A picker over `configstore`, searching for `search_str`, with the
    /// cursor on the first row.
    pub fn new(configstore: ConfigStore, search_str: &str) -> (r: App)
        ensures
            r.configstore == configstore,
            r.searcher.search_string@ == search_str@,
            r.selected == Some(0usize),
            r.mode == Mode::Searching,
            !r.should_spawn_ssh,
            r.completer.display_string@.len() == 0,
            r.completer.jumpers_string@.len() == 0,
            r.completer.search_string@.len() == 0,
            r.completer.match_jumpers@.len() == 0,
            r.completer.idx == 0,
            r.completer.has_popup_input,
            r.completer.wf(),
    {
        App {
            selected: Some(0),
            configstore,
            searcher: Searcher::new(search_str),
            completer: Completer::new(),
            should_spawn_ssh: false,
            mode: Mode::Searching,
        }
    }

    /// Moves the cursor one row forward or backward over the current list,
    /// wrapping around at either end; nothing moves on an empty list.
    pub fn change_selected_item(&mut self, rot_right: bool)
        ensures
            moved(*old(self), *final(self), rot_right),
    {
        let items_len = self.get_filtered_items().len();
        if items_len == 0 {
            return;
        }
        let i = match self.selected {
            Some(i) => {
                let k = i % items_len;
                if rot_right {
                    (k + 1) % items_len
                } else if k == 0 {
                    items_len - 1
                } else {
                    k - 1
                }
            },
            None => 0,
        };
        proof {
            if let Some(i0) = self.selected {
                let n = items_len as int;
                let k = i0 as int % n;
                assert((i0 + 1) % n == (k + 1) % n) by (nonlinear_arith)
                    requires n > 0, k == i0 as int % n, i0 >= 0;
                assert((i0 + n - 1) % n == (k + n - 1) % n) by (nonlinear_arith)
                    requires n > 0, k == i0 as int % n, i0 >= 0;
                assert(0 <= k < n);
                assert((k + n - 1) % n == if k == 0 { n - 1 } else { k - 1 }) by (nonlinear_arith)
                    requires 0 <= k < n;
            }
        }
        self.selected = Some(i);
    }

    /// Sends a typed character to the editor of the current mode.
    pub fn add_char(&mut self, c: char)
        ensures
            typed(*old(self), *final(self), c),
            old(self).completer.wf() ==> final(self).completer.wf(),
    {
        match self.mode {
            Mode::ComposingJumps => self.completer.add_char(c),
            Mode::Searching => self.searcher.add_char(c),
        }
    }

    /// Deletes the last character of the editor of the current mode.
    pub fn del_char(&mut self)
        ensures
            deleted(*old(self), *final(self)),
            old(self).completer.wf() ==> final(self).completer.wf(),
    {
        match self.mode {
            Mode::ComposingJumps => self.completer.del_char(),
            Mode::Searching => self.searcher.del_char(),
        }
    }

    /// Applies one key event: Cancel closes the jump editor or quits,
    /// characters and Delete go to the editor of the current mode, Up and
    /// Down move the cursor while searching, Completion completes while
    /// composing, and Confirm opens the jump editor on a selected row or,
    /// once the chain may be confirmed, finalizes the choice.
    pub fn handle_key(&mut self, key: Key) -> (r: Step)
        requires
            old(self).completer.idx < usize::MAX,
        ensures
            key_transition(*old(self), *final(self), key, r),
            old(self).completer.wf() ==> final(self).completer.wf(),
            r == Step::Launch ==> final(self).should_spawn_ssh,
    {
        match key {
            Key::Cancel => match self.mode {
                Mode::ComposingJumps => {
                    self.mode = Mode::Searching;
                    self.completer.clear();
                    Step::Continue
                },
                Mode::Searching => Step::Quit,
            },
            Key::Char(c) => {
                self.add_char(c);
                Step::Continue
            },
            Key::Delete => {
                self.del_char();
                Step::Continue
            },
            Key::Down => {
                if self.mode == Mode::Searching {
                    self.change_selected_item(true);
                }
                Step::Continue
            },
            Key::Up => {
                if self.mode == Mode::Searching {
                    self.change_selected_item(false);
                }
                Step::Continue
            },
            Key::Completion => {
                if self.mode == Mode::ComposingJumps {
                    self.completer.complete(&self.configstore);
                }
                Step::Continue
            },
            Key::Confirm => {
                if self.get_selected_item().is_none() {
                    return Step::Continue;
                }
                match self.mode {
                    Mode::Searching => {
                        self.mode = Mode::ComposingJumps;
                        Step::Continue
                    },
                    Mode::ComposingJumps => {
                        if self.completer.is_finalizable() {
                            self.should_spawn_ssh = true;
                            Step::Launch
                        } else {
                            Step::Continue
                        }
                    },
                }
            },
            Key::Other => Step::Continue,
        }
    }

    /// The connection to open once the choice is final: the selected
    /// record's host up to its first space, and the jump chain without its
    /// trailing commas. None before the choice is final or without a
    /// selected record.
    pub fn launch_target(&self) -> (r: Option<(String, String)>)
        ensures
            match r {
                Some((host, jumps)) => {
                    &&& self.should_spawn_ssh
                    &&& self.selected_record() matches Some(item)
                    &&& is_first_token(host@, item.host@)
                    &&& jumps@ == strip_trailing_commas(self.completer.display_string@)
                },
                None => !self.should_spawn_ssh || self.selected_record() is None,
            },
    {
        if !self.should_spawn_ssh {
            return None;
        }
        match self.get_selected_item() {
            Some(item) => Some((first_token(item.host.as_str()), self.completer.jump_chain())),
            None => None,
        }
    }

    /// The records that the current query selects, in catalog order.
    pub fn get_filtered_items(&self) -> (r: Vec<&SshItem>)
        ensures
            refers_to(r@, self.filtered()),
    {
        self.searcher.get_filtered_hosts(&self.configstore)
    }

    /// The record under the cursor; none when the cursor is absent or lies
    /// past the end of the current list.
    pub fn get_selected_item(&self) -> (r: Option<&SshItem>)
        ensures
            match r {
                Some(x) => self.selected_record() == Some(*x),
                None => self.selected_record() is None,
            },
    {
        match self.selected {
            Some(selected) => {
                let items = self.get_filtered_items();
                if selected < items.len() {
                    Some(items[selected])
                } else {
                    None
                }
            },
            None => None,
        }
    }
}

} // verus!

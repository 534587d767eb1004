//! The jump composer: a comma-separated jump-host chain edited either
//! directly or by cycling through host-name completions.
use vstd::prelude::*;
use vstd::string::{StrSliceExecFns, StringExecFns};
use crate::configstore::{ConfigStore, SshItem};
use crate::text::{chars_of, is_prefix, pop_char, push_char, starts_with};

verus! {

/// Position of the last comma of `s`, or -1 when it holds none.
pub open spec fn last_comma(s: Seq<char>) -> int
    decreases s.len(),
{
    if s.len() == 0 {
        -1
    } else if s.last() == ',' {
        s.len() - 1
    } else {
        last_comma(s.drop_last())
    }
}

/// The part of the chain before its last comma (empty without a comma).
pub open spec fn committed_part(s: Seq<char>) -> Seq<char> {
    if last_comma(s) < 0 {
        Seq::empty()
    } else {
        s.subrange(0, last_comma(s))
    }
}

/// The part of the chain after its last comma (all of it without a comma).
pub open spec fn pending_part(s: Seq<char>) -> Seq<char> {
    s.subrange(last_comma(s) + 1, s.len() as int)
}

/// The chain shown after completing to `host` behind `prefix`.
pub open spec fn chain_text(prefix: Seq<char>, host: Seq<char>) -> Seq<char> {
    if prefix.len() == 0 {
        host.push(',')
    } else {
        prefix.push(',') + host.push(',')
    }
}

/// `s` with every trailing comma removed.
pub open spec fn strip_trailing_commas(s: Seq<char>) -> Seq<char>
    decreases s.len(),
{
    if s.len() > 0 && s.last() == ',' {
        strip_trailing_commas(s.drop_last())
    } else {
        s
    }
}

/// The host names of `items`, in catalog order, that begin with `frag`.
pub open spec fn host_names_with_prefix(items: Seq<SshItem>, frag: Seq<char>) -> Seq<Seq<char>>
    decreases items.len(),
{
    if items.len() == 0 {
        Seq::empty()
    } else {
        let rest = host_names_with_prefix(items.drop_last(), frag);
        if is_prefix(frag, items.last().host@) {
            rest.push(items.last().host@)
        } else {
            rest
        }
    }
}

/// The strings of `v` spell, position by position, the texts of `s`.
pub open spec fn names_are(v: Seq<String>, s: Seq<Seq<char>>) -> bool {
    v.len() == s.len() && forall|k: int| 0 <= k < v.len() ==> #[trigger] v[k]@ == s[k]
}

/// Whether the chain may be confirmed as it stands: right after a completion,
/// or when it is empty or ends with a separating comma.
pub open spec fn finalizable(c: Completer) -> bool {
    !c.has_popup_input || c.display_string@.len() == 0 || c.display_string@.last() == ','
}

/// One completion trigger on `old`, over the catalog `items`, gives `new`.
pub open spec fn completion_step(old: Completer, new: Completer, items: Seq<SshItem>) -> bool {
    if old.has_popup_input {
        let pre = committed_part(old.display_string@);
        let frag = pending_part(old.display_string@);
        let cands = host_names_with_prefix(items, frag);
        if cands.len() == 0 {
            new == old
        } else {
            &&& new.jumpers_string@ == pre
            &&& new.search_string@ == frag
            &&& names_are(new.match_jumpers@, cands)
            &&& new.idx == 1
            &&& new.display_string@ == chain_text(pre, cands[0])
            &&& !new.has_popup_input
        }
    } else if old.match_jumpers@.len() == 0 {
        new == old
    } else {
        let sel = old.idx as int % old.match_jumpers@.len() as int;
        &&& new.display_string@ == chain_text(old.jumpers_string@, old.match_jumpers@[sel]@)
        &&& new.idx == old.idx + 1
        &&& new.jumpers_string == old.jumpers_string
        &&& new.search_string == old.search_string
        &&& new.match_jumpers == old.match_jumpers
        &&& !new.has_popup_input
    }
}

/// The jump composer's state.
pub struct Completer {
    /// The committed part of the chain, before the fragment being completed.
    pub jumpers_string: String,
    /// The chain as shown and edited.
    pub display_string: String,
    /// The completion candidates for the current fragment.
    pub match_jumpers: Vec<String>,
    /// The fragment that the candidates were computed for.
    pub search_string: String,
    /// Set by direct edits: the next completion recomputes the candidates.
    pub has_popup_input: bool,
    /// One past the candidate shown last.
    pub idx: usize,
}

proof fn lemma_last_comma_beyond(s: Seq<char>, j: int)
    requires
        0 <= j <= s.len(),
        forall|k: int| j <= k < s.len() ==> s[k] != ',',
    ensures
        last_comma(s) == last_comma(s.subrange(0, j)),
    decreases s.len(),
{
    if j == s.len() {
        assert(s.subrange(0, j) == s);
    } else {
        assert(s.drop_last().subrange(0, j) == s.subrange(0, j));
        lemma_last_comma_beyond(s.drop_last(), j);
    }
}

proof fn lemma_strip_beyond(s: Seq<char>, j: int)
    requires
        0 <= j <= s.len(),
        forall|k: int| j <= k < s.len() ==> s[k] == ',',
    ensures
        strip_trailing_commas(s) == strip_trailing_commas(s.subrange(0, j)),
    decreases s.len(),
{
    if j == s.len() {
        assert(s.subrange(0, j) == s);
    } else {
        assert(s.drop_last().subrange(0, j) == s.subrange(0, j));
        lemma_strip_beyond(s.drop_last(), j);
    }
}

/// Splits a chain at its last comma into the committed part and the pending
/// fragment.
fn split_at_last_comma(s: &str) -> (r: (String, String))
    ensures
        r.0@ == committed_part(s@),
        r.1@ == pending_part(s@),
{
    let cs = chars_of(s);
    let n = cs.len();
    let mut j: usize = n;
    while j > 0
        invariant
            cs@ == s@,
            n == s@.len(),
            j <= n,
            forall|k: int| j <= k < n ==> s@[k] != ',',
        decreases j,
    {
        if cs[j - 1] == ',' {
            proof {
                lemma_last_comma_beyond(s@, j as int);
            }
            let ready = s.substring_char(0, j - 1).to_owned();
            let last = s.substring_char(j, n).to_owned();
            return (ready, last);
        }
        j = j - 1;
    }
    proof {
        lemma_last_comma_beyond(s@, 0);
    }
    (String::new(), s.to_owned())
}

/// The chain shown after completing to `host` behind `prefix`.
fn build_chain(prefix: &String, host: &String) -> (r: String)
    ensures
        r@ == chain_text(prefix@, host@),
{
    let mut r = String::new();
    if !prefix.as_str().is_empty() {
        r.append(prefix.as_str());
        push_char(&mut r, ',');
    }
    r.append(host.as_str());
    push_char(&mut r, ',');
    r
}

impl Completer {
    /// Consistency of the cycling state: right after a completion the chain
    /// shows the committed part followed by the candidate last chosen.
    pub open spec fn wf(&self) -> bool {
        !self.has_popup_input ==> {
            &&& self.match_jumpers@.len() > 0
            &&& self.idx >= 1
            &&& self.display_string@ == chain_text(
                self.jumpers_string@,
                self.match_jumpers@[(self.idx - 1) % self.match_jumpers@.len() as int]@,
            )
        }
    }

    /// An empty composer, ready for direct input.
    pub fn new() -> (r: Completer)
        ensures
            r.display_string@ == Seq::<char>::empty(),
            r.jumpers_string@ == Seq::<char>::empty(),
            r.search_string@ == Seq::<char>::empty(),
            r.match_jumpers@.len() == 0,
            r.has_popup_input,
            r.idx == 0,
            r.wf(),
    {
        Completer {
            jumpers_string: String::new(),
            display_string: String::new(),
            match_jumpers: Vec::new(),
            search_string: String::new(),
            has_popup_input: true,
            idx: 0,
        }
    }

    /// The host names of the catalog that begin with `s`, in catalog order.
    pub fn get_filtered_jumpers(&self, store: &ConfigStore, s: &str) -> (r: Vec<String>)
        ensures
            names_are(r@, host_names_with_prefix(store.items@, s@)),
    {
        let mut r: Vec<String> = Vec::new();
        let mut i: usize = 0;
        while i < store.items.len()
            invariant
                i <= store.items@.len(),
                names_are(r@, host_names_with_prefix(store.items@.subrange(0, i as int), s@)),
            decreases store.items@.len() - i,
        {
            let item = &store.items[i];
            assert(store.items@.subrange(0, i + 1).drop_last() == store.items@.subrange(0, i as int));
            if starts_with(item.host.as_str(), s) {
                r.push(item.host.clone());
            }
            i = i + 1;
        }
        assert(store.items@.subrange(0, store.items@.len() as int) == store.items@);
        r
    }

    /// One completion trigger. After a direct edit it splits the chain at its
    /// last comma, collects the host names that begin with the fragment after
    /// it and shows the first; on a repeated trigger it shows the next
    /// candidate, wrapping around. Without candidates nothing changes.
    pub fn complete(&mut self, store: &ConfigStore)
        requires
            old(self).idx < usize::MAX,
        ensures
            completion_step(*old(self), *final(self), store.items@),
            old(self).wf() ==> final(self).wf(),
    {
        if self.has_popup_input {
            let (ready, last) = split_at_last_comma(self.display_string.as_str());
            let cands = self.get_filtered_jumpers(store, last.as_str());
            if cands.len() == 0 {
                return;
            }
            let display = build_chain(&ready, &cands[0]);
            self.jumpers_string = ready;
            self.search_string = last;
            self.match_jumpers = cands;
            self.idx = 1;
            self.display_string = display;
            self.has_popup_input = false;
        } else {
            let n = self.match_jumpers.len();
            if n == 0 {
                return;
            }
            let sel = self.idx % n;
            let display = build_chain(&self.jumpers_string, &self.match_jumpers[sel]);
            self.display_string = display;
            self.idx = self.idx + 1;
        }
    }

    /// Appends a character to the chain and switches to direct input.
    pub fn add_char(&mut self, c: char)
        ensures
            final(self).display_string@ == old(self).display_string@.push(c),
            final(self).has_popup_input,
            final(self).jumpers_string == old(self).jumpers_string,
            final(self).search_string == old(self).search_string,
            final(self).match_jumpers == old(self).match_jumpers,
            final(self).idx == old(self).idx,
            final(self).wf(),
    {
        self.has_popup_input = true;
        push_char(&mut self.display_string, c);
    }

    /// Removes the chain's last character, if any, and switches to direct
    /// input.
    pub fn del_char(&mut self)
        ensures
            old(self).display_string@.len() == 0 ==> final(self).display_string@ == old(self).display_string@,
            old(self).display_string@.len() > 0 ==> final(self).display_string@ == old(self).display_string@.drop_last(),
            final(self).has_popup_input,
            final(self).jumpers_string == old(self).jumpers_string,
            final(self).search_string == old(self).search_string,
            final(self).match_jumpers == old(self).match_jumpers,
            final(self).idx == old(self).idx,
            final(self).wf(),
    {
        self.has_popup_input = true;
        pop_char(&mut self.display_string);
    }

    /// Empties the chain and its committed part and switches to direct input.
    pub fn clear(&mut self)
        ensures
            final(self).display_string@ == Seq::<char>::empty(),
            final(self).jumpers_string@ == Seq::<char>::empty(),
            final(self).search_string == old(self).search_string,
            final(self).match_jumpers == old(self).match_jumpers,
            final(self).idx == old(self).idx,
            final(self).has_popup_input,
            final(self).wf(),
            finalizable(*final(self)),
    {
        self.has_popup_input = true;
        self.display_string = String::new();
        self.jumpers_string = String::new();
    }

    /// Whether the chain may be confirmed as it stands.
    pub fn is_finalizable(&self) -> (r: bool)
        ensures
            r == finalizable(*self),
    {
        if !self.has_popup_input {
            return true;
        }
        let cs = chars_of(self.display_string.as_str());
        cs.len() == 0 || cs[cs.len() - 1] == ','
    }

    /// The chain handed to the launcher: the shown chain without its
    /// trailing commas.
    pub fn jump_chain(&self) -> (r: String)
        ensures
            r@ == strip_trailing_commas(self.display_string@),
    {
        let s = self.display_string.as_str();
        let cs = chars_of(s);
        let mut j: usize = cs.len();
        while j > 0 && cs[j - 1] == ','
            invariant
                cs@ == s@,
                j <= s@.len(),
                forall|k: int| j <= k < s@.len() ==> s@[k] == ',',
            decreases j,
        {
            j = j - 1;
        }
        proof {
            lemma_strip_beyond(s@, j as int);
        }
        s.substring_char(0, j).to_owned()
    }
}

proof fn lemma_cycle_state(states: Seq<Completer>, items: Seq<SshItem>, j: int)
    requires
        1 <= j < states.len(),
        states[0].has_popup_input,
        host_names_with_prefix(items, pending_part(states[0].display_string@)).len() > 0,
        forall|i: int|
            0 <= i < states.len() - 1 ==> #[trigger] completion_step(states[i], states[i + 1], items),
    ensures
        ({
            let pre = committed_part(states[0].display_string@);
            let cands = host_names_with_prefix(items, pending_part(states[0].display_string@));
            &&& states[j].idx == j
            &&& names_are(states[j].match_jumpers@, cands)
            &&& states[j].jumpers_string@ == pre
            &&& !states[j].has_popup_input
            &&& states[j].display_string@ == chain_text(pre, cands[(j - 1) % cands.len() as int])
        }),
    decreases j,
{
    let i = j - 1;
    assert(completion_step(states[i], states[i + 1], items));
    if j > 1 {
        lemma_cycle_state(states, items, j - 1);
        let cands = host_names_with_prefix(items, pending_part(states[0].display_string@));
        let sel = (j - 1) % cands.len() as int;
        assert(states[j - 1].match_jumpers@[sel]@ == cands[sel]);
    }
}

/// Repeated triggers cycle through the candidates: starting from direct
/// input whose pending fragment has the candidates `cands`, the `j`-th of a
/// run of triggers with no edit between them shows `cands[(j - 1) % n]`
/// behind the committed part of the chain, so that with three candidates
/// the fourth trigger shows the first one again.
pub proof fn lemma_completion_cycles(states: Seq<Completer>, items: Seq<SshItem>)
    requires
        states.len() >= 1,
        states[0].has_popup_input,
        host_names_with_prefix(items, pending_part(states[0].display_string@)).len() > 0,
        forall|i: int|
            0 <= i < states.len() - 1 ==> #[trigger] completion_step(states[i], states[i + 1], items),
    ensures
        forall|j: int|
            1 <= j < states.len() ==> (#[trigger] states[j]).display_string@ == chain_text(
                committed_part(states[0].display_string@),
                host_names_with_prefix(items, pending_part(states[0].display_string@))[(j - 1)
                    % host_names_with_prefix(items, pending_part(states[0].display_string@)).len() as int],
            ),
{
    assert forall|j: int| 1 <= j < states.len() implies (#[trigger] states[j]).display_string@
        == chain_text(
        committed_part(states[0].display_string@),
        host_names_with_prefix(items, pending_part(states[0].display_string@))[(j - 1)
            % host_names_with_prefix(items, pending_part(states[0].display_string@)).len() as int],
    ) by {
        lemma_cycle_state(states, items, j);
    }
}

proof fn lemma_strip_after_last(x: Seq<char>)
    requires
        x.len() > 0,
        x.last() != ',',
    ensures
        strip_trailing_commas(x.push(',')) == x,
{
    assert(x.push(',').drop_last() == x);
    assert(strip_trailing_commas(x.push(',')) == strip_trailing_commas(x));
}

/// A chain in direct input that ends in the middle of a host name cannot be
/// confirmed; once a completion has found candidates for it, the chain it
/// shows ends with a comma and can be confirmed.
pub proof fn lemma_completion_makes_finalizable(before: Completer, after: Completer, items: Seq<SshItem>)
    requires
        before.has_popup_input,
        before.display_string@.len() > 0,
        before.display_string@.last() != ',',
        host_names_with_prefix(items, pending_part(before.display_string@)).len() > 0,
        completion_step(before, after, items),
    ensures
        !finalizable(before),
        finalizable(after),
        after.display_string@.last() == ',',
{
    let pre = committed_part(before.display_string@);
    let host = host_names_with_prefix(items, pending_part(before.display_string@))[0];
    if pre.len() > 0 {
        assert(pre.push(',') + host.push(',') == (pre.push(',') + host).push(','));
    }
}

/// Trimming the trailing commas of a chain that a completion produced gives
/// the committed part and the chosen host joined by one comma (the host
/// alone behind an empty committed part), when the host name is not empty
/// and does not itself end with a comma.
pub proof fn lemma_trimmed_completed_chain(pre: Seq<char>, host: Seq<char>)
    requires
        host.len() > 0,
        host.last() != ',',
    ensures
        strip_trailing_commas(chain_text(pre, host)) == if pre.len() == 0 {
            host
        } else {
            pre.push(',') + host
        },
{
    if pre.len() == 0 {
        lemma_strip_after_last(host);
    } else {
        let x = pre.push(',') + host;
        assert(pre.push(',') + host.push(',') == x.push(','));
        assert(x.last() == host.last());
        lemma_strip_after_last(x);
    }
}

/// A chain that a completion has just produced ends with a separating comma,
/// and a consistent composer in that state may be confirmed.
pub proof fn lemma_completed_chain_ends_with_comma(c: Completer)
    requires
        c.wf(),
        !c.has_popup_input,
    ensures
        c.display_string@.len() > 0,
        c.display_string@.last() == ',',
        finalizable(c),
{
    let host = c.match_jumpers@[(c.idx - 1) % c.match_jumpers@.len() as int]@;
    if c.jumpers_string@.len() > 0 {
        assert(c.display_string@ == c.jumpers_string@.push(',') + host.push(','));
    }
}

} // verus!

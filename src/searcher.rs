//! The search engine: a query string and the catalog filter it induces.
use vstd::prelude::*;
use crate::configstore::{ConfigStore, SshItem, refers_to};
use crate::text::{contains, is_substring, push_char, pop_char};

verus! {

/// Whether a record is kept under query `q`.
pub open spec fn host_matches(q: Seq<char>, item: SshItem) -> bool {
    is_substring(q, item.host@)
}

/// The records of `items`, in order, whose host contains `q`.
pub open spec fn matching_records(q: Seq<char>, items: Seq<SshItem>) -> Seq<SshItem>
    decreases items.len(),
{
    if items.len() == 0 {
        Seq::empty()
    } else {
        let rest = matching_records(q, items.drop_last());
        if host_matches(q, items.last()) {
            rest.push(items.last())
        } else {
            rest
        }
    }
}

/// What a search for `q` shows: the whole catalog for an empty query,
/// otherwise the records whose host contains `q`, in catalog order.
pub open spec fn filter_hosts(q: Seq<char>, items: Seq<SshItem>) -> Seq<SshItem> {
    if q.len() == 0 {
        items
    } else {
        matching_records(q, items)
    }
}

/// `sub` is `full` with some positions left out: `idx` lists, in increasing
/// order, the positions of `full` that were kept.
pub open spec fn selects(sub: Seq<SshItem>, full: Seq<SshItem>, idx: Seq<int>) -> bool {
    &&& idx.len() == sub.len()
    &&& forall|k: int| 0 <= k < idx.len() ==> 0 <= #[trigger] idx[k] < full.len()
    &&& forall|j: int, k: int| 0 <= j < k < idx.len() ==> idx[j] < idx[k]
    &&& forall|k: int| 0 <= k < idx.len() ==> sub[k] == full[#[trigger] idx[k]]
}

proof fn matching_records_selection(q: Seq<char>, items: Seq<SshItem>) -> (idx: Seq<int>)
    ensures
        selects(matching_records(q, items), items, idx),
        forall|i: int| 0 <= i < items.len() ==>
            (host_matches(q, #[trigger] items[i]) <==> idx.contains(i)),
    decreases items.len(),
{
    if items.len() == 0 {
        Seq::empty()
    } else {
        let prev = items.drop_last();
        let pidx = matching_records_selection(q, prev);
        let n = items.len() - 1;
        assert forall|i: int| 0 <= i < n implies items[i] == #[trigger] prev[i] by {}
        if host_matches(q, items.last()) {
            let idx = pidx.push(n);
            assert forall|i: int| 0 <= i < items.len() implies
                (host_matches(q, #[trigger] items[i]) <==> idx.contains(i)) by {
                if i < n {
                    assert(prev[i] == items[i]);
                    if pidx.contains(i) {
                        let k = choose|k: int| 0 <= k < pidx.len() && pidx[k] == i;
                        assert(idx[k] == i);
                    }
                    if idx.contains(i) {
                        let k = choose|k: int| 0 <= k < idx.len() && idx[k] == i;
                        assert(k < pidx.len());
                        assert(pidx[k] == i);
                    }
                } else {
                    assert(idx[idx.len() - 1] == i);
                }
            }
            idx
        } else {
            assert forall|i: int| 0 <= i < items.len() implies
                (host_matches(q, #[trigger] items[i]) <==> pidx.contains(i)) by {
                if i < n {
                    assert(prev[i] == items[i]);
                } else {
                    if pidx.contains(i) {
                        let k = choose|k: int| 0 <= k < pidx.len() && pidx[k] == i;
                        assert(pidx[k] < prev.len());
                    }
                }
            }
            pidx
        }
    }
}

/// The filter keeps the catalog's order and exactly its matching records:
/// its result is the catalog with some positions left out, the positions kept
/// being exactly those whose host contains the query (all of them when the
/// query is empty).
pub proof fn lemma_filter_is_ordered_selection(q: Seq<char>, items: Seq<SshItem>)
    ensures
        exists|idx: Seq<int>|
            selects(filter_hosts(q, items), items, idx) && forall|i: int|
                0 <= i < items.len() ==> ((q.len() == 0 || host_matches(q, #[trigger] items[i]))
                    <==> idx.contains(i)),
{
    if q.len() == 0 {
        let idx = Seq::new(items.len(), |i: int| i);
        assert forall|i: int| 0 <= i < items.len() implies idx.contains(i) by {
            assert(idx[i] == i);
        }
        assert(selects(filter_hosts(q, items), items, idx));
    } else {
        let idx = matching_records_selection(q, items);
        assert(selects(filter_hosts(q, items), items, idx));
    }
}

proof fn matching_records_of_matching(q: Seq<char>, items: Seq<SshItem>)
    ensures
        matching_records(q, matching_records(q, items)) == matching_records(q, items),
    decreases items.len(),
{
    if items.len() > 0 {
        matching_records_of_matching(q, items.drop_last());
        let rest = matching_records(q, items.drop_last());
        if host_matches(q, items.last()) {
            assert(rest.push(items.last()).drop_last() == rest);
        }
    }
}

/// Filtering an already filtered list with the same query changes nothing.
pub proof fn lemma_filter_idempotent(q: Seq<char>, items: Seq<SshItem>)
    ensures
        filter_hosts(q, filter_hosts(q, items)) == filter_hosts(q, items),
{
    if q.len() > 0 {
        matching_records_of_matching(q, items);
    }
}

/// The search engine's state: the query typed so far.
pub struct Searcher {
    pub search_string: String,
}

impl Searcher {
    /// A searcher seeded with an initial query.
    pub fn new(search_str: &str) -> (r: Searcher)
        ensures
            r.search_string@ == search_str@,
    {
        Searcher { search_string: search_str.to_owned() }
    }

    /// The records of the catalog that the current query selects.
    pub fn get_filtered_hosts<'a>(&self, store: &'a ConfigStore) -> (r: Vec<&'a SshItem>)
        ensures
            refers_to(r@, filter_hosts(self.search_string@, store.items@)),
    {
        let all = store.get_all_hosts();
        if self.search_string.as_str().is_empty() {
            return all;
        }
        let mut r: Vec<&'a SshItem> = Vec::new();
        let mut i: usize = 0;
        while i < all.len()
            invariant
                refers_to(all@, store.items@),
                self.search_string@.len() > 0,
                i <= all@.len(),
                refers_to(r@, matching_records(self.search_string@, store.items@.subrange(0, i as int))),
            decreases all@.len() - i,
        {
            let item = all[i];
            let keep = contains(item.host.as_str(), self.search_string.as_str());
            assert(store.items@.subrange(0, i + 1).drop_last() == store.items@.subrange(0, i as int));
            if keep {
                r.push(item);
            }
            i = i + 1;
        }
        assert(store.items@.subrange(0, all@.len() as int) == store.items@);
        r
    }

    /// Appends a character to the query.
    pub fn add_char(&mut self, c: char)
        ensures
            final(self).search_string@ == old(self).search_string@.push(c),
    {
        push_char(&mut self.search_string, c);
    }

    /// Removes the query's last character; an empty query stays empty.
    pub fn del_char(&mut self)
        ensures
            old(self).search_string@.len() == 0 ==> final(self).search_string@ == old(self).search_string@,
            old(self).search_string@.len() > 0 ==> final(self).search_string@ == old(self).search_string@.drop_last(),
    {
        pop_char(&mut self.search_string);
    }
}

} // verus!

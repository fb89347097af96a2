//! Selecting entries: the filter that a query stands for.

use crate::entry::{state_of, Entry, EntryState};
use crate::time::datetime::{compare_date_time, DateTime};
use crate::time::text::chars_of;
use std::cmp::Ordering;
use vstd::prelude::*;

verus! {

/// What a listing of entries asks for; each `None` leaves that part open.
#[derive(Debug, PartialEq, Eq, Clone)]
pub struct Query<'a> {
    pub state: Option<EntryState>,
    pub prefix: Option<&'a str>,
    pub scheduled_or_deadline: Option<(DateTime, DateTime)>,
}

/// `begin <= a < end`, for a moment `a` that is present.
pub open spec fn moment_in(begin: DateTime, end: DateTime, a: Option<DateTime>) -> bool {
    match a {
        Some(x) => compare_date_time(begin@, x@) != Ordering::Greater && compare_date_time(
            x@,
            end@,
        ) == Ordering::Less,
        None => false,
    }
}

/// Whether `e` meets every part of `q` that is given: its state, a prefix of
/// its prefix, and a scheduled moment or deadline within `[begin, end)`.
pub open spec fn query_matches(q: Query, e: Entry) -> bool {
    &&& (q.state matches Some(st) ==> st == state_of(e))
    &&& (q.prefix matches Some(p) ==> p@.is_prefix_of(e.prefix@))
    &&& (q.scheduled_or_deadline matches Some(range) ==> moment_in(range.0, range.1, e.scheduled)
        || moment_in(range.0, range.1, e.deadline))
}

/// The entries of `s` that `q` selects, in their order.
pub open spec fn selected(q: Query, s: Seq<Entry>) -> Seq<Entry>
    decreases s.len(),
{
    if s.len() == 0 {
        Seq::empty()
    } else if query_matches(q, s.last()) {
        selected(q, s.drop_last()).push(s.last())
    } else {
        selected(q, s.drop_last())
    }
}

fn starts_with(s: &str, p: &str) -> (r: bool)
    ensures
        r == p@.is_prefix_of(s@),
{
    let sc = chars_of(s);
    let pc = chars_of(p);
    if pc.len() > sc.len() {
        return false;
    }
    let mut i: usize = 0;
    while i < pc.len()
        invariant
            sc@ == s@,
            pc@ == p@,
            pc@.len() <= sc@.len(),
            i <= pc@.len(),
            forall|k: int| 0 <= k < i ==> pc@[k] == sc@[k],
        decreases pc@.len() - i,
    {
        if pc[i] != sc[i] {
            return false;
        }
        i = i + 1;
    }
    assert(p@ =~= s@.subrange(0, p@.len() as int));
    true
}

fn in_range(begin: &DateTime, end: &DateTime, a: Option<DateTime>) -> (r: bool)
    ensures
        r == moment_in(*begin, *end, a),
{
    match a {
        Some(x) => *begin <= x && x < *end,
        None => false,
    }
}

impl<'a> Query<'a> {
    /// Whether `entry` meets every part of this query that is given.
    pub fn matches(&self, entry: &Entry) -> (r: bool)
        ensures
            r == query_matches(*self, *entry),
    {
        if let Some(state) = self.state {
            if state != entry.state() {
                return false;
            }
        }
        if let Some(prefix) = self.prefix {
            if !starts_with(entry.prefix.as_str(), prefix) {
                return false;
            }
        }
        if let Some((begin, end)) = self.scheduled_or_deadline {
            let scheduled = in_range(&begin, &end, entry.scheduled);
            let deadline = in_range(&begin, &end, entry.deadline);
            if !(scheduled || deadline) {
                return false;
            }
        }
        true
    }

    /// The entries that this query selects, in their order.
    pub fn filter(&self, entries: Vec<Entry>) -> (r: Vec<Entry>)
        ensures
            r@ == selected(*self, entries@),
    {
        let ghost all = entries@;
        let n = entries.len();
        let mut rest = entries;
        let mut out: Vec<Entry> = Vec::new();
        let mut i: usize = 0;
        while rest.len() > 0
            invariant
                i + rest@.len() == all.len(),
                all.len() == n,
                rest@ == all.skip(i as int),
                out@ == selected(*self, all.take(i as int)),
            decreases rest@.len(),
        {
            let e = rest.remove(0);
            assert(all.take(i + 1).drop_last() =~= all.take(i as int));
            assert(all.take(i + 1).last() == e);
            assert(rest@ =~= all.skip(i + 1));
            if self.matches(&e) {
                out.push(e);
            }
            i = i + 1;
        }
        assert(all.take(all.len() as int) =~= all);
        out
    }
}

/// The id after the largest one in use, counting from 1 when none is.
pub fn next_entry_id(max_id: Option<u64>) -> (r: u64)
    requires
        max_id != Some(u64::MAX),
    ensures
        r == match max_id {
            Some(m) => m + 1,
            None => 2,
        },
{
    match max_id {
        Some(m) => m + 1,
        None => 2,
    }
}

} // verus!

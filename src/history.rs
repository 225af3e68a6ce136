//! Past input lines, bounded in number, with a cursor for recalling them.

use std::collections::VecDeque;
use vstd::prelude::*;

verus! {

/// How many entries a new history keeps.
pub const HISTORY_SIZE_MAX: usize = 1000;

/// The last `n` elements of `s` (all of `s` when it is shorter).
pub open spec fn last_n<T>(s: Seq<T>, n: nat) -> Seq<T> {
    if s.len() > n {
        s.subrange(s.len() - n, s.len() as int)
    } else {
        s
    }
}

/// Entries held after appending each of `es` in turn to `entries`, with
/// room for `max` of them.
pub open spec fn append_all(entries: Seq<Seq<char>>, max: nat, es: Seq<Seq<char>>) -> Seq<Seq<char>>
    decreases es.len(),
{
    if es.len() == 0 {
        entries
    } else {
        append_all(last_n(entries.push(es[0]), max), max, es.drop_first())
    }
}

/// Ordered past entries, oldest first, and a recall cursor: 0 when nothing
/// is selected, `k` in `1..=len` when the `k`-th newest entry is.
pub struct History {
    pub entries: VecDeque<String>,
    pub max_size: usize,
    pub cursor: usize,
}

impl View for History {
    type V = Seq<Seq<char>>;

    open spec fn view(&self) -> Seq<Seq<char>> {
        self.entries@.map_values(|s: String| s@)
    }
}

impl History {
    pub open spec fn wf(&self) -> bool {
        &&& self@.len() <= self.max_size
        &&& self.cursor <= self@.len()
    }

    /// The entry that cursor position `k` selects.
    pub open spec fn selected(&self, k: nat) -> Seq<char> {
        self@[self@.len() - k]
    }

    pub fn new() -> (r: History)
        ensures
            r.wf(),
            r@ == Seq::<Seq<char>>::empty(),
            r.max_size == HISTORY_SIZE_MAX,
            r.cursor == 0,
    {
        let r = History { entries: VecDeque::new(), max_size: HISTORY_SIZE_MAX, cursor: 0 };
        proof {
            assert(r@ =~= Seq::<Seq<char>>::empty());
        }
        r
    }

    /// Adds the newest entry, dropping the oldest when over the bound, and
    /// clears the selection.
    pub fn append(&mut self, entry: String)
        requires
            old(self).wf(),
        ensures
            final(self).wf(),
            final(self)@ == last_n(old(self)@.push(entry@), old(self).max_size as nat),
            final(self).max_size == old(self).max_size,
            final(self).cursor == 0,
    {
        let ghost e = entry@;
        self.entries.push_back(entry);
        proof {
            assert(self@ =~= old(self)@.push(e));
        }
        if self.entries.len() > self.max_size {
            let _ = self.entries.pop_front();
            proof {
                assert(self@ =~= last_n(old(self)@.push(e), old(self).max_size as nat));
            }
        }
        self.cursor = 0;
    }

    /// Takes in what came over the history channel: an entry to append, or
    /// nothing.
    pub fn update(&mut self, maybe_line: Option<String>)
        requires
            old(self).wf(),
        ensures
            final(self).wf(),
            final(self).max_size == old(self).max_size,
            match maybe_line {
                Some(l) => final(self)@ == last_n(old(self)@.push(l@), old(self).max_size as nat)
                    && final(self).cursor == 0,
                None => *final(self) == *old(self),
            },
    {
        if let Some(line) = maybe_line {
            self.append(line);
        }
    }

    /// Keeps only the `n` newest entries, from now on at most `n`, and
    /// clears the selection.
    pub fn set_max_size(&mut self, n: usize)
        requires
            old(self).wf(),
        ensures
            final(self).wf(),
            final(self)@ == last_n(old(self)@, n as nat),
            final(self).max_size == n,
            final(self).cursor == 0,
    {
        self.max_size = n;
        self.cursor = 0;
        while self.entries.len() > n
            invariant
                self.max_size == n,
                self.cursor == 0,
                last_n(self@, n as nat) == last_n(old(self)@, n as nat),
            decreases self.entries.len(),
        {
            let ghost before = self@;
            let _ = self.entries.pop_front();
            proof {
                assert(self@ =~= before.drop_first());
                assert(last_n(self@, n as nat) =~= last_n(before, n as nat));
            }
        }
        proof {
            assert(last_n(self@, n as nat) == self@);
        }
    }

    /// Selects the next older entry and returns it; at the oldest, or with
    /// nothing stored, returns `None` and keeps the selection.
    pub fn recall_prev(&mut self) -> (r: Option<String>)
        requires
            old(self).wf(),
        ensures
            final(self).wf(),
            final(self)@ == old(self)@,
            final(self).max_size == old(self).max_size,
            old(self).cursor < old(self)@.len() ==> final(self).cursor == old(self).cursor + 1
                && r is Some && r->0@ == final(self).selected(final(self).cursor as nat),
            old(self).cursor >= old(self)@.len() ==> *final(self) == *old(self) && r is None,
    {
        if self.cursor < self.entries.len() {
            self.cursor = self.cursor + 1;
            let i = self.entries.len() - self.cursor;
            Some(self.entries[i].clone())
        } else {
            None
        }
    }

    /// Selects the next newer entry and returns it; from the newest entry,
    /// or with nothing selected, clears the selection and returns `None`.
    pub fn recall_next(&mut self) -> (r: Option<String>)
        requires
            old(self).wf(),
        ensures
            final(self).wf(),
            final(self)@ == old(self)@,
            final(self).max_size == old(self).max_size,
            old(self).cursor > 1 ==> final(self).cursor == old(self).cursor - 1 && r is Some
                && r->0@ == final(self).selected(final(self).cursor as nat),
            old(self).cursor <= 1 ==> final(self).cursor == 0 && r is None,
    {
        if self.cursor > 1 {
            self.cursor = self.cursor - 1;
            let i = self.entries.len() - self.cursor;
            Some(self.entries[i].clone())
        } else {
            self.cursor = 0;
            None
        }
    }

    /// Clears the selection.
    pub fn reset_cursor(&mut self)
        requires
            old(self).wf(),
        ensures
            final(self).wf(),
            final(self)@ == old(self)@,
            final(self).max_size == old(self).max_size,
            final(self).cursor == 0,
    {
        self.cursor = 0;
    }
}

/// Appending to a history keeps exactly the `max` newest of all the entries
/// ever given, in order: whatever came before those is gone.
pub proof fn lemma_append_all_keeps_newest(entries: Seq<Seq<char>>, max: nat, es: Seq<Seq<char>>)
    requires
        entries.len() <= max,
    ensures
        append_all(entries, max, es) == last_n(entries + es, max),
        append_all(entries, max, es).len() <= max,
        es.len() >= max ==> append_all(entries, max, es) == es.subrange(
            es.len() - max,
            es.len() as int,
        ),
    decreases es.len(),
{
    if es.len() >= max {
        let all = entries + es;
        if all.len() > max {
            assert(all.subrange(all.len() - max, all.len() as int) =~= es.subrange(
                es.len() - max,
                es.len() as int,
            ));
        } else {
            assert(es.subrange(es.len() - max, es.len() as int) =~= all);
        }
    }
    if es.len() > 0 {
        let next = last_n(entries.push(es[0]), max);
        lemma_append_all_keeps_newest(next, max, es.drop_first());
        lemma_last_n_of_last_n(entries.push(es[0]), es.drop_first(), max);
        assert(entries.push(es[0]) + es.drop_first() =~= entries + es);
    } else {
        assert(entries + es =~= entries);
    }
}

proof fn lemma_last_n_of_last_n(a: Seq<Seq<char>>, b: Seq<Seq<char>>, max: nat)
    ensures
        last_n(last_n(a, max) + b, max) == last_n(a + b, max),
{
    if a.len() > max {
        let la = last_n(a, max);
        assert(la.len() == max);
        let s1 = la + b;
        let s2 = a + b;
        if s1.len() > max {
            assert(last_n(s1, max) =~= last_n(s2, max));
        } else {
            assert(b.len() == 0);
            assert(last_n(s1, max) =~= last_n(s2, max));
        }
    }
}

} // verus!

//! In-memory histories: recent clipboard texts and launch counts. Reading
//! and writing them to disk is up to the caller.
use vstd::prelude::*;
use std::collections::VecDeque;

verus! {

/// The number of clipboard texts kept when no limit is configured.
pub const DEFAULT_MAX_ITEMS: usize = 20;

/// Recent clipboard texts, oldest first, bounded by `max`.
pub struct ClipboardHistory {
    items: VecDeque<String>,
    max: usize,
}

/// The texts after `push` of `text`: unchanged when `text` is already the
/// newest; otherwise the oldest is dropped when the history is full, and
/// `text` becomes the newest.
pub open spec fn pushed(items: Seq<Seq<char>>, max: usize, text: Seq<char>) -> Seq<Seq<char>> {
    if items.len() > 0 && items.last() == text {
        items
    } else if items.len() >= max && items.len() > 0 {
        items.subrange(1, items.len() as int).push(text)
    } else {
        items.push(text)
    }
}

impl ClipboardHistory {
    /// The texts, oldest first.
    pub closed spec fn texts(&self) -> Seq<Seq<char>> {
        self.items@.map_values(|s: String| s@)
    }

    /// The bound on the number of texts.
    pub closed spec fn limit(&self) -> usize {
        self.max
    }

    /// An empty history that keeps at most `max_items` texts, or the
    /// default number when none is given.
    pub fn new(max_items: Option<usize>) -> (r: Self)
        ensures
            r.texts() == Seq::<Seq<char>>::empty(),
            r.limit() == match max_items {
                Some(m) => m,
                None => DEFAULT_MAX_ITEMS,
            },
    {
        let max = match max_items {
            Some(m) => m,
            None => DEFAULT_MAX_ITEMS,
        };
        let r = ClipboardHistory { items: VecDeque::new(), max };
        assert(r.texts() =~= Seq::<Seq<char>>::empty());
        r
    }

    /// A history holding `items` (oldest first) with the bound `max`.
    pub fn from_parts(items: Vec<String>, max: usize) -> (r: Self)
        ensures
            r.texts() == items@.map_values(|s: String| s@),
            r.limit() == max,
    {
        let mut q: VecDeque<String> = VecDeque::new();
        let mut i: usize = 0;
        while i < items.len()
            invariant
                i <= items.len(),
                q@ == items@.subrange(0, i as int),
            decreases items.len() - i,
        {
            q.push_back(items[i].clone());
            assert(q@ =~= items@.subrange(0, i + 1));
            i = i + 1;
        }
        assert(items@.subrange(0, items@.len() as int) =~= items@);
        ClipboardHistory { items: q, max }
    }

    /// Records a copied text, as `pushed` states.
    pub fn push(&mut self, text: String)
        ensures
            final(self).texts() == pushed(old(self).texts(), old(self).limit(), text@),
            final(self).limit() == old(self).limit(),
    {
        let n = self.items.len();
        if n > 0 && self.items[n - 1] == text {
            return;
        }
        if n >= self.max {
            let _ = self.items.pop_front();
        }
        let ghost before = self.items@;
        self.items.push_back(text);
        assert(self.items@.map_values(|s: String| s@) =~= before.map_values(|s: String| s@).push(text@));
        proof {
            if n >= old(self).max && n > 0 {
                assert(before.map_values(|s: String| s@) =~= old(self).texts().subrange(1, n as int));
            }
        }
    }

    /// The texts, oldest first.
    pub fn iter(&self) -> (r: Vec<String>)
        ensures
            r@.map_values(|s: String| s@) == self.texts(),
    {
        let mut r: Vec<String> = Vec::new();
        let mut i: usize = 0;
        while i < self.items.len()
            invariant
                i <= self.items@.len(),
                r@ == self.items@.subrange(0, i as int),
            decreases self.items@.len() - i,
        {
            r.push(self.items[i].clone());
            assert(r@ =~= self.items@.subrange(0, i + 1));
            i = i + 1;
        }
        assert(self.items@.subrange(0, self.items@.len() as int) =~= self.items@);
        r
    }

    /// The number of texts.
    pub fn len(&self) -> (r: usize)
        ensures
            r == self.texts().len(),
    {
        self.items.len()
    }

    /// The bound on the number of texts.
    pub fn max(&self) -> (r: usize)
        ensures
            r == self.limit(),
    {
        self.max
    }
}

/// How often each application was launched, keyed by its entry's path.
pub struct LaunchHistory {
    counts: Vec<(String, u32)>,
}

/// The count under `key` in the entries (the first entry so keyed), or zero.
pub open spec fn count_in(entries: Seq<(String, u32)>, key: Seq<char>) -> u32
    decreases entries.len(),
{
    if entries.len() == 0 {
        0
    } else if entries[0].0@ == key {
        entries[0].1
    } else {
        count_in(entries.subrange(1, entries.len() as int), key)
    }
}

proof fn lemma_count_in_first(entries: Seq<(String, u32)>, i: int, key: Seq<char>)
    requires
        0 <= i < entries.len(),
        entries[i].0@ == key,
        forall|j: int| 0 <= j < i ==> #[trigger] entries[j].0@ != key,
    ensures
        count_in(entries, key) == entries[i].1,
    decreases i,
{
    if i > 0 {
        let rest = entries.subrange(1, entries.len() as int);
        assert forall|j: int| 0 <= j < i - 1 implies #[trigger] rest[j].0@ != key by {
            assert(rest[j] == entries[j + 1]);
        }
        lemma_count_in_first(rest, i - 1, key);
    }
}

proof fn lemma_count_in_absent(entries: Seq<(String, u32)>, key: Seq<char>)
    requires
        forall|j: int| 0 <= j < entries.len() ==> #[trigger] entries[j].0@ != key,
    ensures
        count_in(entries, key) == 0,
    decreases entries.len(),
{
    if entries.len() > 0 {
        let rest = entries.subrange(1, entries.len() as int);
        assert forall|j: int| 0 <= j < rest.len() implies #[trigger] rest[j].0@ != key by {
            assert(rest[j] == entries[j + 1]);
        }
        lemma_count_in_absent(rest, key);
    }
}

/// No entry before index `i` is keyed `key`.
pub open spec fn absent_before(entries: Seq<(String, u32)>, i: int, key: Seq<char>) -> bool {
    forall|j: int| 0 <= j < i ==> #[trigger] entries[j].0@ != key
}

proof fn lemma_count_in_update(entries: Seq<(String, u32)>, i: int, e: (String, u32), key: Seq<char>)
    requires
        0 <= i < entries.len(),
        e.0@ == entries[i].0@,
    ensures
        count_in(entries.update(i, e), key) == if entries[i].0@ == key && absent_before(entries, i, key) {
            e.1
        } else {
            count_in(entries, key)
        },
    decreases i,
{
    let u = entries.update(i, e);
    let rest = entries.subrange(1, entries.len() as int);
    if i == 0 {
        assert(u.subrange(1, u.len() as int) =~= rest);
    } else if entries[0].0@ == key {
        assert(u[0] == entries[0]);
        assert(!absent_before(entries, i, key));
    } else {
        assert(u.subrange(1, u.len() as int) =~= rest.update(i - 1, e));
        lemma_count_in_update(rest, i - 1, e, key);
        assert(rest[i - 1] == entries[i]);
        assert(absent_before(rest, i - 1, key) == absent_before(entries, i, key)) by {
            if absent_before(rest, i - 1, key) {
                assert forall|j: int| 0 <= j < i implies #[trigger] entries[j].0@ != key by {
                    if j > 0 {
                        assert(rest[j - 1] == entries[j]);
                    }
                }
            }
            if absent_before(entries, i, key) {
                assert forall|j: int| 0 <= j < i - 1 implies #[trigger] rest[j].0@ != key by {
                    assert(rest[j] == entries[j + 1]);
                }
            }
        }
    }
}

proof fn lemma_count_in_push(entries: Seq<(String, u32)>, e: (String, u32), key: Seq<char>)
    ensures
        count_in(entries.push(e), key) == if absent_before(entries, entries.len() as int, key) {
            if e.0@ == key { e.1 } else { 0 }
        } else {
            count_in(entries, key)
        },
    decreases entries.len(),
{
    let p = entries.push(e);
    if entries.len() == 0 {
        assert(p.subrange(1, p.len() as int) =~= Seq::<(String, u32)>::empty());
        assert(count_in(Seq::<(String, u32)>::empty(), key) == 0);
    } else if entries[0].0@ == key {
        assert(p[0] == entries[0]);
        assert(!absent_before(entries, entries.len() as int, key));
    } else {
        let rest = entries.subrange(1, entries.len() as int);
        assert(p.subrange(1, p.len() as int) =~= rest.push(e));
        lemma_count_in_push(rest, e, key);
        assert(absent_before(rest, rest.len() as int, key) == absent_before(entries, entries.len() as int, key)) by {
            if absent_before(rest, rest.len() as int, key) {
                assert forall|j: int| 0 <= j < entries.len() implies #[trigger] entries[j].0@ != key by {
                    if j > 0 {
                        assert(rest[j - 1] == entries[j]);
                    }
                }
            }
            if absent_before(entries, entries.len() as int, key) {
                assert forall|j: int| 0 <= j < rest.len() implies #[trigger] rest[j].0@ != key by {
                    assert(rest[j] == entries[j + 1]);
                }
            }
        }
    }
}

impl LaunchHistory {
    /// The number of launches recorded for `key`.
    pub closed spec fn count_of(&self, key: Seq<char>) -> u32 {
        count_in(self.counts@, key)
    }

    /// A history with no launch recorded.
    pub fn new() -> (r: Self)
        ensures
            forall|k: Seq<char>| #[trigger] r.count_of(k) == 0,
    {
        LaunchHistory { counts: Vec::new() }
    }

    /// Records one more launch of the application at `app_path`.
    pub fn record_launch(&mut self, app_path: &str)
        requires
            old(self).count_of(app_path@) < u32::MAX,
        ensures
            forall|k: Seq<char>| #[trigger] final(self).count_of(k) == if k == app_path@ {
                (old(self).count_of(k) + 1) as u32
            } else {
                old(self).count_of(k)
            },
    {
        let mut i: usize = 0;
        while i < self.counts.len()
            invariant
                i <= self.counts.len(),
                self.counts@ == old(self).counts@,
                count_in(self.counts@, app_path@) < u32::MAX,
                forall|j: int| 0 <= j < i ==> #[trigger] self.counts@[j].0@ != app_path@,
            decreases self.counts.len() - i,
        {
            if crate::text::str_eq(self.counts[i].0.as_str(), app_path) {
                proof { lemma_count_in_first(self.counts@, i as int, app_path@); }
                let c = self.counts[i].1;
                assert(c < u32::MAX);
                let key = self.counts[i].0.clone();
                let ghost before = self.counts@;
                self.counts.set(i, (key, c + 1));
                proof {
                    assert forall|k: Seq<char>| #[trigger] count_in(self.counts@, k) == if k == app_path@ {
                        (count_in(before, k) + 1) as u32
                    } else {
                        count_in(before, k)
                    } by {
                        lemma_count_in_update(before, i as int, (key, (c + 1) as u32), k);
                        if k == app_path@ {
                            lemma_count_in_first(before, i as int, k);
                        }
                    }
                }
                return;
            }
            i = i + 1;
        }
        proof { lemma_count_in_absent(self.counts@, app_path@); }
        let ghost before = self.counts@;
        let entry = (app_path.to_owned(), 1u32);
        let ghost e = entry;
        self.counts.push(entry);
        proof {
            assert forall|k: Seq<char>| #[trigger] count_in(self.counts@, k) == if k == app_path@ {
                (count_in(before, k) + 1) as u32
            } else {
                count_in(before, k)
            } by {
                lemma_count_in_push(before, e, k);
                if absent_before(before, before.len() as int, k) {
                    lemma_count_in_absent(before, k);
                }
            }
        }
    }

    /// The number of launches recorded for `app_path`.
    pub fn get_count(&self, app_path: &str) -> (r: u32)
        ensures
            r == self.count_of(app_path@),
    {
        let mut i: usize = 0;
        while i < self.counts.len()
            invariant
                i <= self.counts.len(),
                forall|j: int| 0 <= j < i ==> #[trigger] self.counts@[j].0@ != app_path@,
            decreases self.counts.len() - i,
        {
            if crate::text::str_eq(self.counts[i].0.as_str(), app_path) {
                proof { lemma_count_in_first(self.counts@, i as int, app_path@); }
                return self.counts[i].1;
            }
            i = i + 1;
        }
        proof { lemma_count_in_absent(self.counts@, app_path@); }
        0
    }

    /// The recorded counts, as (path, count) pairs.
    pub fn entries(&self) -> (r: &Vec<(String, u32)>)
        ensures
            forall|k: Seq<char>| #[trigger] count_in(r@, k) == self.count_of(k),
    {
        &self.counts
    }

    /// A history holding the given (path, count) pairs.
    pub fn from_entries(counts: Vec<(String, u32)>) -> (r: Self)
        ensures
            forall|k: Seq<char>| #[trigger] r.count_of(k) == count_in(counts@, k),
    {
        LaunchHistory { counts }
    }
}

} // verus!

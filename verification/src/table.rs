use vstd::prelude::*;

verus! {

/// The map an entry sequence denotes: later entries win, though the table
/// keeps its keys distinct so each key occurs once.
pub open spec fn map_of(s: Seq<(u64, i64)>) -> Map<u64, i64>
    decreases s.len(),
{
    if s.len() == 0 {
        Map::empty()
    } else {
        map_of(s.drop_last()).insert(s.last().0, s.last().1)
    }
}

/// No key occurs twice in the entry sequence.
pub open spec fn distinct_keys(s: Seq<(u64, i64)>) -> bool {
    forall|i: int, j: int| 0 <= i < j < s.len() ==> (#[trigger] s[i]).0 != (#[trigger] s[j]).0
}

/// A key is in the denoted map exactly when some entry carries it.
pub proof fn lemma_map_of_contains(s: Seq<(u64, i64)>, k: u64)
    ensures
        map_of(s).dom().contains(k) <==> exists|i: int| 0 <= i < s.len() && (#[trigger] s[i]).0 == k,
    decreases s.len(),
{
    if s.len() > 0 {
        lemma_map_of_contains(s.drop_last(), k);
        if s.last().0 == k {
            assert(s[s.len() - 1].0 == k);
        } else {
            if map_of(s).dom().contains(k) {
                let i = choose|i: int|
                    0 <= i < s.drop_last().len() && (#[trigger] s.drop_last()[i]).0 == k;
                assert(s[i].0 == k);
            }
            if exists|i: int| 0 <= i < s.len() && (#[trigger] s[i]).0 == k {
                let i = choose|i: int| 0 <= i < s.len() && (#[trigger] s[i]).0 == k;
                assert(i < s.len() - 1);
                assert(s.drop_last()[i].0 == k);
            }
        }
    }
}

/// With distinct keys, the entry at any index gives that key's value in the
/// denoted map.
pub proof fn lemma_map_of_index(s: Seq<(u64, i64)>, i: int)
    requires
        distinct_keys(s),
        0 <= i < s.len(),
    ensures
        map_of(s).dom().contains(s[i].0),
        map_of(s)[s[i].0] == s[i].1,
    decreases s.len(),
{
    if i == s.len() - 1 {
    } else {
        assert(distinct_keys(s.drop_last()));
        assert(s.drop_last()[i] == s[i]);
        lemma_map_of_index(s.drop_last(), i);
        assert(s[s.len() - 1].0 != s[i].0);
    }
}

/// Appending an entry inserts its pair into the denoted map.
pub proof fn lemma_map_of_push(s: Seq<(u64, i64)>, k: u64, v: i64)
    ensures
        map_of(s.push((k, v))) == map_of(s).insert(k, v),
{
    assert(s.push((k, v)).drop_last() =~= s);
    assert(s.push((k, v)).last() == (k, v));
}

/// Overwriting the entry that carries a key updates that key in the denoted
/// map.
pub proof fn lemma_map_of_update(s: Seq<(u64, i64)>, i: int, v: i64)
    requires
        distinct_keys(s),
        0 <= i < s.len(),
    ensures
        map_of(s.update(i, (s[i].0, v))) == map_of(s).insert(s[i].0, v),
    decreases s.len(),
{
    let k = s[i].0;
    let t = s.update(i, (k, v));
    if i == s.len() - 1 {
        assert(t.drop_last() =~= s.drop_last());
        assert(t.last() == (k, v));
        assert(map_of(s.drop_last()).insert(k, v) =~= map_of(s.drop_last()).insert(k, s[i].1).insert(
            k,
            v,
        ));
    } else {
        assert(t.drop_last() =~= s.drop_last().update(i, (k, v)));
        assert(distinct_keys(s.drop_last()));
        assert(s.drop_last()[i] == s[i]);
        lemma_map_of_update(s.drop_last(), i, v);
        let last = s.last();
        assert(t.last() == last);
        assert(last.0 != k);
        assert(map_of(s.drop_last()).insert(k, v).insert(last.0, last.1) =~= map_of(
            s.drop_last(),
        ).insert(last.0, last.1).insert(k, v));
    }
}

/// Overwriting an entry with its own key keeps the keys distinct.
pub proof fn lemma_distinct_update(s: Seq<(u64, i64)>, i: int, v: i64)
    requires
        distinct_keys(s),
        0 <= i < s.len(),
    ensures
        distinct_keys(s.update(i, (s[i].0, v))),
{
    let t = s.update(i, (s[i].0, v));
    assert forall|a: int, b: int| 0 <= a < b < t.len() implies (#[trigger] t[a]).0 != (
    #[trigger] t[b]).0 by {
        assert(s[a].0 != s[b].0);
    }
}

/// Appending an absent key keeps the keys distinct.
pub proof fn lemma_distinct_push(s: Seq<(u64, i64)>, k: u64, v: i64)
    requires
        distinct_keys(s),
        forall|j: int| 0 <= j < s.len() ==> (#[trigger] s[j]).0 != k,
    ensures
        distinct_keys(s.push((k, v))),
{
    let t = s.push((k, v));
    assert forall|a: int, b: int| 0 <= a < b < t.len() implies (#[trigger] t[a]).0 != (
    #[trigger] t[b]).0 by {
        if b < s.len() {
            assert(s[a].0 != s[b].0);
        } else {
            assert(s[a].0 != k);
        }
    }
}

/// A small association table from a `u64` id to a signed amount, one entry
/// per id; its view is the corresponding map.
pub struct Table {
    pub entries: Vec<(u64, i64)>,
}

impl View for Table {
    type V = Map<u64, i64>;

    open spec fn view(&self) -> Map<u64, i64> {
        map_of(self.entries@)
    }
}

impl Table {
    /// Each id occurs at most once among the entries.
    pub open spec fn wf(self) -> bool {
        distinct_keys(self.entries@)
    }

    pub fn new() -> (t: Table)
        ensures
            t.wf(),
            t@ == Map::<u64, i64>::empty(),
    {
        Table { entries: Vec::new() }
    }

    pub fn len(&self) -> (n: usize)
        ensures
            n == self.entries@.len(),
    {
        self.entries.len()
    }

    /// The entry at an index; its pair is in the view (see
    /// [`Table::lemma_entry_in_view`]).
    pub fn entry_at(&self, i: usize) -> (e: (u64, i64))
        requires
            i < self.entries@.len(),
        ensures
            e == self.entries@[i as int],
    {
        self.entries[i]
    }

    pub proof fn lemma_entry_in_view(&self, i: int)
        requires
            self.wf(),
            0 <= i < self.entries@.len(),
        ensures
            self@.dom().contains(self.entries@[i].0),
            self@[self.entries@[i].0] == self.entries@[i].1,
    {
        lemma_map_of_index(self.entries@, i);
    }

    /// Every key of the view is carried by some entry.
    pub proof fn lemma_key_has_entry(&self, k: u64)
        requires
            self@.dom().contains(k),
        ensures
            exists|i: int| 0 <= i < self.entries@.len() && (#[trigger] self.entries@[i]).0 == k,
    {
        lemma_map_of_contains(self.entries@, k);
    }

    /// The index of the entry carrying a key, if any.
    fn find(&self, k: u64) -> (r: Option<usize>)
        ensures
            match r {
                Some(i) => i < self.entries@.len() && self.entries@[i as int].0 == k,
                None => forall|j: int| 0 <= j < self.entries@.len() ==> (#[trigger] self.entries@[j]).0
                    != k,
            },
    {
        let n = self.entries.len();
        let mut i: usize = 0;
        while i < n
            invariant
                n == self.entries@.len(),
                0 <= i <= n,
                forall|j: int| 0 <= j < i ==> (#[trigger] self.entries@[j]).0 != k,
            decreases n - i,
        {
            let (key, _val) = self.entries[i];
            if key == k {
                return Some(i);
            }
            i += 1;
        }
        None
    }

    /// The value at a key, if the table holds the key.
    pub fn get(&self, k: u64) -> (r: Option<i64>)
        requires
            self.wf(),
        ensures
            r == if self@.dom().contains(k) {
                Some(self@[k])
            } else {
                None::<i64>
            },
    {
        match self.find(k) {
            Some(i) => {
                proof {
                    lemma_map_of_index(self.entries@, i as int);
                }
                Some(self.entries[i].1)
            },
            None => {
                proof {
                    lemma_map_of_contains(self.entries@, k);
                }
                None
            },
        }
    }

    /// Binds a key to a value, inserting or overwriting.
    pub fn set(&mut self, k: u64, v: i64)
        requires
            old(self).wf(),
        ensures
            final(self).wf(),
            final(self)@ == old(self)@.insert(k, v),
    {
        match self.find(k) {
            Some(i) => {
                proof {
                    lemma_map_of_update(self.entries@, i as int, v);
                    lemma_distinct_update(self.entries@, i as int, v);
                }
                self.entries.set(i, (k, v));
            },
            None => {
                proof {
                    lemma_map_of_push(self.entries@, k, v);
                    lemma_distinct_push(self.entries@, k, v);
                }
                self.entries.push((k, v));
            },
        }
    }
}

} // verus!

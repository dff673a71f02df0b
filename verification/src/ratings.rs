//! Rating aggregation with upsert semantics.
//!
//! A rating is keyed by the (user, card) pair: submitting again for the
//! same pair overwrites the earlier value instead of adding a second vote,
//! and the total-vote count is the number of distinct pairs, not the
//! number of submissions. [`RatingTable`] is the executable model of that
//! contract — the durable copy lives in the external store, which is held
//! to the same upsert discipline — and its view is the map from pairs to
//! the rating bits last stored for them.

use vstd::prelude::*;

verus! {

/// One stored rating: the (user, card) pair and the IEEE-754 bits of the
/// 32-bit rating value last submitted for it.
#[derive(Clone, Copy, Debug)]
pub struct RatingEntry {
    pub user_id: i32,
    pub card_id: i32,
    pub rating: u32,
}

impl RatingEntry {
    pub open spec fn key(self) -> (int, int) {
        (self.user_id as int, self.card_id as int)
    }
}

/// The map a sequence of entries stands for; later entries win.
pub open spec fn entries_map(s: Seq<RatingEntry>) -> Map<(int, int), u32>
    decreases s.len(),
{
    if s.len() == 0 {
        Map::empty()
    } else {
        entries_map(s.drop_last()).insert(s.last().key(), s.last().rating)
    }
}

/// A key is in the map exactly when some entry carries it.
proof fn lemma_entries_map_dom(s: Seq<RatingEntry>)
    ensures
        forall|k: (int, int)|
            #[trigger] entries_map(s).dom().contains(k) <==> exists|i: int|
                0 <= i < s.len() && (#[trigger] s[i]).key() == k,
    decreases s.len(),
{
    if s.len() > 0 {
        lemma_entries_map_dom(s.drop_last());
        assert forall|k: (int, int)| #[trigger]
            entries_map(s).dom().contains(k) implies exists|i: int|
            0 <= i < s.len() && (#[trigger] s[i]).key() == k by {
            if k == s.last().key() {
                assert(s[s.len() - 1].key() == k);
            } else {
                assert(entries_map(s) == entries_map(s.drop_last()).insert(
                    s.last().key(),
                    s.last().rating,
                ));
                assert(entries_map(s.drop_last()).dom().contains(k));
                let i = choose|i: int| 0 <= i < s.drop_last().len() && (#[trigger] s.drop_last()[i]).key() == k;
                assert(s.drop_last()[i] == s[i]);
                assert(s[i].key() == k);
            }
        }
        assert forall|k: (int, int)|
            (exists|i: int| 0 <= i < s.len() && (#[trigger] s[i]).key() == k) implies #[trigger]
            entries_map(s).dom().contains(k) by {
            let i = choose|i: int| 0 <= i < s.len() && (#[trigger] s[i]).key() == k;
            assert(entries_map(s) == entries_map(s.drop_last()).insert(
                s.last().key(),
                s.last().rating,
            ));
            if i < s.len() - 1 {
                assert(s.drop_last()[i] == s[i]);
                assert(s.drop_last()[i].key() == k);
                assert(entries_map(s.drop_last()).dom().contains(k));
            }
        }
    }
}

/// Entries with pairwise distinct keys.
pub open spec fn distinct_keys(s: Seq<RatingEntry>) -> bool {
    forall|i: int, j: int|
        0 <= i < j < s.len() ==> (#[trigger] s[i]).key() != (#[trigger] s[j]).key()
}

proof fn lemma_distinct_keys_drop_last(s: Seq<RatingEntry>)
    requires
        distinct_keys(s),
        s.len() > 0,
    ensures
        distinct_keys(s.drop_last()),
{
    assert forall|i: int, j: int|
        0 <= i < j < s.drop_last().len() implies (#[trigger] s.drop_last()[i]).key() != (
    #[trigger] s.drop_last()[j]).key() by {
        assert(s.drop_last()[i] == s[i]);
        assert(s.drop_last()[j] == s[j]);
    }
}

/// With distinct keys, each entry holds one slot of the map: the total
/// vote count equals the number of entries.
proof fn lemma_entries_map_len(s: Seq<RatingEntry>)
    requires
        distinct_keys(s),
    ensures
        entries_map(s).dom().finite(),
        entries_map(s).dom().len() == s.len(),
    decreases s.len(),
{
    if s.len() == 0 {
        assert(entries_map(s).dom() =~= Set::<(int, int)>::empty());
    } else {
        lemma_distinct_keys_drop_last(s);
        lemma_entries_map_len(s.drop_last());
        lemma_entries_map_dom(s.drop_last());
        let k = s.last().key();
        assert(!entries_map(s.drop_last()).dom().contains(k)) by {
            if entries_map(s.drop_last()).dom().contains(k) {
                let i = choose|i: int|
                    0 <= i < s.drop_last().len() && (#[trigger] s.drop_last()[i]).key() == k;
                assert(s[i].key() == s[s.len() - 1].key());
            }
        }
        assert(entries_map(s).dom() =~= entries_map(s.drop_last()).dom().insert(k));
    }
}

/// With distinct keys, the map reads each entry's own rating.
proof fn lemma_entries_map_at(s: Seq<RatingEntry>, i: int)
    requires
        distinct_keys(s),
        0 <= i < s.len(),
    ensures
        entries_map(s).dom().contains(s[i].key()),
        entries_map(s)[s[i].key()] == s[i].rating,
    decreases s.len(),
{
    lemma_entries_map_dom(s);
    if i == s.len() - 1 {
    } else {
        lemma_distinct_keys_drop_last(s);
        assert(s.drop_last()[i] == s[i]);
        lemma_entries_map_at(s.drop_last(), i);
        assert(s[i].key() != s[s.len() - 1].key());
    }
}

/// Overwriting the entry that holds a key updates exactly that slot.
proof fn lemma_entries_map_update(s: Seq<RatingEntry>, i: int, e: RatingEntry)
    requires
        distinct_keys(s),
        0 <= i < s.len(),
        e.key() == s[i].key(),
    ensures
        entries_map(s.update(i, e)) =~= entries_map(s).insert(e.key(), e.rating),
    decreases s.len(),
{
    if i == s.len() - 1 {
        assert(s.update(i, e).drop_last() =~= s.drop_last());
        assert(s.update(i, e).last() == e);
    } else {
        lemma_distinct_keys_drop_last(s);
        assert(s.update(i, e).drop_last() =~= s.drop_last().update(i, e));
        assert(s.drop_last()[i] == s[i]);
        lemma_entries_map_update(s.drop_last(), i, e);
        assert(s.update(i, e).last() == s.last());
        assert(s[i].key() != s[s.len() - 1].key());
        assert(entries_map(s.update(i, e)) =~= entries_map(s).insert(e.key(), e.rating));
    }
}

/// In-memory rating store with upsert semantics.
#[derive(Debug)]
pub struct RatingTable {
    entries: Vec<RatingEntry>,
}

impl View for RatingTable {
    type V = Map<(int, int), u32>;

    closed spec fn view(&self) -> Map<(int, int), u32> {
        entries_map(self.entries@)
    }
}

impl RatingTable {
    /// Internal shape: one entry per (user, card) pair.
    pub closed spec fn wf(&self) -> bool {
        distinct_keys(self.entries@)
    }

    /// An empty table: no votes at all.
    pub fn new() -> (r: RatingTable)
        ensures
            r.wf(),
            r@ == Map::<(int, int), u32>::empty(),
            r@.dom().len() == 0,
    {
        let r = RatingTable { entries: Vec::new() };
        proof {
            assert(r.entries@.len() == 0);
            lemma_entries_map_len(r.entries@);
        }
        r
    }

    /// The total vote count: the number of distinct (user, card) pairs.
    pub fn total_votes(&self) -> (n: usize)
        requires
            self.wf(),
        ensures
            n == self@.dom().len(),
    {
        proof {
            lemma_entries_map_len(self.entries@);
        }
        self.entries.len()
    }

    /// The rating bits stored for a pair, if that pair ever voted.
    pub fn get(&self, user_id: i32, card_id: i32) -> (r: Option<u32>)
        requires
            self.wf(),
        ensures
            match r {
                Some(v) => self@.dom().contains((user_id as int, card_id as int)) && self@[(
                    user_id as int,
                    card_id as int,
                )] == v,
                None => !self@.dom().contains((user_id as int, card_id as int)),
            },
    {
        let ghost k = (user_id as int, card_id as int);
        let n = self.entries.len();
        let mut i: usize = 0;
        while i < n
            invariant
                i <= n,
                n == self.entries@.len(),
                self.wf(),
                forall|j: int| 0 <= j < i ==> (#[trigger] self.entries@[j]).key() != k,
                k == (user_id as int, card_id as int),
            decreases n - i,
        {
            let e = self.entries[i];
            if e.user_id == user_id && e.card_id == card_id {
                proof {
                    lemma_entries_map_at(self.entries@, i as int);
                }
                return Some(e.rating);
            }
            i = i + 1;
        }
        proof {
            lemma_entries_map_dom(self.entries@);
        }
        None
    }

    /// Record a vote: insert the pair's rating, or overwrite the value an
    /// earlier vote by the same pair left. Returns the total vote count
    /// after the write — unchanged when the pair had voted before, one
    /// more when it had not.
    pub fn rate(&mut self, user_id: i32, card_id: i32, rating: u32) -> (total: usize)
        requires
            old(self).wf(),
        ensures
            final(self).wf(),
            final(self)@ == old(self)@.insert((user_id as int, card_id as int), rating),
            total == final(self)@.dom().len(),
            old(self)@.dom().contains((user_id as int, card_id as int)) ==> total == old(
                self,
            )@.dom().len(),
            !old(self)@.dom().contains((user_id as int, card_id as int)) ==> total == old(
                self,
            )@.dom().len() + 1,
    {
        let ghost k = (user_id as int, card_id as int);
        proof {
            lemma_entries_map_len(self.entries@);
            lemma_entries_map_dom(self.entries@);
        }
        let entry = RatingEntry { user_id, card_id, rating };
        let n = self.entries.len();
        let mut i: usize = 0;
        while i < n
            invariant
                i <= n,
                n == self.entries@.len(),
                self == old(self),
                self.wf(),
                forall|j: int| 0 <= j < i ==> (#[trigger] self.entries@[j]).key() != k,
                k == (user_id as int, card_id as int),
                entry.key() == k,
                entry.rating == rating,
            decreases n - i,
        {
            let e = self.entries[i];
            if e.user_id == user_id && e.card_id == card_id {
                proof {
                    lemma_entries_map_update(self.entries@, i as int, entry);
                    lemma_entries_map_len(self.entries@);
                }
                let ghost before = self.entries@;
                self.entries.set(i, entry);
                proof {
                    assert forall|a: int, b: int|
                        0 <= a < b < self.entries@.len() implies (
                    #[trigger] self.entries@[a]).key() != (#[trigger] self.entries@[b]).key() by {
                        assert(self.entries@[a].key() == before[a].key());
                        assert(self.entries@[b].key() == before[b].key());
                    }
                    lemma_entries_map_len(self.entries@);
                    assert(final(self)@.dom() =~= old(self)@.dom().insert(k));
                    assert(old(self)@.dom().insert(k) =~= old(self)@.dom());
                }
                return self.entries.len();
            }
            i = i + 1;
        }
        let ghost before = self.entries@;
        self.entries.push(entry);
        proof {
            assert(self.entries@.drop_last() =~= before);
            assert(self.entries@.last() == entry);
            assert forall|a: int, b: int|
                0 <= a < b < self.entries@.len() implies (#[trigger] self.entries@[a]).key() != (
            #[trigger] self.entries@[b]).key() by {
                if b < self.entries@.len() - 1 {
                    assert(self.entries@[a] == before[a]);
                    assert(self.entries@[b] == before[b]);
                } else {
                    assert(self.entries@[a] == before[a]);
                    assert(self.entries@[b] == entry);
                }
            }
            lemma_entries_map_len(self.entries@);
        }
        self.entries.len()
    }
}

/// Submitting two ratings in a row for the same (user, card) pair is the
/// same write as submitting only the second: the vote count stands where
/// the first submission left it, and the pair's stored value is the
/// second rating alone.
pub proof fn lemma_rate_upsert_idempotent(
    m: Map<(int, int), u32>,
    u: int,
    c: int,
    r1: u32,
    r2: u32,
)
    ensures
        m.insert((u, c), r1).insert((u, c), r2) == m.insert((u, c), r2),
        m.insert((u, c), r1).insert((u, c), r2).dom() == m.insert((u, c), r1).dom(),
        m.insert((u, c), r1).insert((u, c), r2)[(u, c)] == r2,
        m.dom().finite() && !m.dom().contains((u, c)) ==> m.insert((u, c), r1).insert(
            (u, c),
            r2,
        ).dom().len() == m.dom().len() + 1,
{
    assert(m.insert((u, c), r1).insert((u, c), r2) =~= m.insert((u, c), r2));
    assert(m.insert((u, c), r1).insert((u, c), r2).dom() =~= m.insert((u, c), r1).dom());
    if m.dom().finite() && !m.dom().contains((u, c)) {
        assert(m.insert((u, c), r2).dom() =~= m.dom().insert((u, c)));
    }
}

} // verus!

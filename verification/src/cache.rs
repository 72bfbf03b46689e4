//! The last-known-quota store: account identifier to the most recent
//! reading, last write wins, no eviction.
//!
//! The store itself is a plain sequential structure whose view is a map
//! from account identifier to reading. The surrounding application wraps
//! it in a reader/writer lock; nothing here depends on how it is shared.

use vstd::prelude::*;

use crate::providers::QuotaData;
use crate::providers::QuotaDataView;

verus! {

/// The map an entry list denotes: later entries overwrite earlier ones.
pub open spec fn entries_map(s: Seq<(String, QuotaData)>) -> Map<Seq<char>, QuotaDataView>
    decreases s.len(),
{
    if s.len() == 0 {
        Map::empty()
    } else {
        entries_map(s.drop_last()).insert(s.last().0@, s.last().1@)
    }
}

/// Whether the entry keys are pairwise distinct.
pub open spec fn distinct_keys(s: Seq<(String, QuotaData)>) -> bool {
    forall|i: int, j: int| 0 <= i < j < s.len() ==> (#[trigger] s[i]).0@ != (#[trigger] s[j]).0@
}

/// A key is in the denoted map exactly when some entry holds it.
proof fn lemma_entries_map_contains(s: Seq<(String, QuotaData)>, k: Seq<char>)
    ensures
        entries_map(s).contains_key(k) <==> exists|i: int|
            0 <= i < s.len() && (#[trigger] s[i]).0@ == k,
    decreases s.len(),
{
    if s.len() > 0 {
        lemma_entries_map_contains(s.drop_last(), k);
        if s.last().0@ == k {
            assert(s[s.len() - 1].0@ == k);
        } else if entries_map(s).contains_key(k) {
            let i = choose|i: int| 0 <= i < s.drop_last().len() && (#[trigger] s.drop_last()[i]).0@
                == k;
            assert(s[i].0@ == k);
        } else {
            assert forall|i: int| 0 <= i < s.len() implies (#[trigger] s[i]).0@ != k by {
                if i < s.len() - 1 {
                    assert(s.drop_last()[i] == s[i]);
                }
            }
        }
    }
}

/// With distinct keys, the denoted map sends each entry's key to that
/// entry's value.
proof fn lemma_entries_map_at(s: Seq<(String, QuotaData)>, i: int)
    requires
        distinct_keys(s),
        0 <= i < s.len(),
    ensures
        entries_map(s).contains_key(s[i].0@),
        entries_map(s)[s[i].0@] == s[i].1@,
    decreases s.len(),
{
    lemma_entries_map_contains(s, s[i].0@);
    if i == s.len() - 1 {
    } else {
        assert(distinct_keys(s.drop_last()));
        assert(s.drop_last()[i] == s[i]);
        lemma_entries_map_at(s.drop_last(), i);
        assert(s[s.len() - 1].0@ != s[i].0@);
    }
}

/// With distinct keys, the denoted map has exactly one key per entry.
proof fn lemma_entries_map_len(s: Seq<(String, QuotaData)>)
    requires
        distinct_keys(s),
    ensures
        entries_map(s).dom().finite(),
        entries_map(s).dom().len() == s.len(),
    decreases s.len(),
{
    if s.len() > 0 {
        assert(distinct_keys(s.drop_last()));
        lemma_entries_map_len(s.drop_last());
        lemma_entries_map_contains(s.drop_last(), s.last().0@);
        assert forall|i: int| 0 <= i < s.drop_last().len() implies (#[trigger] s.drop_last()[
            i
        ]).0@ != s.last().0@ by {
            assert(s.drop_last()[i] == s[i]);
            assert(s[s.len() - 1].0@ == s.last().0@);
        }
        assert(!entries_map(s.drop_last()).contains_key(s.last().0@));
    }
}

/// Updating the entry that holds key `k` updates the denoted map at `k`.
proof fn lemma_entries_map_update(s: Seq<(String, QuotaData)>, i: int, e: (String, QuotaData))
    requires
        distinct_keys(s),
        0 <= i < s.len(),
        e.0@ == s[i].0@,
    ensures
        entries_map(s.update(i, e)) == entries_map(s).insert(e.0@, e.1@),
        distinct_keys(s.update(i, e)),
    decreases s.len(),
{
    let t = s.update(i, e);
    assert forall|a: int, b: int| 0 <= a < b < t.len() implies (#[trigger] t[a]).0@ != (
    #[trigger] t[b]).0@ by {
        assert(s[a].0@ != s[b].0@);
    }
    if i == s.len() - 1 {
        assert(t.drop_last() =~= s.drop_last());
        assert(entries_map(t) =~= entries_map(s).insert(e.0@, e.1@));
    } else {
        assert(t.drop_last() =~= s.drop_last().update(i, e));
        assert(distinct_keys(s.drop_last()));
        assert(s.drop_last()[i] == s[i]);
        lemma_entries_map_update(s.drop_last(), i, e);
        assert(t.last() == s.last());
        assert(s.last().0@ == s[s.len() - 1].0@);
        assert(s[s.len() - 1].0@ != s[i].0@);
        assert(entries_map(t) =~= entries_map(s).insert(e.0@, e.1@));
    }
}

/// Appending an entry with a fresh key inserts it into the denoted map.
proof fn lemma_entries_map_push(s: Seq<(String, QuotaData)>, e: (String, QuotaData))
    requires
        distinct_keys(s),
        forall|i: int| 0 <= i < s.len() ==> (#[trigger] s[i]).0@ != e.0@,
    ensures
        entries_map(s.push(e)) == entries_map(s).insert(e.0@, e.1@),
        distinct_keys(s.push(e)),
{
    let t = s.push(e);
    assert(t.drop_last() =~= s);
    assert(t.last() == e);
    assert forall|a: int, b: int| 0 <= a < b < t.len() implies (#[trigger] t[a]).0@ != (
    #[trigger] t[b]).0@ by {
        if b < t.len() - 1 {
            assert(s[a].0@ != s[b].0@);
        } else {
            assert(t[a] == s[a]);
        }
    }
}

/// Removing the entry that holds key `k` removes `k` from the denoted
/// map.
proof fn lemma_entries_map_remove(s: Seq<(String, QuotaData)>, i: int)
    requires
        distinct_keys(s),
        0 <= i < s.len(),
    ensures
        entries_map(s.remove(i)) == entries_map(s).remove(s[i].0@),
        distinct_keys(s.remove(i)),
    decreases s.len(),
{
    let t = s.remove(i);
    assert forall|a: int, b: int| 0 <= a < b < t.len() implies (#[trigger] t[a]).0@ != (
    #[trigger] t[b]).0@ by {
        let sa = if a < i {
            a
        } else {
            a + 1
        };
        let sb = if b < i {
            b
        } else {
            b + 1
        };
        assert(t[a] == s[sa]);
        assert(t[b] == s[sb]);
        assert(s[sa].0@ != s[sb].0@);
    }
    if i == s.len() - 1 {
        assert(t =~= s.drop_last());
        lemma_entries_map_contains(s.drop_last(), s[i].0@);
        assert forall|j: int| 0 <= j < s.drop_last().len() implies (#[trigger] s.drop_last()[
            j
        ]).0@ != s[i].0@ by {
            assert(s.drop_last()[j] == s[j]);
        }
        assert(!entries_map(s.drop_last()).contains_key(s[i].0@));
        assert(entries_map(t) =~= entries_map(s).remove(s[i].0@));
    } else {
        assert(t.drop_last() =~= s.drop_last().remove(i));
        assert(distinct_keys(s.drop_last()));
        assert(s.drop_last()[i] == s[i]);
        lemma_entries_map_remove(s.drop_last(), i);
        assert(t.last() == s.last());
        assert(s.last() == s[s.len() - 1]);
        assert(s[s.len() - 1].0@ != s[i].0@);
        assert(entries_map(t) =~= entries_map(s).remove(s[i].0@));
    }
}

/// Whether some account in `m` holds the reading `v`.
pub open spec fn map_has_reading(m: Map<Seq<char>, QuotaDataView>, v: QuotaDataView) -> bool {
    exists|k: Seq<char>| #![auto] m.contains_key(k) && m[k] == v
}

/// The concurrent last-known-quota store: account identifier to the most
/// recent reading. Entries live until overwritten or removed.
pub struct Cache {
    entries: Vec<(String, QuotaData)>,
}

impl View for Cache {
    type V = Map<Seq<char>, QuotaDataView>;

    closed spec fn view(&self) -> Map<Seq<char>, QuotaDataView> {
        entries_map(self.entries@)
    }
}

impl Cache {
    /// The store keeps one reading per distinct account identifier.
    pub closed spec fn wf(&self) -> bool {
        distinct_keys(self.entries@)
    }

    /// An empty store.
    pub fn new() -> (r: Self)
        ensures
            r.wf(),
            r@ == Map::<Seq<char>, QuotaDataView>::empty(),
            r@.dom().len() == 0,
    {
        let r = Cache { entries: Vec::new() };
        proof {
            lemma_entries_map_len(r.entries@);
        }
        r
    }

    /// The index holding `account_id`, if any.
    fn find(&self, account_id: &str) -> (r: Option<usize>)
        requires
            self.wf(),
        ensures
            match r {
                Some(i) => i < self.entries@.len() && self.entries@[i as int].0@ == account_id@,
                None => forall|i: int|
                    0 <= i < self.entries@.len() ==> (#[trigger] self.entries@[i]).0@
                        != account_id@,
            },
    {
        let n = self.entries.len();
        let mut i: usize = 0;
        while i < n
            invariant
                i <= n,
                n == self.entries@.len(),
                forall|j: int| 0 <= j < i ==> (#[trigger] self.entries@[j]).0@ != account_id@,
            decreases n - i,
        {
            if crate::providers::str_eq_str(self.entries[i].0.as_str(), account_id) {
                return Some(i);
            }
            i = i + 1;
        }
        None
    }

    /// Stores the latest reading for an account, overwriting any earlier
    /// one: last write wins.
    pub fn set(&mut self, account_id: String, quota: QuotaData)
        requires
            old(self).wf(),
        ensures
            final(self).wf(),
            final(self)@ == old(self)@.insert(account_id@, quota@),
    {
        let found = self.find(account_id.as_str());
        match found {
            Some(i) => {
                proof {
                    lemma_entries_map_update(
                        self.entries@,
                        i as int,
                        (account_id, quota),
                    );
                }
                self.entries[i] = (account_id, quota);
            },
            None => {
                proof {
                    lemma_entries_map_push(self.entries@, (account_id, quota));
                }
                self.entries.push((account_id, quota));
            },
        }
    }

    /// The most recent reading stored for an account: `Some` exactly when
    /// one was stored and not removed.
    pub fn get(&self, account_id: &str) -> (r: Option<QuotaData>)
        requires
            self.wf(),
        ensures
            match r {
                Some(q) => self@.contains_key(account_id@) && q@ == self@[account_id@],
                None => !self@.contains_key(account_id@),
            },
    {
        proof {
            lemma_entries_map_contains(self.entries@, account_id@);
        }
        match self.find(account_id) {
            Some(i) => {
                proof {
                    lemma_entries_map_at(self.entries@, i as int);
                }
                Some(self.entries[i].1.clone())
            },
            None => None,
        }
    }

    /// A snapshot of every stored reading, one per distinct account, in
    /// no significant order: every element is some account's stored
    /// reading, and every stored account's reading appears.
    pub fn get_all(&self) -> (r: Vec<QuotaData>)
        requires
            self.wf(),
        ensures
            r@.len() == self@.dom().len(),
            forall|i: int| 0 <= i < r@.len() ==> map_has_reading(self@, (#[trigger] r@[i])@),
            forall|k: Seq<char>|
                #[trigger] self@.contains_key(k) ==> exists|i: int|
                    0 <= i < r@.len() && (#[trigger] r@[i])@ == self@[k],
    {
        proof {
            lemma_entries_map_len(self.entries@);
        }
        let n = self.entries.len();
        let mut out: Vec<QuotaData> = Vec::new();
        let mut i: usize = 0;
        while i < n
            invariant
                i <= n,
                n == self.entries@.len(),
                self.wf(),
                out@.len() == i,
                forall|j: int| 0 <= j < i ==> map_has_reading(self@, (#[trigger] out@[j])@),
                forall|j: int| 0 <= j < i ==> (#[trigger] out@[j])@ == self.entries@[j].1@,
            decreases n - i,
        {
            let q = self.entries[i].1.clone();
            proof {
                lemma_entries_map_at(self.entries@, i as int);
                assert(self@.contains_key(self.entries@[i as int].0@) && self@[self.entries@[
                    i as int
                ].0@] == q@);
                assert(map_has_reading(self@, q@));
            }
            out.push(q);
            i = i + 1;
        }
        proof {
            assert forall|k: Seq<char>| #[trigger] self@.contains_key(k) implies exists|j: int|
                0 <= j < out@.len() && (#[trigger] out@[j])@ == self@[k] by {
                lemma_entries_map_contains(self.entries@, k);
                let idx = choose|idx: int|
                    0 <= idx < self.entries@.len() && (#[trigger] self.entries@[idx]).0@ == k;
                lemma_entries_map_at(self.entries@, idx);
                assert(out@[idx]@ == self@[k]);
            }
        }
        out
    }

    /// Drops the reading stored for an account, if any.
    pub fn remove(&mut self, account_id: &str)
        requires
            old(self).wf(),
        ensures
            final(self).wf(),
            final(self)@ == old(self)@.remove(account_id@),
    {
        proof {
            lemma_entries_map_contains(self.entries@, account_id@);
        }
        match self.find(account_id) {
            Some(i) => {
                proof {
                    lemma_entries_map_remove(self.entries@, i as int);
                }
                let _ = self.entries.remove(i);
            },
            None => {
                proof {
                    assert(!old(self)@.contains_key(account_id@));
                    assert(old(self)@.remove(account_id@) =~= old(self)@);
                }
            },
        }
    }

    /// Drops every stored reading.
    pub fn clear(&mut self)
        ensures
            final(self).wf(),
            final(self)@ == Map::<Seq<char>, QuotaDataView>::empty(),
    {
        self.entries.clear();
    }
}

} // verus!

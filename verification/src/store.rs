//! The ownership-indexed creature store: a collection of records keyed by
//! (owner, identifier), with insert and keyed lookup. Its view is the map from
//! keys to stored genomes. The store never re-checks global identifier
//! uniqueness; the caller guarantees that every inserted key is new.

use crate::genome::Kitty;
use crate::registry::AccountId;
use vstd::prelude::*;

verus! {

/// The key of a record in the map view.
pub open spec fn entry_key(e: (AccountId, u32, Kitty)) -> (AccountId, u32) {
    (e.0, e.1)
}

/// The map that a sequence of records denotes: each key maps to the genome of
/// the last record carrying it.
pub open spec fn map_of(entries: Seq<(AccountId, u32, Kitty)>) -> Map<(AccountId, u32), Seq<u8>>
    decreases entries.len(),
{
    if entries.len() == 0 {
        Map::empty()
    } else {
        map_of(entries.drop_last()).insert(entry_key(entries.last()), entries.last().2@)
    }
}

/// No two records share a key.
pub open spec fn keys_distinct(entries: Seq<(AccountId, u32, Kitty)>) -> bool {
    forall|i: int, j: int|
        0 <= i < j < entries.len() ==> entry_key(#[trigger] entries[i]) != entry_key(
            #[trigger] entries[j],
        )
}

/// A key is in the map view exactly when some record carries it.
proof fn lemma_map_of_contains(entries: Seq<(AccountId, u32, Kitty)>, k: (AccountId, u32))
    ensures
        map_of(entries).contains_key(k) <==> exists|i: int|
            0 <= i < entries.len() && entry_key(#[trigger] entries[i]) == k,
    decreases entries.len(),
{
    if entries.len() > 0 {
        lemma_map_of_contains(entries.drop_last(), k);
        if entry_key(entries.last()) == k {
            assert(entry_key(entries[entries.len() - 1]) == k);
        } else if exists|i: int| 0 <= i < entries.len() && entry_key(#[trigger] entries[i]) == k {
            let i = choose|i: int| 0 <= i < entries.len() && entry_key(#[trigger] entries[i]) == k;
            assert(entry_key(entries.drop_last()[i]) == k);
        }
    }
}

/// With distinct keys, the map view sends the key of any record to exactly
/// that record's genome.
proof fn lemma_map_of_at(entries: Seq<(AccountId, u32, Kitty)>, k: (AccountId, u32), i: int)
    requires
        keys_distinct(entries),
        0 <= i < entries.len(),
        entry_key(entries[i]) == k,
    ensures
        map_of(entries).contains_key(k),
        map_of(entries)[k] == entries[i].2@,
    decreases entries.len(),
{
    if i == entries.len() - 1 {
        assert(entries.last() == entries[i]);
    } else {
        assert(entry_key(entries.last()) != k);
        assert(entries.drop_last()[i] == entries[i]);
        lemma_map_of_at(entries.drop_last(), k, i);
    }
}

/// An ownership-indexed collection of creatures: (owner, identifier) names a
/// record, absence is a valid "not found" result, and records are write-once
/// (no update or delete is exposed).
pub struct KittyStore {
    entries: Vec<(AccountId, u32, Kitty)>,
}

impl View for KittyStore {
    type V = Map<(AccountId, u32), Seq<u8>>;

    closed spec fn view(&self) -> Map<(AccountId, u32), Seq<u8>> {
        map_of(self.entries@)
    }
}

impl KittyStore {
    /// Well-formed: no key names two records, so a keyed lookup is
    /// unambiguous.
    pub closed spec fn wf(self) -> bool {
        keys_distinct(self.entries@)
    }

    /// An empty store.
    pub fn new() -> (s: Self)
        ensures
            s.wf(),
            s@ == Map::<(AccountId, u32), Seq<u8>>::empty(),
    {
        KittyStore { entries: Vec::new() }
    }

    /// Looks a creature up by owner and identifier. `None` covers both a
    /// record that does not exist and one stored under a different owner.
    pub fn get(&self, owner: AccountId, kitty_id: u32) -> (r: Option<Kitty>)
        requires
            self.wf(),
        ensures
            match r {
                Some(kitty) => self@.contains_key((owner, kitty_id)) && kitty@ == self@[
                    (owner, kitty_id)
                ],
                None => !self@.contains_key((owner, kitty_id)),
            },
    {
        let n = self.entries.len();
        let mut idx: usize = 0;
        while idx < n
            invariant
                n == self.entries@.len(),
                self.wf(),
                forall|j: int|
                    0 <= j < idx ==> entry_key(#[trigger] self.entries@[j]) != (owner, kitty_id),
            decreases n - idx,
        {
            let entry = self.entries[idx];
            if entry.0 == owner && entry.1 == kitty_id {
                proof {
                    lemma_map_of_at(self.entries@, (owner, kitty_id), idx as int);
                }
                return Some(entry.2);
            }
            idx = idx + 1;
        }
        proof {
            lemma_map_of_contains(self.entries@, (owner, kitty_id));
        }
        None
    }

    /// Stores a new record under (owner, identifier). The caller guarantees
    /// the key is new: the identifier was freshly allocated and never reused.
    pub fn insert(&mut self, owner: AccountId, kitty_id: u32, kitty: Kitty)
        requires
            old(self).wf(),
            !old(self)@.contains_key((owner, kitty_id)),
        ensures
            final(self).wf(),
            final(self)@ == old(self)@.insert((owner, kitty_id), kitty@),
    {
        proof {
            lemma_map_of_contains(self.entries@, (owner, kitty_id));
        }
        self.entries.push((owner, kitty_id, kitty));
        proof {
            assert(self.entries@.drop_last() =~= old(self).entries@);
            assert(forall|i: int|
                0 <= i < old(self).entries@.len() ==> entry_key(#[trigger] old(self).entries@[i])
                    != (owner, kitty_id));
        }
    }
}

} // verus!

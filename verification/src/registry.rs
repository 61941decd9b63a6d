//! The transition engine: the registry state (identifier counter plus
//! creature store), the two operations `create` and `breed`, and the
//! notification records they emit. The abstract state and its transitions are
//! spec-level; the executable engine is proved to follow them exactly.

use crate::allocator::IdAllocator;
use crate::errors::Error;
use crate::genome::{combine_genomes, gender_of, spec_combine_genome, Kitty};
use crate::store::KittyStore;
use vstd::prelude::*;

verus! {

/// The opaque identity of an actor, as handed down by the authenticating
/// host. The registry only ever compares identities for equality.
pub type AccountId = u64;

/// A notification record describing a completed transition, for delivery to
/// external observers: the owner, the new creature's identifier, and the
/// creature itself.
#[derive(Clone, Copy, PartialEq, Eq, Debug)]
pub enum Event {
    KittyCreated(AccountId, u32, Kitty),
    KittyBred(AccountId, u32, Kitty),
}

/// The abstract registry state: the counter of the next identifier to issue,
/// and the map from (owner, identifier) to the stored genome.
#[verifier::ext_equal]
pub struct RegistryView {
    pub next_kitty_id: u32,
    pub kitties: Map<(AccountId, u32), Seq<u8>>,
}

impl RegistryView {
    /// Whether `owner` holds a creature under `kitty_id`.
    pub open spec fn has_kitty(self, owner: AccountId, kitty_id: u32) -> bool {
        self.kitties.contains_key((owner, kitty_id))
    }

    /// The genome stored under (owner, kitty_id).
    pub open spec fn dna_of(self, owner: AccountId, kitty_id: u32) -> Seq<u8> {
        self.kitties[(owner, kitty_id)]
    }

    /// The registry's invariant: every stored identifier was issued (lies
    /// below the counter), and identifiers are globally unique — no two
    /// records share one, even across owners.
    pub open spec fn inv(self) -> bool {
        &&& forall|k: (AccountId, u32)|
            #[trigger] self.kitties.contains_key(k) ==> k.1 < self.next_kitty_id
        &&& forall|k1: (AccountId, u32), k2: (AccountId, u32)|
            #[trigger] self.kitties.contains_key(k1) && #[trigger] self.kitties.contains_key(k2)
                && k1 != k2 ==> k1.1 != k2.1
    }

    /// What `create` computes: either the counter is exhausted and nothing
    /// changes, or the caller receives the next identifier and the supplied
    /// genome is stored under it.
    pub open spec fn spec_create(self, sender: AccountId, dna: Seq<u8>) -> (RegistryView, Result<
        u32,
        Error,
    >) {
        if self.next_kitty_id == u32::MAX {
            (self, Err(Error::KittiesIdOverflow))
        } else {
            (
                RegistryView {
                    next_kitty_id: (self.next_kitty_id + 1) as u32,
                    kitties: self.kitties.insert((sender, self.next_kitty_id), dna),
                },
                Ok(self.next_kitty_id),
            )
        }
    }

    /// What `breed` computes. The checks run in order: both parents must
    /// resolve under the caller's own key, their genders must differ, and only
    /// then is an identifier allocated — so a rejected attempt never consumes
    /// one. On success the child genome combines the parents' under the
    /// selector, bit by bit.
    pub open spec fn spec_breed(
        self,
        sender: AccountId,
        kitty_id_1: u32,
        kitty_id_2: u32,
        selector: Seq<u8>,
    ) -> (RegistryView, Result<u32, Error>) {
        if !self.has_kitty(sender, kitty_id_1) || !self.has_kitty(sender, kitty_id_2) {
            (self, Err(Error::InvalidKittyId))
        } else if gender_of(self.dna_of(sender, kitty_id_1)) == gender_of(
            self.dna_of(sender, kitty_id_2),
        ) {
            (self, Err(Error::SameGender))
        } else if self.next_kitty_id == u32::MAX {
            (self, Err(Error::KittiesIdOverflow))
        } else {
            let child = spec_combine_genome(
                self.dna_of(sender, kitty_id_1),
                self.dna_of(sender, kitty_id_2),
                selector,
            );
            (
                RegistryView {
                    next_kitty_id: (self.next_kitty_id + 1) as u32,
                    kitties: self.kitties.insert((sender, self.next_kitty_id), child),
                },
                Ok(self.next_kitty_id),
            )
        }
    }
}

/// The registry: one identifier counter and one creature store, mutated
/// exactly once each per successful operation and not at all on failure.
pub struct KittyRegistry {
    allocator: IdAllocator,
    kitties: KittyStore,
}

impl View for KittyRegistry {
    type V = RegistryView;

    closed spec fn view(&self) -> RegistryView {
        RegistryView { next_kitty_id: self.allocator@, kitties: self.kitties@ }
    }
}

impl KittyRegistry {
    /// Well-formed: the store resolves keys unambiguously and the abstract
    /// invariant holds. Established by `new` and preserved by every operation.
    pub closed spec fn wf(self) -> bool {
        &&& self.kitties.wf()
        &&& self@.inv()
    }

    /// The abstract invariant follows from well-formedness.
    pub proof fn lemma_wf_implies_inv(self)
        requires
            self.wf(),
        ensures
            self@.inv(),
    {
    }

    /// An empty registry, about to issue identifier 0.
    pub fn new() -> (r: Self)
        ensures
            r.wf(),
            r@.next_kitty_id == 0,
            r@.kitties == Map::<(AccountId, u32), Seq<u8>>::empty(),
    {
        KittyRegistry { allocator: IdAllocator::new(), kitties: KittyStore::new() }
    }

    /// The identifier the next successful operation will issue.
    pub fn next_kitty_id(&self) -> (r: u32)
        ensures
            r == self@.next_kitty_id,
    {
        self.allocator.current()
    }

    /// Looks a creature up by owner and identifier. `None` covers both a
    /// record that does not exist and one held by a different owner; the two
    /// are deliberately indistinguishable to the caller.
    pub fn kitties(&self, owner: AccountId, kitty_id: u32) -> (r: Option<Kitty>)
        requires
            self.wf(),
        ensures
            match r {
                Some(kitty) => self@.has_kitty(owner, kitty_id) && kitty@ == self@.dna_of(
                    owner,
                    kitty_id,
                ),
                None => !self@.has_kitty(owner, kitty_id),
            },
    {
        self.kitties.get(owner, kitty_id)
    }

    /// Creates a creature for `sender` with the supplied genome (derived by
    /// the host's randomness collaborator). On success the freshly issued
    /// identifier names the new record and a `KittyCreated` notification is
    /// returned; when the counter is exhausted, nothing changes.
    pub fn create(&mut self, sender: AccountId, dna: [u8; 16]) -> (r: Result<Event, Error>)
        requires
            old(self).wf(),
        ensures
            final(self).wf(),
            final(self)@ == old(self)@.spec_create(sender, dna@).0,
            r is Ok <==> old(self)@.next_kitty_id < u32::MAX,
            r matches Ok(event) ==> event == Event::KittyCreated(
                sender,
                old(self)@.next_kitty_id,
                Kitty(dna),
            ),
            r is Err ==> r == Err::<Event, Error>(Error::KittiesIdOverflow) && *final(self)
                == *old(self),
    {
        let kitty_id = match self.allocator.next_id() {
            Ok(id) => id,
            Err(e) => { return Err(e) },
        };
        let kitty = Kitty(dna);
        proof {
            assert(!old(self)@.kitties.contains_key((sender, kitty_id)));
        }
        self.kitties.insert(sender, kitty_id, kitty);
        proof {
            self.lemma_insert_fresh_preserves_inv(old(self)@, sender, kitty_id, dna@);
        }
        Ok(Event::KittyCreated(sender, kitty_id, kitty))
    }

    /// Fresh insertion under the just-issued identifier preserves the
    /// abstract invariant once the counter has moved past it.
    proof fn lemma_insert_fresh_preserves_inv(
        self,
        pre: RegistryView,
        sender: AccountId,
        kitty_id: u32,
        dna: Seq<u8>,
    )
        requires
            pre.inv(),
            kitty_id == pre.next_kitty_id,
            pre.next_kitty_id < u32::MAX,
            self@.next_kitty_id == pre.next_kitty_id + 1,
            self@.kitties == pre.kitties.insert((sender, kitty_id), dna),
        ensures
            self@.inv(),
    {
        assert forall|k: (AccountId, u32)| #[trigger]
            self@.kitties.contains_key(k) implies k.1 < self@.next_kitty_id by {
            if k != (sender, kitty_id) {
                assert(pre.kitties.contains_key(k));
            }
        }
        assert forall|k1: (AccountId, u32), k2: (AccountId, u32)|
            #[trigger] self@.kitties.contains_key(k1) && #[trigger] self@.kitties.contains_key(k2)
                && k1 != k2 implies k1.1 != k2.1 by {
            if k1 != (sender, kitty_id) && k2 != (sender, kitty_id) {
                assert(pre.kitties.contains_key(k1) && pre.kitties.contains_key(k2));
            } else if k1 == (sender, kitty_id) {
                assert(pre.kitties.contains_key(k2));
            } else {
                assert(pre.kitties.contains_key(k1));
            }
        }
    }

    /// Breeds a new creature for `sender` from two creatures `sender` already
    /// owns, using the host-supplied selector to choose, bit by bit, which
    /// parent's genetic material passes on. The ownership and gender checks
    /// run before the identifier is allocated, so a rejected attempt never
    /// consumes one; every failure leaves the registry exactly as it was.
    pub fn breed(
        &mut self,
        sender: AccountId,
        kitty_id_1: u32,
        kitty_id_2: u32,
        selector: [u8; 16],
    ) -> (r: Result<Event, Error>)
        requires
            old(self).wf(),
        ensures
            final(self).wf(),
            final(self)@ == old(self)@.spec_breed(sender, kitty_id_1, kitty_id_2, selector@).0,
            r is Ok <==> (old(self)@.has_kitty(sender, kitty_id_1) && old(self)@.has_kitty(
                sender,
                kitty_id_2,
            ) && gender_of(old(self)@.dna_of(sender, kitty_id_1)) != gender_of(
                old(self)@.dna_of(sender, kitty_id_2),
            ) && old(self)@.next_kitty_id < u32::MAX),
            r matches Ok(event) ==> (event matches Event::KittyBred(owner, kitty_id, kitty)
                && owner == sender && kitty_id == old(self)@.next_kitty_id && kitty@
                == spec_combine_genome(
                old(self)@.dna_of(sender, kitty_id_1),
                old(self)@.dna_of(sender, kitty_id_2),
                selector@,
            )),
            r is Err ==> *final(self) == *old(self),
            !old(self)@.has_kitty(sender, kitty_id_1) || !old(self)@.has_kitty(sender, kitty_id_2)
                ==> r == Err::<Event, Error>(Error::InvalidKittyId),
            old(self)@.has_kitty(sender, kitty_id_1) && old(self)@.has_kitty(sender, kitty_id_2)
                && gender_of(old(self)@.dna_of(sender, kitty_id_1)) == gender_of(
                old(self)@.dna_of(sender, kitty_id_2),
            ) ==> r == Err::<Event, Error>(Error::SameGender),
            old(self)@.has_kitty(sender, kitty_id_1) && old(self)@.has_kitty(sender, kitty_id_2)
                && gender_of(old(self)@.dna_of(sender, kitty_id_1)) != gender_of(
                old(self)@.dna_of(sender, kitty_id_2),
            ) && old(self)@.next_kitty_id == u32::MAX ==> r == Err::<Event, Error>(
                Error::KittiesIdOverflow,
            ),
    {
        let kitty1 = match self.kitties.get(sender, kitty_id_1) {
            Some(kitty) => kitty,
            None => { return Err(Error::InvalidKittyId) },
        };
        let kitty2 = match self.kitties.get(sender, kitty_id_2) {
            Some(kitty) => kitty,
            None => { return Err(Error::InvalidKittyId) },
        };
        if kitty1.gender() == kitty2.gender() {
            return Err(Error::SameGender);
        }
        let kitty_id = match self.allocator.next_id() {
            Ok(id) => id,
            Err(e) => { return Err(e) },
        };
        let new_kitty = Kitty(combine_genomes(kitty1.0, kitty2.0, selector));
        proof {
            assert(!old(self)@.kitties.contains_key((sender, kitty_id)));
        }
        self.kitties.insert(sender, kitty_id, new_kitty);
        proof {
            self.lemma_insert_fresh_preserves_inv(old(self)@, sender, kitty_id, new_kitty@);
        }
        Ok(Event::KittyBred(sender, kitty_id, new_kitty))
    }
}

} // verus!

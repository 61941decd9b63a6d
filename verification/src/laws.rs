//! Laws of the registry that span several operations, stated over the
//! abstract state and its transitions and proved once and for all.

use crate::errors::Error;
use crate::registry::{AccountId, RegistryView};
use vstd::prelude::*;

verus! {

/// One request to the registry, at the abstract level.
pub enum RegistryOp {
    Create { sender: AccountId, dna: Seq<u8> },
    Breed { sender: AccountId, kitty_id_1: u32, kitty_id_2: u32, selector: Seq<u8> },
}

impl RegistryView {
    /// The transition one request makes: the next state and either the issued
    /// identifier or the error.
    pub open spec fn step(self, op: RegistryOp) -> (RegistryView, Result<u32, Error>) {
        match op {
            RegistryOp::Create { sender, dna } => self.spec_create(sender, dna),
            RegistryOp::Breed { sender, kitty_id_1, kitty_id_2, selector } => self.spec_breed(
                sender,
                kitty_id_1,
                kitty_id_2,
                selector,
            ),
        }
    }

    /// The identifiers issued by the successful requests of `ops`, run in
    /// order from this state.
    pub open spec fn issued_ids(self, ops: Seq<RegistryOp>) -> Seq<u32>
        decreases ops.len(),
    {
        if ops.len() == 0 {
            Seq::empty()
        } else {
            let stepped = self.step(ops[0]);
            match stepped.1 {
                Ok(id) => seq![id] + stepped.0.issued_ids(ops.drop_first()),
                Err(_) => stepped.0.issued_ids(ops.drop_first()),
            }
        }
    }
}

/// Every operation treats the identifier counter the same way: a successful
/// one issues exactly the counter's value and advances it by one; a failed one
/// leaves the whole state untouched.
pub proof fn lemma_step_counter_discipline(s: RegistryView, op: RegistryOp)
    ensures
        s.step(op).1 matches Ok(id) ==> id == s.next_kitty_id && s.step(op).0.next_kitty_id
            == s.next_kitty_id + 1,
        s.step(op).1 is Err ==> s.step(op).0 == s,
{
}

/// Identifier monotonicity: over any sequence of requests, the identifiers
/// issued by the successful ones are consecutive from the starting counter —
/// strictly increasing, with no gaps and no repeats — whatever the failed
/// requests in between do.
pub proof fn lemma_identifier_monotonicity(s: RegistryView, ops: Seq<RegistryOp>)
    ensures
        forall|i: int|
            0 <= i < s.issued_ids(ops).len() ==> #[trigger] s.issued_ids(ops)[i]
                == s.next_kitty_id + i,
        forall|i: int, j: int|
            0 <= i < j < s.issued_ids(ops).len() ==> s.issued_ids(ops)[i] < s.issued_ids(ops)[j],
    decreases ops.len(),
{
    if ops.len() > 0 {
        let stepped = s.step(ops[0]);
        lemma_identifier_monotonicity(stepped.0, ops.drop_first());
        lemma_step_counter_discipline(s, ops[0]);
        let rest = stepped.0.issued_ids(ops.drop_first());
        match stepped.1 {
            Ok(id) => {
                assert(s.issued_ids(ops) == seq![id] + rest);
                assert forall|i: int| 0 <= i < s.issued_ids(ops).len() implies #[trigger] s
                    .issued_ids(ops)[i] == s.next_kitty_id + i by {
                    if i == 0 {
                        assert(s.issued_ids(ops)[0] == id);
                    } else {
                        assert(s.issued_ids(ops)[i] == rest[i - 1]);
                        assert(rest[i - 1] == stepped.0.next_kitty_id + (i - 1));
                    }
                }
            },
            Err(_) => {
                assert(stepped.0 == s);
                assert(s.issued_ids(ops) == rest);
                assert forall|i: int| 0 <= i < s.issued_ids(ops).len() implies #[trigger] s
                    .issued_ids(ops)[i] == s.next_kitty_id + i by {
                    assert(s.issued_ids(ops)[i] == rest[i]);
                }
            },
        }
    }
    assert forall|i: int, j: int| 0 <= i < j < s.issued_ids(ops).len() implies s.issued_ids(
        ops,
    )[i] < s.issued_ids(ops)[j] by {
        assert(s.issued_ids(ops)[i] == s.next_kitty_id + i);
        assert(s.issued_ids(ops)[j] == s.next_kitty_id + j);
    }
}

/// Ownership isolation: a breeding request fails with `InvalidKittyId`, and
/// changes nothing, whenever either referenced identifier exists under a
/// different owner — holding a creature's id is worthless without owning it.
pub proof fn lemma_ownership_isolation(
    s: RegistryView,
    sender: AccountId,
    other: AccountId,
    kitty_id_1: u32,
    kitty_id_2: u32,
    selector: Seq<u8>,
)
    requires
        s.inv(),
        other != sender,
        s.has_kitty(other, kitty_id_1) || s.has_kitty(other, kitty_id_2),
    ensures
        s.spec_breed(sender, kitty_id_1, kitty_id_2, selector) == (
            s,
            Err::<u32, Error>(Error::InvalidKittyId),
        ),
{
    if s.has_kitty(other, kitty_id_1) && s.has_kitty(sender, kitty_id_1) {
        assert((other, kitty_id_1).1 == (sender, kitty_id_1).1);
        assert(false);
    }
    if s.has_kitty(other, kitty_id_2) && s.has_kitty(sender, kitty_id_2) {
        assert((other, kitty_id_2).1 == (sender, kitty_id_2).1);
        assert(false);
    }
}

/// A `SameGender` rejection consumes no identifier: the counter — indeed the
/// whole state — after the failed request equals the one before it.
pub proof fn lemma_same_gender_consumes_no_identifier(
    s: RegistryView,
    sender: AccountId,
    kitty_id_1: u32,
    kitty_id_2: u32,
    selector: Seq<u8>,
)
    requires
        s.spec_breed(sender, kitty_id_1, kitty_id_2, selector).1 == Err::<u32, Error>(
            Error::SameGender,
        ),
    ensures
        s.spec_breed(sender, kitty_id_1, kitty_id_2, selector).0.next_kitty_id == s.next_kitty_id,
        s.spec_breed(sender, kitty_id_1, kitty_id_2, selector).0 == s,
{
}

} // verus!

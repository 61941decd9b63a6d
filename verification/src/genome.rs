//! The genetic code of a creature: a fixed 16-byte genome, the gender derived
//! from it, and the bitwise combination of two parent genomes under a selector.

use vstd::prelude::*;

verus! {

/// The number of bytes in a genome.
pub const GENOME_LEN: usize = 16;

/// A creature: its value is exactly its genome. Identity and ownership are
/// supplied by the registry's storage key, never stored in the creature.
#[derive(Clone, Copy, PartialEq, Eq, Debug)]
pub struct Kitty(pub [u8; 16]);

impl View for Kitty {
    type V = Seq<u8>;

    open spec fn view(&self) -> Seq<u8> {
        self.0@
    }
}

/// The gender of a creature, derived from its genome on demand and never
/// stored, so it can never drift out of sync with the genome.
#[derive(Clone, Copy, PartialEq, Eq, Structural, Debug)]
pub enum KittyGender {
    Male,
    Female,
}

/// The gender encoded by a genome: Male when its first byte is even, Female
/// when it is odd.
pub open spec fn gender_of(dna: Seq<u8>) -> KittyGender
    recommends
        dna.len() > 0,
{
    if dna[0] % 2 == 0 {
        KittyGender::Male
    } else {
        KittyGender::Female
    }
}

impl Kitty {
    pub fn gender(&self) -> (g: KittyGender)
        ensures
            g == gender_of(self@),
    {
        if self.0[0] % 2 == 0 {
            KittyGender::Male
        } else {
            KittyGender::Female
        }
    }
}

/// One byte of a child genome: each bit is taken from `dna1` where the
/// selector bit is 0 and from `dna2` where it is 1.
pub open spec fn spec_combine_dna(dna1: u8, dna2: u8, selector: u8) -> u8 {
    (!selector & dna1) | (selector & dna2)
}

pub fn combine_dna(dna1: u8, dna2: u8, selector: u8) -> (r: u8)
    ensures
        r == spec_combine_dna(dna1, dna2, selector),
{
    (!selector & dna1) | (selector & dna2)
}

/// Whether bit `j` (counted from the least significant end) of `b` is set.
pub open spec fn bit_is_set(b: u8, j: u8) -> bool
    recommends
        j < 8,
{
    (b >> j) & 1 == 1
}

/// Combine correctness: every bit of the combined byte equals the
/// corresponding bit of `dna1` where the selector bit is 0, and of `dna2`
/// where it is 1, so a child's bit pattern is composed entirely of bits drawn
/// from one parent or the other.
pub proof fn lemma_combine_dna_bits(dna1: u8, dna2: u8, selector: u8)
    ensures
        forall|j: u8|
            j < 8 ==> #[trigger] bit_is_set(spec_combine_dna(dna1, dna2, selector), j) == (
            if bit_is_set(selector, j) {
                bit_is_set(dna2, j)
            } else {
                bit_is_set(dna1, j)
            }),
{
    assert forall|j: u8| j < 8 implies #[trigger] bit_is_set(
        spec_combine_dna(dna1, dna2, selector),
        j,
    ) == (if bit_is_set(selector, j) {
        bit_is_set(dna2, j)
    } else {
        bit_is_set(dna1, j)
    }) by {
        assert((((!selector & dna1) | (selector & dna2)) >> j) & 1 == (if (selector >> j) & 1 == 1 {
            (dna2 >> j) & 1
        } else {
            (dna1 >> j) & 1
        })) by (bit_vector)
            requires
                j < 8,
        ;
    }
}

/// The whole child genome: `spec_combine_dna` applied independently at every
/// byte position.
pub open spec fn spec_combine_genome(dna1: Seq<u8>, dna2: Seq<u8>, selector: Seq<u8>) -> Seq<u8>
    recommends
        dna1.len() == dna2.len(),
        selector.len() == dna1.len(),
{
    Seq::new(dna1.len(), |i: int| spec_combine_dna(dna1[i], dna2[i], selector[i]))
}

/// Combines two parent genomes byte by byte under the selector.
pub fn combine_genomes(dna1: [u8; 16], dna2: [u8; 16], selector: [u8; 16]) -> (r: [u8; 16])
    ensures
        r@ == spec_combine_genome(dna1@, dna2@, selector@),
{
    let mut out: [u8; 16] = [0u8; 16];
    let mut i: usize = 0;
    while i < GENOME_LEN
        invariant
            i <= 16,
            out@.len() == 16,
            forall|j: int|
                0 <= j < i ==> out@[j] == spec_combine_dna(dna1@[j], dna2@[j], selector@[j]),
        decreases 16 - i,
    {
        out[i] = combine_dna(dna1[i], dna2[i], selector[i]);
        i = i + 1;
    }
    proof {
        assert(out@ =~= spec_combine_genome(dna1@, dna2@, selector@));
    }
    out
}

} // verus!

use kitties::{combine_dna, combine_genomes, Error, Event, IdAllocator, Kitty, KittyGender, KittyRegistry};

const ALICE: u64 = 1;
const BOB: u64 = 2;

fn genome(first: u8) -> [u8; 16] {
    let mut g = [0u8; 16];
    g[0] = first;
    g
}

#[test]
fn gender_even_first_byte_is_male() {
    assert_eq!(Kitty(genome(0x02)).gender(), KittyGender::Male);
    assert_eq!(Kitty(genome(0x00)).gender(), KittyGender::Male);
    assert_eq!(Kitty([0xfe; 16]).gender(), KittyGender::Male);
}

#[test]
fn gender_odd_first_byte_is_female() {
    assert_eq!(Kitty(genome(0x03)).gender(), KittyGender::Female);
    assert_eq!(Kitty(genome(0x01)).gender(), KittyGender::Female);
    assert_eq!(Kitty([0xff; 16]).gender(), KittyGender::Female);
}

#[test]
fn gender_depends_only_on_first_byte() {
    let mut g = genome(0x02);
    g[1] = 0xff;
    g[15] = 0x55;
    assert_eq!(Kitty(g).gender(), KittyGender::Male);
}

#[test]
fn combine_dna_selects_bits() {
    assert_eq!(combine_dna(0b1010_1010, 0b0101_0101, 0b1111_0000), 0b0101_1010);
    assert_eq!(combine_dna(0xab, 0xcd, 0x00), 0xab);
    assert_eq!(combine_dna(0xab, 0xcd, 0xff), 0xcd);
    for sel in [0x0fu8, 0x3c, 0x81] {
        assert_eq!(combine_dna(0xab, 0xcd, sel), (!sel & 0xab) | (sel & 0xcd));
    }
}

#[test]
fn combine_genomes_works_per_byte() {
    let mut dna1 = [0u8; 16];
    let mut dna2 = [0u8; 16];
    let mut selector = [0u8; 16];
    for i in 0..16 {
        dna1[i] = i as u8;
        dna2[i] = 0xf0 | i as u8;
        selector[i] = (i as u8).wrapping_mul(37);
    }
    let child = combine_genomes(dna1, dna2, selector);
    for i in 0..16 {
        assert_eq!(child[i], (!selector[i] & dna1[i]) | (selector[i] & dna2[i]));
    }
}

#[test]
fn allocator_issues_consecutive_ids_from_zero() {
    let mut a = IdAllocator::new();
    assert_eq!(a.current(), 0);
    assert_eq!(a.next_id(), Ok(0));
    assert_eq!(a.next_id(), Ok(1));
    assert_eq!(a.next_id(), Ok(2));
    assert_eq!(a.current(), 3);
}

#[test]
fn allocator_fails_at_maximum_and_keeps_counter() {
    let mut a = IdAllocator::starting_at(u32::MAX);
    assert_eq!(a.next_id(), Err(Error::KittiesIdOverflow));
    assert_eq!(a.current(), u32::MAX);
    assert_eq!(a.next_id(), Err(Error::KittiesIdOverflow));
    assert_eq!(a.current(), u32::MAX);
}

#[test]
fn allocator_issues_last_id_then_fails() {
    let mut a = IdAllocator::starting_at(u32::MAX - 1);
    assert_eq!(a.next_id(), Ok(u32::MAX - 1));
    assert_eq!(a.current(), u32::MAX);
    assert_eq!(a.next_id(), Err(Error::KittiesIdOverflow));
}

#[test]
fn create_stores_kitty_under_fresh_id() {
    let mut r = KittyRegistry::new();
    let g = genome(0x04);
    assert_eq!(r.create(ALICE, g), Ok(Event::KittyCreated(ALICE, 0, Kitty(g))));
    assert_eq!(r.kitties(ALICE, 0), Some(Kitty(g)));
    assert_eq!(r.kitties(BOB, 0), None);
    assert_eq!(r.kitties(ALICE, 1), None);
    assert_eq!(r.next_kitty_id(), 1);
}

#[test]
fn breed_rejects_unknown_id() {
    let mut r = KittyRegistry::new();
    assert_eq!(r.create(ALICE, genome(0x02)), Ok(Event::KittyCreated(ALICE, 0, Kitty(genome(0x02)))));
    assert_eq!(r.breed(ALICE, 0, 9, [0u8; 16]), Err(Error::InvalidKittyId));
    assert_eq!(r.breed(ALICE, 9, 0, [0u8; 16]), Err(Error::InvalidKittyId));
    assert_eq!(r.next_kitty_id(), 1);
}

#[test]
fn breed_rejects_parent_owned_by_someone_else() {
    let mut r = KittyRegistry::new();
    assert!(r.create(BOB, genome(0x02)).is_ok());
    assert!(r.create(ALICE, genome(0x03)).is_ok());
    // Identifier 0 exists, but belongs to Bob: to Alice it is invalid.
    assert_eq!(r.breed(ALICE, 0, 1, [0u8; 16]), Err(Error::InvalidKittyId));
    assert_eq!(r.breed(ALICE, 1, 0, [0u8; 16]), Err(Error::InvalidKittyId));
    assert_eq!(r.next_kitty_id(), 2);
}

#[test]
fn breed_rejects_same_gender_without_consuming_id() {
    let mut r = KittyRegistry::new();
    assert!(r.create(ALICE, genome(0x02)).is_ok());
    assert!(r.create(ALICE, genome(0x06)).is_ok());
    let before = r.next_kitty_id();
    assert_eq!(r.breed(ALICE, 0, 1, [0xaa; 16]), Err(Error::SameGender));
    assert_eq!(r.next_kitty_id(), before);
    assert_eq!(r.kitties(ALICE, before), None);
}

#[test]
fn breed_end_to_end() {
    let mut r = KittyRegistry::new();
    let g0 = genome(0x02);
    let mut g1 = [0x55u8; 16];
    g1[0] = 0x03;
    assert_eq!(r.create(ALICE, g0), Ok(Event::KittyCreated(ALICE, 0, Kitty(g0))));
    assert_eq!(r.create(ALICE, g1), Ok(Event::KittyCreated(ALICE, 1, Kitty(g1))));
    assert_ne!(Kitty(g0).gender(), Kitty(g1).gender());
    let selector = [0x0fu8; 16];
    let expected = combine_genomes(g0, g1, selector);
    assert_eq!(r.breed(ALICE, 0, 1, selector), Ok(Event::KittyBred(ALICE, 2, Kitty(expected))));
    assert_eq!(r.kitties(ALICE, 2), Some(Kitty(expected)));
    assert_eq!(r.next_kitty_id(), 3);
    for i in 0..16 {
        assert_eq!(expected[i], (!selector[i] & g0[i]) | (selector[i] & g1[i]));
    }
}

#[test]
fn breed_accepts_parents_in_either_order() {
    let mut r = KittyRegistry::new();
    assert!(r.create(ALICE, genome(0x03)).is_ok());
    assert!(r.create(ALICE, genome(0x02)).is_ok());
    // Female first, male second: still a valid pair.
    assert!(r.breed(ALICE, 0, 1, [0u8; 16]).is_ok());
}

#[test]
fn identifiers_are_consecutive_across_owners_and_failures() {
    let mut r = KittyRegistry::new();
    let mut issued = Vec::new();
    assert!(matches!(r.create(ALICE, genome(0x02)), Ok(Event::KittyCreated(_, id, _)) if { issued.push(id); true }));
    assert!(matches!(r.create(BOB, genome(0x03)), Ok(Event::KittyCreated(_, id, _)) if { issued.push(id); true }));
    // A failed breeding in between issues nothing.
    assert_eq!(r.breed(ALICE, 0, 1, [0u8; 16]), Err(Error::InvalidKittyId));
    assert!(matches!(r.create(ALICE, genome(0x05)), Ok(Event::KittyCreated(_, id, _)) if { issued.push(id); true }));
    assert!(matches!(r.breed(ALICE, 0, 2, [0x33; 16]), Ok(Event::KittyBred(_, id, _)) if { issued.push(id); true }));
    assert_eq!(issued, vec![0, 1, 2, 3]);
}

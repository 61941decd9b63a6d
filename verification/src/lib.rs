//! A deterministic registry of creatures ("kitties"): each carries a 16-byte
//! genome, is owned by the account that created it, and is named by a globally
//! unique, strictly increasing 32-bit identifier. New creatures enter the
//! registry either with a caller-supplied genome or by breeding two creatures
//! the caller already owns, where each bit of the child's genome is chosen
//! from one parent or the other by a selector.

pub mod allocator;
pub mod errors;
pub mod genome;
pub mod laws;
pub mod registry;
pub mod store;

pub use allocator::IdAllocator;
pub use errors::Error;
pub use genome::{combine_dna, combine_genomes, Kitty, KittyGender};
pub use registry::{AccountId, Event, KittyRegistry, RegistryView};
pub use store::KittyStore;

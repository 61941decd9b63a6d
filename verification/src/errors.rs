//! The conditions under which an operation of the registry is refused. All of
//! them are reported to the caller as the operation's result; none leaves a
//! partial write behind.

use vstd::prelude::*;

verus! {

#[derive(Clone, Copy, PartialEq, Eq, Structural, Debug)]
pub enum Error {
    /// The identifier counter cannot be advanced without leaving the 32-bit
    /// range; the counter is left unchanged.
    KittiesIdOverflow,
    /// A referenced (owner, identifier) pair does not resolve to a creature
    /// owned by the caller. A creature owned by someone else is reported the
    /// same way as one that does not exist.
    InvalidKittyId,
    /// Both breeding parents derive the same gender.
    SameGender,
}

} // verus!

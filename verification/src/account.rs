use vstd::prelude::*;

verus! {

/// Opaque, externally assigned identity of a balance holder.
///
/// The host names accounts with 32-byte identifiers; here one is held as two
/// 128-bit words so that equality is plain word equality.
#[derive(Clone, Copy, PartialEq, Eq, Structural, Debug)]
pub struct AccountId {
    pub hi: u128,
    pub lo: u128,
}

} // verus!

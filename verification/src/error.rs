//! The ways in which a conversion of a vault item can end without a result.

use vstd::prelude::*;

verus! {

/// Why a conversion ended without a result. Every failure concerns one item
/// only; what to do with the other items of a batch is the caller's decision.
#[derive(Clone, Copy, Debug, PartialEq, Eq, Structural)]
pub enum CipherError {
    /// The registry holds no top-level key for the item's scope.
    KeyNotFound,
    /// The bytes unwrapped from an item's own key field are no key material.
    InvalidKeyFormat,
    /// A payload did not open under the key, did not hold text where text was
    /// expected, or a plaintext could not be sealed.
    CryptoFailure,
}

} // verus!

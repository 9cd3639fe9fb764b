//! The circuit fragment that a light transaction template receives after its
//! header, before the instruction hash code.
use vstd::prelude::*;

verus! {

/// The circuit text of the connecting-hash verifier is not part of this
/// library, so this fragment is empty: the code that
/// `generate_psp_circom_code` produces carries no connecting-hash verifier
/// between a template's header and its instruction hash code.
pub const CONNECTING_HASH_VERIFIER_TWO: &'static str = "";

} // verus!

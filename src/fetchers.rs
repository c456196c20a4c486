//! Plain data of the fetchers' input schemes.
use vstd::prelude::*;

verus! {

/// A public key that may sign a fetched revision.
#[derive(Clone, Debug, PartialEq, Eq)]
pub struct PublicKey {
    pub key_type: String,
    pub key: String,
}

/// Whether a flag is unset; an unset flag is left out when a scheme is written.
pub fn is_false(flag: &bool) -> (r: bool)
    ensures
        r == !*flag,
{
    !*flag
}

} // verus!

//! A verified non-fungible token ownership registry.
//!
//! The registry tracks, for a namespace of token identifiers, which account
//! owns each token, how many tokens each account owns, and which accounts are
//! authorized to transfer a token on an owner's behalf. The central invariant,
//! proved to hold after every operation, is that an account's balance equals
//! the number of token ids it owns.

use vstd::prelude::*;

pub mod serc721;

verus! {

/// The identity of one concrete registry deployment: a fixed name and symbol.
pub struct CustomNFTDetails;

impl crate::serc721::SERC721Details for CustomNFTDetails {
    open spec fn spec_name() -> Seq<char> {
        "StylusNFT"@
    }

    open spec fn spec_symbol() -> Seq<char> {
        "SNFT"@
    }

    fn name() -> (r: String) {
        "StylusNFT".to_owned()
    }

    fn symbol() -> (r: String) {
        "SNFT".to_owned()
    }
}

} // verus!

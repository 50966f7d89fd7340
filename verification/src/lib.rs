//! A verified model of an NFT minter contract: a collection of NFTs sold at a fixed price,
//! minted in a random order, with per-address limits, drops, an allowlist and giveaways.

pub mod address;
pub mod address_set;
pub mod counts;
pub mod endpoint_laws;
pub mod laws;
pub mod minter;
pub mod model;
pub mod operations;
pub mod setup;
pub mod storage;
pub mod stored;
pub mod text;
pub mod types;

use vstd::prelude::*;

use crate::model::{init_effect, init_refusal};
use crate::operations::Operations;
use crate::setup::Setup;
use crate::storage::Storage;
use crate::types::MinterError;

verus! {

/// Optional bytes as an optional sequence.
pub open spec fn bytes_option(o: Option<Vec<u8>>) -> Option<Seq<u8>> {
    match o {
        Some(v) => Some(v@),
        None => None,
    }
}

/// The minter contract as a whole.
pub trait ElvenTools: Storage + Setup + Operations {
    /// Sets up the collection: base CIDs, supply, per-address limit, royalties, price and the
    /// optional file extension, tags, provenance hash and metadata-in-URIs flag. A value is
    /// only written where the storage is still empty; minting starts paused.
    fn init(
        &mut self,
        image_base_cid: Vec<u8>,
        metadata_base_cid: Vec<u8>,
        amount_of_tokens: u32,
        tokens_limit_per_address: u32,
        royalties: u128,
        selling_price: u128,
        file_extension: Option<Vec<u8>>,
        tags: Option<Vec<u8>>,
        provenance_hash: Option<Vec<u8>>,
        is_metadata_in_uris: Option<bool>,
    ) -> (r: Result<(), MinterError>)
        requires
            old(self).well_formed(),
        ensures
            final(self).well_formed(),
            match r {
                Ok(()) => {
                    &&& init_refusal(amount_of_tokens, tokens_limit_per_address, royalties) is None
                    &&& final(self).state() == init_effect(
                        old(self).state(),
                        image_base_cid@,
                        metadata_base_cid@,
                        amount_of_tokens,
                        tokens_limit_per_address,
                        royalties,
                        selling_price,
                        bytes_option(file_extension),
                        bytes_option(tags),
                        bytes_option(provenance_hash),
                        is_metadata_in_uris,
                    )
                },
                Err(e) => {
                    &&& init_refusal(amount_of_tokens, tokens_limit_per_address, royalties) == Some(e)
                    &&& final(self).state() == old(self).state()
                },
            },
    ;
}

} // verus!

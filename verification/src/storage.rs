use vstd::prelude::*;

use crate::address::Address;
use crate::counts::count_or_zero;
use crate::model::{MinterState, minted_by, storage_invariant};

verus! {

/// The storage of the minter: its mathematical state and the values it exposes.
pub trait Storage {
    /// The storage as mathematical values.
    spec fn state(&self) -> MinterState;

    /// The representation is sound and the state meets [`storage_invariant`].
    spec fn well_formed(&self) -> bool;

    proof fn lemma_well_formed(&self)
        requires
            self.well_formed(),
        ensures
            storage_invariant(self.state()),
    ;

    fn nft_token_id(&self) -> (r: Vec<u8>)
        ensures
            r@ == self.state().nft_token_id,
    ;

    fn collection_token_name(&self) -> (r: Vec<u8>)
        ensures
            r@ == self.state().collection_token_name,
    ;

    fn nft_token_name(&self) -> (r: Vec<u8>)
        ensures
            r@ == self.state().nft_token_name,
    ;

    fn selling_price(&self) -> (r: u128)
        ensures
            r == self.state().selling_price,
    ;

    fn provenance_hash(&self) -> (r: Vec<u8>)
        ensures
            r@ == self.state().provenance_hash,
    ;

    fn tokens_limit_per_address_total(&self) -> (r: u32)
        ensures
            r == self.state().tokens_limit_per_address_total,
    ;

    fn minted_per_address_total(&self, address: &Address) -> (r: u32)
        requires
            self.well_formed(),
        ensures
            r == minted_by(self.state(), address@),
    ;

    fn tokens_limit_per_address_per_drop(&self) -> (r: u32)
        ensures
            r == self.state().tokens_limit_per_address_per_drop,
    ;

    fn is_allowlist_enabled(&self) -> (r: bool)
        ensures
            r == self.state().is_allowlist_enabled,
    ;

    fn is_drop_active(&self) -> (r: bool)
        ensures
            r == self.state().is_drop_active,
    ;

    fn amount_of_tokens_total(&self) -> (r: u32)
        ensures
            r == self.state().amount_of_tokens_total,
    ;

    fn paused(&self) -> (r: bool)
        ensures
            r == self.state().paused,
    ;

    fn amount_of_tokens_per_drop(&self) -> (r: u32)
        ensures
            r == self.state().amount_of_tokens_per_drop,
    ;

    fn last_drop(&self) -> (r: u16)
        ensures
            r == self.state().last_drop,
    ;

    fn minted_per_address_per_drop(&self, id: u16, address: &Address) -> (r: u32)
        requires
            self.well_formed(),
        ensures
            r == count_or_zero(self.state().minted_per_address_per_drop, (id, address@)),
    ;

    fn image_base_cid(&self) -> (r: Vec<u8>)
        ensures
            r@ == self.state().image_base_cid,
    ;

    fn metadata_base_cid(&self) -> (r: Vec<u8>)
        ensures
            r@ == self.state().metadata_base_cid,
    ;

    fn file_extension(&self) -> (r: Vec<u8>)
        ensures
            r@ == self.state().file_extension,
    ;

    fn minted_indexes_total(&self) -> (r: u32)
        ensures
            r == self.state().minted_indexes_total,
    ;

    fn minted_indexes_by_drop(&self) -> (r: u32)
        ensures
            r == self.state().minted_indexes_by_drop,
    ;

    fn royalties(&self) -> (r: u128)
        ensures
            r == self.state().royalties,
    ;

    fn tags(&self) -> (r: Vec<u8>)
        ensures
            r@ == self.state().tags,
    ;

    fn next_index_to_mint(&self) -> (r: (usize, u32))
        ensures
            r == self.state().next_index_to_mint,
    ;

    fn tokens_left_to_mint(&self) -> (r: Vec<u32>)
        ensures
            r@ == self.state().tokens_left_to_mint,
    ;

    fn is_metadata_in_uris(&self) -> (r: bool)
        ensures
            r == self.state().is_metadata_in_uris,
    ;

    fn no_number_in_nft_name(&self) -> (r: bool)
        ensures
            r == self.state().no_number_in_nft_name,
    ;
}

} // verus!

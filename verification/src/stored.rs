use vstd::prelude::*;

use crate::address::Address;
use crate::counts::{DropKey, entries_model, pairs_to_map};
use crate::model::MinterState;

verus! {

/// The storage of the minter as plain values, as it is kept between calls.
pub struct StoredState {
    pub nft_token_id: Vec<u8>,
    pub collection_token_name: Vec<u8>,
    pub nft_token_name: Vec<u8>,
    pub selling_price: u128,
    pub provenance_hash: Vec<u8>,
    pub tokens_limit_per_address_total: u32,
    /// The per-address purchase counters; a later pair for an address wins.
    pub minted_per_address_total: Vec<(Address, u32)>,
    pub tokens_limit_per_address_per_drop: u32,
    pub is_allowlist_enabled: bool,
    pub is_drop_active: bool,
    pub amount_of_tokens_total: u32,
    pub paused: bool,
    pub amount_of_tokens_per_drop: u32,
    pub last_drop: u16,
    pub allowlist: Vec<Address>,
    /// The per-drop purchase counters; a later pair for a key wins.
    pub minted_per_address_per_drop: Vec<(DropKey, u32)>,
    pub image_base_cid: Vec<u8>,
    pub metadata_base_cid: Vec<u8>,
    pub file_extension: Vec<u8>,
    pub minted_indexes_total: u32,
    pub minted_indexes_by_drop: u32,
    pub royalties: u128,
    pub tags: Vec<u8>,
    pub next_index_to_mint: (usize, u32),
    pub tokens_left_to_mint: Vec<u32>,
    pub is_metadata_in_uris: bool,
    pub no_number_in_nft_name: bool,
}

/// The state that stored values describe.
pub open spec fn stored_model(st: StoredState) -> MinterState {
    MinterState {
        nft_token_id: st.nft_token_id@,
        collection_token_name: st.collection_token_name@,
        nft_token_name: st.nft_token_name@,
        selling_price: st.selling_price,
        provenance_hash: st.provenance_hash@,
        tokens_limit_per_address_total: st.tokens_limit_per_address_total,
        minted_per_address_total: pairs_to_map(entries_model(st.minted_per_address_total@)),
        tokens_limit_per_address_per_drop: st.tokens_limit_per_address_per_drop,
        is_allowlist_enabled: st.is_allowlist_enabled,
        is_drop_active: st.is_drop_active,
        amount_of_tokens_total: st.amount_of_tokens_total,
        paused: st.paused,
        amount_of_tokens_per_drop: st.amount_of_tokens_per_drop,
        last_drop: st.last_drop,
        allowlist: st.allowlist@.map_values(|a: Address| a@).to_set(),
        minted_per_address_per_drop: pairs_to_map(entries_model(st.minted_per_address_per_drop@)),
        image_base_cid: st.image_base_cid@,
        metadata_base_cid: st.metadata_base_cid@,
        file_extension: st.file_extension@,
        minted_indexes_total: st.minted_indexes_total,
        minted_indexes_by_drop: st.minted_indexes_by_drop,
        royalties: st.royalties,
        tags: st.tags@,
        next_index_to_mint: st.next_index_to_mint,
        tokens_left_to_mint: st.tokens_left_to_mint@,
        is_metadata_in_uris: st.is_metadata_in_uris,
        no_number_in_nft_name: st.no_number_in_nft_name,
    }
}

/// Whether no value occurs twice in `v`.
pub fn all_distinct(v: &Vec<u32>) -> (r: bool)
    ensures
        r == v@.no_duplicates(),
{
    let mut i: usize = 0;
    while i < v.len()
        invariant
            i <= v@.len(),
            forall|a: int, b: int| 0 <= a < i && 0 <= b < v@.len() && a != b ==> v@[a] != v@[b],
        decreases v@.len() - i,
    {
        let mut j: usize = 0;
        while j < v.len()
            invariant
                i < v@.len(),
                j <= v@.len(),
                forall|a: int, b: int| 0 <= a < i && 0 <= b < v@.len() && a != b ==> v@[a] != v@[b],
                forall|b: int| 0 <= b < j && b != i ==> v@[i as int] != v@[b],
            decreases v@.len() - j,
        {
            if j != i && v[i] == v[j] {
                return false;
            }
            j = j + 1;
        }
        i = i + 1;
    }
    true
}

/// Whether every value of `v` lies in `low..=high`.
pub fn all_between(v: &Vec<u32>, low: u32, high: u32) -> (r: bool)
    ensures
        r == forall|i: int| 0 <= i < v@.len() ==> low <= #[trigger] v@[i] <= high,
{
    let mut i: usize = 0;
    while i < v.len()
        invariant
            i <= v@.len(),
            forall|j: int| 0 <= j < i ==> low <= #[trigger] v@[j] <= high,
        decreases v@.len() - i,
    {
        if v[i] < low || v[i] > high {
            return false;
        }
        i = i + 1;
    }
    true
}

} // verus!

use vstd::prelude::*;

use crate::address::Address;
use crate::model::{
    MinterState, after_index_minted, current_left, drop_left, drop_limits_apply, is_issued,
    mint_effect, mint_one, mint_refusal, minted_by, minted_in_drop, paused_if_exhausted,
    receiver_of, shuffle_refusal, shuffled, total_left,
};
use crate::storage::Storage;
use crate::text::{decimal, spec_attributes, spec_token_name, spec_uris};
use crate::types::{Action, CallContext, MinterError, actions_model};

verus! {

/// What `mint_single_nft` may assume of the storage: an issued collection with a token left
/// (in the drop too, when a drop size is set), and purchase counters that can grow by one.
pub open spec fn single_mint_possible(s: MinterState, caller: Seq<u8>, payment_amount: u128) -> bool {
    &&& is_issued(s)
    &&& total_left(s) >= 1
    &&& s.amount_of_tokens_per_drop > 0 ==> drop_left(s) >= 1
    &&& payment_amount > 0 ==> {
        &&& minted_by(s, caller) < u32::MAX
        &&& drop_limits_apply(s) ==> minted_in_drop(s, caller) < u32::MAX
    }
}

/// Minting: the public sale and what it rests on.
pub trait Operations: Storage {
    /// Mints `amount_of_tokens` NFTs for the caller, who pays `payment` EGLD for them.
    /// `draws` holds one random `u32` per token, used to choose the index minted after it.
    fn mint(
        &mut self,
        ctx: &CallContext,
        payment: u128,
        has_create_role: bool,
        amount_of_tokens: u32,
        draws: &Vec<u32>,
    ) -> (r: Result<Vec<Action>, MinterError>)
        requires
            old(self).well_formed(),
            mint_refusal(
                old(self).state(),
                ctx.caller@,
                ctx.caller_is_smart_contract,
                payment,
                has_create_role,
                amount_of_tokens,
            ) is None ==> draws@.len() >= amount_of_tokens,
        ensures
            final(self).well_formed(),
            match r {
                Ok(actions) => {
                    &&& mint_refusal(
                        old(self).state(),
                        ctx.caller@,
                        ctx.caller_is_smart_contract,
                        payment,
                        has_create_role,
                        amount_of_tokens,
                    ) is None
                    &&& final(self).state() == mint_effect(
                        old(self).state(),
                        ctx.caller@,
                        ctx.owner@,
                        payment,
                        amount_of_tokens,
                        draws@,
                    ).0
                    &&& actions_model(actions@) == mint_effect(
                        old(self).state(),
                        ctx.caller@,
                        ctx.owner@,
                        payment,
                        amount_of_tokens,
                        draws@,
                    ).1
                },
                Err(e) => {
                    &&& mint_refusal(
                        old(self).state(),
                        ctx.caller@,
                        ctx.caller_is_smart_contract,
                        payment,
                        has_create_role,
                        amount_of_tokens,
                    ) == Some(e)
                    &&& final(self).state() == old(self).state()
                },
            },
    ;

    /// The checks of [`Operations::mint`]: whether it would be accepted, or why not.
    fn check_mint(
        &self,
        ctx: &CallContext,
        payment: u128,
        has_create_role: bool,
        amount_of_tokens: u32,
    ) -> (r: Result<(), MinterError>)
        requires
            self.well_formed(),
        ensures
            match r {
                Ok(()) => mint_refusal(
                    self.state(),
                    ctx.caller@,
                    ctx.caller_is_smart_contract,
                    payment,
                    has_create_role,
                    amount_of_tokens,
                ) is None,
                Err(e) => mint_refusal(
                    self.state(),
                    ctx.caller@,
                    ctx.caller_is_smart_contract,
                    payment,
                    has_create_role,
                    amount_of_tokens,
                ) == Some(e),
            },
    ;

    /// Mints the NFT at `next_index_to_mint` and sends it to the receiver; a nonzero
    /// `payment_amount` counts as a purchase by `caller` and is forwarded to `owner`.
    fn mint_single_nft(
        &mut self,
        caller: &Address,
        owner: &Address,
        payment_amount: u128,
        giveaway_address: Option<Address>,
        draw: u32,
    ) -> (r: Vec<Action>)
        requires
            old(self).well_formed(),
            single_mint_possible(old(self).state(), caller@, payment_amount),
        ensures
            final(self).well_formed(),
            final(self).state() == mint_one(
                old(self).state(),
                caller@,
                owner@,
                payment_amount,
                receiver_of(
                    match giveaway_address {
                        Some(a) => Some(a@),
                        None => None,
                    },
                    caller@,
                ),
                draw,
            ).0,
            actions_model(r@) == mint_one(
                old(self).state(),
                caller@,
                owner@,
                payment_amount,
                receiver_of(
                    match giveaway_address {
                        Some(a) => Some(a@),
                        None => None,
                    },
                    caller@,
                ),
                draw,
            ).1,
    ;

    /// Draws the next index to mint again.
    fn shuffle(&mut self, ctx: &CallContext, draw: u32) -> (r: Result<(), MinterError>)
        requires
            old(self).well_formed(),
        ensures
            final(self).well_formed(),
            match r {
                Ok(()) => {
                    &&& shuffle_refusal(old(self).state(), ctx.caller_is_smart_contract) is None
                    &&& final(self).state() == shuffled(old(self).state(), draw)
                },
                Err(e) => {
                    &&& shuffle_refusal(old(self).state(), ctx.caller_is_smart_contract) == Some(e)
                    &&& final(self).state() == old(self).state()
                },
            },
    ;

    /// Chooses the next index to mint: position `1 + draw % len` of the pool.
    fn do_shuffle(&mut self, draw: u32)
        requires
            old(self).well_formed(),
            old(self).state().tokens_left_to_mint.len() >= 1,
        ensures
            final(self).well_formed(),
            final(self).state() == shuffled(old(self).state(), draw),
    ;

    /// Counts one more minted index; unless the collection is complete, takes the pool entry
    /// at position `minted_index_tuple.0` out of the pool and draws the next index.
    fn handle_next_index_setup(&mut self, minted_index_tuple: (usize, u32), draw: u32)
        requires
            old(self).well_formed(),
            total_left(old(self).state()) > 1 ==> 1 <= minted_index_tuple.0
                <= old(self).state().tokens_left_to_mint.len(),
            is_issued(old(self).state()),
            total_left(old(self).state()) >= 1,
            old(self).state().amount_of_tokens_per_drop > 0 ==> drop_left(old(self).state()) >= 1,
        ensures
            final(self).well_formed(),
            final(self).state() == after_index_minted(old(self).state(), minted_index_tuple.0 as int, draw),
    ;

    /// The URIs of the NFT with collection index `index_to_mint`.
    fn build_uris_vec(&self, index_to_mint: u32) -> (r: Vec<Vec<u8>>)
        ensures
            r@.map_values(|u: Vec<u8>| u@) == spec_uris(
                self.state().image_base_cid,
                self.state().metadata_base_cid,
                self.state().file_extension,
                self.state().is_metadata_in_uris,
                index_to_mint,
            ),
    ;

    /// The attributes of the NFT with collection index `index_to_mint`.
    fn build_attributes_buffer(&self, index_to_mint: u32) -> (r: Vec<u8>)
        ensures
            r@ == spec_attributes(self.state().tags, self.state().metadata_base_cid, index_to_mint),
    ;

    /// The name of the NFT with collection index `index_to_mint`.
    fn build_token_name_buffer(&self, index_to_mint: u32) -> (r: Vec<u8>)
        ensures
            r@ == spec_token_name(
                self.state().nft_token_name,
                self.state().no_number_in_nft_name,
                index_to_mint,
            ),
    ;

    /// `number` in ASCII decimal digits.
    fn decimal_to_ascii(&self, number: u32) -> (r: Vec<u8>)
        ensures
            r@ == decimal(number as nat),
    ;

    /// The tokens that can be minted now; minting pauses when there are none.
    fn get_current_left_tokens_amount(&mut self) -> (r: u32)
        requires
            old(self).well_formed(),
        ensures
            final(self).well_formed(),
            r == current_left(old(self).state()),
            final(self).state() == paused_if_exhausted(old(self).state()),
    ;

    /// Tokens of the current drop not minted yet.
    fn drop_tokens_left(&self) -> (r: u32)
        requires
            self.well_formed(),
        ensures
            r == drop_left(self.state()),
    ;

    /// Tokens of the collection not minted yet.
    fn total_tokens_left(&self) -> (r: u32)
        requires
            self.well_formed(),
        ensures
            r == total_left(self.state()),
    ;

    /// Tokens `address` bought in the current drop; zero when no drop is in force.
    fn get_minted_per_address_per_drop(&self, address: &Address) -> (r: u32)
        requires
            self.well_formed(),
        ensures
            r == if drop_limits_apply(self.state()) {
                minted_in_drop(self.state(), address@)
            } else {
                0
            },
    ;

    /// Whether `address` is on the allowlist.
    fn allowlist_address_check(&self, address: &Address) -> (r: bool)
        requires
            self.well_formed(),
        ensures
            r == self.state().allowlist.contains(address@),
    ;

    /// Number of addresses on the allowlist.
    fn allowlist_size(&self) -> (r: usize)
        requires
            self.well_formed(),
        ensures
            r == self.state().allowlist.len(),
    ;
}

} // verus!

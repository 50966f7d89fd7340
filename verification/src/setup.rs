use vstd::prelude::*;

use crate::address::Address;
use crate::model::{
    MinterState, change_base_cids_refusal, giveaway_effect, giveaway_refusal,
    issue_callback_effect, issue_callback_refusal, issue_token_effect, issue_token_refusal,
    issued_owner_refusal, owner_refusal, properties_of, set_drop_effect, set_drop_refusal,
    unset_drop_effect,
};
use crate::operations::Operations;
use crate::storage::Storage;
use crate::types::{
    Action, ActionModel, CallContext, IssueOutcome, MinterError, NFTProperties, Payment,
    actions_model,
};

verus! {

/// The addresses of a list, as byte sequences.
pub open spec fn addresses_model(addresses: Seq<Address>) -> Seq<Seq<u8>> {
    addresses.map_values(|a: Address| a@)
}

/// The properties asked for, as a sequence when there is a list.
pub open spec fn properties_model(list: Option<Vec<NFTProperties>>) -> Option<Seq<NFTProperties>> {
    match list {
        Some(v) => Some(v@),
        None => None,
    }
}

/// Owner endpoints that only set values: refused for anyone but the owner, else `effect`.
pub open spec fn owner_update(
    r: Result<(), MinterError>,
    before: MinterState,
    after: MinterState,
    ctx: CallContext,
    effect: MinterState,
) -> bool {
    match r {
        Ok(()) => owner_refusal(ctx.caller@, ctx.owner@) is None && after == effect,
        Err(e) => owner_refusal(ctx.caller@, ctx.owner@) == Some(e) && after == before,
    }
}

/// Setting up the collection, the drops and the allowlist, and the owner's giveaways.
pub trait Setup: Storage + Operations {
    /// Asks for the collection token to be issued, paying `issue_cost` EGLD, and records names.
    fn issue_token(
        &mut self,
        ctx: &CallContext,
        issue_cost: u128,
        collection_token_name: Vec<u8>,
        collection_token_ticker: Vec<u8>,
        is_not_number_in_name: bool,
        nft_token_name: Vec<u8>,
        token_properties: Option<Vec<NFTProperties>>,
    ) -> (r: Result<Vec<Action>, MinterError>)
        requires
            old(self).well_formed(),
        ensures
            final(self).well_formed(),
            match r {
                Ok(actions) => {
                    &&& issue_token_refusal(old(self).state(), ctx.caller@, ctx.owner@) is None
                    &&& final(self).state() == issue_token_effect(
                        old(self).state(),
                        collection_token_name@,
                        is_not_number_in_name,
                        nft_token_name@,
                    )
                    &&& actions_model(actions@) == seq![
                        ActionModel::IssueCollection {
                            cost: issue_cost,
                            name: collection_token_name@,
                            ticker: collection_token_ticker@,
                            properties: properties_of(properties_model(token_properties)),
                        },
                    ]
                },
                Err(e) => {
                    &&& issue_token_refusal(old(self).state(), ctx.caller@, ctx.owner@) == Some(e)
                    &&& final(self).state() == old(self).state()
                },
            },
    ;

    /// Asks for the NFT-create role of the collection for the contract at `sc_address`.
    fn set_local_roles(&self, ctx: &CallContext, sc_address: &Address) -> (r: Result<
        Vec<Action>,
        MinterError,
    >)
        ensures
            match r {
                Ok(actions) => {
                    &&& issued_owner_refusal(self.state(), ctx.caller@, ctx.owner@) is None
                    &&& actions_model(actions@) == seq![
                        ActionModel::SetNftCreateRole {
                            address: sc_address@,
                            token: self.state().nft_token_id,
                        },
                    ]
                },
                Err(e) => issued_owner_refusal(self.state(), ctx.caller@, ctx.owner@) == Some(e),
            },
    ;

    /// Handles the answer to the issue request; `returned` is what came back with it.
    fn issue_callback(
        &mut self,
        owner: &Address,
        result: IssueOutcome,
        returned: Payment,
        draw: u32,
    ) -> (r: Result<Vec<Action>, MinterError>)
        requires
            old(self).well_formed(),
        ensures
            final(self).well_formed(),
            match r {
                Ok(actions) => {
                    &&& issue_callback_refusal(old(self).state(), result@) is None
                    &&& final(self).state() == issue_callback_effect(
                        old(self).state(),
                        owner@,
                        result@,
                        returned.is_egld,
                        returned.amount,
                        draw,
                    ).0
                    &&& actions_model(actions@) == issue_callback_effect(
                        old(self).state(),
                        owner@,
                        result@,
                        returned.is_egld,
                        returned.amount,
                        draw,
                    ).1
                },
                Err(e) => {
                    &&& issue_callback_refusal(old(self).state(), result@) == Some(e)
                    &&& final(self).state() == old(self).state()
                },
            },
    ;

    /// Pauses minting.
    fn pause_minting(&mut self, ctx: &CallContext) -> (r: Result<(), MinterError>)
        requires
            old(self).well_formed(),
        ensures
            final(self).well_formed(),
            owner_update(
                r,
                old(self).state(),
                final(self).state(),
                *ctx,
                (MinterState { paused: true, ..old(self).state() }),
            ),
    ;

    /// Starts (or resumes) minting once the collection is issued.
    fn start_minting(&mut self, ctx: &CallContext) -> (r: Result<(), MinterError>)
        requires
            old(self).well_formed(),
        ensures
            final(self).well_formed(),
            match r {
                Ok(()) => {
                    &&& issued_owner_refusal(old(self).state(), ctx.caller@, ctx.owner@) is None
                    &&& final(self).state() == (MinterState { paused: false, ..old(self).state() })
                },
                Err(e) => {
                    &&& issued_owner_refusal(old(self).state(), ctx.caller@, ctx.owner@) == Some(e)
                    &&& final(self).state() == old(self).state()
                },
            },
    ;

    /// Opens a drop of `amount_of_tokens_per_drop` tokens, with an optional per-address limit.
    fn set_drop(
        &mut self,
        ctx: &CallContext,
        amount_of_tokens_per_drop: u32,
        tokens_limit_per_address_per_drop: Option<u32>,
    ) -> (r: Result<(), MinterError>)
        requires
            old(self).well_formed(),
        ensures
            final(self).well_formed(),
            match r {
                Ok(()) => {
                    &&& set_drop_refusal(
                        old(self).state(),
                        ctx.caller@,
                        ctx.owner@,
                        amount_of_tokens_per_drop,
                        tokens_limit_per_address_per_drop,
                    ) is None
                    &&& final(self).state() == set_drop_effect(
                        old(self).state(),
                        amount_of_tokens_per_drop,
                        tokens_limit_per_address_per_drop,
                    )
                },
                Err(e) => {
                    &&& set_drop_refusal(
                        old(self).state(),
                        ctx.caller@,
                        ctx.owner@,
                        amount_of_tokens_per_drop,
                        tokens_limit_per_address_per_drop,
                    ) == Some(e)
                    &&& final(self).state() == old(self).state()
                },
            },
    ;

    /// Ends the current drop.
    fn unset_drop(&mut self, ctx: &CallContext) -> (r: Result<(), MinterError>)
        requires
            old(self).well_formed(),
        ensures
            final(self).well_formed(),
            owner_update(r, old(self).state(), final(self).state(), *ctx, unset_drop_effect(old(self).state())),
    ;

    /// Sets the price of one token.
    fn set_new_price(&mut self, ctx: &CallContext, price: u128) -> (r: Result<(), MinterError>)
        requires
            old(self).well_formed(),
        ensures
            final(self).well_formed(),
            owner_update(
                r,
                old(self).state(),
                final(self).state(),
                *ctx,
                (MinterState { selling_price: price, ..old(self).state() }),
            ),
    ;

    /// Replaces the image and metadata CIDs, which is possible only before any token is minted.
    fn change_base_cids(
        &mut self,
        ctx: &CallContext,
        image_base_cid: Vec<u8>,
        metadata_base_cid: Vec<u8>,
    ) -> (r: Result<(), MinterError>)
        requires
            old(self).well_formed(),
        ensures
            final(self).well_formed(),
            match r {
                Ok(()) => {
                    &&& change_base_cids_refusal(old(self).state(), ctx.caller@, ctx.owner@) is None
                    &&& final(self).state() == (MinterState {
                        image_base_cid: image_base_cid@,
                        metadata_base_cid: metadata_base_cid@,
                        ..old(self).state()
                    })
                },
                Err(e) => {
                    &&& change_base_cids_refusal(old(self).state(), ctx.caller@, ctx.owner@) == Some(e)
                    &&& final(self).state() == old(self).state()
                },
            },
    ;

    /// Sets the limit of tokens one address can buy in total.
    fn set_new_tokens_limit_per_address(&mut self, ctx: &CallContext, limit: u32) -> (r: Result<
        (),
        MinterError,
    >)
        requires
            old(self).well_formed(),
        ensures
            final(self).well_formed(),
            owner_update(
                r,
                old(self).state(),
                final(self).state(),
                *ctx,
                (MinterState { tokens_limit_per_address_total: limit, ..old(self).state() }),
            ),
    ;

    /// The checks of [`Setup::giveaway`]: whether it would be accepted, or why not.
    fn check_giveaway(
        &self,
        ctx: &CallContext,
        has_create_role: bool,
        addresses: &Vec<Address>,
        amount_of_tokens_per_address: u32,
    ) -> (r: Result<(), MinterError>)
        requires
            self.well_formed(),
        ensures
            match r {
                Ok(()) => giveaway_refusal(
                    self.state(),
                    ctx.caller@,
                    ctx.owner@,
                    has_create_role,
                    addresses_model(addresses@),
                    amount_of_tokens_per_address,
                ) is None,
                Err(e) => giveaway_refusal(
                    self.state(),
                    ctx.caller@,
                    ctx.owner@,
                    has_create_role,
                    addresses_model(addresses@),
                    amount_of_tokens_per_address,
                ) == Some(e),
            },
    ;

    /// Mints `amount_of_tokens_per_address` free tokens for each of `addresses` (the all-zero
    /// address stands for the caller). `draws` holds one random `u32` per token.
    fn giveaway(
        &mut self,
        ctx: &CallContext,
        has_create_role: bool,
        addresses: &Vec<Address>,
        amount_of_tokens_per_address: u32,
        draws: &Vec<u32>,
    ) -> (r: Result<Vec<Action>, MinterError>)
        requires
            old(self).well_formed(),
            giveaway_refusal(
                old(self).state(),
                ctx.caller@,
                ctx.owner@,
                has_create_role,
                addresses_model(addresses@),
                amount_of_tokens_per_address,
            ) is None ==> draws@.len() >= amount_of_tokens_per_address * addresses@.len(),
        ensures
            final(self).well_formed(),
            match r {
                Ok(actions) => {
                    &&& giveaway_refusal(
                        old(self).state(),
                        ctx.caller@,
                        ctx.owner@,
                        has_create_role,
                        addresses_model(addresses@),
                        amount_of_tokens_per_address,
                    ) is None
                    &&& final(self).state() == giveaway_effect(
                        old(self).state(),
                        ctx.caller@,
                        ctx.owner@,
                        addresses_model(addresses@),
                        amount_of_tokens_per_address,
                        draws@,
                    ).0
                    &&& actions_model(actions@) == giveaway_effect(
                        old(self).state(),
                        ctx.caller@,
                        ctx.owner@,
                        addresses_model(addresses@),
                        amount_of_tokens_per_address,
                        draws@,
                    ).1
                },
                Err(e) => {
                    &&& giveaway_refusal(
                        old(self).state(),
                        ctx.caller@,
                        ctx.owner@,
                        has_create_role,
                        addresses_model(addresses@),
                        amount_of_tokens_per_address,
                    ) == Some(e)
                    &&& final(self).state() == old(self).state()
                },
            },
    ;

    /// Sends the contract's EGLD balance `balance` to the caller.
    fn claim_sc_funds(&self, ctx: &CallContext, balance: u128) -> (r: Result<Vec<Action>, MinterError>)
        ensures
            match r {
                Ok(actions) => {
                    &&& owner_refusal(ctx.caller@, ctx.owner@) is None
                    &&& actions_model(actions@) == seq![
                        ActionModel::SendEgld { to: ctx.caller@, amount: balance },
                    ]
                },
                Err(e) => owner_refusal(ctx.caller@, ctx.owner@) == Some(e),
            },
    ;

    /// Turns the allowlist on.
    fn enable_allowlist(&mut self, ctx: &CallContext) -> (r: Result<(), MinterError>)
        requires
            old(self).well_formed(),
        ensures
            final(self).well_formed(),
            owner_update(
                r,
                old(self).state(),
                final(self).state(),
                *ctx,
                (MinterState { is_allowlist_enabled: true, ..old(self).state() }),
            ),
    ;

    /// Turns the allowlist off.
    fn disable_allowlist(&mut self, ctx: &CallContext) -> (r: Result<(), MinterError>)
        requires
            old(self).well_formed(),
        ensures
            final(self).well_formed(),
            owner_update(
                r,
                old(self).state(),
                final(self).state(),
                *ctx,
                (MinterState { is_allowlist_enabled: false, ..old(self).state() }),
            ),
    ;

    /// Adds `addresses` to the allowlist.
    fn populate_allowlist(&mut self, ctx: &CallContext, addresses: &Vec<Address>) -> (r: Result<
        (),
        MinterError,
    >)
        requires
            old(self).well_formed(),
        ensures
            final(self).well_formed(),
            owner_update(
                r,
                old(self).state(),
                final(self).state(),
                *ctx,
                (MinterState {
                    allowlist: old(self).state().allowlist + addresses_model(addresses@).to_set(),
                    ..old(self).state()
                }),
            ),
    ;

    /// Empties the allowlist.
    fn clear_allowlist(&mut self, ctx: &CallContext) -> (r: Result<(), MinterError>)
        requires
            old(self).well_formed(),
        ensures
            final(self).well_formed(),
            owner_update(
                r,
                old(self).state(),
                final(self).state(),
                *ctx,
                (MinterState { allowlist: Set::empty(), ..old(self).state() }),
            ),
    ;

    /// Takes `address` off the allowlist.
    fn remove_allowlist_address(&mut self, ctx: &CallContext, address: &Address) -> (r: Result<
        (),
        MinterError,
    >)
        requires
            old(self).well_formed(),
        ensures
            final(self).well_formed(),
            owner_update(
                r,
                old(self).state(),
                final(self).state(),
                *ctx,
                (MinterState { allowlist: old(self).state().allowlist.remove(address@), ..old(self).state() }),
            ),
    ;
}

} // verus!

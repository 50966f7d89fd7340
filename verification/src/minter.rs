use vstd::prelude::*;
use vstd::arithmetic::div_mod::{lemma_fundamental_div_mod, lemma_fundamental_div_mod_converse};

use crate::{ElvenTools, bytes_option};
use crate::address::Address;
use crate::address_set::AddressSet;
use crate::counts::{CountMap, DropKey};
use crate::model::{
    MinterState, ROYALTIES_MAX, after_index_minted, after_purchase, current_left, drop_limits_apply,
    empty_state, giveaway_receivers, init_effect, initial_pool, is_issued, issue_callback_effect,
    issue_token_effect, lemma_swap_remove, mint_many, mint_one, minted_by, minted_in_drop, nft_action,
    paused_if_exhausted, pick_position, properties_of, receiver_of, repeated, set_drop_effect,
    shuffled, storage_invariant, swap_remove, unset_drop_effect,
};
use crate::operations::Operations;
use crate::setup::{Setup, addresses_model, properties_model};
use crate::storage::Storage;
use crate::stored::{StoredState, all_between, all_distinct, stored_model};
use crate::text::{self, copy_bytes, default_img_file_extension};
use crate::types::{
    Action, CallContext, IssueOutcome, IssuedToken, MinterError, NFTProperties, Payment,
    TokenProperties, actions_model,
};

verus! {

/// The minter contract: its storage, and the endpoints that read and change it.
pub struct Minter {
    nft_token_id: Vec<u8>,
    collection_token_name: Vec<u8>,
    nft_token_name: Vec<u8>,
    selling_price: u128,
    provenance_hash: Vec<u8>,
    tokens_limit_per_address_total: u32,
    minted_per_address_total: CountMap<Address>,
    tokens_limit_per_address_per_drop: u32,
    is_allowlist_enabled: bool,
    is_drop_active: bool,
    amount_of_tokens_total: u32,
    paused: bool,
    amount_of_tokens_per_drop: u32,
    last_drop: u16,
    allowlist: AddressSet,
    minted_per_address_per_drop: CountMap<DropKey>,
    image_base_cid: Vec<u8>,
    metadata_base_cid: Vec<u8>,
    file_extension: Vec<u8>,
    minted_indexes_total: u32,
    minted_indexes_by_drop: u32,
    royalties: u128,
    tags: Vec<u8>,
    next_index_to_mint: (usize, u32),
    tokens_left_to_mint: Vec<u32>,
    is_metadata_in_uris: bool,
    no_number_in_nft_name: bool,
}

impl Minter {
    /// A contract with empty storage, as deployed before `init` runs.
    pub fn new() -> (r: Minter)
        ensures
            r.well_formed(),
            r.state() == empty_state(),
    {
        let r = Minter {
            nft_token_id: Vec::new(),
            collection_token_name: Vec::new(),
            nft_token_name: Vec::new(),
            selling_price: 0,
            provenance_hash: Vec::new(),
            tokens_limit_per_address_total: 0,
            minted_per_address_total: CountMap::new(),
            tokens_limit_per_address_per_drop: 0,
            is_allowlist_enabled: false,
            is_drop_active: false,
            amount_of_tokens_total: 0,
            paused: false,
            amount_of_tokens_per_drop: 0,
            last_drop: 0,
            allowlist: AddressSet::new(),
            minted_per_address_per_drop: CountMap::new(),
            image_base_cid: Vec::new(),
            metadata_base_cid: Vec::new(),
            file_extension: Vec::new(),
            minted_indexes_total: 0,
            minted_indexes_by_drop: 0,
            royalties: 0,
            tags: Vec::new(),
            next_index_to_mint: (0, 0),
            tokens_left_to_mint: Vec::new(),
            is_metadata_in_uris: false,
            no_number_in_nft_name: false,
        };
        assert(r.state() =~= empty_state());
        r
    }

    /// The minter whose storage holds `stored`, unless those values break the storage invariant.
    pub fn restore(stored: StoredState) -> (r: Option<Minter>)
        ensures
            match r {
                Some(m) => m.well_formed() && m.state() == stored_model(stored),
                None => !storage_invariant(stored_model(stored)),
            },
    {
        let ghost model = stored_model(stored);
        let minted_per_address_total = CountMap::from_entries(&stored.minted_per_address_total);
        let minted_per_address_per_drop = CountMap::from_entries(&stored.minted_per_address_per_drop);
        let allowlist = AddressSet::from_items(&stored.allowlist);
        let m = Minter {
            nft_token_id: stored.nft_token_id,
            collection_token_name: stored.collection_token_name,
            nft_token_name: stored.nft_token_name,
            selling_price: stored.selling_price,
            provenance_hash: stored.provenance_hash,
            tokens_limit_per_address_total: stored.tokens_limit_per_address_total,
            minted_per_address_total,
            tokens_limit_per_address_per_drop: stored.tokens_limit_per_address_per_drop,
            is_allowlist_enabled: stored.is_allowlist_enabled,
            is_drop_active: stored.is_drop_active,
            amount_of_tokens_total: stored.amount_of_tokens_total,
            paused: stored.paused,
            amount_of_tokens_per_drop: stored.amount_of_tokens_per_drop,
            last_drop: stored.last_drop,
            allowlist,
            minted_per_address_per_drop,
            image_base_cid: stored.image_base_cid,
            metadata_base_cid: stored.metadata_base_cid,
            file_extension: stored.file_extension,
            minted_indexes_total: stored.minted_indexes_total,
            minted_indexes_by_drop: stored.minted_indexes_by_drop,
            royalties: stored.royalties,
            tags: stored.tags,
            next_index_to_mint: stored.next_index_to_mint,
            tokens_left_to_mint: stored.tokens_left_to_mint,
            is_metadata_in_uris: stored.is_metadata_in_uris,
            no_number_in_nft_name: stored.no_number_in_nft_name,
        };
        assert(m.state() =~= model);
        if m.check_storage_invariant() {
            Some(m)
        } else {
            None
        }
    }

    /// The values the storage holds, in the form [`Minter::restore`] takes back.
    pub fn snapshot(&self) -> (r: StoredState)
        requires
            self.well_formed(),
        ensures
            stored_model(r) == self.state(),
    {
        let r = StoredState {
            nft_token_id: copy_bytes(&self.nft_token_id),
            collection_token_name: copy_bytes(&self.collection_token_name),
            nft_token_name: copy_bytes(&self.nft_token_name),
            selling_price: self.selling_price,
            provenance_hash: copy_bytes(&self.provenance_hash),
            tokens_limit_per_address_total: self.tokens_limit_per_address_total,
            minted_per_address_total: self.minted_per_address_total.entries(),
            tokens_limit_per_address_per_drop: self.tokens_limit_per_address_per_drop,
            is_allowlist_enabled: self.is_allowlist_enabled,
            is_drop_active: self.is_drop_active,
            amount_of_tokens_total: self.amount_of_tokens_total,
            paused: self.paused,
            amount_of_tokens_per_drop: self.amount_of_tokens_per_drop,
            last_drop: self.last_drop,
            allowlist: self.allowlist.items(),
            minted_per_address_per_drop: self.minted_per_address_per_drop.entries(),
            image_base_cid: copy_bytes(&self.image_base_cid),
            metadata_base_cid: copy_bytes(&self.metadata_base_cid),
            file_extension: copy_bytes(&self.file_extension),
            minted_indexes_total: self.minted_indexes_total,
            minted_indexes_by_drop: self.minted_indexes_by_drop,
            royalties: self.royalties,
            tags: copy_bytes(&self.tags),
            next_index_to_mint: self.next_index_to_mint,
            tokens_left_to_mint: self.tokens_left_to_mint(),
            is_metadata_in_uris: self.is_metadata_in_uris,
            no_number_in_nft_name: self.no_number_in_nft_name,
        };
        assert(stored_model(r) =~= self.state());
        r
    }

    /// Whether the state meets the storage invariant.
    fn check_storage_invariant(&self) -> (r: bool)
        requires
            self.minted_per_address_total.well_formed(),
            self.minted_per_address_per_drop.well_formed(),
            self.allowlist.well_formed(),
        ensures
            r == storage_invariant(self.state()),
    {
        let ghost s = self.state();
        if self.minted_indexes_total > self.amount_of_tokens_total {
            return false;
        }
        if self.minted_indexes_by_drop > self.amount_of_tokens_per_drop {
            return false;
        }
        let total_tokens_left = self.amount_of_tokens_total - self.minted_indexes_total;
        let drop_tokens_left = self.amount_of_tokens_per_drop - self.minted_indexes_by_drop;
        if drop_tokens_left > total_tokens_left {
            return false;
        }
        if !self.minted_per_address_per_drop.drops_at_most(self.last_drop) {
            proof {
                let k = choose|k: (u16, Seq<u8>)|
                    self.minted_per_address_per_drop.map().dom().contains(k) && !(k.0 <= self.last_drop);
                assert(s.minted_per_address_per_drop.dom().contains(k));
            }
            return false;
        }
        let pool_len = self.tokens_left_to_mint.len();
        if pool_len > self.amount_of_tokens_total as usize {
            return false;
        }
        if self.nft_token_id.len() == 0 {
            return self.minted_indexes_total == 0 && pool_len == 0;
        }
        if pool_len < 1 {
            return false;
        }
        if !all_distinct(&self.tokens_left_to_mint) {
            return false;
        }
        if !all_between(&self.tokens_left_to_mint, 1, self.amount_of_tokens_total) {
            return false;
        }
        if total_tokens_left > 0 {
            let (position, index) = self.next_index_to_mint;
            if pool_len != total_tokens_left as usize {
                return false;
            }
            if position < 1 || position > pool_len {
                return false;
            }
            if self.tokens_left_to_mint[position - 1] != index {
                return false;
            }
        }
        true
    }

    /// The pool position `1 + draw % len` and the index it holds.
    fn pick_next(&self, draw: u32) -> (r: (usize, u32))
        requires
            self.tokens_left_to_mint@.len() >= 1,
        ensures
            r.0 == pick_position(draw, self.tokens_left_to_mint@.len()),
            r.1 == self.tokens_left_to_mint@[r.0 - 1],
    {
        let len = self.tokens_left_to_mint.len();
        let p = (draw as usize) % len + 1;
        (p, self.tokens_left_to_mint[p - 1])
    }
}

impl Storage for Minter {
    closed spec fn state(&self) -> MinterState {
        MinterState {
            nft_token_id: self.nft_token_id@,
            collection_token_name: self.collection_token_name@,
            nft_token_name: self.nft_token_name@,
            selling_price: self.selling_price,
            provenance_hash: self.provenance_hash@,
            tokens_limit_per_address_total: self.tokens_limit_per_address_total,
            minted_per_address_total: self.minted_per_address_total.map(),
            tokens_limit_per_address_per_drop: self.tokens_limit_per_address_per_drop,
            is_allowlist_enabled: self.is_allowlist_enabled,
            is_drop_active: self.is_drop_active,
            amount_of_tokens_total: self.amount_of_tokens_total,
            paused: self.paused,
            amount_of_tokens_per_drop: self.amount_of_tokens_per_drop,
            last_drop: self.last_drop,
            allowlist: self.allowlist.set(),
            minted_per_address_per_drop: self.minted_per_address_per_drop.map(),
            image_base_cid: self.image_base_cid@,
            metadata_base_cid: self.metadata_base_cid@,
            file_extension: self.file_extension@,
            minted_indexes_total: self.minted_indexes_total,
            minted_indexes_by_drop: self.minted_indexes_by_drop,
            royalties: self.royalties,
            tags: self.tags@,
            next_index_to_mint: self.next_index_to_mint,
            tokens_left_to_mint: self.tokens_left_to_mint@,
            is_metadata_in_uris: self.is_metadata_in_uris,
            no_number_in_nft_name: self.no_number_in_nft_name,
        }
    }

    closed spec fn well_formed(&self) -> bool {
        &&& self.minted_per_address_total.well_formed()
        &&& self.minted_per_address_per_drop.well_formed()
        &&& self.allowlist.well_formed()
        &&& storage_invariant(self.state())
    }

    proof fn lemma_well_formed(&self) {
    }

    fn nft_token_id(&self) -> (r: Vec<u8>) {
        copy_bytes(&self.nft_token_id)
    }

    fn collection_token_name(&self) -> (r: Vec<u8>) {
        copy_bytes(&self.collection_token_name)
    }

    fn nft_token_name(&self) -> (r: Vec<u8>) {
        copy_bytes(&self.nft_token_name)
    }

    fn selling_price(&self) -> (r: u128) {
        self.selling_price
    }

    fn provenance_hash(&self) -> (r: Vec<u8>) {
        copy_bytes(&self.provenance_hash)
    }

    fn tokens_limit_per_address_total(&self) -> (r: u32) {
        self.tokens_limit_per_address_total
    }

    fn minted_per_address_total(&self, address: &Address) -> (r: u32) {
        self.minted_per_address_total.get(address)
    }

    fn tokens_limit_per_address_per_drop(&self) -> (r: u32) {
        self.tokens_limit_per_address_per_drop
    }

    fn is_allowlist_enabled(&self) -> (r: bool) {
        self.is_allowlist_enabled
    }

    fn is_drop_active(&self) -> (r: bool) {
        self.is_drop_active
    }

    fn amount_of_tokens_total(&self) -> (r: u32) {
        self.amount_of_tokens_total
    }

    fn paused(&self) -> (r: bool) {
        self.paused
    }

    fn amount_of_tokens_per_drop(&self) -> (r: u32) {
        self.amount_of_tokens_per_drop
    }

    fn last_drop(&self) -> (r: u16) {
        self.last_drop
    }

    fn minted_per_address_per_drop(&self, id: u16, address: &Address) -> (r: u32) {
        self.minted_per_address_per_drop.get(&DropKey { drop: id, address: *address })
    }

    fn image_base_cid(&self) -> (r: Vec<u8>) {
        copy_bytes(&self.image_base_cid)
    }

    fn metadata_base_cid(&self) -> (r: Vec<u8>) {
        copy_bytes(&self.metadata_base_cid)
    }

    fn file_extension(&self) -> (r: Vec<u8>) {
        copy_bytes(&self.file_extension)
    }

    fn minted_indexes_total(&self) -> (r: u32) {
        self.minted_indexes_total
    }

    fn minted_indexes_by_drop(&self) -> (r: u32) {
        self.minted_indexes_by_drop
    }

    fn royalties(&self) -> (r: u128) {
        self.royalties
    }

    fn tags(&self) -> (r: Vec<u8>) {
        copy_bytes(&self.tags)
    }

    fn next_index_to_mint(&self) -> (r: (usize, u32)) {
        self.next_index_to_mint
    }

    fn tokens_left_to_mint(&self) -> (r: Vec<u32>) {
        let mut r: Vec<u32> = Vec::new();
        let mut i: usize = 0;
        while i < self.tokens_left_to_mint.len()
            invariant
                i <= self.tokens_left_to_mint@.len(),
                r@ == self.tokens_left_to_mint@.subrange(0, i as int),
            decreases self.tokens_left_to_mint@.len() - i,
        {
            r.push(self.tokens_left_to_mint[i]);
            i = i + 1;
            assert(r@ =~= self.tokens_left_to_mint@.subrange(0, i as int));
        }
        assert(r@ =~= self.tokens_left_to_mint@);
        r
    }

    fn is_metadata_in_uris(&self) -> (r: bool) {
        self.is_metadata_in_uris
    }

    fn no_number_in_nft_name(&self) -> (r: bool) {
        self.no_number_in_nft_name
    }
}

impl Operations for Minter {
    fn check_mint(
        &self,
        ctx: &CallContext,
        payment: u128,
        has_create_role: bool,
        amount_of_tokens: u32,
    ) -> (r: Result<(), MinterError>) {
        let caller = &ctx.caller;
        if ctx.caller_is_smart_contract {
            return Err(MinterError::OnlyUserAccount);
        }
        if self.is_allowlist_enabled {
            if !self.allowlist.contains(caller) {
                return Err(MinterError::NotInAllowlist);
            }
        }
        if amount_of_tokens == 0 {
            return Err(MinterError::ZeroMintAmount);
        }
        if self.nft_token_id.len() == 0 {
            return Err(MinterError::TokenNotIssued);
        }
        if !has_create_role {
            return Err(MinterError::NftCreateRoleNotSet);
        }
        if self.paused {
            return Err(MinterError::MintingPaused);
        }
        // When nothing is left the check below refuses the call, so the pause that the
        // count would record is never kept.
        let current_left_tokens = if self.amount_of_tokens_per_drop > 0 {
            self.drop_tokens_left()
        } else {
            self.total_tokens_left()
        };
        if current_left_tokens < amount_of_tokens {
            return Err(MinterError::NotEnoughTokensLeft);
        }
        let minted_per_address = self.minted_per_address_total.get(caller);
        let tokens_limit_per_address = self.tokens_limit_per_address_total;
        let tokens_left_to_mint: u32 = if tokens_limit_per_address < minted_per_address {
            0
        } else {
            tokens_limit_per_address - minted_per_address
        };
        if !(tokens_left_to_mint > 0 && tokens_left_to_mint >= amount_of_tokens) {
            return Err(MinterError::AddressLimitReached);
        }
        if self.is_drop_active && self.last_drop != 0 {
            let minted_per_address_per_drop = self.minted_per_address_per_drop.get(
                &DropKey { drop: self.last_drop, address: *caller },
            );
            let tokens_limit_per_address_per_drop = self.tokens_limit_per_address_per_drop;
            let tokens_left_to_mint_per_drop: u32 = if tokens_limit_per_address_per_drop
                < minted_per_address_per_drop {
                0
            } else {
                tokens_limit_per_address_per_drop - minted_per_address_per_drop
            };
            if !(tokens_left_to_mint_per_drop > 0 && tokens_left_to_mint_per_drop
                >= amount_of_tokens) {
                return Err(MinterError::DropAddressLimitReached);
            }
        }
        proof {
            lemma_exact_payment(payment, amount_of_tokens, self.selling_price);
        }
        if payment % (amount_of_tokens as u128) != 0 || payment / (amount_of_tokens as u128)
            != self.selling_price {
            return Err(MinterError::InvalidPayment);
        }
        Ok(())
    }

    fn mint(
        &mut self,
        ctx: &CallContext,
        payment: u128,
        has_create_role: bool,
        amount_of_tokens: u32,
        draws: &Vec<u32>,
    ) -> (r: Result<Vec<Action>, MinterError>) {
        let ghost s0 = self.state();
        let caller = &ctx.caller;
        match self.check_mint(ctx, payment, has_create_role, amount_of_tokens) {
            Err(e) => {
                return Err(e);
            },
            Ok(()) => {},
        }
        let single_payment_amount = self.selling_price;
        let ghost receivers = repeated(caller@, amount_of_tokens as nat);
        let mut actions: Vec<Action> = Vec::new();
        let mut i: u32 = 0;
        while i < amount_of_tokens
            invariant
                self.well_formed(),
                i <= amount_of_tokens,
                draws@.len() >= amount_of_tokens,
                receivers == repeated(caller@, amount_of_tokens as nat),
                is_issued(s0),
                storage_invariant(s0),
                current_left(s0) >= amount_of_tokens,
                single_payment_amount > 0 ==> minted_by(s0, caller@) + amount_of_tokens
                    <= u32::MAX,
                single_payment_amount > 0 && drop_limits_apply(s0) ==> minted_in_drop(s0, caller@)
                    + amount_of_tokens <= u32::MAX,
                self.state() == mint_many(
                    s0,
                    caller@,
                    ctx.owner@,
                    single_payment_amount,
                    receivers.take(i as int),
                    draws@,
                ).0,
                actions_model(actions@) == mint_many(
                    s0,
                    caller@,
                    ctx.owner@,
                    single_payment_amount,
                    receivers.take(i as int),
                    draws@,
                ).1,
                is_issued(self.state()),
                self.state().amount_of_tokens_total == s0.amount_of_tokens_total,
                self.state().amount_of_tokens_per_drop == s0.amount_of_tokens_per_drop,
                self.state().minted_indexes_total == s0.minted_indexes_total + i,
                self.state().minted_indexes_by_drop == s0.minted_indexes_by_drop + if s0.amount_of_tokens_per_drop > 0 {
                    i as int
                } else {
                    0
                },
                self.state().last_drop == s0.last_drop,
                self.state().is_drop_active == s0.is_drop_active,
                minted_by(self.state(), caller@) == minted_by(s0, caller@) + if single_payment_amount > 0 {
                    i as int
                } else {
                    0
                },
                minted_in_drop(self.state(), caller@) == minted_in_drop(s0, caller@) + if single_payment_amount > 0
                    && drop_limits_apply(s0) {
                    i as int
                } else {
                    0
                },
            decreases amount_of_tokens - i,
        {
            let ghost before = self.state();
            let ghost before_actions = actions_model(actions@);
            let mut minted = self.mint_single_nft(caller, &ctx.owner, single_payment_amount, None, draws[i as usize]);
            let ghost minted_model = actions_model(minted@);
            actions.append(&mut minted);
            proof {
                assert(receivers.take(i + 1).drop_last() =~= receivers.take(i as int));
                assert(receivers.take(i + 1).last() == caller@);
                assert(actions_model(actions@) =~= before_actions + minted_model);
                if single_payment_amount > 0 && drop_limits_apply(s0) {
                    assert(minted_in_drop(self.state(), caller@) == minted_in_drop(before, caller@) + 1);
                }
            }
            i = i + 1;
        }
        proof {
            assert(receivers.take(amount_of_tokens as int) =~= receivers);
        }
        Ok(actions)
    }

    fn mint_single_nft(
        &mut self,
        caller: &Address,
        owner: &Address,
        payment_amount: u128,
        giveaway_address: Option<Address>,
        draw: u32,
    ) -> (r: Vec<Action>) {
        let ghost s0 = self.state();
        let ghost receiver = receiver_of(
            match giveaway_address {
                Some(a) => Some(a@),
                None => None,
            },
            caller@,
        );
        let next_index_to_mint_tuple = self.next_index_to_mint;
        let token = copy_bytes(&self.nft_token_id);
        let token_name = self.build_token_name_buffer(next_index_to_mint_tuple.1);
        let royalties = self.royalties;
        let attributes = self.build_attributes_buffer(next_index_to_mint_tuple.1);
        let uris = self.build_uris_vec(next_index_to_mint_tuple.1);
        let giveaway_address = match giveaway_address {
            Some(a) => a,
            None => Address::zero(),
        };
        let receiver_address = if giveaway_address.is_zero() {
            *caller
        } else {
            giveaway_address
        };
        assert(receiver_address@ == receiver);
        let mut actions: Vec<Action> = Vec::new();
        actions.push(
            Action::CreateAndSendNft {
                index: next_index_to_mint_tuple.1,
                token,
                name: token_name,
                royalties,
                attributes,
                uris,
                receiver: receiver_address,
            },
        );
        assert(actions@[0]@ == nft_action(s0, s0.next_index_to_mint.1, receiver));
        if payment_amount > 0 {
            let minted = self.minted_per_address_total.get(caller);
            self.minted_per_address_total.set(*caller, minted + 1);
            if self.is_drop_active && self.last_drop != 0 {
                let key = DropKey { drop: self.last_drop, address: *caller };
                let existing_address_value = self.minted_per_address_per_drop.get(&key);
                if existing_address_value > 0 {
                    self.minted_per_address_per_drop.set(key, existing_address_value + 1);
                } else {
                    self.minted_per_address_per_drop.set(key, 1);
                }
            }
            actions.push(Action::SendEgld { to: *owner, amount: payment_amount });
            assert(self.state() =~= after_purchase(s0, caller@));
        } else {
            assert(self.state() =~= s0);
        }
        self.handle_next_index_setup(next_index_to_mint_tuple, draw);
        assert(actions_model(actions@) =~= mint_one(s0, caller@, owner@, payment_amount, receiver, draw).1);
        actions
    }

    fn shuffle(&mut self, ctx: &CallContext, draw: u32) -> (r: Result<(), MinterError>) {
        if ctx.caller_is_smart_contract {
            return Err(MinterError::OnlyUserAccount);
        }
        if self.nft_token_id.len() == 0 {
            return Err(MinterError::TokenNotIssued);
        }
        if self.tokens_left_to_mint.len() == 0 {
            return Err(MinterError::NothingToShuffle);
        }
        self.do_shuffle(draw);
        Ok(())
    }

    fn do_shuffle(&mut self, draw: u32) {
        self.next_index_to_mint = self.pick_next(draw);
        assert(self.state() =~= shuffled(old(self).state(), draw));
    }

    fn handle_next_index_setup(&mut self, minted_index_tuple: (usize, u32), draw: u32) {
        let ghost s0 = self.state();
        self.minted_indexes_total = self.minted_indexes_total + 1;
        if self.amount_of_tokens_per_drop > 0 {
            self.minted_indexes_by_drop = self.minted_indexes_by_drop + 1;
        }
        let total_tokens_left = self.amount_of_tokens_total - self.minted_indexes_total;
        if total_tokens_left > 0 {
            proof {
                lemma_swap_remove(s0.tokens_left_to_mint, minted_index_tuple.0 as int);
            }
            let _ = self.tokens_left_to_mint.swap_remove(minted_index_tuple.0 - 1);
            assert(self.tokens_left_to_mint@ =~= swap_remove(s0.tokens_left_to_mint, minted_index_tuple.0 as int));
            self.next_index_to_mint = self.pick_next(draw);
            proof {
                let uid = self.tokens_left_to_mint@;
                assert forall|i: int| 0 <= i < uid.len() implies 1 <= #[trigger] uid[i] <= s0.amount_of_tokens_total by {
                    if i == minted_index_tuple.0 - 1 {
                        assert(uid[i] == s0.tokens_left_to_mint[s0.tokens_left_to_mint.len() - 1]);
                    } else {
                        assert(uid[i] == s0.tokens_left_to_mint[i]);
                    }
                }
            }
        }
        assert(self.state() =~= after_index_minted(s0, minted_index_tuple.0 as int, draw));
    }

    fn build_uris_vec(&self, index_to_mint: u32) -> (r: Vec<Vec<u8>>) {
        text::uris(
            &self.image_base_cid,
            &self.metadata_base_cid,
            &self.file_extension,
            self.is_metadata_in_uris,
            index_to_mint,
        )
    }

    fn build_attributes_buffer(&self, index_to_mint: u32) -> (r: Vec<u8>) {
        text::attributes(&self.tags, &self.metadata_base_cid, index_to_mint)
    }

    fn build_token_name_buffer(&self, index_to_mint: u32) -> (r: Vec<u8>) {
        text::token_name(&self.nft_token_name, self.no_number_in_nft_name, index_to_mint)
    }

    fn decimal_to_ascii(&self, number: u32) -> (r: Vec<u8>) {
        text::decimal_to_ascii(number)
    }

    fn get_current_left_tokens_amount(&mut self) -> (r: u32) {
        let drop_amount = self.amount_of_tokens_per_drop;
        let tokens_left = if drop_amount > 0 {
            self.drop_tokens_left()
        } else {
            self.total_tokens_left()
        };
        if tokens_left == 0 {
            self.paused = true;
        }
        assert(self.state() =~= paused_if_exhausted(old(self).state()));
        tokens_left
    }

    fn drop_tokens_left(&self) -> (r: u32) {
        self.amount_of_tokens_per_drop - self.minted_indexes_by_drop
    }

    fn total_tokens_left(&self) -> (r: u32) {
        self.amount_of_tokens_total - self.minted_indexes_total
    }

    fn get_minted_per_address_per_drop(&self, address: &Address) -> (r: u32) {
        if self.is_drop_active && self.last_drop != 0 {
            self.minted_per_address_per_drop.get(&DropKey { drop: self.last_drop, address: *address })
        } else {
            0
        }
    }

    fn allowlist_address_check(&self, address: &Address) -> (r: bool) {
        self.allowlist.contains(address)
    }

    fn allowlist_size(&self) -> (r: usize) {
        self.allowlist.len()
    }
}

/// Stores `value` in `field` when `field` is empty.
fn set_bytes_if_empty(field: &mut Vec<u8>, value: Vec<u8>)
    ensures
        final(field)@ == if old(field)@.len() == 0 {
            value@
        } else {
            old(field)@
        },
{
    if field.len() == 0 {
        *field = value;
    }
}

/// `value` when `current` is unset (zero), else `current`.
fn u32_if_unset(current: u32, value: u32) -> (r: u32)
    ensures
        r == if current == 0 {
            value
        } else {
            current
        },
{
    if current == 0 {
        value
    } else {
        current
    }
}

/// `value` when `current` is unset (zero), else `current`.
fn u128_if_unset(current: u128, value: u128) -> (r: u128)
    ensures
        r == if current == 0 {
            value
        } else {
            current
        },
{
    if current == 0 {
        value
    } else {
        current
    }
}

/// The bytes given, or `default`.
fn bytes_or(o: Option<Vec<u8>>, default: Vec<u8>) -> (r: Vec<u8>)
    ensures
        r@ == match bytes_option(o) {
            Some(v) => v,
            None => default@,
        },
{
    match o {
        Some(v) => v,
        None => default,
    }
}

/// The flag given, or `false`.
fn bool_or_false(o: Option<bool>) -> (r: bool)
    ensures
        r == match o {
            Some(b) => b,
            None => false,
        },
{
    match o {
        Some(b) => b,
        None => false,
    }
}

/// A payment is the sum for `amount` tokens at `price` exactly when it divides evenly into
/// `amount` parts of `price`.
proof fn lemma_exact_payment(payment: u128, amount: u32, price: u128)
    requires
        amount >= 1,
    ensures
        (payment % (amount as u128) == 0 && payment / (amount as u128) == price) <==> payment
            == amount * price,
{
    let a = amount as int;
    lemma_fundamental_div_mod(payment as int, a);
    if payment == amount * price {
        lemma_fundamental_div_mod_converse(payment as int, a, price as int, 0);
    }
}

/// The tokens that a giveaway of `amount` to each of `len` addresses asks for.
fn requested_tokens(amount: u32, len: usize) -> (r: u128)
    ensures
        r == amount * len,
{
    let a: u128 = amount as u128;
    let n: u128 = len as u128;
    assert(a * n <= 0xffff_ffffu128 * 0xffff_ffff_ffff_ffffu128) by (nonlinear_arith)
        requires
            a <= 0xffff_ffffu128,
            n <= 0xffff_ffff_ffff_ffffu128,
    ;
    a * n
}

/// Position `i * amount + j` of a list made of `amount` entries for each of `len` items.
proof fn lemma_flat_position(i: int, j: int, amount: int, len: int)
    requires
        0 <= i < len,
        0 <= j < amount,
    ensures
        i * amount + j < len * amount,
        (i * amount + j) / amount == i,
        i * amount + j + 1 <= (i + 1) * amount,
{
    lemma_fundamental_div_mod_converse(i * amount + j, amount, i, j);
    assert(i * amount + j < len * amount) by (nonlinear_arith)
        requires
            0 <= i < len,
            0 <= j < amount,
    ;
    assert(i * amount + j + 1 <= (i + 1) * amount) by (nonlinear_arith)
        requires
            0 <= j < amount,
    ;
}

impl Setup for Minter {
    fn issue_token(
        &mut self,
        ctx: &CallContext,
        issue_cost: u128,
        collection_token_name: Vec<u8>,
        collection_token_ticker: Vec<u8>,
        is_not_number_in_name: bool,
        nft_token_name: Vec<u8>,
        token_properties: Option<Vec<NFTProperties>>,
    ) -> (r: Result<Vec<Action>, MinterError>) {
        if !ctx.caller.same_as(&ctx.owner) {
            return Err(MinterError::OnlyOwner);
        }
        if self.nft_token_id.len() != 0 {
            return Err(MinterError::TokenAlreadyIssued);
        }
        let ghost props = properties_model(token_properties);
        let nfts_name = if nft_token_name.len() == 0 {
            copy_bytes(&collection_token_name)
        } else {
            nft_token_name
        };
        self.no_number_in_nft_name = is_not_number_in_name;
        self.nft_token_name = nfts_name;
        self.collection_token_name = copy_bytes(&collection_token_name);
        let mut properties = TokenProperties {
            can_freeze: false,
            can_wipe: false,
            can_pause: false,
            can_transfer_create_role: false,
            can_change_owner: false,
            can_upgrade: false,
            can_add_special_roles: true,
        };
        match token_properties {
            Some(value) => {
                let mut i: usize = 0;
                while i < value.len()
                    invariant
                        props == Some(value@),
                        i <= value@.len(),
                        properties == properties_of(Some(value@.take(i as int))),
                    decreases value@.len() - i,
                {
                    let ghost before = value@.take(i as int);
                    match value[i] {
                        NFTProperties::CanFreeze => properties.can_freeze = true,
                        NFTProperties::CanWipe => properties.can_wipe = true,
                        NFTProperties::CanPause => properties.can_pause = true,
                        NFTProperties::CanTransferCreateRole => properties.can_transfer_create_role = true,
                        NFTProperties::CanChangeOwner => properties.can_change_owner = true,
                        NFTProperties::CanUpgrade => properties.can_upgrade = true,
                        NFTProperties::CanAddSpecialRoles => properties.can_add_special_roles = true,
                    }
                    proof {
                        let after = value@.take(i + 1);
                        assert(after =~= before.push(value@[i as int]));
                        assert forall|p: NFTProperties| after.contains(p) <==> (before.contains(p) || value@[i as int] == p) by {
                            if after.contains(p) {
                                let k = choose|k: int| 0 <= k < after.len() && after[k] == p;
                                if k < i {
                                    assert(before[k] == p);
                                }
                            }
                            if before.contains(p) {
                                let k = choose|k: int| 0 <= k < before.len() && before[k] == p;
                                assert(after[k] == p);
                            }
                            if value@[i as int] == p {
                                assert(after[i as int] == p);
                            }
                        }
                    }
                    i = i + 1;
                }
                assert(value@.take(value@.len() as int) =~= value@);
            },
            None => {},
        }
        let mut actions: Vec<Action> = Vec::new();
        actions.push(
            Action::IssueCollection {
                cost: issue_cost,
                name: collection_token_name,
                ticker: collection_token_ticker,
                properties,
            },
        );
        assert(self.state() =~= issue_token_effect(
            old(self).state(),
            collection_token_name@,
            is_not_number_in_name,
            nft_token_name@,
        ));
        assert(actions_model(actions@) =~= seq![actions@[0]@]);
        Ok(actions)
    }

    fn set_local_roles(&self, ctx: &CallContext, sc_address: &Address) -> (r: Result<
        Vec<Action>,
        MinterError,
    >) {
        if !ctx.caller.same_as(&ctx.owner) {
            return Err(MinterError::OnlyOwner);
        }
        if self.nft_token_id.len() == 0 {
            return Err(MinterError::TokenNotIssued);
        }
        let mut actions: Vec<Action> = Vec::new();
        actions.push(Action::SetNftCreateRole { address: *sc_address, token: copy_bytes(&self.nft_token_id) });
        assert(actions_model(actions@) =~= seq![actions@[0]@]);
        Ok(actions)
    }

    fn issue_callback(
        &mut self,
        owner: &Address,
        result: IssueOutcome,
        returned: Payment,
        draw: u32,
    ) -> (r: Result<Vec<Action>, MinterError>) {
        let ghost outcome = result@;
        match result {
            IssueOutcome::Success(token_id) => {
                let token = match token_id {
                    IssuedToken::Egld => {
                        return Err(MinterError::EsdtExpected);
                    },
                    IssuedToken::Esdt(t) => t,
                };
                let tokens_number = self.amount_of_tokens_total;
                if self.tokens_left_to_mint.len() != 0 {
                    return Err(MinterError::LenAlreadySet);
                }
                if token.len() == 0 {
                    return Err(MinterError::TokenNotIssued);
                }
                if tokens_number == 0 {
                    return Err(MinterError::NothingToShuffle);
                }
                let mut pool: Vec<u32> = Vec::new();
                let mut k: u32 = 0;
                while k < tokens_number
                    invariant
                        k <= tokens_number,
                        pool@ == initial_pool(tokens_number).take(k as int),
                    decreases tokens_number - k,
                {
                    pool.push(k + 1);
                    k = k + 1;
                    assert(pool@ =~= initial_pool(tokens_number).take(k as int));
                }
                assert(pool@ =~= initial_pool(tokens_number));
                self.nft_token_id = token;
                self.tokens_left_to_mint = pool;
                self.next_index_to_mint = self.pick_next(draw);
                proof {
                    let uid = self.tokens_left_to_mint@;
                    assert forall|a: int, b: int| 0 <= a < uid.len() && 0 <= b < uid.len() && a != b implies uid[a] != uid[b] by {}
                }
                assert(self.state() =~= issue_callback_effect(
                    old(self).state(),
                    owner@,
                    outcome,
                    returned.is_egld,
                    returned.amount,
                    draw,
                ).0);
                let actions: Vec<Action> = Vec::new();
                assert(actions_model(actions@) =~= Seq::empty());
                Ok(actions)
            },
            IssueOutcome::Failure => {
                let mut actions: Vec<Action> = Vec::new();
                if returned.is_egld && returned.amount > 0 {
                    actions.push(Action::SendEgld { to: *owner, amount: returned.amount });
                    assert(actions_model(actions@) =~= seq![actions@[0]@]);
                } else {
                    assert(actions_model(actions@) =~= Seq::empty());
                }
                Ok(actions)
            },
        }
    }

    fn pause_minting(&mut self, ctx: &CallContext) -> (r: Result<(), MinterError>) {
        if !ctx.caller.same_as(&ctx.owner) {
            return Err(MinterError::OnlyOwner);
        }
        self.paused = true;
        assert(self.state() =~= MinterState { paused: true, ..old(self).state() });
        Ok(())
    }

    fn start_minting(&mut self, ctx: &CallContext) -> (r: Result<(), MinterError>) {
        if !ctx.caller.same_as(&ctx.owner) {
            return Err(MinterError::OnlyOwner);
        }
        if self.nft_token_id.len() == 0 {
            return Err(MinterError::TokenNotIssued);
        }
        self.paused = false;
        assert(self.state() =~= MinterState { paused: false, ..old(self).state() });
        Ok(())
    }

    fn set_drop(
        &mut self,
        ctx: &CallContext,
        amount_of_tokens_per_drop: u32,
        tokens_limit_per_address_per_drop: Option<u32>,
    ) -> (r: Result<(), MinterError>) {
        if !ctx.caller.same_as(&ctx.owner) {
            return Err(MinterError::OnlyOwner);
        }
        let total_tokens_left = self.total_tokens_left();
        if amount_of_tokens_per_drop > total_tokens_left {
            return Err(MinterError::DropTooLarge);
        }
        let tokens_limit = match tokens_limit_per_address_per_drop {
            Some(l) => l,
            None => 0,
        };
        let tokens_limit_total = self.tokens_limit_per_address_total;
        if tokens_limit > tokens_limit_total {
            return Err(MinterError::DropLimitAboveTotalLimit);
        }
        if self.last_drop == u16::MAX {
            return Err(MinterError::DropCounterFull);
        }
        if tokens_limit > 0 {
            self.tokens_limit_per_address_per_drop = tokens_limit;
        } else {
            self.tokens_limit_per_address_per_drop = amount_of_tokens_per_drop;
        }
        self.minted_indexes_by_drop = 0;
        self.amount_of_tokens_per_drop = amount_of_tokens_per_drop;
        self.last_drop = self.last_drop + 1;
        self.is_drop_active = true;
        assert(self.state() =~= set_drop_effect(
            old(self).state(),
            amount_of_tokens_per_drop,
            tokens_limit_per_address_per_drop,
        ));
        Ok(())
    }

    fn unset_drop(&mut self, ctx: &CallContext) -> (r: Result<(), MinterError>) {
        if !ctx.caller.same_as(&ctx.owner) {
            return Err(MinterError::OnlyOwner);
        }
        self.minted_indexes_by_drop = 0;
        self.amount_of_tokens_per_drop = 0;
        self.tokens_limit_per_address_per_drop = 0;
        self.is_drop_active = false;
        assert(self.state() =~= unset_drop_effect(old(self).state()));
        Ok(())
    }

    fn set_new_price(&mut self, ctx: &CallContext, price: u128) -> (r: Result<(), MinterError>) {
        if !ctx.caller.same_as(&ctx.owner) {
            return Err(MinterError::OnlyOwner);
        }
        self.selling_price = price;
        assert(self.state() =~= MinterState { selling_price: price, ..old(self).state() });
        Ok(())
    }

    fn change_base_cids(
        &mut self,
        ctx: &CallContext,
        image_base_cid: Vec<u8>,
        metadata_base_cid: Vec<u8>,
    ) -> (r: Result<(), MinterError>) {
        if !ctx.caller.same_as(&ctx.owner) {
            return Err(MinterError::OnlyOwner);
        }
        if self.minted_indexes_total != 0 {
            return Err(MinterError::TokensAlreadyMinted);
        }
        self.image_base_cid = image_base_cid;
        self.metadata_base_cid = metadata_base_cid;
        assert(self.state() =~= MinterState {
            image_base_cid: image_base_cid@,
            metadata_base_cid: metadata_base_cid@,
            ..old(self).state()
        });
        Ok(())
    }

    fn set_new_tokens_limit_per_address(&mut self, ctx: &CallContext, limit: u32) -> (r: Result<
        (),
        MinterError,
    >) {
        if !ctx.caller.same_as(&ctx.owner) {
            return Err(MinterError::OnlyOwner);
        }
        self.tokens_limit_per_address_total = limit;
        assert(self.state() =~= MinterState { tokens_limit_per_address_total: limit, ..old(self).state() });
        Ok(())
    }

    fn check_giveaway(
        &self,
        ctx: &CallContext,
        has_create_role: bool,
        addresses: &Vec<Address>,
        amount_of_tokens_per_address: u32,
    ) -> (r: Result<(), MinterError>) {
        if !ctx.caller.same_as(&ctx.owner) {
            return Err(MinterError::OnlyOwner);
        }
        if self.nft_token_id.len() == 0 {
            return Err(MinterError::TokenNotIssued);
        }
        if !has_create_role {
            return Err(MinterError::NftCreateRoleNotSet);
        }
        let requested = requested_tokens(amount_of_tokens_per_address, addresses.len());
        let current_left_tokens = if self.amount_of_tokens_per_drop > 0 {
            self.drop_tokens_left()
        } else {
            self.total_tokens_left()
        };
        if (current_left_tokens as u128) < requested {
            return Err(MinterError::NotEnoughTokensLeft);
        }
        Ok(())
    }

    fn giveaway(
        &mut self,
        ctx: &CallContext,
        has_create_role: bool,
        addresses: &Vec<Address>,
        amount_of_tokens_per_address: u32,
        draws: &Vec<u32>,
    ) -> (r: Result<Vec<Action>, MinterError>) {
        match self.check_giveaway(ctx, has_create_role, addresses, amount_of_tokens_per_address) {
            Err(e) => {
                return Err(e);
            },
            Ok(()) => {},
        }
        let amount = amount_of_tokens_per_address;
        let ghost len = addresses@.len();
        let ghost addrs = addresses_model(addresses@);
        proof {
            let s0 = self.state();
            assert(current_left(s0) <= u32::MAX);
            assert(amount * len == len * amount) by (nonlinear_arith);
        }
        let _ = self.get_current_left_tokens_amount();
        let ghost s1 = self.state();
        let ghost receivers = giveaway_receivers(addrs, amount, ctx.caller@);
        let mut actions: Vec<Action> = Vec::new();
        let mut count: usize = 0;
        let mut i: usize = 0;
        while i < addresses.len()
            invariant
                self.well_formed(),
                i <= len,
                len == addresses@.len(),
                addrs == addresses_model(addresses@),
                receivers == giveaway_receivers(addrs, amount, ctx.caller@),
                receivers.len() == len * amount,
                count == i * amount,
                draws@.len() >= len * amount,
                len * amount <= u32::MAX,
                is_issued(s1),
                storage_invariant(s1),
                current_left(s1) >= len * amount,
                self.state() == mint_many(s1, ctx.caller@, ctx.owner@, 0, receivers.take(count as int), draws@).0,
                actions_model(actions@) == mint_many(s1, ctx.caller@, ctx.owner@, 0, receivers.take(count as int), draws@).1,
                is_issued(self.state()),
                self.state().amount_of_tokens_total == s1.amount_of_tokens_total,
                self.state().amount_of_tokens_per_drop == s1.amount_of_tokens_per_drop,
                self.state().minted_indexes_total == s1.minted_indexes_total + count,
                self.state().minted_indexes_by_drop == s1.minted_indexes_by_drop + if s1.amount_of_tokens_per_drop > 0 {
                    count as int
                } else {
                    0
                },
            decreases len - i,
        {
            let address = addresses[i];
            let mut j: u32 = 0;
            while j < amount
                invariant
                    self.well_formed(),
                    i < len,
                    j <= amount,
                    len == addresses@.len(),
                    address == addresses@[i as int],
                    addrs == addresses_model(addresses@),
                    receivers == giveaway_receivers(addrs, amount, ctx.caller@),
                    receivers.len() == len * amount,
                    count == i * amount + j,
                    draws@.len() >= len * amount,
                    len * amount <= u32::MAX,
                    is_issued(s1),
                    storage_invariant(s1),
                    current_left(s1) >= len * amount,
                    self.state() == mint_many(s1, ctx.caller@, ctx.owner@, 0, receivers.take(count as int), draws@).0,
                    actions_model(actions@) == mint_many(s1, ctx.caller@, ctx.owner@, 0, receivers.take(count as int), draws@).1,
                    is_issued(self.state()),
                    self.state().amount_of_tokens_total == s1.amount_of_tokens_total,
                    self.state().amount_of_tokens_per_drop == s1.amount_of_tokens_per_drop,
                    self.state().minted_indexes_total == s1.minted_indexes_total + count,
                    self.state().minted_indexes_by_drop == s1.minted_indexes_by_drop + if s1.amount_of_tokens_per_drop > 0 {
                        count as int
                    } else {
                        0
                    },
                decreases amount - j,
            {
                proof {
                    lemma_flat_position(i as int, j as int, amount as int, len as int);
                    assert(receivers[count as int] == receiver_of(Some(address@), ctx.caller@));
                }
                let ghost before_actions = actions_model(actions@);
                let mut minted = self.mint_single_nft(&ctx.caller, &ctx.owner, 0, Some(address), draws[count]);
                let ghost minted_model = actions_model(minted@);
                actions.append(&mut minted);
                proof {
                    assert(receivers.take(count + 1).drop_last() =~= receivers.take(count as int));
                    assert(receivers.take(count + 1).last() == receivers[count as int]);
                    assert(actions_model(actions@) =~= before_actions + minted_model);
                }
                count = count + 1;
                j = j + 1;
            }
            proof {
                assert(i * amount + amount == (i + 1) * amount) by (nonlinear_arith);
            }
            i = i + 1;
        }
        proof {
            assert(receivers.take(count as int) =~= receivers);
        }
        Ok(actions)
    }

    fn claim_sc_funds(&self, ctx: &CallContext, balance: u128) -> (r: Result<Vec<Action>, MinterError>) {
        if !ctx.caller.same_as(&ctx.owner) {
            return Err(MinterError::OnlyOwner);
        }
        let mut actions: Vec<Action> = Vec::new();
        actions.push(Action::SendEgld { to: ctx.caller, amount: balance });
        assert(actions_model(actions@) =~= seq![actions@[0]@]);
        Ok(actions)
    }

    fn enable_allowlist(&mut self, ctx: &CallContext) -> (r: Result<(), MinterError>) {
        if !ctx.caller.same_as(&ctx.owner) {
            return Err(MinterError::OnlyOwner);
        }
        self.is_allowlist_enabled = true;
        assert(self.state() =~= MinterState { is_allowlist_enabled: true, ..old(self).state() });
        Ok(())
    }

    fn disable_allowlist(&mut self, ctx: &CallContext) -> (r: Result<(), MinterError>) {
        if !ctx.caller.same_as(&ctx.owner) {
            return Err(MinterError::OnlyOwner);
        }
        self.is_allowlist_enabled = false;
        assert(self.state() =~= MinterState { is_allowlist_enabled: false, ..old(self).state() });
        Ok(())
    }

    fn populate_allowlist(&mut self, ctx: &CallContext, addresses: &Vec<Address>) -> (r: Result<
        (),
        MinterError,
    >) {
        if !ctx.caller.same_as(&ctx.owner) {
            return Err(MinterError::OnlyOwner);
        }
        let ghost s0 = self.state();
        let ghost addrs = addresses_model(addresses@);
        let mut i: usize = 0;
        while i < addresses.len()
            invariant
                self.well_formed(),
                i <= addresses@.len(),
                addrs == addresses_model(addresses@),
                storage_invariant(s0),
                self.state() == (MinterState { allowlist: s0.allowlist + addrs.take(i as int).to_set(), ..s0 }),
            decreases addresses@.len() - i,
        {
            let _ = self.allowlist.insert(addresses[i]);
            proof {
                let before = addrs.take(i as int);
                let after = addrs.take(i + 1);
                assert(after =~= before.push(addresses@[i as int]@));
                assert(after.to_set() =~= before.to_set().insert(addresses@[i as int]@)) by {
                    assert forall|x: Seq<u8>| after.to_set().contains(x) <==> before.to_set().insert(addresses@[i as int]@).contains(x) by {
                        if after.contains(x) {
                            let k = choose|k: int| 0 <= k < after.len() && after[k] == x;
                            if k < i {
                                assert(before[k] == x);
                            }
                        }
                        if before.contains(x) {
                            let k = choose|k: int| 0 <= k < before.len() && before[k] == x;
                            assert(after[k] == x);
                        }
                        if x == addresses@[i as int]@ {
                            assert(after[i as int] == x);
                        }
                    }
                }
                assert(self.state() =~= MinterState { allowlist: s0.allowlist + after.to_set(), ..s0 });
            }
            i = i + 1;
        }
        assert(addrs.take(addresses@.len() as int) =~= addrs);
        Ok(())
    }

    fn clear_allowlist(&mut self, ctx: &CallContext) -> (r: Result<(), MinterError>) {
        if !ctx.caller.same_as(&ctx.owner) {
            return Err(MinterError::OnlyOwner);
        }
        self.allowlist.clear();
        assert(self.state() =~= MinterState { allowlist: Set::empty(), ..old(self).state() });
        Ok(())
    }

    fn remove_allowlist_address(&mut self, ctx: &CallContext, address: &Address) -> (r: Result<
        (),
        MinterError,
    >) {
        if !ctx.caller.same_as(&ctx.owner) {
            return Err(MinterError::OnlyOwner);
        }
        let _ = self.allowlist.remove(address);
        assert(self.state() =~= MinterState {
            allowlist: old(self).state().allowlist.remove(address@),
            ..old(self).state()
        });
        Ok(())
    }
}

impl ElvenTools for Minter {
    fn init(
        &mut self,
        image_base_cid: Vec<u8>,
        metadata_base_cid: Vec<u8>,
        amount_of_tokens: u32,
        tokens_limit_per_address: u32,
        royalties: u128,
        selling_price: u128,
        file_extension: Option<Vec<u8>>,
        tags: Option<Vec<u8>>,
        provenance_hash: Option<Vec<u8>>,
        is_metadata_in_uris: Option<bool>,
    ) -> (r: Result<(), MinterError>) {
        if royalties > ROYALTIES_MAX {
            return Err(MinterError::RoyaltiesTooHigh);
        }
        if amount_of_tokens < 1 {
            return Err(MinterError::ZeroTokenSupply);
        }
        if tokens_limit_per_address < 1 {
            return Err(MinterError::ZeroTokensLimitPerAddress);
        }
        let ghost s0 = self.state();
        proof {
            if s0.amount_of_tokens_total == 0 && is_issued(s0) {
                assert(1 <= s0.tokens_left_to_mint[0] <= s0.amount_of_tokens_total);
            }
        }
        let ghost file_extension_model = bytes_option(file_extension);
        let ghost tags_model = bytes_option(tags);
        let ghost provenance_hash_model = bytes_option(provenance_hash);
        set_bytes_if_empty(&mut self.image_base_cid, image_base_cid);
        set_bytes_if_empty(&mut self.metadata_base_cid, metadata_base_cid);
        self.amount_of_tokens_total = u32_if_unset(self.amount_of_tokens_total, amount_of_tokens);
        self.tokens_limit_per_address_total = u32_if_unset(
            self.tokens_limit_per_address_total,
            tokens_limit_per_address,
        );
        set_bytes_if_empty(&mut self.provenance_hash, bytes_or(provenance_hash, Vec::new()));
        self.royalties = u128_if_unset(self.royalties, royalties);
        self.selling_price = u128_if_unset(self.selling_price, selling_price);
        set_bytes_if_empty(&mut self.tags, bytes_or(tags, Vec::new()));
        set_bytes_if_empty(&mut self.file_extension, bytes_or(file_extension, default_img_file_extension()));
        self.is_metadata_in_uris = self.is_metadata_in_uris || bool_or_false(is_metadata_in_uris);
        self.paused = true;
        assert(self.state() =~= init_effect(
            s0,
            image_base_cid@,
            metadata_base_cid@,
            amount_of_tokens,
            tokens_limit_per_address,
            royalties,
            selling_price,
            file_extension_model,
            tags_model,
            provenance_hash_model,
            is_metadata_in_uris,
        ));
        Ok(())
    }
}

} // verus!

use vstd::prelude::*;

use crate::address::zero_address;
use crate::counts::count_or_zero;
use crate::text::{spec_attributes, spec_token_name, spec_uris, spec_default_img_file_extension};
use crate::types::{ActionModel, IssueOutcomeModel, MinterError, NFTProperties, TokenProperties};

verus! {

/// Royalties are given in hundredths of a percent; this is 100%.
pub const ROYALTIES_MAX: u128 = 10000;

/// The storage of the minter contract, as mathematical values.
///
/// Empty storage reads as the default value (zero, `false`, no bytes); the counters of the
/// two maps read as zero for a missing key.
#[verifier::ext_equal]
pub struct MinterState {
    pub nft_token_id: Seq<u8>,
    pub collection_token_name: Seq<u8>,
    pub nft_token_name: Seq<u8>,
    pub selling_price: u128,
    pub provenance_hash: Seq<u8>,
    pub tokens_limit_per_address_total: u32,
    pub minted_per_address_total: Map<Seq<u8>, u32>,
    pub tokens_limit_per_address_per_drop: u32,
    pub is_allowlist_enabled: bool,
    pub is_drop_active: bool,
    pub amount_of_tokens_total: u32,
    pub paused: bool,
    pub amount_of_tokens_per_drop: u32,
    pub last_drop: u16,
    pub allowlist: Set<Seq<u8>>,
    pub minted_per_address_per_drop: Map<(u16, Seq<u8>), u32>,
    pub image_base_cid: Seq<u8>,
    pub metadata_base_cid: Seq<u8>,
    pub file_extension: Seq<u8>,
    pub minted_indexes_total: u32,
    pub minted_indexes_by_drop: u32,
    pub royalties: u128,
    pub tags: Seq<u8>,
    /// The position (from 1) in `tokens_left_to_mint` of the index minted next, and that index.
    pub next_index_to_mint: (usize, u32),
    /// The collection indexes not minted yet, in pool order (position `p` holds entry `p - 1`).
    pub tokens_left_to_mint: Seq<u32>,
    pub is_metadata_in_uris: bool,
    pub no_number_in_nft_name: bool,
}

/// The storage of a freshly deployed contract, before `init`.
pub open spec fn empty_state() -> MinterState {
    MinterState {
        nft_token_id: Seq::empty(),
        collection_token_name: Seq::empty(),
        nft_token_name: Seq::empty(),
        selling_price: 0,
        provenance_hash: Seq::empty(),
        tokens_limit_per_address_total: 0,
        minted_per_address_total: Map::empty(),
        tokens_limit_per_address_per_drop: 0,
        is_allowlist_enabled: false,
        is_drop_active: false,
        amount_of_tokens_total: 0,
        paused: false,
        amount_of_tokens_per_drop: 0,
        last_drop: 0,
        allowlist: Set::empty(),
        minted_per_address_per_drop: Map::empty(),
        image_base_cid: Seq::empty(),
        metadata_base_cid: Seq::empty(),
        file_extension: Seq::empty(),
        minted_indexes_total: 0,
        minted_indexes_by_drop: 0,
        royalties: 0,
        tags: Seq::empty(),
        next_index_to_mint: (0, 0),
        tokens_left_to_mint: Seq::empty(),
        is_metadata_in_uris: false,
        no_number_in_nft_name: false,
    }
}

/// The collection token has been issued.
pub open spec fn is_issued(s: MinterState) -> bool {
    s.nft_token_id.len() > 0
}

/// Tokens of the whole collection not minted yet.
pub open spec fn total_left(s: MinterState) -> int {
    s.amount_of_tokens_total - s.minted_indexes_total
}

/// Tokens of the current drop not minted yet.
pub open spec fn drop_left(s: MinterState) -> int {
    s.amount_of_tokens_per_drop - s.minted_indexes_by_drop
}

/// The tokens that can still be minted now: those of the drop when a drop size is set,
/// else those of the collection.
pub open spec fn current_left(s: MinterState) -> int {
    if s.amount_of_tokens_per_drop > 0 {
        drop_left(s)
    } else {
        total_left(s)
    }
}

/// The per-drop counters and limits are in force.
pub open spec fn drop_limits_apply(s: MinterState) -> bool {
    s.is_drop_active && s.last_drop != 0
}

/// What is left of `limit` once `used` is spent, never below zero.
pub open spec fn room(limit: u32, used: u32) -> int {
    if limit < used {
        0
    } else {
        limit - used
    }
}

/// Tokens bought by address `a` in total.
pub open spec fn minted_by(s: MinterState, a: Seq<u8>) -> u32 {
    count_or_zero(s.minted_per_address_total, a)
}

/// Tokens bought by address `a` in the last drop.
pub open spec fn minted_in_drop(s: MinterState, a: Seq<u8>) -> u32 {
    count_or_zero(s.minted_per_address_per_drop, (s.last_drop, a))
}

/// The collection indexes that can still be minted.
pub open spec fn pool(s: MinterState) -> Set<u32> {
    if is_issued(s) && total_left(s) > 0 {
        s.tokens_left_to_mint.to_set()
    } else {
        Set::empty()
    }
}

/// The pool positions `1..=len` reached by a random draw: `1 + draw % len`.
pub open spec fn pick_position(draw: u32, len: nat) -> int {
    1 + (draw as int) % (len as int)
}

/// The pool after the entry at `position` (from 1) leaves it: the last entry takes its place.
pub open spec fn swap_remove(pool: Seq<u32>, position: int) -> Seq<u32> {
    pool.update(position - 1, pool.last()).drop_last()
}

/// The pool `1, 2, ..., n`.
pub open spec fn initial_pool(n: u32) -> Seq<u32> {
    Seq::new(n as nat, |i: int| (i + 1) as u32)
}

/// What holds of the storage between calls.
pub open spec fn storage_invariant(s: MinterState) -> bool {
    &&& s.minted_indexes_total <= s.amount_of_tokens_total
    &&& s.minted_indexes_by_drop <= s.amount_of_tokens_per_drop
    &&& drop_left(s) <= total_left(s)
    &&& forall|k: (u16, Seq<u8>)|
        #![trigger s.minted_per_address_per_drop.dom().contains(k)]
        s.minted_per_address_per_drop.dom().contains(k) ==> k.0 <= s.last_drop
    &&& s.tokens_left_to_mint.len() <= s.amount_of_tokens_total
    &&& !is_issued(s) ==> s.minted_indexes_total == 0 && s.tokens_left_to_mint.len() == 0
    &&& is_issued(s) ==> {
        &&& s.tokens_left_to_mint.len() >= 1
        &&& s.tokens_left_to_mint.no_duplicates()
        &&& forall|i: int|
            0 <= i < s.tokens_left_to_mint.len() ==> 1 <= #[trigger] s.tokens_left_to_mint[i]
                <= s.amount_of_tokens_total
        &&& total_left(s) > 0 ==> {
            &&& s.tokens_left_to_mint.len() == total_left(s)
            &&& 1 <= s.next_index_to_mint.0 <= s.tokens_left_to_mint.len()
            &&& s.next_index_to_mint.1 == s.tokens_left_to_mint[s.next_index_to_mint.0 - 1]
        }
    }
}

/// `next_index_to_mint` after a draw over the pool `pool`.
pub open spec fn shuffled(s: MinterState, draw: u32) -> MinterState {
    let p = pick_position(draw, s.tokens_left_to_mint.len());
    MinterState { next_index_to_mint: (p as usize, s.tokens_left_to_mint[p - 1]), ..s }
}

/// The counters after one more index was minted: the pool entry at `position` leaves the pool
/// and the next index is drawn, unless the collection is complete.
pub open spec fn after_index_minted(s: MinterState, position: int, draw: u32) -> MinterState {
    let s1 = MinterState {
        minted_indexes_total: (s.minted_indexes_total + 1) as u32,
        minted_indexes_by_drop: if s.amount_of_tokens_per_drop > 0 {
            (s.minted_indexes_by_drop + 1) as u32
        } else {
            s.minted_indexes_by_drop
        },
        ..s
    };
    if total_left(s1) > 0 {
        shuffled(
            MinterState {
                tokens_left_to_mint: swap_remove(s.tokens_left_to_mint, position),
                ..s1
            },
            draw,
        )
    } else {
        s1
    }
}

/// The purchase counters after `caller` paid for one token.
pub open spec fn after_purchase(s: MinterState, caller: Seq<u8>) -> MinterState {
    let s1 = MinterState {
        minted_per_address_total: s.minted_per_address_total.insert(
            caller,
            (minted_by(s, caller) + 1) as u32,
        ),
        ..s
    };
    if drop_limits_apply(s) {
        MinterState {
            minted_per_address_per_drop: s.minted_per_address_per_drop.insert(
                (s.last_drop, caller),
                (minted_in_drop(s, caller) + 1) as u32,
            ),
            ..s1
        }
    } else {
        s1
    }
}

/// The NFT of collection index `index`, sent to `receiver`.
pub open spec fn nft_action(s: MinterState, index: u32, receiver: Seq<u8>) -> ActionModel {
    ActionModel::CreateAndSendNft {
        index,
        token: s.nft_token_id,
        name: spec_token_name(s.nft_token_name, s.no_number_in_nft_name, index),
        royalties: s.royalties,
        attributes: spec_attributes(s.tags, s.metadata_base_cid, index),
        uris: spec_uris(
            s.image_base_cid,
            s.metadata_base_cid,
            s.file_extension,
            s.is_metadata_in_uris,
            index,
        ),
        receiver,
    }
}

/// One token minted: the NFT at `next_index_to_mint` goes to `receiver`; a nonzero `payment`
/// counts as a purchase by `caller` and goes to `owner`.
pub open spec fn mint_one(
    s: MinterState,
    caller: Seq<u8>,
    owner: Seq<u8>,
    payment: u128,
    receiver: Seq<u8>,
    draw: u32,
) -> (MinterState, Seq<ActionModel>) {
    let nft = nft_action(s, s.next_index_to_mint.1, receiver);
    if payment > 0 {
        (
            after_index_minted(after_purchase(s, caller), s.next_index_to_mint.0 as int, draw),
            seq![nft, ActionModel::SendEgld { to: owner, amount: payment }],
        )
    } else {
        (after_index_minted(s, s.next_index_to_mint.0 as int, draw), seq![nft])
    }
}

/// Tokens minted one after the other, the `k`-th to `receivers[k]` with draw `draws[k]`.
pub open spec fn mint_many(
    s: MinterState,
    caller: Seq<u8>,
    owner: Seq<u8>,
    payment: u128,
    receivers: Seq<Seq<u8>>,
    draws: Seq<u32>,
) -> (MinterState, Seq<ActionModel>)
    decreases receivers.len(),
{
    if receivers.len() == 0 {
        (s, Seq::empty())
    } else {
        let (s1, a1) = mint_many(s, caller, owner, payment, receivers.drop_last(), draws);
        let (s2, a2) = mint_one(s1, caller, owner, payment, receivers.last(), draws[receivers.len() - 1]);
        (s2, a1 + a2)
    }
}

/// Why `mint` refuses, if it does.
pub open spec fn mint_refusal(
    s: MinterState,
    caller: Seq<u8>,
    caller_is_smart_contract: bool,
    payment: u128,
    has_create_role: bool,
    amount: u32,
) -> Option<MinterError> {
    if caller_is_smart_contract {
        Some(MinterError::OnlyUserAccount)
    } else if s.is_allowlist_enabled && !s.allowlist.contains(caller) {
        Some(MinterError::NotInAllowlist)
    } else if amount == 0 {
        Some(MinterError::ZeroMintAmount)
    } else if !is_issued(s) {
        Some(MinterError::TokenNotIssued)
    } else if !has_create_role {
        Some(MinterError::NftCreateRoleNotSet)
    } else if s.paused {
        Some(MinterError::MintingPaused)
    } else if current_left(s) < amount {
        Some(MinterError::NotEnoughTokensLeft)
    } else if !(room(s.tokens_limit_per_address_total, minted_by(s, caller)) > 0 && room(
        s.tokens_limit_per_address_total,
        minted_by(s, caller),
    ) >= amount) {
        Some(MinterError::AddressLimitReached)
    } else if drop_limits_apply(s) && !(room(
        s.tokens_limit_per_address_per_drop,
        minted_in_drop(s, caller),
    ) > 0 && room(s.tokens_limit_per_address_per_drop, minted_in_drop(s, caller)) >= amount) {
        Some(MinterError::DropAddressLimitReached)
    } else if payment != amount * s.selling_price {
        Some(MinterError::InvalidPayment)
    } else {
        None
    }
}

/// `n` times the same receiver.
pub open spec fn repeated(receiver: Seq<u8>, n: nat) -> Seq<Seq<u8>> {
    Seq::new(n, |i: int| receiver)
}

/// What an accepted `mint` does: `amount` tokens for the caller, each paid the selling price,
/// so that the owner receives the whole payment.
pub open spec fn mint_effect(
    s: MinterState,
    caller: Seq<u8>,
    owner: Seq<u8>,
    payment: u128,
    amount: u32,
    draws: Seq<u32>,
) -> (MinterState, Seq<ActionModel>) {
    mint_many(s, caller, owner, s.selling_price, repeated(caller, amount as nat), draws)
}

/// The receiver of a giveaway to `address`: the caller when `address` is all zeros.
pub open spec fn giveaway_receiver(address: Seq<u8>, caller: Seq<u8>) -> Seq<u8> {
    if address == zero_address() {
        caller
    } else {
        address
    }
}

/// The receivers of a giveaway: each address `amount` times, in order.
pub open spec fn giveaway_receivers(addresses: Seq<Seq<u8>>, amount: u32, caller: Seq<u8>) -> Seq<Seq<u8>> {
    Seq::new(
        addresses.len() * amount as nat,
        |n: int| giveaway_receiver(addresses[n / (amount as int)], caller),
    )
}

/// Why `giveaway` refuses, if it does.
pub open spec fn giveaway_refusal(
    s: MinterState,
    caller: Seq<u8>,
    owner: Seq<u8>,
    has_create_role: bool,
    addresses: Seq<Seq<u8>>,
    amount: u32,
) -> Option<MinterError> {
    if caller != owner {
        Some(MinterError::OnlyOwner)
    } else if !is_issued(s) {
        Some(MinterError::TokenNotIssued)
    } else if !has_create_role {
        Some(MinterError::NftCreateRoleNotSet)
    } else if current_left(s) < amount * addresses.len() {
        Some(MinterError::NotEnoughTokensLeft)
    } else {
        None
    }
}

/// Minting pauses itself when a check finds no token left.
pub open spec fn paused_if_exhausted(s: MinterState) -> MinterState {
    if current_left(s) == 0 {
        MinterState { paused: true, ..s }
    } else {
        s
    }
}

/// What an accepted `giveaway` does: free tokens, `amount` for each address.
pub open spec fn giveaway_effect(
    s: MinterState,
    caller: Seq<u8>,
    owner: Seq<u8>,
    addresses: Seq<Seq<u8>>,
    amount: u32,
    draws: Seq<u32>,
) -> (MinterState, Seq<ActionModel>) {
    mint_many(
        paused_if_exhausted(s),
        caller,
        owner,
        0,
        giveaway_receivers(addresses, amount, caller),
        draws,
    )
}

/// Why `shuffle` refuses, if it does.
pub open spec fn shuffle_refusal(s: MinterState, caller_is_smart_contract: bool) -> Option<MinterError> {
    if caller_is_smart_contract {
        Some(MinterError::OnlyUserAccount)
    } else if !is_issued(s) {
        Some(MinterError::TokenNotIssued)
    } else if s.tokens_left_to_mint.len() == 0 {
        Some(MinterError::NothingToShuffle)
    } else {
        None
    }
}

/// Storage after `init`: each value is set only where the storage is still empty.
pub open spec fn init_effect(
    s: MinterState,
    image_base_cid: Seq<u8>,
    metadata_base_cid: Seq<u8>,
    amount_of_tokens: u32,
    tokens_limit_per_address: u32,
    royalties: u128,
    selling_price: u128,
    file_extension: Option<Seq<u8>>,
    tags: Option<Seq<u8>>,
    provenance_hash: Option<Seq<u8>>,
    is_metadata_in_uris: Option<bool>,
) -> MinterState {
    MinterState {
        image_base_cid: if s.image_base_cid.len() == 0 { image_base_cid } else { s.image_base_cid },
        metadata_base_cid: if s.metadata_base_cid.len() == 0 {
            metadata_base_cid
        } else {
            s.metadata_base_cid
        },
        amount_of_tokens_total: if s.amount_of_tokens_total == 0 {
            amount_of_tokens
        } else {
            s.amount_of_tokens_total
        },
        tokens_limit_per_address_total: if s.tokens_limit_per_address_total == 0 {
            tokens_limit_per_address
        } else {
            s.tokens_limit_per_address_total
        },
        provenance_hash: if s.provenance_hash.len() == 0 {
            match provenance_hash {
                Some(h) => h,
                None => Seq::empty(),
            }
        } else {
            s.provenance_hash
        },
        royalties: if s.royalties == 0 { royalties } else { s.royalties },
        selling_price: if s.selling_price == 0 { selling_price } else { s.selling_price },
        tags: if s.tags.len() == 0 {
            match tags {
                Some(t) => t,
                None => Seq::empty(),
            }
        } else {
            s.tags
        },
        file_extension: if s.file_extension.len() == 0 {
            match file_extension {
                Some(e) => e,
                None => spec_default_img_file_extension(),
            }
        } else {
            s.file_extension
        },
        is_metadata_in_uris: s.is_metadata_in_uris || match is_metadata_in_uris {
            Some(b) => b,
            None => false,
        },
        paused: true,
        ..s
    }
}

/// Why `init` refuses, if it does.
pub open spec fn init_refusal(
    amount_of_tokens: u32,
    tokens_limit_per_address: u32,
    royalties: u128,
) -> Option<MinterError> {
    if royalties > ROYALTIES_MAX {
        Some(MinterError::RoyaltiesTooHigh)
    } else if amount_of_tokens < 1 {
        Some(MinterError::ZeroTokenSupply)
    } else if tokens_limit_per_address < 1 {
        Some(MinterError::ZeroTokensLimitPerAddress)
    } else {
        None
    }
}

/// The properties a list of [`NFTProperties`] asks for; adding special roles is always on.
pub open spec fn properties_of(list: Option<Seq<NFTProperties>>) -> TokenProperties {
    let asks = |p: NFTProperties| match list {
        Some(l) => l.contains(p),
        None => false,
    };
    TokenProperties {
        can_freeze: asks(NFTProperties::CanFreeze),
        can_wipe: asks(NFTProperties::CanWipe),
        can_pause: asks(NFTProperties::CanPause),
        can_transfer_create_role: asks(NFTProperties::CanTransferCreateRole),
        can_change_owner: asks(NFTProperties::CanChangeOwner),
        can_upgrade: asks(NFTProperties::CanUpgrade),
        can_add_special_roles: true,
    }
}


/// The receiver of one token: the caller, unless a giveaway address says otherwise.
pub open spec fn receiver_of(giveaway_address: Option<Seq<u8>>, caller: Seq<u8>) -> Seq<u8> {
    match giveaway_address {
        Some(a) => giveaway_receiver(a, caller),
        None => caller,
    }
}

/// Removing an entry from a pool without repetitions keeps the others, once each.
pub proof fn lemma_swap_remove(pool: Seq<u32>, position: int)
    requires
        1 <= position <= pool.len(),
        pool.no_duplicates(),
    ensures
        swap_remove(pool, position).len() == pool.len() - 1,
        swap_remove(pool, position).no_duplicates(),
        swap_remove(pool, position).to_set() == pool.to_set().remove(pool[position - 1]),
        forall|i: int|
            0 <= i < pool.len() - 1 ==> #[trigger] swap_remove(pool, position)[i] == if i == position - 1 {
                pool[pool.len() - 1]
            } else {
                pool[i]
            },
{
    let r = swap_remove(pool, position);
    let n = pool.len();
    assert forall|i: int| 0 <= i < n - 1 implies #[trigger] r[i] == if i == position - 1 {
        pool[n - 1]
    } else {
        pool[i]
    } by {}
    // the source position in `pool` of each entry of `r`
    let src = |i: int| if i == position - 1 { n - 1 } else { i };
    assert forall|i: int, j: int| 0 <= i < r.len() && 0 <= j < r.len() && i != j implies r[i] != r[j] by {
        assert(r[i] == pool[src(i)]);
        assert(r[j] == pool[src(j)]);
        assert(src(i) != src(j));
    }
    assert forall|x: u32| r.to_set().contains(x) <==> pool.to_set().remove(pool[position - 1]).contains(x) by {
        if r.to_set().contains(x) {
            assert(r.contains(x));
            let i = choose|i: int| 0 <= i < r.len() && r[i] == x;
            assert(r[i] == pool[src(i)]);
            assert(src(i) != position - 1);
            assert(pool.contains(x));
        }
        if pool.to_set().remove(pool[position - 1]).contains(x) {
            assert(pool.contains(x));
            let k = choose|k: int| 0 <= k < pool.len() && pool[k] == x;
            assert(k != position - 1);
            if k == n - 1 {
                assert(r[position - 1] == x);
            } else {
                assert(r[k] == x);
            }
            assert(r.contains(x));
        }
    }
    assert(r.to_set() =~= pool.to_set().remove(pool[position - 1]));
}

/// Refuses a caller other than the owner.
pub open spec fn owner_refusal(caller: Seq<u8>, owner: Seq<u8>) -> Option<MinterError> {
    if caller != owner {
        Some(MinterError::OnlyOwner)
    } else {
        None
    }
}

/// Refuses a caller other than the owner, then a collection not issued yet.
pub open spec fn issued_owner_refusal(s: MinterState, caller: Seq<u8>, owner: Seq<u8>) -> Option<MinterError> {
    if caller != owner {
        Some(MinterError::OnlyOwner)
    } else if !is_issued(s) {
        Some(MinterError::TokenNotIssued)
    } else {
        None
    }
}

/// Why `issue_token` refuses, if it does.
pub open spec fn issue_token_refusal(s: MinterState, caller: Seq<u8>, owner: Seq<u8>) -> Option<MinterError> {
    if caller != owner {
        Some(MinterError::OnlyOwner)
    } else if is_issued(s) {
        Some(MinterError::TokenAlreadyIssued)
    } else {
        None
    }
}

/// The names that `issue_token` records; the NFTs take the collection name when given none.
pub open spec fn issue_token_effect(
    s: MinterState,
    collection_token_name: Seq<u8>,
    is_not_number_in_name: bool,
    nft_token_name: Seq<u8>,
) -> MinterState {
    MinterState {
        no_number_in_nft_name: is_not_number_in_name,
        nft_token_name: if nft_token_name.len() == 0 { collection_token_name } else { nft_token_name },
        collection_token_name,
        ..s
    }
}

/// Why the callback of the issue request refuses, if it does.
pub open spec fn issue_callback_refusal(s: MinterState, outcome: IssueOutcomeModel) -> Option<MinterError> {
    match outcome {
        IssueOutcomeModel::IssuedEgld => Some(MinterError::EsdtExpected),
        IssueOutcomeModel::IssuedEsdt(token) => if s.tokens_left_to_mint.len() > 0 {
            Some(MinterError::LenAlreadySet)
        } else if token.len() == 0 {
            Some(MinterError::TokenNotIssued)
        } else if s.amount_of_tokens_total == 0 {
            Some(MinterError::NothingToShuffle)
        } else {
            None
        },
        IssueOutcomeModel::Failure => None,
    }
}

/// What an accepted callback does: record the token, fill the pool with `1..=total` and draw
/// the first index; or, when the issue failed, return the EGLD that came back to the owner.
pub open spec fn issue_callback_effect(
    s: MinterState,
    owner: Seq<u8>,
    outcome: IssueOutcomeModel,
    returned_is_egld: bool,
    returned_amount: u128,
    draw: u32,
) -> (MinterState, Seq<ActionModel>) {
    match outcome {
        IssueOutcomeModel::IssuedEsdt(token) => (
            shuffled(
                MinterState {
                    nft_token_id: token,
                    tokens_left_to_mint: initial_pool(s.amount_of_tokens_total),
                    ..s
                },
                draw,
            ),
            Seq::empty(),
        ),
        IssueOutcomeModel::IssuedEgld => (s, Seq::empty()),
        IssueOutcomeModel::Failure => (
            s,
            if returned_is_egld && returned_amount > 0 {
                seq![ActionModel::SendEgld { to: owner, amount: returned_amount }]
            } else {
                Seq::empty()
            },
        ),
    }
}

/// Why `set_drop` refuses, if it does.
pub open spec fn set_drop_refusal(
    s: MinterState,
    caller: Seq<u8>,
    owner: Seq<u8>,
    amount_of_tokens_per_drop: u32,
    tokens_limit_per_address_per_drop: Option<u32>,
) -> Option<MinterError> {
    if caller != owner {
        Some(MinterError::OnlyOwner)
    } else if amount_of_tokens_per_drop > total_left(s) {
        Some(MinterError::DropTooLarge)
    } else if match tokens_limit_per_address_per_drop {
        Some(l) => l,
        None => 0,
    } > s.tokens_limit_per_address_total {
        Some(MinterError::DropLimitAboveTotalLimit)
    } else if s.last_drop == u16::MAX {
        Some(MinterError::DropCounterFull)
    } else {
        None
    }
}

/// A new drop: its size, its per-address limit (the drop size when none is given), its
/// counter at zero and the next drop number.
pub open spec fn set_drop_effect(
    s: MinterState,
    amount_of_tokens_per_drop: u32,
    tokens_limit_per_address_per_drop: Option<u32>,
) -> MinterState {
    let limit = match tokens_limit_per_address_per_drop {
        Some(l) => l,
        None => 0,
    };
    MinterState {
        tokens_limit_per_address_per_drop: if limit > 0 { limit } else { amount_of_tokens_per_drop },
        minted_indexes_by_drop: 0,
        amount_of_tokens_per_drop,
        last_drop: (s.last_drop + 1) as u16,
        is_drop_active: true,
        ..s
    }
}

/// The drop is over: its size, counter and limit are cleared.
pub open spec fn unset_drop_effect(s: MinterState) -> MinterState {
    MinterState {
        minted_indexes_by_drop: 0,
        amount_of_tokens_per_drop: 0,
        tokens_limit_per_address_per_drop: 0,
        is_drop_active: false,
        ..s
    }
}

/// Why `change_base_cids` refuses, if it does.
pub open spec fn change_base_cids_refusal(s: MinterState, caller: Seq<u8>, owner: Seq<u8>) -> Option<MinterError> {
    if caller != owner {
        Some(MinterError::OnlyOwner)
    } else if s.minted_indexes_total != 0 {
        Some(MinterError::TokensAlreadyMinted)
    } else {
        None
    }
}

} // verus!

use vstd::prelude::*;

use crate::laws::{digits_value, law_decimal_reads_back};
use crate::model::{
    MinterState, change_base_cids_refusal, current_left, drop_left, drop_limits_apply, init_effect,
    issue_callback_effect, issued_owner_refusal, minted_by, minted_in_drop, total_left, giveaway_refusal, init_refusal, issue_callback_refusal,
    issue_token_effect, issue_token_refusal, mint_refusal, owner_refusal, paused_if_exhausted,
    properties_of, set_drop_effect, set_drop_refusal, shuffle_refusal, shuffled, unset_drop_effect,
    ROYALTIES_MAX,
};
use crate::text::{spec_attributes, spec_token_name, spec_uris};
use crate::types::{ActionModel, IssueOutcomeModel, MinterError, NFTProperties};

verus! {

// The laws below say, for each endpoint, on which inputs it is accepted and why it is refused
// otherwise, straight from the stored values: a count missing from a map reads as zero, the
// tokens left are those of the drop when a drop size is set and those of the collection else.

/// A mint is accepted exactly when the caller is a user account, is on the allowlist if it is
/// enabled, asks for at least one token of an issued collection while the contract holds the
/// create role and minting runs, the tokens asked for fit in the tokens left, in what the caller
/// may still buy in total and, while a drop is in force, in what it may still buy in this drop
/// (purchases of earlier drops do not count there), and the payment is the price of all of them.
/// Each refusal names the first of these conditions that fails, in this order.
pub proof fn law_mint_is_accepted_exactly_when(
    s: MinterState,
    caller: Seq<u8>,
    caller_is_smart_contract: bool,
    payment: u128,
    has_create_role: bool,
    amount: u32,
)
    ensures
        ({
            let r = mint_refusal(s, caller, caller_is_smart_contract, payment, has_create_role, amount);
            let bought: int = if s.minted_per_address_total.dom().contains(caller) {
                s.minted_per_address_total[caller] as int
            } else {
                0
            };
            let bought_in_drop: int = if s.minted_per_address_per_drop.dom().contains(
                (s.last_drop, caller),
            ) {
                s.minted_per_address_per_drop[(s.last_drop, caller)] as int
            } else {
                0
            };
            let left: int = if s.amount_of_tokens_per_drop > 0 {
                s.amount_of_tokens_per_drop - s.minted_indexes_by_drop
            } else {
                s.amount_of_tokens_total - s.minted_indexes_total
            };
            let user = !caller_is_smart_contract;
            let listed = s.is_allowlist_enabled ==> s.allowlist.contains(caller);
            let some = amount >= 1;
            let issued = s.nft_token_id.len() > 0;
            let running = !s.paused;
            let fits = amount <= left;
            let in_limit = bought + amount <= s.tokens_limit_per_address_total;
            let in_drop_limit = (s.is_drop_active && s.last_drop != 0) ==> bought_in_drop + amount
                <= s.tokens_limit_per_address_per_drop;
            let paid = payment == amount * s.selling_price;
            &&& (r is None) <==> (user && listed && some && issued && has_create_role && running
                && fits && in_limit && in_drop_limit && paid)
            &&& (r == Some(MinterError::OnlyUserAccount)) <==> !user
            &&& (r == Some(MinterError::NotInAllowlist)) <==> (user && !listed)
            &&& (r == Some(MinterError::ZeroMintAmount)) <==> (user && listed && !some)
            &&& (r == Some(MinterError::TokenNotIssued)) <==> (user && listed && some && !issued)
            &&& (r == Some(MinterError::NftCreateRoleNotSet)) <==> (user && listed && some && issued
                && !has_create_role)
            &&& (r == Some(MinterError::MintingPaused)) <==> (user && listed && some && issued
                && has_create_role && !running)
            &&& (r == Some(MinterError::NotEnoughTokensLeft)) <==> (user && listed && some && issued
                && has_create_role && running && !fits)
            &&& (r == Some(MinterError::AddressLimitReached)) <==> (user && listed && some && issued
                && has_create_role && running && fits && !in_limit)
            &&& (r == Some(MinterError::DropAddressLimitReached)) <==> (user && listed && some
                && issued && has_create_role && running && fits && in_limit && !in_drop_limit)
            &&& (r == Some(MinterError::InvalidPayment)) <==> (user && listed && some && issued
                && has_create_role && running && fits && in_limit && in_drop_limit && !paid)
        }),
{
}

/// A giveaway is accepted exactly when the owner asks for it, the collection is issued, the
/// contract holds the create role and the tokens given away fit in the tokens left; whether
/// minting is paused plays no part. Each refusal names the first condition that fails.
pub proof fn law_giveaway_is_accepted_exactly_when(
    s: MinterState,
    caller: Seq<u8>,
    owner: Seq<u8>,
    has_create_role: bool,
    addresses: Seq<Seq<u8>>,
    amount: u32,
)
    ensures
        ({
            let r = giveaway_refusal(s, caller, owner, has_create_role, addresses, amount);
            let left: int = if s.amount_of_tokens_per_drop > 0 {
                s.amount_of_tokens_per_drop - s.minted_indexes_by_drop
            } else {
                s.amount_of_tokens_total - s.minted_indexes_total
            };
            let by_owner = caller == owner;
            let issued = s.nft_token_id.len() > 0;
            let fits = addresses.len() * amount <= left;
            &&& (r is None) <==> (by_owner && issued && has_create_role && fits)
            &&& (r == Some(MinterError::OnlyOwner)) <==> !by_owner
            &&& (r == Some(MinterError::TokenNotIssued)) <==> (by_owner && !issued)
            &&& (r == Some(MinterError::NftCreateRoleNotSet)) <==> (by_owner && issued
                && !has_create_role)
            &&& (r == Some(MinterError::NotEnoughTokensLeft)) <==> (by_owner && issued
                && has_create_role && !fits)
            &&& r == giveaway_refusal(
                MinterState { paused: !s.paused, ..s },
                caller,
                owner,
                has_create_role,
                addresses,
                amount,
            )
        }),
{
    assert(amount * addresses.len() == addresses.len() * amount) by (nonlinear_arith);
}

/// Before a giveaway, minting is paused when nothing is left, and nothing else changes.
pub proof fn law_giveaway_pauses_only_when_nothing_is_left(s: MinterState)
    ensures
        ({
            let t = paused_if_exhausted(s);
            let left: int = if s.amount_of_tokens_per_drop > 0 {
                s.amount_of_tokens_per_drop - s.minted_indexes_by_drop
            } else {
                s.amount_of_tokens_total - s.minted_indexes_total
            };
            &&& t.paused == (s.paused || left == 0)
            &&& MinterState { paused: s.paused, ..t } == s
        }),
{
}

/// Each property asked for sets its own flag of the collection, and only that flag; adding
/// special roles is always asked for.
pub proof fn law_each_property_sets_its_own_flag(list: Option<Seq<NFTProperties>>)
    ensures
        ({
            let p = properties_of(list);
            let asked = |q: NFTProperties| list is Some && list->0.contains(q);
            &&& p.can_freeze == asked(NFTProperties::CanFreeze)
            &&& p.can_wipe == asked(NFTProperties::CanWipe)
            &&& p.can_pause == asked(NFTProperties::CanPause)
            &&& p.can_transfer_create_role == asked(NFTProperties::CanTransferCreateRole)
            &&& p.can_change_owner == asked(NFTProperties::CanChangeOwner)
            &&& p.can_upgrade == asked(NFTProperties::CanUpgrade)
            &&& p.can_add_special_roles
        }),
{
}

/// Issuing is accepted exactly when the owner asks before the collection is issued; it records
/// the collection name, the NFT name (the collection name when none is given) and whether NFT
/// names carry a number, and nothing else.
pub proof fn law_issue_token_records_the_names(
    s: MinterState,
    caller: Seq<u8>,
    owner: Seq<u8>,
    collection_token_name: Seq<u8>,
    is_not_number_in_name: bool,
    nft_token_name: Seq<u8>,
)
    ensures
        ({
            let r = issue_token_refusal(s, caller, owner);
            let t = issue_token_effect(s, collection_token_name, is_not_number_in_name, nft_token_name);
            &&& (r is None) <==> (caller == owner && s.nft_token_id.len() == 0)
            &&& (r == Some(MinterError::OnlyOwner)) <==> caller != owner
            &&& (r == Some(MinterError::TokenAlreadyIssued)) <==> (caller == owner
                && s.nft_token_id.len() > 0)
            &&& t.collection_token_name == collection_token_name
            &&& t.nft_token_name == (if nft_token_name.len() == 0 {
                collection_token_name
            } else {
                nft_token_name
            })
            &&& t.no_number_in_nft_name == is_not_number_in_name
            &&& MinterState {
                collection_token_name: s.collection_token_name,
                nft_token_name: s.nft_token_name,
                no_number_in_nft_name: s.no_number_in_nft_name,
                ..t
            } == s
        }),
{
}

/// A drop is opened exactly when the owner asks for one no larger than the tokens left in the
/// collection, with a per-address limit (none counts as zero) no higher than the limit per
/// address in total, while the drop counter can still grow. Each refusal names the first
/// condition that fails.
pub proof fn law_set_drop_is_accepted_exactly_when(
    s: MinterState,
    caller: Seq<u8>,
    owner: Seq<u8>,
    amount_of_tokens_per_drop: u32,
    tokens_limit_per_address_per_drop: Option<u32>,
)
    ensures
        ({
            let r = set_drop_refusal(
                s,
                caller,
                owner,
                amount_of_tokens_per_drop,
                tokens_limit_per_address_per_drop,
            );
            let limit: int = if tokens_limit_per_address_per_drop is Some {
                tokens_limit_per_address_per_drop->0 as int
            } else {
                0
            };
            let by_owner = caller == owner;
            let fits = amount_of_tokens_per_drop <= s.amount_of_tokens_total - s.minted_indexes_total;
            let in_limit = limit <= s.tokens_limit_per_address_total;
            let counter_room = s.last_drop < u16::MAX;
            &&& (r is None) <==> (by_owner && fits && in_limit && counter_room)
            &&& (r == Some(MinterError::OnlyOwner)) <==> !by_owner
            &&& (r == Some(MinterError::DropTooLarge)) <==> (by_owner && !fits)
            &&& (r == Some(MinterError::DropLimitAboveTotalLimit)) <==> (by_owner && fits
                && !in_limit)
            &&& (r == Some(MinterError::DropCounterFull)) <==> (by_owner && fits && in_limit
                && !counter_room)
        }),
{
}

/// A new drop has the size asked for, the per-address limit asked for (the drop size when none
/// or zero is given), nothing minted in it yet, the next drop number and the drop in force;
/// nothing else changes.
pub proof fn law_set_drop_opens_the_next_drop(
    s: MinterState,
    amount_of_tokens_per_drop: u32,
    tokens_limit_per_address_per_drop: Option<u32>,
)
    requires
        s.last_drop < u16::MAX,
    ensures
        ({
            let t = set_drop_effect(s, amount_of_tokens_per_drop, tokens_limit_per_address_per_drop);
            &&& t.amount_of_tokens_per_drop == amount_of_tokens_per_drop
            &&& t.tokens_limit_per_address_per_drop == match tokens_limit_per_address_per_drop {
                Some(l) => if l > 0 {
                    l
                } else {
                    amount_of_tokens_per_drop
                },
                None => amount_of_tokens_per_drop,
            }
            &&& t.minted_indexes_by_drop == 0
            &&& t.last_drop == s.last_drop + 1
            &&& t.is_drop_active
            &&& MinterState {
                amount_of_tokens_per_drop: s.amount_of_tokens_per_drop,
                tokens_limit_per_address_per_drop: s.tokens_limit_per_address_per_drop,
                minted_indexes_by_drop: s.minted_indexes_by_drop,
                last_drop: s.last_drop,
                is_drop_active: s.is_drop_active,
                ..t
            } == s
        }),
{
}

/// Ending a drop clears its size, its counter and its per-address limit and takes it out of
/// force; the drop number and the purchases of past drops stay.
pub proof fn law_unset_drop_ends_the_drop(s: MinterState)
    ensures
        ({
            let t = unset_drop_effect(s);
            &&& t.amount_of_tokens_per_drop == 0
            &&& t.minted_indexes_by_drop == 0
            &&& t.tokens_limit_per_address_per_drop == 0
            &&& !t.is_drop_active
            &&& MinterState {
                amount_of_tokens_per_drop: s.amount_of_tokens_per_drop,
                tokens_limit_per_address_per_drop: s.tokens_limit_per_address_per_drop,
                minted_indexes_by_drop: s.minted_indexes_by_drop,
                is_drop_active: s.is_drop_active,
                ..t
            } == s
        }),
{
}

/// The CIDs can be changed exactly when the owner asks and no token has been minted yet;
/// whether minting is paused plays no part.
pub proof fn law_cids_change_exactly_before_minting(s: MinterState, caller: Seq<u8>, owner: Seq<u8>)
    ensures
        ({
            let r = change_base_cids_refusal(s, caller, owner);
            &&& (r is None) <==> (caller == owner && s.minted_indexes_total == 0)
            &&& (r == Some(MinterError::OnlyOwner)) <==> caller != owner
            &&& (r == Some(MinterError::TokensAlreadyMinted)) <==> (caller == owner
                && s.minted_indexes_total != 0)
        }),
{
}

/// The owner endpoints that only set a value are refused exactly for a caller other than the
/// owner.
pub proof fn law_owner_setters_refuse_only_others(caller: Seq<u8>, owner: Seq<u8>)
    ensures
        (owner_refusal(caller, owner) is None) <==> caller == owner,
        (owner_refusal(caller, owner) == Some(MinterError::OnlyOwner)) <==> caller != owner,
{
}

/// A new draw is refused exactly for a contract caller, before the collection is issued or with
/// an empty pool; it points at pool position `1 + draw % len` and its entry, and changes
/// nothing else.
pub proof fn law_shuffle_draws_a_position(s: MinterState, caller_is_smart_contract: bool, draw: u32)
    ensures
        ({
            let r = shuffle_refusal(s, caller_is_smart_contract);
            let len = s.tokens_left_to_mint.len();
            &&& (r is None) <==> (!caller_is_smart_contract && s.nft_token_id.len() > 0 && len > 0)
            &&& (r == Some(MinterError::OnlyUserAccount)) <==> caller_is_smart_contract
            &&& (r == Some(MinterError::TokenNotIssued)) <==> (!caller_is_smart_contract
                && s.nft_token_id.len() == 0)
            &&& (r == Some(MinterError::NothingToShuffle)) <==> (!caller_is_smart_contract
                && s.nft_token_id.len() > 0 && len == 0)
            &&& 0 < len <= usize::MAX ==> {
                let t = shuffled(s, draw);
                let p = 1 + (draw as int) % (len as int);
                &&& t.next_index_to_mint.0 == p
                &&& t.next_index_to_mint.1 == s.tokens_left_to_mint[p - 1]
                &&& MinterState { next_index_to_mint: s.next_index_to_mint, ..t } == s
            }
        }),
{
    let len = s.tokens_left_to_mint.len();
    if 0 < len <= usize::MAX {
        let t = shuffled(s, draw);
        assert(MinterState { next_index_to_mint: s.next_index_to_mint, ..t } =~= s);
    }
}

/// Setting up is refused exactly for royalties above 100%, then a supply of zero, then a
/// per-address limit of zero.
pub proof fn law_init_is_accepted_exactly_when(
    amount_of_tokens: u32,
    tokens_limit_per_address: u32,
    royalties: u128,
)
    ensures
        ({
            let r = init_refusal(amount_of_tokens, tokens_limit_per_address, royalties);
            &&& (r is None) <==> (royalties <= 10000 && amount_of_tokens >= 1
                && tokens_limit_per_address >= 1)
            &&& (r == Some(MinterError::RoyaltiesTooHigh)) <==> royalties > 10000
            &&& (r == Some(MinterError::ZeroTokenSupply)) <==> (royalties <= 10000
                && amount_of_tokens == 0)
            &&& (r == Some(MinterError::ZeroTokensLimitPerAddress)) <==> (royalties <= 10000
                && amount_of_tokens >= 1 && tokens_limit_per_address == 0)
            &&& ROYALTIES_MAX == 10000
        }),
{
}

/// The answer to the issue request: an EGLD token is refused; an ESDT is accepted exactly when
/// the pool is still empty, the token has a name and the supply is not zero; a failed issue is
/// always accepted.
pub proof fn law_issue_callback_is_accepted_exactly_when(s: MinterState, outcome: IssueOutcomeModel)
    ensures
        ({
            let r = issue_callback_refusal(s, outcome);
            &&& outcome is IssuedEgld ==> r == Some(MinterError::EsdtExpected)
            &&& outcome is Failure ==> r is None
            &&& outcome matches IssueOutcomeModel::IssuedEsdt(token) ==> {
                &&& (r is None) <==> (s.tokens_left_to_mint.len() == 0 && token.len() > 0
                    && s.amount_of_tokens_total > 0)
                &&& (r == Some(MinterError::LenAlreadySet)) <==> s.tokens_left_to_mint.len() > 0
                &&& (r == Some(MinterError::TokenNotIssued)) <==> (s.tokens_left_to_mint.len()
                    == 0 && token.len() == 0)
                &&& (r == Some(MinterError::NothingToShuffle)) <==> (s.tokens_left_to_mint.len()
                    == 0 && token.len() > 0 && s.amount_of_tokens_total == 0)
            }
        }),
{
}

/// The counts the endpoints go by: the tokens left in the collection and in the drop, the
/// tokens left now (those of the drop when a drop size is set), what an address bought in total
/// and in the current drop (zero when nothing is recorded), and when the per-drop rules apply.
pub proof fn law_counts_read_the_storage(s: MinterState, a: Seq<u8>)
    ensures
        total_left(s) == s.amount_of_tokens_total - s.minted_indexes_total,
        drop_left(s) == s.amount_of_tokens_per_drop - s.minted_indexes_by_drop,
        current_left(s) == if s.amount_of_tokens_per_drop > 0 {
            drop_left(s)
        } else {
            total_left(s)
        },
        minted_by(s, a) == if s.minted_per_address_total.dom().contains(a) {
            s.minted_per_address_total[a]
        } else {
            0
        },
        minted_in_drop(s, a) == if s.minted_per_address_per_drop.dom().contains((s.last_drop, a)) {
            s.minted_per_address_per_drop[(s.last_drop, a)]
        } else {
            0
        },
        drop_limits_apply(s) == (s.is_drop_active && s.last_drop != 0),
{
}

/// Asking for the create role is refused exactly for a caller other than the owner, then before
/// the collection is issued.
pub proof fn law_set_local_roles_is_accepted_exactly_when(s: MinterState, caller: Seq<u8>, owner: Seq<u8>)
    ensures
        ({
            let r = issued_owner_refusal(s, caller, owner);
            &&& (r is None) <==> (caller == owner && s.nft_token_id.len() > 0)
            &&& (r == Some(MinterError::OnlyOwner)) <==> caller != owner
            &&& (r == Some(MinterError::TokenNotIssued)) <==> (caller == owner
                && s.nft_token_id.len() == 0)
        }),
{
}

/// Setting up writes each value only where the storage is still empty (zero, or no bytes),
/// uses `.png` when no file extension is given and none is stored, sets the metadata flag when
/// asked, and leaves minting paused; nothing else changes.
pub proof fn law_init_writes_only_empty_values(
    s: MinterState,
    image_base_cid: Seq<u8>,
    metadata_base_cid: Seq<u8>,
    amount_of_tokens: u32,
    tokens_limit_per_address: u32,
    royalties: u128,
    selling_price: u128,
    file_extension: Option<Seq<u8>>,
    tags: Option<Seq<u8>>,
    provenance_hash: Option<Seq<u8>>,
    is_metadata_in_uris: Option<bool>,
)
    ensures
        ({
            let t = init_effect(
                s,
                image_base_cid,
                metadata_base_cid,
                amount_of_tokens,
                tokens_limit_per_address,
                royalties,
                selling_price,
                file_extension,
                tags,
                provenance_hash,
                is_metadata_in_uris,
            );
            &&& t.image_base_cid == if s.image_base_cid.len() == 0 {
                image_base_cid
            } else {
                s.image_base_cid
            }
            &&& t.metadata_base_cid == if s.metadata_base_cid.len() == 0 {
                metadata_base_cid
            } else {
                s.metadata_base_cid
            }
            &&& t.amount_of_tokens_total == if s.amount_of_tokens_total == 0 {
                amount_of_tokens
            } else {
                s.amount_of_tokens_total
            }
            &&& t.tokens_limit_per_address_total == if s.tokens_limit_per_address_total == 0 {
                tokens_limit_per_address
            } else {
                s.tokens_limit_per_address_total
            }
            &&& t.royalties == if s.royalties == 0 {
                royalties
            } else {
                s.royalties
            }
            &&& t.selling_price == if s.selling_price == 0 {
                selling_price
            } else {
                s.selling_price
            }
            &&& s.file_extension.len() > 0 ==> t.file_extension == s.file_extension
            &&& s.file_extension.len() == 0 && file_extension is None ==> t.file_extension
                == seq![46u8, 112u8, 110u8, 103u8]
            &&& s.file_extension.len() == 0 && file_extension is Some ==> t.file_extension
                == file_extension->0
            &&& s.tags.len() > 0 ==> t.tags == s.tags
            &&& s.tags.len() == 0 && tags is Some ==> t.tags == tags->0
            &&& s.provenance_hash.len() > 0 ==> t.provenance_hash == s.provenance_hash
            &&& s.provenance_hash.len() == 0 && provenance_hash is Some ==> t.provenance_hash
                == provenance_hash->0
            &&& t.is_metadata_in_uris == (s.is_metadata_in_uris || is_metadata_in_uris == Some(
                true,
            ))
            &&& t.paused
            &&& t.nft_token_id == s.nft_token_id
            &&& t.minted_indexes_total == s.minted_indexes_total
            &&& t.tokens_left_to_mint == s.tokens_left_to_mint
            &&& t.minted_per_address_total == s.minted_per_address_total
            &&& t.allowlist == s.allowlist
        }),
{
}

/// An accepted answer with an ESDT records the token, fills the pool with `1, 2, ..., supply`
/// and points at position `1 + draw % supply` and its index, asking for nothing; an EGLD answer
/// changes nothing; a failed issue changes nothing and sends the owner what came back when it is
/// EGLD and not zero.
pub proof fn law_issue_callback_does(
    s: MinterState,
    owner: Seq<u8>,
    outcome: IssueOutcomeModel,
    returned_is_egld: bool,
    returned_amount: u128,
    draw: u32,
)
    requires
        issue_callback_refusal(s, outcome) is None,
    ensures
        ({
            let (t, actions) = issue_callback_effect(
                s,
                owner,
                outcome,
                returned_is_egld,
                returned_amount,
                draw,
            );
            let n = s.amount_of_tokens_total;
            &&& outcome matches IssueOutcomeModel::IssuedEsdt(token) ==> {
                let p = 1 + (draw as int) % (n as int);
                &&& t.nft_token_id == token
                &&& t.tokens_left_to_mint.len() == n
                &&& forall|i: int| 0 <= i < n ==> #[trigger] t.tokens_left_to_mint[i] == i + 1
                &&& t.next_index_to_mint.0 == p
                &&& t.next_index_to_mint.1 == p
                &&& actions.len() == 0
                &&& MinterState {
                    nft_token_id: s.nft_token_id,
                    tokens_left_to_mint: s.tokens_left_to_mint,
                    next_index_to_mint: s.next_index_to_mint,
                    ..t
                } == s
            }
            &&& outcome is Failure ==> {
                &&& t == s
                &&& actions == if returned_is_egld && returned_amount > 0 {
                    seq![ActionModel::SendEgld { to: owner, amount: returned_amount }]
                } else {
                    Seq::empty()
                }
            }
        }),
{
    if let IssueOutcomeModel::IssuedEsdt(token) = outcome {
        let (t, actions) = issue_callback_effect(
            s,
            owner,
            outcome,
            returned_is_egld,
            returned_amount,
            draw,
        );
        assert(MinterState {
            nft_token_id: s.nft_token_id,
            tokens_left_to_mint: s.tokens_left_to_mint,
            next_index_to_mint: s.next_index_to_mint,
            ..t
        } =~= s);
    }
}

/// The name of an NFT is the base name, then ` #` and the index in decimal digits unless names
/// carry no number; its attributes are `tags:`, the tags, `;metadata:`, the metadata CID, `/`,
/// the index and `.json`; its URIs are the image on the IPFS gateway (CID, `/`, index, file
/// extension), then, when asked for, the metadata file there. The index is written in decimal
/// digits that read back as the index.
pub proof fn law_nft_texts(
    base: Seq<u8>,
    no_number: bool,
    tags: Seq<u8>,
    image_cid: Seq<u8>,
    metadata_cid: Seq<u8>,
    file_extension: Seq<u8>,
    metadata_in_uris: bool,
    index: u32,
)
    ensures
        ({
            let gateway = seq![104u8, 116u8, 116u8, 112u8, 115u8, 58u8, 47u8, 47u8, 105u8, 112u8,
                102u8, 115u8, 46u8, 105u8, 111u8, 47u8, 105u8, 112u8, 102u8, 115u8, 47u8];
            let json = seq![46u8, 106u8, 115u8, 111u8, 110u8];
            let slash = seq![47u8];
            let number = crate::text::decimal(index as nat);
            let image = gateway + image_cid + slash + number + file_extension;
            let metadata = gateway + metadata_cid + slash + number + json;
            &&& digits_value(number) == index
            &&& no_number ==> spec_token_name(base, no_number, index) == base
            &&& !no_number ==> spec_token_name(base, no_number, index) == base + seq![32u8, 35u8]
                + number
            &&& spec_attributes(tags, metadata_cid, index) == seq![116u8, 97u8, 103u8, 115u8, 58u8]
                + tags + seq![59u8] + seq![109u8, 101u8, 116u8, 97u8, 100u8, 97u8, 116u8, 97u8, 58u8]
                + metadata_cid + slash + number + json
            &&& spec_uris(image_cid, metadata_cid, file_extension, metadata_in_uris, index) == if metadata_in_uris {
                seq![image, metadata]
            } else {
                seq![image]
            }
        }),
{
    law_decimal_reads_back(index as nat);
}

} // verus!

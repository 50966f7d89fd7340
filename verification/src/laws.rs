use vstd::prelude::*;

use crate::model::{
    MinterState, after_index_minted, after_purchase, change_base_cids_refusal,
    current_left, drop_left, drop_limits_apply, giveaway_effect, giveaway_receivers,
    giveaway_refusal, initial_pool, is_issued, issue_callback_effect, issue_callback_refusal,
    lemma_swap_remove, mint_effect, mint_many, mint_one, mint_refusal, minted_by, minted_in_drop,
    nft_action, paused_if_exhausted, pick_position, pool, repeated, set_drop_effect,
    set_drop_refusal, shuffle_refusal, shuffled, storage_invariant, swap_remove, total_left,
};
use crate::text::decimal;
use crate::types::IssueOutcomeModel;
use crate::types::ActionModel;

verus! {

/// The collection indexes of the NFTs that a list of actions creates, in order.
pub open spec fn minted_indexes(actions: Seq<ActionModel>) -> Seq<u32>
    decreases actions.len(),
{
    if actions.len() == 0 {
        Seq::empty()
    } else {
        let rest = minted_indexes(actions.drop_last());
        match actions.last() {
            ActionModel::CreateAndSendNft { index, .. } => rest.push(index),
            _ => rest,
        }
    }
}

/// The receivers of the NFTs that a list of actions creates, in order.
pub open spec fn nft_receivers(actions: Seq<ActionModel>) -> Seq<Seq<u8>>
    decreases actions.len(),
{
    if actions.len() == 0 {
        Seq::empty()
    } else {
        let rest = nft_receivers(actions.drop_last());
        match actions.last() {
            ActionModel::CreateAndSendNft { receiver, .. } => rest.push(receiver),
            _ => rest,
        }
    }
}

/// The EGLD that a list of actions sends to `to`.
pub open spec fn egld_sent_to(actions: Seq<ActionModel>, to: Seq<u8>) -> int
    decreases actions.len(),
{
    if actions.len() == 0 {
        0
    } else {
        egld_sent_to(actions.drop_last(), to) + match actions.last() {
            ActionModel::SendEgld { to: t, amount } => if t == to {
                amount as int
            } else {
                0
            },
            _ => 0,
        }
    }
}

/// The settings that minting leaves alone.
pub open spec fn same_settings(s: MinterState, t: MinterState) -> bool {
    &&& t.nft_token_id == s.nft_token_id
    &&& t.collection_token_name == s.collection_token_name
    &&& t.nft_token_name == s.nft_token_name
    &&& t.selling_price == s.selling_price
    &&& t.provenance_hash == s.provenance_hash
    &&& t.tokens_limit_per_address_total == s.tokens_limit_per_address_total
    &&& t.tokens_limit_per_address_per_drop == s.tokens_limit_per_address_per_drop
    &&& t.is_allowlist_enabled == s.is_allowlist_enabled
    &&& t.is_drop_active == s.is_drop_active
    &&& t.amount_of_tokens_total == s.amount_of_tokens_total
    &&& t.paused == s.paused
    &&& t.amount_of_tokens_per_drop == s.amount_of_tokens_per_drop
    &&& t.last_drop == s.last_drop
    &&& t.allowlist == s.allowlist
    &&& t.image_base_cid == s.image_base_cid
    &&& t.metadata_base_cid == s.metadata_base_cid
    &&& t.file_extension == s.file_extension
    &&& t.royalties == s.royalties
    &&& t.tags == s.tags
    &&& t.is_metadata_in_uris == s.is_metadata_in_uris
    &&& t.no_number_in_nft_name == s.no_number_in_nft_name
}

/// The settings that an NFT is made from.
pub open spec fn same_nft_settings(s: MinterState, t: MinterState) -> bool {
    &&& t.nft_token_id == s.nft_token_id
    &&& t.nft_token_name == s.nft_token_name
    &&& t.no_number_in_nft_name == s.no_number_in_nft_name
    &&& t.royalties == s.royalties
    &&& t.tags == s.tags
    &&& t.image_base_cid == s.image_base_cid
    &&& t.metadata_base_cid == s.metadata_base_cid
    &&& t.file_extension == s.file_extension
    &&& t.is_metadata_in_uris == s.is_metadata_in_uris
}

/// An NFT action creates the NFT of its own index under the settings of `s`: the collection
/// token, the name, royalties, attributes and URIs of that index. Other actions pass.
pub open spec fn nft_made_as_in(s: MinterState, a: ActionModel) -> bool {
    match a {
        ActionModel::CreateAndSendNft { index, receiver, .. } => a == nft_action(s, index, receiver),
        _ => true,
    }
}

/// Every NFT that the actions create is the NFT of its own index under the settings of `s`.
pub open spec fn nfts_made_as_in(s: MinterState, actions: Seq<ActionModel>) -> bool {
    forall|k: int| 0 <= k < actions.len() ==> nft_made_as_in(s, #[trigger] actions[k])
}

proof fn lemma_nfts_made_concat(s: MinterState, a: Seq<ActionModel>, b: Seq<ActionModel>)
    requires
        nfts_made_as_in(s, a),
        nfts_made_as_in(s, b),
    ensures
        nfts_made_as_in(s, a + b),
{
    assert forall|k: int| 0 <= k < (a + b).len() implies nft_made_as_in(s, #[trigger] (a + b)[k]) by {
        if k < a.len() {
            assert((a + b)[k] == a[k]);
        } else {
            assert((a + b)[k] == b[k - a.len()]);
        }
    }
}

proof fn lemma_nfts_made_same(s: MinterState, t: MinterState, a: Seq<ActionModel>)
    requires
        nfts_made_as_in(t, a),
        same_nft_settings(s, t),
    ensures
        nfts_made_as_in(s, a),
{
    assert forall|k: int| 0 <= k < a.len() implies nft_made_as_in(s, #[trigger] a[k]) by {
        assert(nft_made_as_in(t, a[k]));
    }
}

proof fn lemma_concat(a: Seq<ActionModel>, b: Seq<ActionModel>, to: Seq<u8>)
    ensures
        minted_indexes(a + b) == minted_indexes(a) + minted_indexes(b),
        nft_receivers(a + b) == nft_receivers(a) + nft_receivers(b),
        egld_sent_to(a + b, to) == egld_sent_to(a, to) + egld_sent_to(b, to),
    decreases b.len(),
{
    if b.len() == 0 {
        assert(a + b =~= a);
        assert(minted_indexes(a) + minted_indexes(b) =~= minted_indexes(a));
        assert(nft_receivers(a) + nft_receivers(b) =~= nft_receivers(a));
    } else {
        lemma_concat(a, b.drop_last(), to);
        assert((a + b).drop_last() =~= a + b.drop_last());
        assert((a + b).last() == b.last());
        assert(minted_indexes(a + b) =~= minted_indexes(a) + minted_indexes(b));
        assert(nft_receivers(a + b) =~= nft_receivers(a) + nft_receivers(b));
    }
}

/// One token minted from a sound storage: its index leaves the pool and the storage stays sound.
proof fn lemma_mint_one(
    s: MinterState,
    caller: Seq<u8>,
    owner: Seq<u8>,
    payment: u128,
    receiver: Seq<u8>,
    draw: u32,
)
    requires
        storage_invariant(s),
        is_issued(s),
        total_left(s) >= 1,
        s.amount_of_tokens_per_drop > 0 ==> drop_left(s) >= 1,
        payment > 0 ==> minted_by(s, caller) < u32::MAX,
        payment > 0 && drop_limits_apply(s) ==> minted_in_drop(s, caller) < u32::MAX,
    ensures
        storage_invariant(mint_one(s, caller, owner, payment, receiver, draw).0),
        is_issued(mint_one(s, caller, owner, payment, receiver, draw).0),
        same_settings(s, mint_one(s, caller, owner, payment, receiver, draw).0),
        pool(s).contains(s.next_index_to_mint.1),
        pool(mint_one(s, caller, owner, payment, receiver, draw).0) == pool(s).remove(
            s.next_index_to_mint.1,
        ),
        minted_indexes(mint_one(s, caller, owner, payment, receiver, draw).1) == seq![
            s.next_index_to_mint.1,
        ],
        nft_receivers(mint_one(s, caller, owner, payment, receiver, draw).1) == seq![receiver],
        nfts_made_as_in(s, mint_one(s, caller, owner, payment, receiver, draw).1),
        egld_sent_to(mint_one(s, caller, owner, payment, receiver, draw).1, owner) == payment,
        payment == 0 ==> forall|to: Seq<u8>|
            egld_sent_to(#[trigger] mint_one(s, caller, owner, payment, receiver, draw).1, to) == 0,
        mint_one(s, caller, owner, payment, receiver, draw).0.minted_indexes_total
            == s.minted_indexes_total + 1,
        mint_one(s, caller, owner, payment, receiver, draw).0.minted_indexes_by_drop
            == s.minted_indexes_by_drop + if s.amount_of_tokens_per_drop > 0 {
            1int
        } else {
            0
        },
        minted_by(mint_one(s, caller, owner, payment, receiver, draw).0, caller) == minted_by(
            s,
            caller,
        ) + if payment > 0 {
            1int
        } else {
            0
        },
        minted_in_drop(mint_one(s, caller, owner, payment, receiver, draw).0, caller)
            == minted_in_drop(s, caller) + if payment > 0 && drop_limits_apply(s) {
            1int
        } else {
            0
        },
        payment == 0 ==> mint_one(s, caller, owner, payment, receiver, draw).0.minted_per_address_total
            == s.minted_per_address_total,
        payment == 0 ==> mint_one(s, caller, owner, payment, receiver, draw).0.minted_per_address_per_drop
            == s.minted_per_address_per_drop,
{
    let s1 = if payment > 0 { after_purchase(s, caller) } else { s };
    let s2 = mint_one(s, caller, owner, payment, receiver, draw).0;
    let a = mint_one(s, caller, owner, payment, receiver, draw).1;
    assert(s2 == after_index_minted(s1, s.next_index_to_mint.0 as int, draw));
    let uid = s.tokens_left_to_mint;
    let p = s.next_index_to_mint.0 as int;
    let id = s.next_index_to_mint.1;
    assert(uid.contains(id)) by {
        assert(uid[p - 1] == id);
    }
    assert(pool(s).contains(id));
    // the pool, the purchase counters' keys and the settings are untouched by the purchase
    assert(storage_invariant(s1)) by {
        if payment > 0 && drop_limits_apply(s) {
            assert forall|k: (u16, Seq<u8>)|
                #![trigger s1.minted_per_address_per_drop.dom().contains(k)]
                s1.minted_per_address_per_drop.dom().contains(k) implies k.0 <= s1.last_drop by {
                if k != (s.last_drop, caller) {
                    assert(s.minted_per_address_per_drop.dom().contains(k));
                }
            }
        }
    }
    if total_left(s) > 1 {
        lemma_swap_remove(uid, p);
        let uid2 = s2.tokens_left_to_mint;
        assert(uid2 == swap_remove(uid, p));
        assert forall|i: int| 0 <= i < uid2.len() implies 1 <= #[trigger] uid2[i]
            <= s2.amount_of_tokens_total by {
            if i == p - 1 {
                assert(uid2[i] == uid[uid.len() - 1]);
            } else {
                assert(uid2[i] == uid[i]);
            }
        }
        assert(pool(s2) == uid2.to_set());
    } else {
        assert(uid.len() == 1);
        assert(p == 1);
        assert(pool(s2) =~= Set::<u32>::empty());
        assert(pool(s) =~= set![id]) by {
            assert forall|x: u32| pool(s).contains(x) <==> x == id by {
                if uid.contains(x) {
                    let k = choose|k: int| 0 <= k < uid.len() && uid[k] == x;
                    assert(k == 0);
                }
            }
        }
        assert(pool(s).remove(id) =~= Set::<u32>::empty());
    }
    let nft = nft_action(s, id, receiver);
    assert(a[0] == nft);
    assert(minted_indexes(Seq::<ActionModel>::empty()) == Seq::<u32>::empty());
    assert(nft_receivers(Seq::<ActionModel>::empty()) == Seq::<Seq<u8>>::empty());
    assert(egld_sent_to(Seq::<ActionModel>::empty(), owner) == 0);
    assert(seq![nft].drop_last() =~= Seq::<ActionModel>::empty());
    assert(minted_indexes(seq![nft]) =~= seq![id]);
    assert(nft_receivers(seq![nft]) =~= seq![receiver]);
    assert(egld_sent_to(seq![nft], owner) == 0);
    assert forall|to: Seq<u8>| #[trigger] egld_sent_to(seq![nft], to) == 0 by {
        assert(egld_sent_to(Seq::<ActionModel>::empty(), to) == 0);
    }
    assert(nft_made_as_in(s, nft));
    if payment > 0 {
        let pay = ActionModel::SendEgld { to: owner, amount: payment };
        assert(a =~= seq![nft, pay]);
        assert(nft_made_as_in(s, pay));
        assert(a.drop_last() =~= seq![nft]);
        assert(minted_indexes(a) =~= seq![id]);
        assert(nft_receivers(a) =~= seq![receiver]);
    } else {
        assert(a =~= seq![nft]);
    }
}

#[verifier::rlimit(40)]
/// Tokens minted one after the other from a sound storage, as long as tokens are left: each
/// takes a distinct index out of the pool, goes to its receiver, and the storage stays sound.
pub proof fn lemma_mint_many(
    s: MinterState,
    caller: Seq<u8>,
    owner: Seq<u8>,
    payment: u128,
    receivers: Seq<Seq<u8>>,
    draws: Seq<u32>,
)
    requires
        storage_invariant(s),
        is_issued(s),
        receivers.len() <= total_left(s),
        s.amount_of_tokens_per_drop > 0 ==> receivers.len() <= drop_left(s),
        payment > 0 ==> minted_by(s, caller) + receivers.len() <= u32::MAX,
        payment > 0 && drop_limits_apply(s) ==> minted_in_drop(s, caller) + receivers.len()
            <= u32::MAX,
    ensures
        ({
            let (t, actions) = mint_many(s, caller, owner, payment, receivers, draws);
            let ids = minted_indexes(actions);
            &&& storage_invariant(t)
            &&& is_issued(t)
            &&& same_settings(s, t)
            &&& ids.len() == receivers.len()
            &&& ids.no_duplicates()
            &&& forall|i: int| 0 <= i < ids.len() ==> pool(s).contains(#[trigger] ids[i])
            &&& pool(t) == pool(s).difference(ids.to_set())
            &&& nft_receivers(actions) == receivers
            &&& nfts_made_as_in(s, actions)
            &&& egld_sent_to(actions, owner) == receivers.len() * payment
            &&& payment == 0 ==> forall|to: Seq<u8>| #[trigger] egld_sent_to(actions, to) == 0
            &&& t.minted_indexes_total == s.minted_indexes_total + receivers.len()
            &&& t.minted_indexes_by_drop == s.minted_indexes_by_drop + if s.amount_of_tokens_per_drop
                > 0 {
                receivers.len() as int
            } else {
                0
            }
            &&& minted_by(t, caller) == minted_by(s, caller) + if payment > 0 {
                receivers.len() as int
            } else {
                0
            }
            &&& minted_in_drop(t, caller) == minted_in_drop(s, caller) + if payment > 0
                && drop_limits_apply(s) {
                receivers.len() as int
            } else {
                0
            }
            &&& payment == 0 ==> t.minted_per_address_total == s.minted_per_address_total
            &&& payment == 0 ==> t.minted_per_address_per_drop == s.minted_per_address_per_drop
        }),
    decreases receivers.len(),
{
    let n = receivers.len();
    if n == 0 {
        assert(minted_indexes(Seq::<ActionModel>::empty()) == Seq::<u32>::empty());
        assert(nft_receivers(Seq::<ActionModel>::empty()) == Seq::<Seq<u8>>::empty());
        assert(egld_sent_to(Seq::<ActionModel>::empty(), owner) == 0);
        assert forall|to: Seq<u8>| #[trigger] egld_sent_to(Seq::<ActionModel>::empty(), to) == 0 by {}
        assert(receivers =~= Seq::<Seq<u8>>::empty());
        assert(nfts_made_as_in(s, Seq::<ActionModel>::empty()));
        assert(Seq::<u32>::empty().to_set() =~= Set::<u32>::empty());
        assert(pool(s).difference(Set::<u32>::empty()) =~= pool(s));
    } else {
        let front = receivers.drop_last();
        lemma_mint_many(s, caller, owner, payment, front, draws);
        let (t1, a1) = mint_many(s, caller, owner, payment, front, draws);
        let ids1 = minted_indexes(a1);
        lemma_mint_one(t1, caller, owner, payment, receivers.last(), draws[n - 1]);
        let (t, a2) = mint_one(t1, caller, owner, payment, receivers.last(), draws[n - 1]);
        let actions = a1 + a2;
        assert(mint_many(s, caller, owner, payment, receivers, draws) == (t, actions));
        lemma_concat(a1, a2, owner);
        let id = t1.next_index_to_mint.1;
        let ids = minted_indexes(actions);
        assert(ids =~= ids1.push(id));
        assert(!ids1.to_set().contains(id)) by {
            assert(pool(t1).contains(id));
        }
        assert(ids.no_duplicates()) by {
            assert forall|i: int, j: int| 0 <= i < ids.len() && 0 <= j < ids.len() && i != j implies ids[i]
                != ids[j] by {
                if i == ids.len() - 1 {
                    assert(ids1.contains(ids1[j]));
                } else if j == ids.len() - 1 {
                    assert(ids1.contains(ids1[i]));
                }
            }
        }
        assert(forall|i: int| 0 <= i < ids.len() ==> pool(s).contains(#[trigger] ids[i])) by {
            assert forall|i: int| 0 <= i < ids.len() implies pool(s).contains(#[trigger] ids[i]) by {
                if i < ids1.len() {
                    assert(ids[i] == ids1[i]);
                } else {
                    assert(ids[i] == id);
                }
            }
        }
        assert(ids.to_set() =~= ids1.to_set().insert(id)) by {
            assert forall|x: u32| ids.to_set().contains(x) <==> ids1.to_set().insert(id).contains(x) by {
                if ids.contains(x) {
                    let k = choose|k: int| 0 <= k < ids.len() && ids[k] == x;
                    if k < ids1.len() {
                        assert(ids1[k] == x);
                    }
                }
                if ids1.contains(x) {
                    let k = choose|k: int| 0 <= k < ids1.len() && ids1[k] == x;
                    assert(ids[k] == x);
                }
                if x == id {
                    assert(ids[ids.len() - 1] == x);
                }
            }
        }
        assert(pool(t) =~= pool(s).difference(ids.to_set()));
        assert(nft_receivers(actions) =~= receivers);
        lemma_nfts_made_same(s, t1, a2);
        lemma_nfts_made_concat(s, a1, a2);
        if payment == 0 {
            assert forall|to: Seq<u8>| #[trigger] egld_sent_to(actions, to) == 0 by {
                lemma_concat(a1, a2, to);
            }
        }
        assert(egld_sent_to(actions, owner) == n * payment) by {
            assert((n - 1) * payment + payment == n * payment) by (nonlinear_arith);
        }
    }
}

/// A mint is accepted only from a user account, with the NFT-create role held, for at least
/// one token, while minting runs, and (with the allowlist on) for an address on the allowlist.
pub proof fn law_mint_is_gated(
    s: MinterState,
    caller: Seq<u8>,
    caller_is_smart_contract: bool,
    payment: u128,
    has_create_role: bool,
    amount: u32,
)
    requires
        mint_refusal(s, caller, caller_is_smart_contract, payment, has_create_role, amount) is None,
    ensures
        !caller_is_smart_contract,
        has_create_role,
        is_issued(s),
        !s.paused,
        1 <= amount <= current_left(s),
        s.is_allowlist_enabled ==> s.allowlist.contains(caller),
        payment == amount * s.selling_price,
{
}

/// An accepted mint of `amount` tokens creates `amount` NFTs for the caller, with pairwise
/// distinct collection indexes taken from the pool of indexes not minted yet; the pool loses
/// exactly those, the count of minted indexes grows by `amount` and the storage stays sound.
pub proof fn law_mint_takes_distinct_indexes_from_the_pool(
    s: MinterState,
    caller: Seq<u8>,
    caller_is_smart_contract: bool,
    owner: Seq<u8>,
    payment: u128,
    has_create_role: bool,
    amount: u32,
    draws: Seq<u32>,
)
    requires
        storage_invariant(s),
        mint_refusal(s, caller, caller_is_smart_contract, payment, has_create_role, amount) is None,
    ensures
        ({
            let (t, actions) = mint_effect(s, caller, owner, payment, amount, draws);
            let ids = minted_indexes(actions);
            &&& storage_invariant(t)
            &&& ids.len() == amount
            &&& ids.no_duplicates()
            &&& forall|i: int| 0 <= i < ids.len() ==> pool(s).contains(#[trigger] ids[i])
            &&& pool(t) == pool(s).difference(ids.to_set())
            &&& nft_receivers(actions) == repeated(caller, amount as nat)
            &&& forall|k: int| 0 <= k < amount ==> #[trigger] nft_receivers(actions)[k] == caller
            &&& t.minted_indexes_total == s.minted_indexes_total + amount
            &&& same_settings(s, t)
        }),
{
    lemma_mint_preconditions(s, caller, caller_is_smart_contract, payment, has_create_role, amount);
    lemma_mint_many(s, caller, owner, s.selling_price, repeated(caller, amount as nat), draws);
}

/// A mint is accepted only with the payment sum for all the tokens asked for, and then the owner
/// receives the whole payment: the price of each token minted.
pub proof fn law_mint_pays_the_price(
    s: MinterState,
    caller: Seq<u8>,
    caller_is_smart_contract: bool,
    owner: Seq<u8>,
    payment: u128,
    has_create_role: bool,
    amount: u32,
    draws: Seq<u32>,
)
    requires
        storage_invariant(s),
        mint_refusal(s, caller, caller_is_smart_contract, payment, has_create_role, amount) is None,
    ensures
        egld_sent_to(mint_effect(s, caller, owner, payment, amount, draws).1, owner) == payment,
        payment == amount * s.selling_price,
{
    lemma_mint_preconditions(s, caller, caller_is_smart_contract, payment, has_create_role, amount);
    lemma_mint_many(s, caller, owner, s.selling_price, repeated(caller, amount as nat), draws);
}

/// A paid mint never takes the caller past the limit of tokens per address, nor, while a drop
/// is in force, past the limit per address of the drop.
pub proof fn law_mint_respects_address_limits(
    s: MinterState,
    caller: Seq<u8>,
    caller_is_smart_contract: bool,
    owner: Seq<u8>,
    payment: u128,
    has_create_role: bool,
    amount: u32,
    draws: Seq<u32>,
)
    requires
        storage_invariant(s),
        mint_refusal(s, caller, caller_is_smart_contract, payment, has_create_role, amount) is None,
        s.selling_price > 0,
    ensures
        ({
            let t = mint_effect(s, caller, owner, payment, amount, draws).0;
            &&& minted_by(t, caller) == minted_by(s, caller) + amount
            &&& minted_by(t, caller) <= s.tokens_limit_per_address_total
            &&& drop_limits_apply(s) ==> minted_in_drop(t, caller) == minted_in_drop(s, caller)
                + amount
            &&& drop_limits_apply(s) ==> minted_in_drop(t, caller)
                <= s.tokens_limit_per_address_per_drop
        }),
{
    lemma_mint_preconditions(s, caller, caller_is_smart_contract, payment, has_create_role, amount);
    lemma_mint_many(s, caller, owner, s.selling_price, repeated(caller, amount as nat), draws);
}

/// What an accepted mint guarantees about the tokens left and the purchase counters.
proof fn lemma_mint_preconditions(
    s: MinterState,
    caller: Seq<u8>,
    caller_is_smart_contract: bool,
    payment: u128,
    has_create_role: bool,
    amount: u32,
)
    requires
        mint_refusal(s, caller, caller_is_smart_contract, payment, has_create_role, amount) is None,
        storage_invariant(s),
    ensures
        is_issued(s),
        amount >= 1,
        amount <= total_left(s),
        s.amount_of_tokens_per_drop > 0 ==> amount <= drop_left(s),
        minted_by(s, caller) + amount <= s.tokens_limit_per_address_total,
        drop_limits_apply(s) ==> minted_in_drop(s, caller) + amount
            <= s.tokens_limit_per_address_per_drop,
        payment == amount * s.selling_price,
{
}

/// An accepted giveaway mints `amount` free tokens for each address (the caller for the zero
/// address), with distinct indexes from the pool: nobody is paid and no purchase is counted.
pub proof fn law_giveaway_is_free(
    s: MinterState,
    caller: Seq<u8>,
    owner: Seq<u8>,
    has_create_role: bool,
    addresses: Seq<Seq<u8>>,
    amount: u32,
    draws: Seq<u32>,
)
    requires
        storage_invariant(s),
        giveaway_refusal(s, caller, owner, has_create_role, addresses, amount) is None,
    ensures
        ({
            let (t, actions) = giveaway_effect(s, caller, owner, addresses, amount, draws);
            let ids = minted_indexes(actions);
            &&& storage_invariant(t)
            &&& ids.len() == addresses.len() * amount
            &&& ids.no_duplicates()
            &&& forall|i: int| 0 <= i < ids.len() ==> pool(s).contains(#[trigger] ids[i])
            &&& pool(t) == pool(s).difference(ids.to_set())
            &&& nft_receivers(actions) == giveaway_receivers(addresses, amount, caller)
            &&& forall|to: Seq<u8>| #[trigger] egld_sent_to(actions, to) == 0
            &&& t.minted_per_address_total == s.minted_per_address_total
            &&& t.minted_per_address_per_drop == s.minted_per_address_per_drop
        }),
{
    let s1 = paused_if_exhausted(s);
    let receivers = giveaway_receivers(addresses, amount, caller);
    assert(amount * addresses.len() == addresses.len() * amount) by (nonlinear_arith);
    assert(pool(s1) == pool(s));
    lemma_mint_many(s1, caller, owner, 0, receivers, draws);
}

/// The pool of a sound, issued collection holds exactly the tokens left, all indexes of the
/// collection; while tokens are left, the index minted next is one of them.
pub proof fn law_pool_holds_the_tokens_left(s: MinterState)
    requires
        storage_invariant(s),
        is_issued(s),
    ensures
        pool(s).finite(),
        pool(s).len() == total_left(s),
        forall|x: u32| #[trigger] pool(s).contains(x) ==> 1 <= x <= s.amount_of_tokens_total,
        total_left(s) > 0 ==> pool(s).contains(s.next_index_to_mint.1),
        s.minted_indexes_total <= s.amount_of_tokens_total,
        s.minted_indexes_by_drop <= s.amount_of_tokens_per_drop,
{
    let uid = s.tokens_left_to_mint;
    if total_left(s) > 0 {
        uid.unique_seq_to_set();
        assert forall|x: u32| #[trigger] pool(s).contains(x) implies 1 <= x <= s.amount_of_tokens_total by {
            let k = choose|k: int| 0 <= k < uid.len() && uid[k] == x;
        }
        assert(uid[s.next_index_to_mint.0 - 1] == s.next_index_to_mint.1);
    } else {
        assert(pool(s) =~= Set::<u32>::empty());
    }
}

/// A new draw of the next index keeps the pool and the storage sound; the index drawn is in the
/// pool whenever tokens are left.
pub proof fn law_shuffle_keeps_the_pool(s: MinterState, draw: u32)
    requires
        storage_invariant(s),
        s.tokens_left_to_mint.len() >= 1,
    ensures
        storage_invariant(shuffled(s, draw)),
        pool(shuffled(s, draw)) == pool(s),
        total_left(s) > 0 ==> pool(s).contains(shuffled(s, draw).next_index_to_mint.1),
        1 <= shuffled(s, draw).next_index_to_mint.0 <= s.tokens_left_to_mint.len(),
{
    let t = shuffled(s, draw);
    let p = pick_position(draw, s.tokens_left_to_mint.len());
    assert(s.tokens_left_to_mint.contains(s.tokens_left_to_mint[p - 1]));
}

/// A new drop starts with every per-drop counter at zero and all its tokens left; its
/// per-address limit is the one given, or the drop size when none is.
pub proof fn law_new_drop_starts_fresh(
    s: MinterState,
    caller: Seq<u8>,
    owner: Seq<u8>,
    amount_of_tokens_per_drop: u32,
    tokens_limit_per_address_per_drop: Option<u32>,
)
    requires
        storage_invariant(s),
        set_drop_refusal(
            s,
            caller,
            owner,
            amount_of_tokens_per_drop,
            tokens_limit_per_address_per_drop,
        ) is None,
    ensures
        ({
            let t = set_drop_effect(s, amount_of_tokens_per_drop, tokens_limit_per_address_per_drop);
            &&& storage_invariant(t)
            &&& drop_limits_apply(t)
            &&& forall|a: Seq<u8>| #[trigger] minted_in_drop(t, a) == 0
            &&& drop_left(t) == amount_of_tokens_per_drop
            &&& drop_left(t) <= total_left(t)
            &&& t.tokens_limit_per_address_per_drop == match tokens_limit_per_address_per_drop {
                Some(l) => if l > 0 {
                    l
                } else {
                    amount_of_tokens_per_drop
                },
                None => amount_of_tokens_per_drop,
            }
        }),
{
    let t = set_drop_effect(s, amount_of_tokens_per_drop, tokens_limit_per_address_per_drop);
    assert forall|a: Seq<u8>| #[trigger] minted_in_drop(t, a) == 0 by {
        let k = (t.last_drop, a);
        if t.minted_per_address_per_drop.dom().contains(k) {
            assert(k.0 <= s.last_drop);
        }
    }
}

/// Once a token is minted, the image and metadata CIDs can no longer change.
pub proof fn law_cids_are_fixed_once_minting_started(s: MinterState, caller: Seq<u8>, owner: Seq<u8>)
    requires
        s.minted_indexes_total > 0,
    ensures
        change_base_cids_refusal(s, caller, owner) is Some,
{
}

/// An accepted answer to the issue request records the token and fills the pool with every
/// index of the collection, `1` to the supply, once each; the storage stays sound.
pub proof fn law_issue_callback_fills_the_pool(
    s: MinterState,
    owner: Seq<u8>,
    token: Seq<u8>,
    returned_is_egld: bool,
    returned_amount: u128,
    draw: u32,
)
    requires
        storage_invariant(s),
        issue_callback_refusal(s, IssueOutcomeModel::IssuedEsdt(token)) is None,
    ensures
        ({
            let t = issue_callback_effect(
                s,
                owner,
                IssueOutcomeModel::IssuedEsdt(token),
                returned_is_egld,
                returned_amount,
                draw,
            ).0;
            &&& storage_invariant(t)
            &&& t.nft_token_id == token
            &&& t.minted_indexes_total == 0
            &&& pool(t) == Set::new(|x: u32| 1 <= x <= s.amount_of_tokens_total)
        }),
{
    let n = s.amount_of_tokens_total;
    let t = issue_callback_effect(s, owner, IssueOutcomeModel::IssuedEsdt(token), returned_is_egld, returned_amount, draw).0;
    let uid = initial_pool(n);
    assert(t.tokens_left_to_mint == uid);
    assert(uid.no_duplicates());
    assert(pool(t) =~= Set::new(|x: u32| 1 <= x <= n)) by {
        assert forall|x: u32| pool(t).contains(x) <==> 1 <= x <= n by {
            if 1 <= x <= n {
                assert(uid[x - 1] == x);
            }
        }
    }
}

/// The number a string of ASCII decimal digits stands for.
pub open spec fn digits_value(digits: Seq<u8>) -> int
    decreases digits.len(),
{
    if digits.len() == 0 {
        0
    } else {
        digits_value(digits.drop_last()) * 10 + (digits.last() - 48)
    }
}

/// The decimal writing of a number is made of digits only, starts with a nonzero digit unless
/// the number is zero, and reads back as the number.
pub proof fn law_decimal_reads_back(n: nat)
    ensures
        decimal(n).len() >= 1,
        forall|i: int| 0 <= i < decimal(n).len() ==> 48 <= #[trigger] decimal(n)[i] <= 57,
        n > 0 ==> decimal(n)[0] != 48,
        digits_value(decimal(n)) == n,
    decreases n,
{
    let d = decimal(n);
    assert(digits_value(Seq::<u8>::empty()) == 0);
    if n < 10 {
        assert(d.drop_last() =~= Seq::<u8>::empty());
    } else {
        law_decimal_reads_back(n / 10);
        assert(d.drop_last() =~= decimal(n / 10));
        assert forall|i: int| 0 <= i < d.len() implies 48 <= #[trigger] d[i] <= 57 by {
            if i < d.len() - 1 {
                assert(d[i] == decimal(n / 10)[i]);
            }
        }
        assert(d[0] == decimal(n / 10)[0]);
        assert(n == (n / 10) * 10 + n % 10);
        assert(digits_value(d) == digits_value(decimal(n / 10)) * 10 + (n % 10));
    }
}

/// Two accepted mints in a row never create the same collection index twice.
pub proof fn law_no_index_is_minted_twice(
    s: MinterState,
    owner: Seq<u8>,
    first_caller: Seq<u8>,
    first_payment: u128,
    first_amount: u32,
    first_draws: Seq<u32>,
    second_caller: Seq<u8>,
    second_payment: u128,
    second_amount: u32,
    second_draws: Seq<u32>,
)
    requires
        storage_invariant(s),
        mint_refusal(s, first_caller, false, first_payment, true, first_amount) is None,
        mint_refusal(
            mint_effect(s, first_caller, owner, first_payment, first_amount, first_draws).0,
            second_caller,
            false,
            second_payment,
            true,
            second_amount,
        ) is None,
    ensures
        ({
            let (t, first) = mint_effect(s, first_caller, owner, first_payment, first_amount, first_draws);
            let second = mint_effect(t, second_caller, owner, second_payment, second_amount, second_draws).1;
            forall|i: int, j: int|
                0 <= i < minted_indexes(first).len() && 0 <= j < minted_indexes(second).len()
                    ==> #[trigger] minted_indexes(first)[i] != #[trigger] minted_indexes(second)[j]
        }),
{
    let (t, first) = mint_effect(s, first_caller, owner, first_payment, first_amount, first_draws);
    law_mint_takes_distinct_indexes_from_the_pool(
        s,
        first_caller,
        false,
        owner,
        first_payment,
        true,
        first_amount,
        first_draws,
    );
    law_mint_takes_distinct_indexes_from_the_pool(
        t,
        second_caller,
        false,
        owner,
        second_payment,
        true,
        second_amount,
        second_draws,
    );
    let second = mint_effect(t, second_caller, owner, second_payment, second_amount, second_draws).1;
    let ids1 = minted_indexes(first);
    let ids2 = minted_indexes(second);
    assert forall|i: int, j: int| 0 <= i < ids1.len() && 0 <= j < ids2.len() implies #[trigger] ids1[i]
        != #[trigger] ids2[j] by {
        assert(pool(t).contains(ids2[j]));
        assert(ids1.to_set().contains(ids1[i]));
    }
}

/// One call of an endpoint that mints or draws: `mint`, `giveaway` or `shuffle`, with what the
/// call context and the chain hand it.
pub enum MintingCall {
    Mint {
        caller: Seq<u8>,
        caller_is_smart_contract: bool,
        payment: u128,
        has_create_role: bool,
        amount: u32,
        draws: Seq<u32>,
    },
    Giveaway {
        caller: Seq<u8>,
        has_create_role: bool,
        addresses: Seq<Seq<u8>>,
        amount: u32,
        draws: Seq<u32>,
    },
    Shuffle { caller_is_smart_contract: bool, draw: u32 },
}

/// The storage after one call and the actions it asks for, as the contracts of `mint`,
/// `giveaway` and `shuffle` state them; a refused call changes nothing and asks for nothing.
pub open spec fn minting_step(s: MinterState, owner: Seq<u8>, call: MintingCall) -> (
    MinterState,
    Seq<ActionModel>,
) {
    match call {
        MintingCall::Mint {
            caller,
            caller_is_smart_contract,
            payment,
            has_create_role,
            amount,
            draws,
        } => if mint_refusal(s, caller, caller_is_smart_contract, payment, has_create_role, amount) is None {
            mint_effect(s, caller, owner, payment, amount, draws)
        } else {
            (s, Seq::empty())
        },
        MintingCall::Giveaway { caller, has_create_role, addresses, amount, draws } => if giveaway_refusal(
            s,
            caller,
            owner,
            has_create_role,
            addresses,
            amount,
        ) is None {
            giveaway_effect(s, caller, owner, addresses, amount, draws)
        } else {
            (s, Seq::empty())
        },
        MintingCall::Shuffle { caller_is_smart_contract, draw } => if shuffle_refusal(
            s,
            caller_is_smart_contract,
        ) is None {
            (shuffled(s, draw), Seq::empty())
        } else {
            (s, Seq::empty())
        },
    }
}

/// The storage after the calls, one after the other, and all the actions they ask for, in order.
pub open spec fn minting_run(s: MinterState, owner: Seq<u8>, calls: Seq<MintingCall>) -> (
    MinterState,
    Seq<ActionModel>,
)
    decreases calls.len(),
{
    if calls.len() == 0 {
        (s, Seq::empty())
    } else {
        let (t, a) = minting_run(s, owner, calls.drop_last());
        let (u, b) = minting_step(t, owner, calls.last());
        (u, a + b)
    }
}

/// What one call of [`minting_step`] keeps and what it takes out of the pool.
proof fn lemma_minting_step(s: MinterState, owner: Seq<u8>, call: MintingCall)
    requires
        storage_invariant(s),
    ensures
        ({
            let (t, actions) = minting_step(s, owner, call);
            let ids = minted_indexes(actions);
            &&& storage_invariant(t)
            &&& ids.no_duplicates()
            &&& forall|i: int| 0 <= i < ids.len() ==> pool(s).contains(#[trigger] ids[i])
            &&& pool(t) == pool(s).difference(ids.to_set())
            &&& t.minted_indexes_total == s.minted_indexes_total + ids.len()
            &&& t.amount_of_tokens_total == s.amount_of_tokens_total
            &&& same_nft_settings(s, t)
            &&& nfts_made_as_in(s, actions)
        }),
{
    let (t, actions) = minting_step(s, owner, call);
    assert(minted_indexes(Seq::<ActionModel>::empty()) == Seq::<u32>::empty());
    assert(nfts_made_as_in(s, Seq::<ActionModel>::empty()));
    assert(Seq::<u32>::empty().to_set() =~= Set::<u32>::empty());
    assert(pool(s).difference(Set::<u32>::empty()) =~= pool(s));
    match call {
        MintingCall::Mint {
            caller,
            caller_is_smart_contract,
            payment,
            has_create_role,
            amount,
            draws,
        } => {
            if mint_refusal(s, caller, caller_is_smart_contract, payment, has_create_role, amount) is None {
                lemma_mint_preconditions(
                    s,
                    caller,
                    caller_is_smart_contract,
                    payment,
                    has_create_role,
                    amount,
                );
                lemma_mint_many(
                    s,
                    caller,
                    owner,
                    s.selling_price,
                    repeated(caller, amount as nat),
                    draws,
                );
            }
        },
        MintingCall::Giveaway { caller, has_create_role, addresses, amount, draws } => {
            if giveaway_refusal(s, caller, owner, has_create_role, addresses, amount) is None {
                let s1 = paused_if_exhausted(s);
                let receivers = giveaway_receivers(addresses, amount, caller);
                assert(amount * addresses.len() == addresses.len() * amount) by (nonlinear_arith);
                assert(pool(s1) == pool(s));
                lemma_mint_many(s1, caller, owner, 0, receivers, draws);
                lemma_nfts_made_same(s, s1, actions);
            }
        },
        MintingCall::Shuffle { caller_is_smart_contract, draw } => {
            if shuffle_refusal(s, caller_is_smart_contract) is None {
                law_shuffle_keeps_the_pool(s, draw);
            }
        },
    }
}

/// Over any sequence of `mint`, `giveaway` and `shuffle` calls, accepted or refused, from a
/// sound storage: the storage stays sound, the NFTs created carry pairwise distinct indexes
/// taken from the pool at the start, each is the NFT of its index under the settings at the
/// start, the pool loses exactly those indexes, and the count of minted indexes grows by their
/// number.
pub proof fn law_minting_run_takes_distinct_indexes_from_the_pool(
    s: MinterState,
    owner: Seq<u8>,
    calls: Seq<MintingCall>,
)
    requires
        storage_invariant(s),
    ensures
        ({
            let (t, actions) = minting_run(s, owner, calls);
            let ids = minted_indexes(actions);
            &&& storage_invariant(t)
            &&& ids.no_duplicates()
            &&& forall|i: int| 0 <= i < ids.len() ==> pool(s).contains(#[trigger] ids[i])
            &&& pool(t) == pool(s).difference(ids.to_set())
            &&& t.minted_indexes_total == s.minted_indexes_total + ids.len()
            &&& t.amount_of_tokens_total == s.amount_of_tokens_total
            &&& same_nft_settings(s, t)
            &&& nfts_made_as_in(s, actions)
        }),
    decreases calls.len(),
{
    if calls.len() == 0 {
        assert(nfts_made_as_in(s, Seq::<ActionModel>::empty()));
        assert(minted_indexes(Seq::<ActionModel>::empty()) == Seq::<u32>::empty());
        assert(Seq::<u32>::empty().to_set() =~= Set::<u32>::empty());
        assert(pool(s).difference(Set::<u32>::empty()) =~= pool(s));
    } else {
        law_minting_run_takes_distinct_indexes_from_the_pool(s, owner, calls.drop_last());
        let (t1, a1) = minting_run(s, owner, calls.drop_last());
        lemma_minting_step(t1, owner, calls.last());
        let (t, a2) = minting_step(t1, owner, calls.last());
        let actions = a1 + a2;
        assert(minting_run(s, owner, calls) == (t, actions));
        lemma_concat(a1, a2, owner);
        let ids1 = minted_indexes(a1);
        let ids2 = minted_indexes(a2);
        let ids = minted_indexes(actions);
        assert(ids == ids1 + ids2);
        assert forall|i: int| 0 <= i < ids.len() implies pool(s).contains(#[trigger] ids[i]) by {
            if i < ids1.len() {
                assert(ids[i] == ids1[i]);
            } else {
                assert(ids[i] == ids2[i - ids1.len()]);
                assert(pool(t1).contains(ids2[i - ids1.len()]));
            }
        }
        assert(ids.no_duplicates()) by {
            assert forall|i: int, j: int|
                0 <= i < ids.len() && 0 <= j < ids.len() && i != j implies ids[i] != ids[j] by {
                if i < ids1.len() && j >= ids1.len() {
                    assert(pool(t1).contains(ids2[j - ids1.len()]));
                    assert(ids1.to_set().contains(ids1[i]));
                } else if j < ids1.len() && i >= ids1.len() {
                    assert(pool(t1).contains(ids2[i - ids1.len()]));
                    assert(ids1.to_set().contains(ids1[j]));
                } else if i >= ids1.len() && j >= ids1.len() {
                    assert(ids[i] == ids2[i - ids1.len()]);
                    assert(ids[j] == ids2[j - ids1.len()]);
                }
            }
        }
        assert(ids.to_set() =~= ids1.to_set().union(ids2.to_set())) by {
            assert forall|x: u32| ids.to_set().contains(x) <==> ids1.to_set().union(ids2.to_set()).contains(x) by {
                if ids.contains(x) {
                    let k = choose|k: int| 0 <= k < ids.len() && ids[k] == x;
                    if k < ids1.len() {
                        assert(ids1[k] == x);
                    } else {
                        assert(ids2[k - ids1.len()] == x);
                    }
                }
                if ids1.contains(x) {
                    let k = choose|k: int| 0 <= k < ids1.len() && ids1[k] == x;
                    assert(ids[k] == x);
                }
                if ids2.contains(x) {
                    let k = choose|k: int| 0 <= k < ids2.len() && ids2[k] == x;
                    assert(ids[k + ids1.len()] == x);
                }
            }
        }
        assert(pool(t) =~= pool(s).difference(ids.to_set()));
        lemma_nfts_made_same(s, t1, a2);
        lemma_nfts_made_concat(s, a1, a2);
    }
}

/// After the collection is issued, over any sequence of `mint`, `giveaway` and `shuffle`
/// calls: each NFT created is the NFT of its index (its name, attributes and URIs), the NFTs
/// carry pairwise distinct indexes from `1` to the supply, as many as the count of minted
/// indexes; an index of the collection has been minted exactly when it has
/// left the pool; and once the count reaches the supply, every index has been minted once.
pub proof fn law_each_index_is_minted_once(
    s: MinterState,
    owner: Seq<u8>,
    token: Seq<u8>,
    returned_is_egld: bool,
    returned_amount: u128,
    draw: u32,
    calls: Seq<MintingCall>,
)
    requires
        storage_invariant(s),
        issue_callback_refusal(s, IssueOutcomeModel::IssuedEsdt(token)) is None,
    ensures
        ({
            let n = s.amount_of_tokens_total;
            let issued = issue_callback_effect(
                s,
                owner,
                IssueOutcomeModel::IssuedEsdt(token),
                returned_is_egld,
                returned_amount,
                draw,
            ).0;
            let (t, actions) = minting_run(issued, owner, calls);
            let ids = minted_indexes(actions);
            &&& nfts_made_as_in(issued, actions)
            &&& ids.no_duplicates()
            &&& forall|i: int| 0 <= i < ids.len() ==> 1 <= #[trigger] ids[i] <= n
            &&& ids.len() == t.minted_indexes_total
            &&& forall|x: u32| 1 <= x <= n ==> (#[trigger] ids.contains(x) <==> !pool(t).contains(x))
            &&& t.minted_indexes_total == n ==> ids.to_set() == Set::new(|x: u32| 1 <= x <= n)
        }),
{
    let n = s.amount_of_tokens_total;
    let issued = issue_callback_effect(
        s,
        owner,
        IssueOutcomeModel::IssuedEsdt(token),
        returned_is_egld,
        returned_amount,
        draw,
    ).0;
    law_issue_callback_fills_the_pool(s, owner, token, returned_is_egld, returned_amount, draw);
    law_minting_run_takes_distinct_indexes_from_the_pool(issued, owner, calls);
    let (t, actions) = minting_run(issued, owner, calls);
    let ids = minted_indexes(actions);
    assert forall|i: int| 0 <= i < ids.len() implies 1 <= #[trigger] ids[i] <= n by {
        assert(pool(issued).contains(ids[i]));
    }
    assert forall|x: u32| 1 <= x <= n implies (#[trigger] ids.contains(x) <==> !pool(t).contains(x)) by {
        assert(pool(issued).contains(x));
        if ids.contains(x) {
            assert(ids.to_set().contains(x));
        }
        if !pool(t).contains(x) {
            assert(ids.to_set().contains(x));
        }
    }
    if t.minted_indexes_total == n {
        assert(pool(t) =~= Set::<u32>::empty());
        assert(ids.to_set() =~= Set::new(|x: u32| 1 <= x <= n)) by {
            assert forall|x: u32| ids.to_set().contains(x) <==> 1 <= x <= n by {
                if ids.to_set().contains(x) {
                    let k = choose|k: int| 0 <= k < ids.len() && ids[k] == x;
                    assert(1 <= ids[k] <= n);
                }
                if 1 <= x <= n {
                    assert(ids.contains(x));
                }
            }
        }
    }
}

/// No call of `mint`, `giveaway` or `shuffle`, accepted or refused, takes the tokens minted past
/// the total supply, nor those of the current drop past the drop's supply, nor leaves the drop
/// more tokens than the collection has left.
pub proof fn law_minting_stays_within_supply(s: MinterState, owner: Seq<u8>, call: MintingCall)
    requires
        storage_invariant(s),
    ensures
        ({
            let t = minting_step(s, owner, call).0;
            &&& t.minted_indexes_total <= t.amount_of_tokens_total
            &&& t.amount_of_tokens_total == s.amount_of_tokens_total
            &&& t.amount_of_tokens_per_drop > 0 ==> t.minted_indexes_by_drop
                <= t.amount_of_tokens_per_drop
            &&& t.amount_of_tokens_per_drop > 0 ==> drop_left(t) <= total_left(t)
        }),
{
    lemma_minting_step(s, owner, call);
}

} // verus!

use elven_nft_minter::ElvenTools;
use elven_nft_minter::address::Address;
use elven_nft_minter::minter::Minter;
use elven_nft_minter::operations::Operations;
use elven_nft_minter::setup::Setup;
use elven_nft_minter::storage::Storage;
use elven_nft_minter::types::{
    Action, CallContext, IssueOutcome, IssuedToken, MinterError, NFTProperties, Payment,
    TokenProperties,
};

const PRICE: u128 = 1_000_000_000_000_000_000;

fn owner() -> Address {
    Address::new([1u8; 32])
}

fn user() -> Address {
    Address::new([2u8; 32])
}

fn other() -> Address {
    Address::new([3u8; 32])
}

fn ctx(caller: Address) -> CallContext {
    CallContext { caller, owner: owner(), caller_is_smart_contract: false }
}

fn no_payment() -> Payment {
    Payment { is_egld: true, amount: 0 }
}

fn token() -> Vec<u8> {
    b"ELVEN-123456".to_vec()
}

/// A deployed, issued collection of `total` tokens with minting started.
fn ready(total: u32, limit: u32) -> Minter {
    let mut sc = Minter::new();
    sc.init(
        b"imgCid".to_vec(),
        b"metaCid".to_vec(),
        total,
        limit,
        500,
        PRICE,
        None,
        Some(b"art".to_vec()),
        None,
        Some(true),
    )
    .unwrap();
    let issue = sc.issue_token(
        &ctx(owner()),
        50_000_000_000_000_000,
        b"Elven".to_vec(),
        b"ELVEN".to_vec(),
        false,
        b"Elf".to_vec(),
        None,
    );
    assert!(issue.is_ok());
    let answer = sc.issue_callback(
        &owner(),
        IssueOutcome::Success(IssuedToken::Esdt(token())),
        no_payment(),
        7,
    );
    assert_eq!(answer, Ok(vec![]));
    sc.start_minting(&ctx(owner())).unwrap();
    sc
}

#[test]
fn issue_callback_fills_pool_and_draws_first_index() {
    let sc = ready(5, 3);
    assert_eq!(sc.nft_token_id(), token());
    assert_eq!(sc.tokens_left_to_mint(), vec![1, 2, 3, 4, 5]);
    // 1 + 7 % 5 == 3
    assert_eq!(sc.next_index_to_mint(), (3, 3));
    assert_eq!(sc.nft_token_name(), b"Elf".to_vec());
    assert_eq!(sc.collection_token_name(), b"Elven".to_vec());
}

#[test]
fn mint_one_token_creates_nft_and_pays_owner() {
    let mut sc = ready(5, 3);
    let r = sc.mint(&ctx(user()), PRICE, true, 1, &vec![0]).unwrap();
    assert_eq!(
        r,
        vec![
            Action::CreateAndSendNft {
                index: 3,
                token: token(),
                name: b"Elf #3".to_vec(),
                royalties: 500,
                attributes: b"tags:art;metadata:metaCid/3.json".to_vec(),
                uris: vec![
                    b"https://ipfs.io/ipfs/imgCid/3.png".to_vec(),
                    b"https://ipfs.io/ipfs/metaCid/3.json".to_vec(),
                ],
                receiver: user(),
            },
            Action::SendEgld { to: owner(), amount: PRICE },
        ]
    );
    // position 3 takes the last index; the next draw (0) picks position 1
    assert_eq!(sc.tokens_left_to_mint(), vec![1, 2, 5, 4]);
    assert_eq!(sc.next_index_to_mint(), (1, 1));
    assert_eq!(sc.minted_indexes_total(), 1);
    assert_eq!(sc.total_tokens_left(), 4);
    assert_eq!(sc.minted_per_address_total(&user()), 1);
}

#[test]
fn mint_several_tokens_takes_distinct_indexes() {
    let mut sc = ready(5, 5);
    let r = sc.mint(&ctx(user()), 3 * PRICE, true, 3, &vec![4, 9, 2]).unwrap();
    let indexes: Vec<u32> = r
        .iter()
        .filter_map(|a| match a {
            Action::CreateAndSendNft { index, .. } => Some(*index),
            _ => None,
        })
        .collect();
    assert_eq!(indexes.len(), 3);
    let mut sorted = indexes.clone();
    sorted.sort();
    sorted.dedup();
    assert_eq!(sorted.len(), 3);
    let paid: u128 = r
        .iter()
        .map(|a| match a {
            Action::SendEgld { to, amount } if *to == owner() => *amount,
            _ => 0,
        })
        .sum();
    assert_eq!(paid, 3 * PRICE);
    let left = sc.tokens_left_to_mint();
    assert_eq!(left.len(), 2);
    for i in indexes {
        assert!(!left.contains(&i));
    }
    assert_eq!(sc.minted_per_address_total(&user()), 3);
}

#[test]
fn mint_whole_collection_then_refuse() {
    let mut sc = ready(3, 10);
    let r = sc.mint(&ctx(user()), 3 * PRICE, true, 3, &vec![0, 0, 0]).unwrap();
    assert_eq!(r.len(), 6);
    assert_eq!(sc.total_tokens_left(), 0);
    assert_eq!(sc.minted_indexes_total(), 3);
    assert_eq!(sc.mint(&ctx(user()), PRICE, true, 1, &vec![0]), Err(MinterError::NotEnoughTokensLeft));
    // minting a sold-out collection is refused, and the refusal leaves storage as it was
    assert!(!sc.paused());
}

#[test]
fn mint_requires_the_exact_sum() {
    let mut sc = ready(5, 5);
    // 2 tokens: anything but 2 * PRICE is refused, and the refusal changes nothing
    assert_eq!(sc.mint(&ctx(user()), 2 * PRICE + 1, true, 2, &vec![0, 0]), Err(MinterError::InvalidPayment));
    assert_eq!(sc.mint(&ctx(user()), 2 * PRICE - 1, true, 2, &vec![0, 0]), Err(MinterError::InvalidPayment));
    assert_eq!(sc.mint(&ctx(user()), 3 * PRICE, true, 2, &vec![0, 0]), Err(MinterError::InvalidPayment));
    assert_eq!(sc.minted_indexes_total(), 0);
    assert_eq!(sc.minted_per_address_total(&user()), 0);
    // the exact sum is accepted and the owner receives all of it
    let r = sc.mint(&ctx(user()), 2 * PRICE, true, 2, &vec![0, 0]).unwrap();
    let paid: u128 = r
        .iter()
        .map(|a| match a {
            Action::SendEgld { to, amount } if *to == owner() => *amount,
            _ => 0,
        })
        .sum();
    assert_eq!(paid, 2 * PRICE);
    assert_eq!(sc.minted_indexes_total(), 2);
}

#[test]
fn mint_refusals() {
    let mut sc = ready(5, 2);
    let mut sc_ctx = ctx(user());
    sc_ctx.caller_is_smart_contract = true;
    assert_eq!(sc.mint(&sc_ctx, PRICE, true, 1, &vec![0]), Err(MinterError::OnlyUserAccount));
    assert_eq!(sc.mint(&ctx(user()), 0, true, 0, &vec![]), Err(MinterError::ZeroMintAmount));
    assert_eq!(sc.mint(&ctx(user()), PRICE, false, 1, &vec![0]), Err(MinterError::NftCreateRoleNotSet));
    assert_eq!(sc.mint(&ctx(user()), PRICE, true, 6, &vec![0; 6]), Err(MinterError::NotEnoughTokensLeft));
    assert_eq!(sc.mint(&ctx(user()), 3 * PRICE, true, 3, &vec![0; 3]), Err(MinterError::AddressLimitReached));
    assert_eq!(sc.mint(&ctx(user()), PRICE - 1, true, 1, &vec![0]), Err(MinterError::InvalidPayment));
    assert_eq!(sc.mint(&ctx(user()), 2 * PRICE, true, 1, &vec![0]), Err(MinterError::InvalidPayment));
    assert_eq!(sc.minted_indexes_total(), 0);
    assert_eq!(sc.tokens_left_to_mint(), vec![1, 2, 3, 4, 5]);
    sc.pause_minting(&ctx(owner())).unwrap();
    assert_eq!(sc.mint(&ctx(user()), PRICE, true, 1, &vec![0]), Err(MinterError::MintingPaused));
}

#[test]
fn mint_before_issue_is_refused() {
    let mut sc = Minter::new();
    sc.init(b"i".to_vec(), b"m".to_vec(), 10, 2, 0, PRICE, None, None, None, None).unwrap();
    assert_eq!(sc.mint(&ctx(user()), PRICE, true, 1, &vec![0]), Err(MinterError::TokenNotIssued));
    assert_eq!(sc.start_minting(&ctx(owner())), Err(MinterError::TokenNotIssued));
    assert_eq!(sc.shuffle(&ctx(user()), 1), Err(MinterError::TokenNotIssued));
    assert_eq!(sc.set_local_roles(&ctx(owner()), &other()), Err(MinterError::TokenNotIssued));
}

#[test]
fn address_limit_counts_across_calls() {
    let mut sc = ready(10, 2);
    sc.mint(&ctx(user()), PRICE, true, 1, &vec![0]).unwrap();
    sc.mint(&ctx(user()), PRICE, true, 1, &vec![0]).unwrap();
    assert_eq!(sc.mint(&ctx(user()), PRICE, true, 1, &vec![0]), Err(MinterError::AddressLimitReached));
    assert!(sc.mint(&ctx(other()), PRICE, true, 1, &vec![0]).is_ok());
    // the owner can raise the limit
    sc.set_new_tokens_limit_per_address(&ctx(owner()), 3).unwrap();
    assert!(sc.mint(&ctx(user()), PRICE, true, 1, &vec![0]).is_ok());
}

#[test]
fn free_collection_counts_no_purchase() {
    let mut sc = ready(5, 1);
    sc.set_new_price(&ctx(owner()), 0).unwrap();
    let r = sc.mint(&ctx(user()), 0, true, 1, &vec![0]).unwrap();
    assert_eq!(r.len(), 1);
    assert_eq!(sc.minted_per_address_total(&user()), 0);
    assert!(sc.mint(&ctx(user()), 0, true, 1, &vec![0]).is_ok());
}

#[test]
fn allowlist_gates_minting() {
    let mut sc = ready(5, 5);
    sc.enable_allowlist(&ctx(owner())).unwrap();
    assert_eq!(sc.mint(&ctx(user()), PRICE, true, 1, &vec![0]), Err(MinterError::NotInAllowlist));
    sc.populate_allowlist(&ctx(owner()), &vec![user(), user(), other()]).unwrap();
    assert_eq!(sc.allowlist_size(), 2);
    assert!(sc.allowlist_address_check(&user()));
    assert!(sc.mint(&ctx(user()), PRICE, true, 1, &vec![0]).is_ok());
    sc.remove_allowlist_address(&ctx(owner()), &user()).unwrap();
    assert!(!sc.allowlist_address_check(&user()));
    assert_eq!(sc.allowlist_size(), 1);
    assert_eq!(sc.mint(&ctx(user()), PRICE, true, 1, &vec![0]), Err(MinterError::NotInAllowlist));
    sc.disable_allowlist(&ctx(owner())).unwrap();
    assert!(sc.mint(&ctx(user()), PRICE, true, 1, &vec![0]).is_ok());
    sc.clear_allowlist(&ctx(owner())).unwrap();
    assert_eq!(sc.allowlist_size(), 0);
}

#[test]
fn drops_limit_supply_and_addresses() {
    let mut sc = ready(10, 5);
    sc.set_drop(&ctx(owner()), 3, Some(2)).unwrap();
    assert!(sc.is_drop_active());
    assert_eq!(sc.last_drop(), 1);
    assert_eq!(sc.tokens_limit_per_address_per_drop(), 2);
    assert_eq!(sc.drop_tokens_left(), 3);
    sc.mint(&ctx(user()), 2 * PRICE, true, 2, &vec![0, 0]).unwrap();
    assert_eq!(sc.get_minted_per_address_per_drop(&user()), 2);
    assert_eq!(sc.mint(&ctx(user()), PRICE, true, 1, &vec![0]), Err(MinterError::DropAddressLimitReached));
    assert_eq!(sc.mint(&ctx(other()), 2 * PRICE, true, 2, &vec![0, 0]), Err(MinterError::NotEnoughTokensLeft));
    sc.mint(&ctx(other()), PRICE, true, 1, &vec![0]).unwrap();
    assert_eq!(sc.drop_tokens_left(), 0);
    assert_eq!(sc.total_tokens_left(), 7);
    // a new drop resets the per-drop counters; the limit defaults to the drop size
    sc.set_drop(&ctx(owner()), 4, None).unwrap();
    assert_eq!(sc.last_drop(), 2);
    assert_eq!(sc.tokens_limit_per_address_per_drop(), 4);
    assert_eq!(sc.get_minted_per_address_per_drop(&user()), 0);
    assert!(sc.mint(&ctx(user()), PRICE, true, 1, &vec![0]).is_ok());
    sc.unset_drop(&ctx(owner())).unwrap();
    assert!(!sc.is_drop_active());
    assert_eq!(sc.amount_of_tokens_per_drop(), 0);
    assert_eq!(sc.get_minted_per_address_per_drop(&user()), 0);
    assert_eq!(sc.minted_per_address_total(&user()), 3);
}

#[test]
fn set_drop_refusals() {
    let mut sc = ready(5, 2);
    assert_eq!(sc.set_drop(&ctx(user()), 1, None), Err(MinterError::OnlyOwner));
    assert_eq!(sc.set_drop(&ctx(owner()), 6, None), Err(MinterError::DropTooLarge));
    assert_eq!(sc.set_drop(&ctx(owner()), 2, Some(3)), Err(MinterError::DropLimitAboveTotalLimit));
    assert!(!sc.is_drop_active());
    assert_eq!(sc.last_drop(), 0);
}

#[test]
fn giveaway_sends_free_tokens() {
    let mut sc = ready(10, 1);
    let r = sc
        .giveaway(&ctx(owner()), true, &vec![user(), Address::zero()], 2, &vec![0, 1, 2, 3])
        .unwrap();
    let receivers: Vec<Address> = r
        .iter()
        .filter_map(|a| match a {
            Action::CreateAndSendNft { receiver, .. } => Some(*receiver),
            _ => None,
        })
        .collect();
    assert_eq!(receivers, vec![user(), user(), owner(), owner()]);
    assert_eq!(r.len(), 4);
    assert_eq!(sc.minted_per_address_total(&user()), 0);
    assert_eq!(sc.minted_indexes_total(), 4);
}

#[test]
fn giveaway_refusals() {
    let mut sc = ready(3, 1);
    assert_eq!(sc.giveaway(&ctx(user()), true, &vec![user()], 1, &vec![0]), Err(MinterError::OnlyOwner));
    assert_eq!(sc.giveaway(&ctx(owner()), false, &vec![user()], 1, &vec![0]), Err(MinterError::NftCreateRoleNotSet));
    assert_eq!(
        sc.giveaway(&ctx(owner()), true, &vec![user(), other()], 2, &vec![0; 4]),
        Err(MinterError::NotEnoughTokensLeft)
    );
    assert_eq!(sc.minted_indexes_total(), 0);
}

#[test]
fn giveaway_of_nothing_when_sold_out_pauses() {
    let mut sc = ready(2, 5);
    sc.mint(&ctx(user()), 2 * PRICE, true, 2, &vec![0, 0]).unwrap();
    assert!(!sc.paused());
    assert_eq!(sc.giveaway(&ctx(owner()), true, &vec![], 1, &vec![]), Ok(vec![]));
    assert!(sc.paused());
}

#[test]
fn get_current_left_tokens_amount_pauses_when_empty() {
    let mut sc = ready(1, 5);
    assert_eq!(sc.get_current_left_tokens_amount(), 1);
    assert!(!sc.paused());
    sc.mint(&ctx(user()), PRICE, true, 1, &vec![0]).unwrap();
    assert_eq!(sc.get_current_left_tokens_amount(), 0);
    assert!(sc.paused());
}

#[test]
fn shuffle_redraws_next_index() {
    let mut sc = ready(5, 5);
    sc.shuffle(&ctx(user()), 1).unwrap();
    assert_eq!(sc.next_index_to_mint(), (2, 2));
    let mut sc_ctx = ctx(user());
    sc_ctx.caller_is_smart_contract = true;
    assert_eq!(sc.shuffle(&sc_ctx, 3), Err(MinterError::OnlyUserAccount));
    assert_eq!(sc.next_index_to_mint(), (2, 2));
}

#[test]
fn issue_token_properties_and_names() {
    let mut sc = Minter::new();
    sc.init(b"i".to_vec(), b"m".to_vec(), 10, 2, 0, PRICE, None, None, None, None).unwrap();
    assert_eq!(
        sc.issue_token(&ctx(user()), 5, b"C".to_vec(), b"T".to_vec(), true, vec![], None),
        Err(MinterError::OnlyOwner)
    );
    let r = sc
        .issue_token(
            &ctx(owner()),
            5,
            b"Coll".to_vec(),
            b"TICK".to_vec(),
            true,
            vec![],
            Some(vec![NFTProperties::CanFreeze, NFTProperties::CanUpgrade, NFTProperties::CanFreeze]),
        )
        .unwrap();
    assert_eq!(
        r,
        vec![Action::IssueCollection {
            cost: 5,
            name: b"Coll".to_vec(),
            ticker: b"TICK".to_vec(),
            properties: TokenProperties {
                can_freeze: true,
                can_wipe: false,
                can_pause: false,
                can_transfer_create_role: false,
                can_change_owner: false,
                can_upgrade: true,
                can_add_special_roles: true,
            },
        }]
    );
    // an empty NFT name falls back to the collection name
    assert_eq!(sc.nft_token_name(), b"Coll".to_vec());
    assert!(sc.no_number_in_nft_name());
}

#[test]
fn issue_callback_refusals_and_refund() {
    let mut sc = Minter::new();
    sc.init(b"i".to_vec(), b"m".to_vec(), 4, 2, 0, PRICE, None, None, None, None).unwrap();
    assert_eq!(
        sc.issue_callback(&owner(), IssueOutcome::Success(IssuedToken::Egld), no_payment(), 0),
        Err(MinterError::EsdtExpected)
    );
    assert_eq!(
        sc.issue_callback(&owner(), IssueOutcome::Success(IssuedToken::Esdt(vec![])), no_payment(), 0),
        Err(MinterError::TokenNotIssued)
    );
    assert_eq!(
        sc.issue_callback(&owner(), IssueOutcome::Failure, Payment { is_egld: true, amount: 50 }, 0),
        Ok(vec![Action::SendEgld { to: owner(), amount: 50 }])
    );
    assert_eq!(
        sc.issue_callback(&owner(), IssueOutcome::Failure, Payment { is_egld: false, amount: 50 }, 0),
        Ok(vec![])
    );
    assert_eq!(sc.nft_token_id(), Vec::<u8>::new());
    sc.issue_callback(&owner(), IssueOutcome::Success(IssuedToken::Esdt(token())), no_payment(), 0)
        .unwrap();
    assert_eq!(
        sc.issue_callback(&owner(), IssueOutcome::Success(IssuedToken::Esdt(token())), no_payment(), 0),
        Err(MinterError::LenAlreadySet)
    );
    assert_eq!(
        sc.issue_token(&ctx(owner()), 5, b"C".to_vec(), b"T".to_vec(), false, vec![], None),
        Err(MinterError::TokenAlreadyIssued)
    );
}

#[test]
fn set_local_roles_asks_for_create_role() {
    let sc = ready(3, 1);
    assert_eq!(
        sc.set_local_roles(&ctx(owner()), &other()),
        Ok(vec![Action::SetNftCreateRole { address: other(), token: token() }])
    );
    assert_eq!(sc.set_local_roles(&ctx(user()), &other()), Err(MinterError::OnlyOwner));
}

#[test]
fn change_base_cids_only_before_minting() {
    let mut sc = ready(5, 5);
    sc.change_base_cids(&ctx(owner()), b"newImg".to_vec(), b"newMeta".to_vec()).unwrap();
    assert_eq!(sc.image_base_cid(), b"newImg".to_vec());
    assert_eq!(sc.metadata_base_cid(), b"newMeta".to_vec());
    sc.mint(&ctx(user()), PRICE, true, 1, &vec![0]).unwrap();
    assert_eq!(
        sc.change_base_cids(&ctx(owner()), b"x".to_vec(), b"y".to_vec()),
        Err(MinterError::TokensAlreadyMinted)
    );
    assert_eq!(sc.image_base_cid(), b"newImg".to_vec());
}

#[test]
fn claim_sc_funds_sends_balance_to_owner() {
    let sc = ready(5, 5);
    assert_eq!(
        sc.claim_sc_funds(&ctx(owner()), 1234),
        Ok(vec![Action::SendEgld { to: owner(), amount: 1234 }])
    );
    assert_eq!(sc.claim_sc_funds(&ctx(user()), 1234), Err(MinterError::OnlyOwner));
}

#[test]
fn owner_only_setters() {
    let mut sc = ready(5, 5);
    assert_eq!(sc.pause_minting(&ctx(user())), Err(MinterError::OnlyOwner));
    assert_eq!(sc.set_new_price(&ctx(user()), 1), Err(MinterError::OnlyOwner));
    assert_eq!(sc.enable_allowlist(&ctx(user())), Err(MinterError::OnlyOwner));
    assert_eq!(sc.unset_drop(&ctx(user())), Err(MinterError::OnlyOwner));
    assert_eq!(sc.change_base_cids(&ctx(user()), vec![], vec![]), Err(MinterError::OnlyOwner));
    assert_eq!(sc.selling_price(), PRICE);
    sc.pause_minting(&ctx(owner())).unwrap();
    assert!(sc.paused());
    sc.set_new_price(&ctx(owner()), 7).unwrap();
    assert_eq!(sc.selling_price(), 7);
}

#[test]
fn init_refusals_and_upgrade_keeps_values() {
    let mut sc = Minter::new();
    assert_eq!(
        sc.init(vec![], vec![], 10, 1, 10001, 0, None, None, None, None),
        Err(MinterError::RoyaltiesTooHigh)
    );
    assert_eq!(sc.init(vec![], vec![], 0, 1, 0, 0, None, None, None, None), Err(MinterError::ZeroTokenSupply));
    assert_eq!(
        sc.init(vec![], vec![], 1, 0, 0, 0, None, None, None, None),
        Err(MinterError::ZeroTokensLimitPerAddress)
    );
    assert!(!sc.paused());
    sc.init(b"a".to_vec(), b"b".to_vec(), 10, 2, 10000, 5, None, None, None, None).unwrap();
    assert_eq!(sc.file_extension(), b".png".to_vec());
    assert_eq!(sc.tags(), Vec::<u8>::new());
    assert!(!sc.is_metadata_in_uris());
    // a second run keeps what is set and fills what is empty
    sc.init(b"c".to_vec(), b"d".to_vec(), 20, 3, 1, 6, Some(b".gif".to_vec()), Some(b"t".to_vec()), None, Some(true))
        .unwrap();
    assert_eq!(sc.image_base_cid(), b"a".to_vec());
    assert_eq!(sc.amount_of_tokens_total(), 10);
    assert_eq!(sc.tokens_limit_per_address_total(), 2);
    assert_eq!(sc.royalties(), 10000);
    assert_eq!(sc.selling_price(), 5);
    assert_eq!(sc.file_extension(), b".png".to_vec());
    assert_eq!(sc.tags(), b"t".to_vec());
    assert!(sc.is_metadata_in_uris());
    assert!(sc.paused());
}

#[test]
fn token_names_and_numbers() {
    let sc = ready(5, 5);
    assert_eq!(sc.decimal_to_ascii(0), b"0".to_vec());
    assert_eq!(sc.decimal_to_ascii(7), b"7".to_vec());
    assert_eq!(sc.decimal_to_ascii(10), b"10".to_vec());
    assert_eq!(sc.decimal_to_ascii(1203), b"1203".to_vec());
    assert_eq!(sc.decimal_to_ascii(u32::MAX), b"4294967295".to_vec());
    assert_eq!(sc.build_token_name_buffer(42), b"Elf #42".to_vec());
    assert_eq!(sc.build_attributes_buffer(42), b"tags:art;metadata:metaCid/42.json".to_vec());
    assert_eq!(
        sc.build_uris_vec(42),
        vec![b"https://ipfs.io/ipfs/imgCid/42.png".to_vec(), b"https://ipfs.io/ipfs/metaCid/42.json".to_vec()]
    );
}

#[test]
fn token_name_without_number() {
    let mut sc = Minter::new();
    sc.init(b"i".to_vec(), b"m".to_vec(), 3, 2, 0, PRICE, None, None, None, None).unwrap();
    sc.issue_token(&ctx(owner()), 5, b"C".to_vec(), b"T".to_vec(), true, b"Same".to_vec(), None).unwrap();
    assert_eq!(sc.build_token_name_buffer(2), b"Same".to_vec());
    assert_eq!(sc.build_uris_vec(2), vec![b"https://ipfs.io/ipfs/i/2.png".to_vec()]);
}

#[test]
fn addresses_compare_bytewise() {
    assert!(user().same_as(&Address::new([2u8; 32])));
    assert!(!user().same_as(&other()));
    assert!(Address::zero().is_zero());
    let mut bytes = [0u8; 32];
    bytes[31] = 1;
    assert!(!Address::new(bytes).is_zero());
}

#[test]
fn snapshot_restores_the_same_minter() {
    let mut sc = ready(6, 3);
    sc.enable_allowlist(&ctx(owner())).unwrap();
    sc.populate_allowlist(&ctx(owner()), &vec![user(), other()]).unwrap();
    sc.set_drop(&ctx(owner()), 4, Some(2)).unwrap();
    sc.mint(&ctx(user()), 2 * PRICE, true, 2, &vec![5, 1]).unwrap();
    let stored = sc.snapshot();
    assert_eq!(stored.minted_per_address_total, vec![(user(), 2)]);
    let mut back = Minter::restore(stored).expect("a snapshot restores");
    assert_eq!(back.tokens_left_to_mint(), sc.tokens_left_to_mint());
    assert_eq!(back.next_index_to_mint(), sc.next_index_to_mint());
    assert_eq!(back.minted_per_address_total(&user()), 2);
    assert_eq!(back.get_minted_per_address_per_drop(&user()), 2);
    assert_eq!(back.allowlist_size(), 2);
    // both go on identically
    let a = sc.mint(&ctx(other()), PRICE, true, 1, &vec![3]);
    let b = back.mint(&ctx(other()), PRICE, true, 1, &vec![3]);
    assert_eq!(a, b);
}

#[test]
fn restore_refuses_broken_storage() {
    let sc = ready(4, 3);
    let mut stored = sc.snapshot();
    stored.tokens_left_to_mint = vec![1, 2, 2, 4];
    assert!(Minter::restore(stored).is_none());
    let mut stored = sc.snapshot();
    stored.minted_indexes_total = 5;
    assert!(Minter::restore(stored).is_none());
    let mut stored = sc.snapshot();
    stored.next_index_to_mint = (2, 3);
    assert!(Minter::restore(stored).is_none());
    let mut stored = Minter::new().snapshot();
    stored.minted_per_address_per_drop = vec![(elven_nft_minter::counts::DropKey { drop: 1, address: user() }, 1)];
    assert!(Minter::restore(stored).is_none());
    assert!(Minter::restore(Minter::new().snapshot()).is_some());
}

#[test]
fn every_index_is_minted_exactly_once() {
    let mut sc = ready(7, 7);
    let mut minted: Vec<u32> = Vec::new();
    let draws = [vec![11, 3], vec![99], vec![0, 5, 8], vec![42]];
    for d in draws.iter() {
        let n = d.len() as u32;
        let actions = sc.mint(&ctx(user()), n as u128 * PRICE, true, n, d).unwrap();
        for a in actions {
            if let Action::CreateAndSendNft { index, .. } = a {
                minted.push(index);
            }
        }
    }
    let giveaway = sc.giveaway(&ctx(owner()), true, &vec![other()], 0, &vec![]).unwrap();
    assert!(giveaway.is_empty());
    minted.sort();
    assert_eq!(minted, vec![1, 2, 3, 4, 5, 6, 7]);
    assert_eq!(sc.total_tokens_left(), 0);
    // the empty giveaway found nothing left and paused minting
    assert!(sc.paused());
    assert_eq!(sc.mint(&ctx(user()), PRICE, true, 1, &vec![0]), Err(MinterError::MintingPaused));
}

#[test]
fn issue_callback_without_supply_has_nothing_to_shuffle() {
    let mut sc = Minter::new();
    assert_eq!(
        sc.issue_callback(&owner(), IssueOutcome::Success(IssuedToken::Esdt(token())), no_payment(), 0),
        Err(MinterError::NothingToShuffle)
    );
    assert_eq!(sc.nft_token_id(), Vec::<u8>::new());
    assert_eq!(sc.tokens_left_to_mint(), Vec::<u32>::new());
}

#[test]
fn set_drop_refuses_when_drop_counter_full() {
    let mut stored = ready(5, 2).snapshot();
    stored.last_drop = u16::MAX;
    let mut sc = Minter::restore(stored).expect("a full drop counter is sound storage");
    assert_eq!(sc.set_drop(&ctx(user()), 1, None), Err(MinterError::OnlyOwner));
    assert_eq!(sc.set_drop(&ctx(owner()), 6, None), Err(MinterError::DropTooLarge));
    assert_eq!(sc.set_drop(&ctx(owner()), 1, None), Err(MinterError::DropCounterFull));
    assert_eq!(sc.last_drop(), u16::MAX);
    assert!(!sc.is_drop_active());
}

#[test]
fn giveaway_beyond_u32_is_refused() {
    let mut sc = ready(3, 1);
    assert_eq!(
        sc.check_giveaway(&ctx(owner()), true, &vec![user(), other()], u32::MAX),
        Err(MinterError::NotEnoughTokensLeft)
    );
    assert_eq!(
        sc.giveaway(&ctx(owner()), true, &vec![user(), other()], u32::MAX, &vec![]),
        Err(MinterError::NotEnoughTokensLeft)
    );
    assert_eq!(sc.check_giveaway(&ctx(owner()), true, &vec![user(), other()], 1), Ok(()));
    assert_eq!(sc.minted_indexes_total(), 0);
}

#[test]
fn mixed_calls_mint_each_index_once() {
    let mut sc = ready(6, 6);
    let mut minted: Vec<u32> = Vec::new();
    let keep = |actions: Vec<Action>, minted: &mut Vec<u32>| {
        for a in actions {
            if let Action::CreateAndSendNft { index, name, .. } = a {
                let mut expected = b"Elf #".to_vec();
                expected.extend_from_slice(index.to_string().as_bytes());
                assert_eq!(name, expected);
                minted.push(index);
            }
        }
    };
    keep(sc.mint(&ctx(user()), PRICE, true, 1, &vec![4]).unwrap(), &mut minted);
    sc.shuffle(&ctx(user()), 17).unwrap();
    keep(sc.giveaway(&ctx(owner()), true, &vec![other()], 2, &vec![9, 2]).unwrap(), &mut minted);
    assert_eq!(sc.mint(&ctx(user()), PRICE, false, 1, &vec![0]), Err(MinterError::NftCreateRoleNotSet));
    sc.shuffle(&ctx(other()), 3).unwrap();
    keep(sc.mint(&ctx(other()), 2 * PRICE, true, 2, &vec![1, 8]).unwrap(), &mut minted);
    keep(sc.giveaway(&ctx(owner()), true, &vec![Address::zero()], 1, &vec![5]).unwrap(), &mut minted);
    assert_eq!(sc.minted_indexes_total(), 6);
    assert_eq!(minted.len(), 6);
    minted.sort();
    assert_eq!(minted, vec![1, 2, 3, 4, 5, 6]);
    assert_eq!(sc.total_tokens_left(), 0);
}

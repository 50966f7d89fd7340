use vstd::prelude::*;

use crate::address::Address;

verus! {

/// Why a call to the minter is refused. A refused call changes nothing.
#[derive(Clone, Copy, Debug, PartialEq, Eq, Structural)]
pub enum MinterError {
    /// The endpoint is reserved to the owner of the contract.
    OnlyOwner,
    /// The endpoint cannot be called by another contract.
    OnlyUserAccount,
    /// Royalties above 100% (10000).
    RoyaltiesTooHigh,
    /// A collection of zero tokens.
    ZeroTokenSupply,
    /// A per-address limit of zero tokens.
    ZeroTokensLimitPerAddress,
    /// The allowlist is enabled and the caller is not on it.
    NotInAllowlist,
    /// A request for zero tokens.
    ZeroMintAmount,
    /// The collection token has not been issued.
    TokenNotIssued,
    /// The contract does not hold the NFT-create role for the collection.
    NftCreateRoleNotSet,
    /// Minting is paused or has not started.
    MintingPaused,
    /// Not enough tokens are left (in total, or in the current drop).
    NotEnoughTokensLeft,
    /// The caller would exceed the limit of tokens per address.
    AddressLimitReached,
    /// The caller would exceed the limit of tokens per address in the current drop.
    DropAddressLimitReached,
    /// The payment is not the price of the tokens asked for.
    InvalidPayment,
    /// There are no indexes left to shuffle.
    NothingToShuffle,
    /// The collection token was issued already.
    TokenAlreadyIssued,
    /// A drop larger than the tokens left.
    DropTooLarge,
    /// A per-drop limit above the total per-address limit.
    DropLimitAboveTotalLimit,
    /// The drop counter has reached its largest value; no further drop can be opened.
    DropCounterFull,
    /// The CIDs cannot change once a token was minted.
    TokensAlreadyMinted,
    /// The pool of indexes to mint was set up already.
    LenAlreadySet,
    /// The issued token is EGLD, where an ESDT was expected.
    EsdtExpected,
}

/// Who calls: the caller, the owner of the contract, and whether the caller is a contract.
#[derive(Clone, Copy, Debug)]
pub struct CallContext {
    pub caller: Address,
    pub owner: Address,
    pub caller_is_smart_contract: bool,
}

/// The properties with which the collection can be issued.
#[derive(Clone, Copy, Debug, PartialEq, Eq, Structural)]
pub enum NFTProperties {
    CanFreeze,
    CanWipe,
    CanPause,
    CanTransferCreateRole,
    CanChangeOwner,
    CanUpgrade,
    CanAddSpecialRoles,
}

/// The flags handed to the system contract when the collection is issued.
#[derive(Clone, Copy, Debug, PartialEq, Eq, Structural)]
pub struct TokenProperties {
    pub can_freeze: bool,
    pub can_wipe: bool,
    pub can_pause: bool,
    pub can_transfer_create_role: bool,
    pub can_change_owner: bool,
    pub can_upgrade: bool,
    pub can_add_special_roles: bool,
}

/// The token that the issue request reports back.
#[derive(Debug, PartialEq, Eq)]
pub enum IssuedToken {
    Egld,
    Esdt(Vec<u8>),
}

/// How the issue request ended.
#[derive(Debug, PartialEq, Eq)]
pub enum IssueOutcome {
    Success(IssuedToken),
    Failure,
}

/// The mathematical form of an [`IssueOutcome`].
pub enum IssueOutcomeModel {
    IssuedEsdt(Seq<u8>),
    IssuedEgld,
    Failure,
}

impl View for IssueOutcome {
    type V = IssueOutcomeModel;

    open spec fn view(&self) -> IssueOutcomeModel {
        match self {
            IssueOutcome::Success(IssuedToken::Esdt(t)) => IssueOutcomeModel::IssuedEsdt(t@),
            IssueOutcome::Success(IssuedToken::Egld) => IssueOutcomeModel::IssuedEgld,
            IssueOutcome::Failure => IssueOutcomeModel::Failure,
        }
    }
}

/// A payment that came with a call: whether it is EGLD, and its amount.
#[derive(Clone, Copy, Debug, PartialEq, Eq)]
pub struct Payment {
    pub is_egld: bool,
    pub amount: u128,
}

/// What the contract asks the chain to do once a call is accepted.
#[derive(Debug, PartialEq, Eq)]
pub enum Action {
    /// Create one NFT of the collection (its attributes hash is the SHA-256 of `attributes`)
    /// and transfer it to `receiver`.
    CreateAndSendNft {
        index: u32,
        token: Vec<u8>,
        name: Vec<u8>,
        royalties: u128,
        attributes: Vec<u8>,
        uris: Vec<Vec<u8>>,
        receiver: Address,
    },
    /// Transfer `amount` EGLD to `to`.
    SendEgld { to: Address, amount: u128 },
    /// Ask the system contract to issue the collection.
    IssueCollection { cost: u128, name: Vec<u8>, ticker: Vec<u8>, properties: TokenProperties },
    /// Ask the system contract to give `address` the NFT-create role for `token`.
    SetNftCreateRole { address: Address, token: Vec<u8> },
}

/// The mathematical form of an [`Action`].
pub enum ActionModel {
    CreateAndSendNft {
        index: u32,
        token: Seq<u8>,
        name: Seq<u8>,
        royalties: u128,
        attributes: Seq<u8>,
        uris: Seq<Seq<u8>>,
        receiver: Seq<u8>,
    },
    SendEgld { to: Seq<u8>, amount: u128 },
    IssueCollection { cost: u128, name: Seq<u8>, ticker: Seq<u8>, properties: TokenProperties },
    SetNftCreateRole { address: Seq<u8>, token: Seq<u8> },
}

impl View for Action {
    type V = ActionModel;

    open spec fn view(&self) -> ActionModel {
        match self {
            Action::CreateAndSendNft { index, token, name, royalties, attributes, uris, receiver } =>
                ActionModel::CreateAndSendNft {
                index: *index,
                token: token@,
                name: name@,
                royalties: *royalties,
                attributes: attributes@,
                uris: uris@.map_values(|u: Vec<u8>| u@),
                receiver: receiver@,
            },
            Action::SendEgld { to, amount } => ActionModel::SendEgld { to: to@, amount: *amount },
            Action::IssueCollection { cost, name, ticker, properties } => ActionModel::IssueCollection {
                cost: *cost,
                name: name@,
                ticker: ticker@,
                properties: *properties,
            },
            Action::SetNftCreateRole { address, token } => ActionModel::SetNftCreateRole {
                address: address@,
                token: token@,
            },
        }
    }
}

/// The actions of a list, as models.
pub open spec fn actions_model(actions: Seq<Action>) -> Seq<ActionModel> {
    actions.map_values(|a: Action| a@)
}

} // verus!

//! Errors of the off-chain coordinator, by kind, with the HTTP status of each.

use vstd::prelude::*;
use crate::contract::ContractError;

verus! {

/// The kind of entity a lookup or an audit entry refers to.
#[derive(Clone, Copy, Debug, PartialEq, Eq, Structural)]
pub enum EntityKind {
    Organization,
    Campaign,
    Donation,
    Disbursement,
}

/// Why a request failed validation.
#[derive(Clone, Copy, Debug, PartialEq, Eq, Structural)]
pub enum Reason {
    DuplicateWallet,
    InvalidGoal,
    InvalidDeadline,
    CampaignNotActive,
    DeadlinePassed,
    NonPositiveAmount,
    AmountTooLarge,
    CampaignClosed,
    InsufficientFunds,
    NotPending,
    NoApprovers,
    QuorumNotMet,
    AlreadyExecuted,
    UnknownStatus,
    NegativeRaised,
    NotLinked,
}

/// A failed request: the entity that was not found, the validation that
/// failed, or what the ledger or the infrastructure answered.
#[derive(Clone, Copy, Debug, PartialEq, Eq, Structural)]
pub enum AppError {
    NotFound(EntityKind),
    Unauthorized,
    BadRequest(Reason),
    ChainRejected(ContractError),
    ChainTransient,
    Internal,
}

/// The message sent back to the caller for error `e`.
pub open spec fn message_text(e: AppError) -> Seq<char> {
    match e {
        AppError::NotFound(EntityKind::Organization) => "Organization not found"@,
        AppError::NotFound(EntityKind::Campaign) => "Campaign not found"@,
        AppError::NotFound(EntityKind::Donation) => "Donation not found"@,
        AppError::NotFound(EntityKind::Disbursement) => "Disbursement not found"@,
        AppError::Unauthorized => "Unauthorized"@,
        AppError::BadRequest(r) => match r {
            Reason::DuplicateWallet => "Organization with this wallet address already exists"@,
            Reason::InvalidGoal => "goal must be greater than 0"@,
            Reason::InvalidDeadline => "deadline must be in the future"@,
            Reason::CampaignNotActive => "Campaign is not active"@,
            Reason::DeadlinePassed => "deadline passed"@,
            Reason::NonPositiveAmount => "amount must be greater than 0"@,
            Reason::AmountTooLarge => "amount too large"@,
            Reason::CampaignClosed => "Campaign is closed"@,
            Reason::InsufficientFunds => "Insufficient funds in campaign"@,
            Reason::NotPending => "Disbursement is not in pending status"@,
            Reason::NoApprovers => "at least one approver is required"@,
            Reason::QuorumNotMet => "Disbursement must be approved first"@,
            Reason::AlreadyExecuted => "Disbursement already executed"@,
            Reason::UnknownStatus => "unknown campaign status"@,
            Reason::NegativeRaised => "raised amount must not be negative"@,
            Reason::NotLinked => "campaign is not linked to this ledger campaign"@,
        },
        AppError::ChainRejected(_) => "ledger rejected the operation"@,
        AppError::ChainTransient => "ledger unavailable, retry later"@,
        AppError::Internal => "internal error"@,
    }
}

impl AppError {
    /// The HTTP status that answers this error.
    pub fn status_code(&self) -> (r: u16)
        ensures
            r == match *self {
                AppError::NotFound(_) => 404u16,
                AppError::Unauthorized => 401u16,
                AppError::BadRequest(_) => 400u16,
                AppError::ChainRejected(_) => 400u16,
                AppError::ChainTransient => 502u16,
                AppError::Internal => 500u16,
            },
    {
        match self {
            AppError::NotFound(_) => 404,
            AppError::Unauthorized => 401,
            AppError::BadRequest(_) => 400,
            AppError::ChainRejected(_) => 400,
            AppError::ChainTransient => 502,
            AppError::Internal => 500,
        }
    }

    /// The ledger's refusal of an invocation, surfaced as it is.
    pub fn from_chain(e: ContractError) -> (r: AppError)
        ensures
            r == AppError::ChainRejected(e),
    {
        AppError::ChainRejected(e)
    }

    /// The message sent back to the caller.
    pub fn message(&self) -> (r: &'static str)
        ensures
            r@ == message_text(*self),
    {
        match self {
            AppError::NotFound(EntityKind::Organization) => "Organization not found",
            AppError::NotFound(EntityKind::Campaign) => "Campaign not found",
            AppError::NotFound(EntityKind::Donation) => "Donation not found",
            AppError::NotFound(EntityKind::Disbursement) => "Disbursement not found",
            AppError::Unauthorized => "Unauthorized",
            AppError::BadRequest(r) => match r {
                Reason::DuplicateWallet => "Organization with this wallet address already exists",
                Reason::InvalidGoal => "goal must be greater than 0",
                Reason::InvalidDeadline => "deadline must be in the future",
                Reason::CampaignNotActive => "Campaign is not active",
                Reason::DeadlinePassed => "deadline passed",
                Reason::NonPositiveAmount => "amount must be greater than 0",
                Reason::AmountTooLarge => "amount too large",
                Reason::CampaignClosed => "Campaign is closed",
                Reason::InsufficientFunds => "Insufficient funds in campaign",
                Reason::NotPending => "Disbursement is not in pending status",
                Reason::NoApprovers => "at least one approver is required",
                Reason::QuorumNotMet => "Disbursement must be approved first",
                Reason::AlreadyExecuted => "Disbursement already executed",
                Reason::UnknownStatus => "unknown campaign status",
                Reason::NegativeRaised => "raised amount must not be negative",
                Reason::NotLinked => "campaign is not linked to this ledger campaign",
            },
            AppError::ChainRejected(_) => "ledger rejected the operation",
            AppError::ChainTransient => "ledger unavailable, retry later",
            AppError::Internal => "internal error",
        }
    }
}

} // verus!

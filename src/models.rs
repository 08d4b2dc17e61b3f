//! Rows of the off-chain mirror, the requests that change them, and the
//! decisions taken on one row: what a request may do and what it changes.
//! Identifiers are 128-bit numbers and instants are Unix seconds.

use vstd::prelude::*;
use crate::contract::CampaignStatus;
use crate::error::{AppError, Reason};
use crate::principal::{add_principal, distinct_principals, insert_principal};
use crate::text::text_eq;

verus! {

/// An organization that runs campaigns, known by its wallet.
pub struct Organization {
    pub id: u128,
    pub name: String,
    pub wallet_address: String,
    pub verified: bool,
    pub email: Option<String>,
    pub description: Option<String>,
    pub created_at: i64,
    pub updated_at: i64,
}

/// A request to register an organization.
pub struct CreateOrganizationRequest {
    pub name: String,
    pub wallet_address: String,
    pub email: Option<String>,
    pub description: Option<String>,
}

/// A partial update: each field present replaces the stored one.
pub struct UpdateOrganizationRequest {
    pub name: Option<String>,
    pub email: Option<String>,
    pub description: Option<String>,
    pub verified: Option<bool>,
}

/// The mirror's copy of a campaign, linked to the ledger's campaign number
/// once the ledger has it.
pub struct Campaign {
    pub id: u128,
    pub name: String,
    pub org_id: u128,
    pub goal_amount: i64,
    pub raised_amount: i64,
    pub deadline: i64,
    pub status: CampaignStatus,
    pub description: Option<String>,
    pub contract_campaign_id: Option<u64>,
    pub created_at: i64,
    pub updated_at: i64,
}

/// A request to create a campaign.
pub struct CreateCampaignRequest {
    pub name: String,
    pub org_id: u128,
    pub goal_amount: i64,
    pub deadline: i64,
    pub description: Option<String>,
}

/// An administrative update of a campaign's status (by name) or balance.
pub struct UpdateCampaignRequest {
    pub status: Option<String>,
    pub raised_amount: Option<i64>,
}

/// A donation as the mirror records it, with its ledger transaction.
pub struct Donation {
    pub id: u128,
    pub campaign_id: u128,
    pub donor_address: String,
    pub amount: i64,
    pub tx_hash: String,
    pub timestamp: i64,
}

/// A request to record a donation.
pub struct CreateDonationRequest {
    pub campaign_id: u128,
    pub donor_address: String,
    pub amount: i64,
    pub tx_hash: String,
}

/// Status of a disbursement in the mirror; `Approved` is the convenience
/// status of a pending disbursement whose approvers reach the quorum.
#[derive(Clone, Copy, Debug, PartialEq, Eq, Structural)]
pub enum DisbursementState {
    Pending,
    Approved,
    Executed,
    Rejected,
}

/// A disbursement as the mirror records it.
pub struct Disbursement {
    pub id: u128,
    pub campaign_id: u128,
    pub recipient_address: String,
    pub amount: i64,
    pub status: DisbursementState,
    pub approved_by: Vec<String>,
    pub tx_hash: Option<String>,
    pub created_at: i64,
    pub executed_at: Option<i64>,
}

/// A request to propose a disbursement.
pub struct CreateDisbursementRequest {
    pub campaign_id: u128,
    pub recipient_address: String,
    pub amount: i64,
}

/// The approvers endorsing a disbursement.
pub struct ApproveDisbursementRequest {
    pub approver_addresses: Vec<String>,
}

/// The confirmed transaction of an execution.
pub struct ExecuteDisbursementRequest {
    pub tx_hash: String,
}

/// Filters and page of a campaign listing.
pub struct CampaignQueryParams {
    pub org_id: Option<u128>,
    pub status: Option<String>,
    pub limit: Option<i64>,
    pub offset: Option<i64>,
}

/// Filter and page of a donation listing.
pub struct DonationQueryParams {
    pub donor_address: Option<String>,
    pub limit: Option<i64>,
    pub offset: Option<i64>,
}

/// The campaign status named `s`, if it names one.
pub open spec fn status_named(s: Seq<char>) -> Option<CampaignStatus> {
    if s == "active"@ {
        Some(CampaignStatus::Active)
    } else if s == "completed"@ {
        Some(CampaignStatus::Completed)
    } else if s == "closed"@ {
        Some(CampaignStatus::Closed)
    } else {
        None
    }
}

/// Reads a campaign status from its name: `active`, `completed` or `closed`.
pub fn parse_status(s: &str) -> (r: Option<CampaignStatus>)
    ensures
        r == status_named(s@),
{
    if text_eq(s, "active") {
        Some(CampaignStatus::Active)
    } else if text_eq(s, "completed") {
        Some(CampaignStatus::Completed)
    } else if text_eq(s, "closed") {
        Some(CampaignStatus::Closed)
    } else {
        None
    }
}

/// The name of a campaign status, as stored and served.
pub fn status_name(s: CampaignStatus) -> (r: &'static str)
    ensures
        s == CampaignStatus::Active ==> r@ == "active"@,
        s == CampaignStatus::Completed ==> r@ == "completed"@,
        s == CampaignStatus::Closed ==> r@ == "closed"@,
{
    match s {
        CampaignStatus::Active => "active",
        CampaignStatus::Completed => "completed",
        CampaignStatus::Closed => "closed",
    }
}

/// The name of a disbursement status, as stored and served.
pub fn state_name(s: DisbursementState) -> (r: &'static str)
    ensures
        s == DisbursementState::Pending ==> r@ == "pending"@,
        s == DisbursementState::Approved ==> r@ == "approved"@,
        s == DisbursementState::Executed ==> r@ == "executed"@,
        s == DisbursementState::Rejected ==> r@ == "rejected"@,
{
    match s {
        DisbursementState::Pending => "pending",
        DisbursementState::Approved => "approved",
        DisbursementState::Executed => "executed",
        DisbursementState::Rejected => "rejected",
    }
}

/// The disbursement status named `s`, if it names one.
pub open spec fn state_named(s: Seq<char>) -> Option<DisbursementState> {
    if s == "pending"@ {
        Some(DisbursementState::Pending)
    } else if s == "approved"@ {
        Some(DisbursementState::Approved)
    } else if s == "executed"@ {
        Some(DisbursementState::Executed)
    } else if s == "rejected"@ {
        Some(DisbursementState::Rejected)
    } else {
        None
    }
}

/// Reads a disbursement status from its name.
pub fn parse_state(s: &str) -> (r: Option<DisbursementState>)
    ensures
        r == state_named(s@),
{
    if text_eq(s, "pending") {
        Some(DisbursementState::Pending)
    } else if text_eq(s, "approved") {
        Some(DisbursementState::Approved)
    } else if text_eq(s, "executed") {
        Some(DisbursementState::Executed)
    } else if text_eq(s, "rejected") {
        Some(DisbursementState::Rejected)
    } else {
        None
    }
}

impl CreateCampaignRequest {
    /// Why the request is refused at instant `now`, if it is.
    pub open spec fn refusal(&self, now: i64) -> Option<Reason> {
        if self.goal_amount <= 0 {
            Some(Reason::InvalidGoal)
        } else if self.deadline <= now {
            Some(Reason::InvalidDeadline)
        } else {
            None
        }
    }

    /// Validates the request at instant `now`: a positive goal and a
    /// deadline after `now`.
    pub fn check(&self, now: i64) -> (r: Result<(), AppError>)
        ensures
            r == match self.refusal(now) {
                Some(x) => Err(AppError::BadRequest(x)),
                None => Ok::<(), AppError>(()),
            },
    {
        if self.goal_amount <= 0 {
            return Err(AppError::BadRequest(Reason::InvalidGoal));
        }
        if self.deadline <= now {
            return Err(AppError::BadRequest(Reason::InvalidDeadline));
        }
        Ok(())
    }
}

/// `s` with each principal of `ps` added in turn, duplicates skipped.
pub open spec fn add_all(s: Seq<String>, ps: Seq<String>) -> Seq<String>
    decreases ps.len(),
{
    if ps.len() == 0 {
        s
    } else {
        add_principal(add_all(s, ps.drop_last()), ps.last())
    }
}

impl Organization {
    /// Applies a partial update at instant `now`.
    pub fn apply_update(&mut self, req: UpdateOrganizationRequest, now: i64)
        ensures
            final(self).id == old(self).id,
            final(self).wallet_address == old(self).wallet_address,
            final(self).created_at == old(self).created_at,
            final(self).updated_at == now,
            final(self).name == match req.name {
                Some(n) => n,
                None => old(self).name,
            },
            final(self).email == match req.email {
                Some(e) => Some(e),
                None => old(self).email,
            },
            final(self).description == match req.description {
                Some(d) => Some(d),
                None => old(self).description,
            },
            final(self).verified == match req.verified {
                Some(v) => v,
                None => old(self).verified,
            },
    {
        if let Some(n) = req.name {
            self.name = n;
        }
        if let Some(e) = req.email {
            self.email = Some(e);
        }
        if let Some(d) = req.description {
            self.description = Some(d);
        }
        if let Some(v) = req.verified {
            self.verified = v;
        }
        self.updated_at = now;
    }
}

impl Campaign {
    /// Why a donation of `amount` at instant `now` is refused, if it is.
    pub open spec fn donation_refusal(&self, amount: i64, now: i64) -> Option<Reason> {
        if self.status != CampaignStatus::Active {
            Some(Reason::CampaignNotActive)
        } else if now > self.deadline {
            Some(Reason::DeadlinePassed)
        } else if amount <= 0 {
            Some(Reason::NonPositiveAmount)
        } else if self.raised_amount + amount > i64::MAX {
            Some(Reason::AmountTooLarge)
        } else {
            None
        }
    }

    /// Validates a donation of `amount` at instant `now`: the campaign must be
    /// active and before its deadline, the amount positive.
    pub fn check_donation(&self, amount: i64, now: i64) -> (r: Result<(), AppError>)
        ensures
            r == match self.donation_refusal(amount, now) {
                Some(x) => Err(AppError::BadRequest(x)),
                None => Ok::<(), AppError>(()),
            },
    {
        if self.status != CampaignStatus::Active {
            return Err(AppError::BadRequest(Reason::CampaignNotActive));
        }
        if now > self.deadline {
            return Err(AppError::BadRequest(Reason::DeadlinePassed));
        }
        if amount <= 0 {
            return Err(AppError::BadRequest(Reason::NonPositiveAmount));
        }
        if self.raised_amount > i64::MAX - amount {
            return Err(AppError::BadRequest(Reason::AmountTooLarge));
        }
        Ok(())
    }

    /// The campaign after an accepted donation of `amount` at instant `now`.
    pub open spec fn after_donation(&self, amount: i64, now: i64) -> Campaign {
        Campaign {
            id: self.id,
            name: self.name,
            org_id: self.org_id,
            goal_amount: self.goal_amount,
            raised_amount: (self.raised_amount + amount) as i64,
            deadline: self.deadline,
            status: if self.raised_amount + amount >= self.goal_amount {
                CampaignStatus::Completed
            } else {
                CampaignStatus::Active
            },
            description: self.description,
            contract_campaign_id: self.contract_campaign_id,
            created_at: self.created_at,
            updated_at: now,
        }
    }

    /// Adds an accepted donation of `amount` to the balance; the campaign is
    /// completed once the balance reaches the goal, and stays so.
    pub fn apply_donation(&mut self, amount: i64, now: i64)
        requires
            old(self).donation_refusal(amount, now).is_none(),
        ensures
            *final(self) == old(self).after_donation(amount, now),
    {
        self.raised_amount = self.raised_amount + amount;
        if self.raised_amount >= self.goal_amount {
            self.status = CampaignStatus::Completed;
        }
        self.updated_at = now;
    }

    /// The campaign after `amount` was paid out of it at instant `now`.
    pub open spec fn after_payout(&self, amount: i64, now: i64) -> Campaign {
        Campaign {
            id: self.id,
            name: self.name,
            org_id: self.org_id,
            goal_amount: self.goal_amount,
            raised_amount: (self.raised_amount - amount) as i64,
            deadline: self.deadline,
            status: self.status,
            description: self.description,
            contract_campaign_id: self.contract_campaign_id,
            created_at: self.created_at,
            updated_at: now,
        }
    }

    /// Takes an executed disbursement of `amount` out of the balance.
    pub fn apply_payout(&mut self, amount: i64, now: i64)
        requires
            0 <= amount <= old(self).raised_amount,
        ensures
            *final(self) == old(self).after_payout(amount, now),
    {
        self.raised_amount = self.raised_amount - amount;
        self.updated_at = now;
    }

    /// Why a proposal to pay out `amount` is refused, if it is. The
    /// available balance is the current balance, from which executed
    /// disbursements are already deducted.
    pub open spec fn proposal_refusal(&self, amount: i64) -> Option<Reason> {
        if amount <= 0 {
            Some(Reason::NonPositiveAmount)
        } else if self.status == CampaignStatus::Closed {
            Some(Reason::CampaignClosed)
        } else if amount > self.raised_amount {
            Some(Reason::InsufficientFunds)
        } else {
            None
        }
    }

    /// Validates a proposal to pay out `amount` from this campaign.
    pub fn check_proposal(&self, amount: i64) -> (r: Result<(), AppError>)
        ensures
            r == match self.proposal_refusal(amount) {
                Some(x) => Err(AppError::BadRequest(x)),
                None => Ok::<(), AppError>(()),
            },
    {
        if amount <= 0 {
            return Err(AppError::BadRequest(Reason::NonPositiveAmount));
        }
        if self.status == CampaignStatus::Closed {
            return Err(AppError::BadRequest(Reason::CampaignClosed));
        }
        if amount > self.raised_amount {
            return Err(AppError::BadRequest(Reason::InsufficientFunds));
        }
        Ok(())
    }

    /// Why an administrative update is refused, if it is.
    pub open spec fn update_refusal(req: &UpdateCampaignRequest) -> Option<Reason> {
        if req.status is Some && status_named(req.status.unwrap()@).is_none() {
            Some(Reason::UnknownStatus)
        } else if req.raised_amount is Some && req.raised_amount.unwrap() < 0 {
            Some(Reason::NegativeRaised)
        } else {
            None
        }
    }

    /// Applies an administrative update at instant `now`: a known status
    /// name and a non-negative balance replace the stored ones.
    pub fn apply_update(&mut self, req: &UpdateCampaignRequest, now: i64) -> (r: Result<(), AppError>)
        ensures
            match Self::update_refusal(req) {
                Some(x) => r == Err::<(), AppError>(AppError::BadRequest(x)) && *final(self) == *old(self),
                None => {
                    &&& r is Ok
                    &&& final(self).status == match req.status {
                        Some(s) => status_named(s@).unwrap(),
                        None => old(self).status,
                    }
                    &&& final(self).raised_amount == match req.raised_amount {
                        Some(v) => v,
                        None => old(self).raised_amount,
                    }
                    &&& final(self).updated_at == now
                    &&& final(self).id == old(self).id
                    &&& final(self).name == old(self).name
                    &&& final(self).org_id == old(self).org_id
                    &&& final(self).goal_amount == old(self).goal_amount
                    &&& final(self).deadline == old(self).deadline
                    &&& final(self).description == old(self).description
                    &&& final(self).contract_campaign_id == old(self).contract_campaign_id
                    &&& final(self).created_at == old(self).created_at
                },
            },
    {
        let mut status = self.status;
        if let Some(s) = &req.status {
            match parse_status(s.as_str()) {
                Some(st) => {
                    status = st;
                },
                None => {
                    return Err(AppError::BadRequest(Reason::UnknownStatus));
                },
            }
        }
        let mut raised = self.raised_amount;
        if let Some(v) = req.raised_amount {
            if v < 0 {
                return Err(AppError::BadRequest(Reason::NegativeRaised));
            }
            raised = v;
        }
        self.status = status;
        self.raised_amount = raised;
        self.updated_at = now;
        Ok(())
    }

    /// Brings the mirror's balance and status in line with the ledger's
    /// record of the same campaign. Fails, changing nothing, when the ledger's
    /// balance is negative or does not fit the mirror's 64-bit amounts.
    pub fn reconcile(&mut self, chain: &crate::contract::Campaign, now: i64) -> (r: Result<(), AppError>)
        ensures
            if 0 <= chain.raised <= i64::MAX {
                &&& r is Ok
                &&& final(self).raised_amount == chain.raised
                &&& final(self).status == chain.status
                &&& final(self).updated_at == now
                &&& final(self).id == old(self).id
                &&& final(self).name == old(self).name
                &&& final(self).org_id == old(self).org_id
                &&& final(self).goal_amount == old(self).goal_amount
                &&& final(self).deadline == old(self).deadline
                &&& final(self).description == old(self).description
                &&& final(self).contract_campaign_id == old(self).contract_campaign_id
                &&& final(self).created_at == old(self).created_at
            } else {
                r == Err::<(), AppError>(AppError::Internal) && *final(self) == *old(self)
            },
    {
        if chain.raised < 0 || chain.raised > i64::MAX as i128 {
            return Err(AppError::Internal);
        }
        self.raised_amount = chain.raised as i64;
        self.status = chain.status;
        self.updated_at = now;
        Ok(())
    }
}

impl Disbursement {
    /// Why an approval by `approvers` is refused, if it is.
    pub open spec fn approval_refusal(&self, approvers: Seq<String>) -> Option<Reason> {
        if self.status != DisbursementState::Pending && self.status != DisbursementState::Approved {
            Some(Reason::NotPending)
        } else if approvers.len() == 0 {
            Some(Reason::NoApprovers)
        } else {
            None
        }
    }

    /// Validates an approval by `approvers`: the disbursement must still wait
    /// for execution, and at least one approver must be given.
    pub fn check_approval(&self, approvers: &Vec<String>) -> (r: Result<(), AppError>)
        ensures
            r == match self.approval_refusal(approvers@) {
                Some(x) => Err(AppError::BadRequest(x)),
                None => Ok::<(), AppError>(()),
            },
    {
        if self.status != DisbursementState::Pending && self.status != DisbursementState::Approved {
            return Err(AppError::BadRequest(Reason::NotPending));
        }
        if approvers.len() == 0 {
            return Err(AppError::BadRequest(Reason::NoApprovers));
        }
        Ok(())
    }

    /// Adds `approvers` to the approver set, skipping those already in it,
    /// then derives the status: approved once the set reaches `quorum`.
    pub fn merge_approvals(&mut self, approvers: &Vec<String>, quorum: u64)
        requires
            old(self).approval_refusal(approvers@).is_none(),
        ensures
            final(self).approved_by@ == add_all(old(self).approved_by@, approvers@),
            final(self).status == if final(self).approved_by@.len() >= quorum {
                DisbursementState::Approved
            } else {
                DisbursementState::Pending
            },
            distinct_principals(old(self).approved_by@) ==> distinct_principals(final(self).approved_by@),
            final(self).id == old(self).id,
            final(self).campaign_id == old(self).campaign_id,
            final(self).recipient_address == old(self).recipient_address,
            final(self).amount == old(self).amount,
            final(self).tx_hash == old(self).tx_hash,
            final(self).created_at == old(self).created_at,
            final(self).executed_at == old(self).executed_at,
    {
        let mut i: usize = 0;
        while i < approvers.len()
            invariant
                i <= approvers@.len(),
                self.approved_by@ == add_all(old(self).approved_by@, approvers@.take(i as int)),
                distinct_principals(old(self).approved_by@) ==> distinct_principals(self.approved_by@),
                self.id == old(self).id,
                self.campaign_id == old(self).campaign_id,
                self.recipient_address == old(self).recipient_address,
                self.amount == old(self).amount,
                self.tx_hash == old(self).tx_hash,
                self.created_at == old(self).created_at,
                self.executed_at == old(self).executed_at,
            decreases approvers@.len() - i,
        {
            proof {
                assert(approvers@.take(i + 1).drop_last() =~= approvers@.take(i as int));
            }
            insert_principal(&mut self.approved_by, &approvers[i]);
            i = i + 1;
        }
        proof {
            assert(approvers@.take(i as int) =~= approvers@);
        }
        if self.approved_by.len() as u64 >= quorum {
            self.status = DisbursementState::Approved;
        } else {
            self.status = DisbursementState::Pending;
        }
    }

    /// Why executing this disbursement out of a campaign whose balance is
    /// `raised` is refused, if it is.
    pub open spec fn execution_refusal(&self, raised: i64) -> Option<Reason> {
        if self.status == DisbursementState::Executed {
            Some(Reason::AlreadyExecuted)
        } else if self.status == DisbursementState::Rejected {
            Some(Reason::NotPending)
        } else if self.status != DisbursementState::Approved {
            Some(Reason::QuorumNotMet)
        } else if self.amount > raised {
            Some(Reason::InsufficientFunds)
        } else {
            None
        }
    }

    /// Validates an execution out of a campaign whose balance is `raised`:
    /// the disbursement must be approved and not yet executed, and the
    /// balance must cover it.
    pub fn check_execution(&self, raised: i64) -> (r: Result<(), AppError>)
        ensures
            r == match self.execution_refusal(raised) {
                Some(x) => Err(AppError::BadRequest(x)),
                None => Ok::<(), AppError>(()),
            },
    {
        if self.status == DisbursementState::Executed {
            return Err(AppError::BadRequest(Reason::AlreadyExecuted));
        }
        if self.status == DisbursementState::Rejected {
            return Err(AppError::BadRequest(Reason::NotPending));
        }
        if self.status != DisbursementState::Approved {
            return Err(AppError::BadRequest(Reason::QuorumNotMet));
        }
        if self.amount > raised {
            return Err(AppError::BadRequest(Reason::InsufficientFunds));
        }
        Ok(())
    }

    /// Marks the disbursement executed under the confirmed transaction
    /// `tx_hash` at instant `now`.
    pub fn mark_executed(&mut self, tx_hash: String, now: i64)
        ensures
            final(self).status == DisbursementState::Executed,
            final(self).tx_hash == Some(tx_hash),
            final(self).executed_at == Some(now),
            final(self).id == old(self).id,
            final(self).campaign_id == old(self).campaign_id,
            final(self).recipient_address == old(self).recipient_address,
            final(self).amount == old(self).amount,
            final(self).approved_by == old(self).approved_by,
            final(self).created_at == old(self).created_at,
    {
        self.status = DisbursementState::Executed;
        self.tx_hash = Some(tx_hash);
        self.executed_at = Some(now);
    }
}

} // verus!

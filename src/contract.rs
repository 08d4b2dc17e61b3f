//! The authoritative ledger: campaigns, donations and disbursements as the
//! on-chain contract stores them, with every entry point as a transition of
//! one state machine. Authorization is modelled by the set of principals that
//! signed the invocation; the ledger's clock is handed in by the caller.

use vstd::prelude::*;
use crate::principal::{add_principal, contains_principal, distinct_principals, holds_principal, insert_principal};

verus! {

/// Status of a campaign on the ledger.
#[derive(Clone, Copy, Debug, PartialEq, Eq, Structural)]
pub enum CampaignStatus {
    Active,
    Completed,
    Closed,
}

/// Status of a disbursement on the ledger. "Approved" is not a stored state:
/// it is a pending disbursement whose approver set has reached the quorum.
#[derive(Clone, Copy, Debug, PartialEq, Eq, Structural)]
pub enum DisbursementStatus {
    Pending,
    Executed,
    Rejected,
}

/// Why the ledger refused an invocation. A refused invocation changes nothing.
#[derive(Clone, Copy, Debug, PartialEq, Eq, Structural)]
pub enum ContractError {
    AlreadyInitialized,
    NotInitialized,
    Unauthorized,
    InvalidGoal,
    InvalidDeadline,
    InvalidQuorum,
    NotFound,
    NotActive,
    DeadlinePassed,
    NonPositiveAmount,
    InsufficientAvailable,
    NotPending,
    QuorumNotMet,
    AlreadyExecuted,
    AlreadyClosed,
    Overflow,
}

/// A campaign record. `raised` is the current balance: donations received
/// minus disbursements executed.
pub struct Campaign {
    pub id: u64,
    pub name: String,
    pub org: String,
    pub goal: i128,
    pub raised: i128,
    pub deadline: u64,
    pub status: CampaignStatus,
}

/// One donation, numbered across all campaigns.
pub struct Donation {
    pub id: u64,
    pub campaign_id: u64,
    pub donor: String,
    pub amount: i128,
    pub timestamp: u64,
}

/// One disbursement, numbered across all campaigns, with its set of approvers.
pub struct Disbursement {
    pub id: u64,
    pub campaign_id: u64,
    pub recipient: String,
    pub amount: i128,
    pub status: DisbursementStatus,
    pub approvers: Vec<String>,
    pub executed_at: Option<u64>,
}

/// The ledger contract's storage. Campaign `n` sits at position `n - 1`, and
/// so do donation `n` and disbursement `n` in their own lists.
pub struct DonationContract {
    admin: Option<String>,
    quorum: u64,
    campaigns: Vec<Campaign>,
    donations: Vec<Donation>,
    disbursements: Vec<Disbursement>,
}

/// What donation `d` contributes to campaign `cid`.
pub open spec fn donation_share(d: Donation, cid: u64) -> int {
    if d.campaign_id == cid {
        d.amount as int
    } else {
        0
    }
}

/// Sum of the donations of `ds` made to campaign `cid`.
pub open spec fn donated_to(ds: Seq<Donation>, cid: u64) -> int
    decreases ds.len(),
{
    if ds.len() == 0 {
        0
    } else {
        donated_to(ds.drop_last(), cid) + donation_share(ds.last(), cid)
    }
}

/// What disbursement `d` has taken out of campaign `cid`: its amount once executed.
pub open spec fn executed_share(d: Disbursement, cid: u64) -> int {
    if d.campaign_id == cid && d.status == DisbursementStatus::Executed {
        d.amount as int
    } else {
        0
    }
}

/// Sum of the executed disbursements of `bs` out of campaign `cid`.
pub open spec fn executed_from(bs: Seq<Disbursement>, cid: u64) -> int
    decreases bs.len(),
{
    if bs.len() == 0 {
        0
    } else {
        executed_from(bs.drop_last(), cid) + executed_share(bs.last(), cid)
    }
}

/// Conservation and non-negative balance for campaign `c`: its balance is what
/// was donated to it minus what was executed out of it, and the latter never
/// exceeds the former.
pub open spec fn campaign_balanced(c: Campaign, ds: Seq<Donation>, bs: Seq<Disbursement>) -> bool {
    &&& c.raised as int == donated_to(ds, c.id) - executed_from(bs, c.id)
    &&& executed_from(bs, c.id) <= donated_to(ds, c.id)
}

/// Shape of the donation at position `k` when there are `n` campaigns.
pub open spec fn donation_wf(d: Donation, k: int, n: int) -> bool {
    &&& d.id == k + 1
    &&& 1 <= d.campaign_id <= n
    &&& d.amount > 0
}

/// Shape of the disbursement at position `k` when there are `n` campaigns:
/// approvers form a set, and an execution time is recorded exactly when executed.
pub open spec fn disbursement_wf(b: Disbursement, k: int, n: int) -> bool {
    &&& b.id == k + 1
    &&& 1 <= b.campaign_id <= n
    &&& b.amount > 0
    &&& distinct_principals(b.approvers@)
    &&& (b.status == DisbursementStatus::Executed <==> b.executed_at.is_some())
}

/// `b` is the disbursement numbered `id` just proposed: pending, with no approver yet.
pub open spec fn fresh_disbursement(b: Disbursement, id: u64, campaign_id: u64, recipient: String, amount: i128) -> bool {
    &&& b.id == id
    &&& b.campaign_id == campaign_id
    &&& b.recipient == recipient
    &&& b.amount == amount
    &&& b.status == DisbursementStatus::Pending
    &&& b.approvers@.len() == 0
    &&& b.executed_at.is_none()
}

/// `b` is `a` with `approver` added to its approver set, nothing else changed.
pub open spec fn approval_added(a: Disbursement, b: Disbursement, approver: String) -> bool {
    &&& b.id == a.id
    &&& b.campaign_id == a.campaign_id
    &&& b.recipient == a.recipient
    &&& b.amount == a.amount
    &&& b.status == a.status
    &&& b.executed_at == a.executed_at
    &&& b.approvers@ == add_principal(a.approvers@, approver)
}

/// The donations of `ds` made to campaign `cid`, in order.
pub open spec fn donations_of(ds: Seq<Donation>, cid: u64) -> Seq<Donation>
    decreases ds.len(),
{
    if ds.len() == 0 {
        Seq::empty()
    } else if ds.last().campaign_id == cid {
        donations_of(ds.drop_last(), cid).push(ds.last())
    } else {
        donations_of(ds.drop_last(), cid)
    }
}

/// What is left to raise before campaign `c` reaches its goal, never below zero.
pub open spec fn remaining_of(c: Campaign) -> int {
    if c.goal - c.raised > 0 {
        c.goal - c.raised
    } else {
        0
    }
}

/// Disbursement `b` once executed at ledger time `now`.
pub open spec fn executed_version(b: Disbursement, now: u64) -> Disbursement {
    Disbursement {
        id: b.id,
        campaign_id: b.campaign_id,
        recipient: b.recipient,
        amount: b.amount,
        status: DisbursementStatus::Executed,
        approvers: b.approvers,
        executed_at: Some(now),
    }
}

/// Campaign `c` once `amount` has been paid out of it.
pub open spec fn after_execution(c: Campaign, amount: i128) -> Campaign {
    Campaign {
        id: c.id,
        name: c.name,
        org: c.org,
        goal: c.goal,
        raised: (c.raised - amount) as i128,
        deadline: c.deadline,
        status: c.status,
    }
}

/// The pending disbursement `b` has enough distinct approvers for `quorum`.
pub open spec fn quorum_met(b: Disbursement, quorum: u64) -> bool {
    b.approvers@.len() >= quorum
}

proof fn lemma_donated_push(ds: Seq<Donation>, d: Donation, cid: u64)
    ensures
        donated_to(ds.push(d), cid) == donated_to(ds, cid) + donation_share(d, cid),
{
    assert(ds.push(d).drop_last() =~= ds);
}

proof fn lemma_executed_push(bs: Seq<Disbursement>, b: Disbursement, cid: u64)
    ensures
        executed_from(bs.push(b), cid) == executed_from(bs, cid) + executed_share(b, cid),
{
    assert(bs.push(b).drop_last() =~= bs);
}

proof fn lemma_executed_update(bs: Seq<Disbursement>, j: int, b: Disbursement, cid: u64)
    requires
        0 <= j < bs.len(),
    ensures
        executed_from(bs.update(j, b), cid) == executed_from(bs, cid) - executed_share(bs[j], cid)
            + executed_share(b, cid),
    decreases bs.len(),
{
    let us = bs.update(j, b);
    if j == bs.len() - 1 {
        assert(us.drop_last() =~= bs.drop_last());
    } else {
        assert(us.drop_last() =~= bs.drop_last().update(j, b));
        lemma_executed_update(bs.drop_last(), j, b, cid);
    }
}

proof fn lemma_donated_none(ds: Seq<Donation>, cid: u64)
    requires
        forall|k: int| 0 <= k < ds.len() ==> (#[trigger] ds[k]).campaign_id != cid,
    ensures
        donated_to(ds, cid) == 0,
    decreases ds.len(),
{
    if ds.len() > 0 {
        lemma_donated_none(ds.drop_last(), cid);
    }
}

proof fn lemma_executed_none(bs: Seq<Disbursement>, cid: u64)
    requires
        forall|k: int| 0 <= k < bs.len() ==> (#[trigger] bs[k]).campaign_id != cid,
    ensures
        executed_from(bs, cid) == 0,
    decreases bs.len(),
{
    if bs.len() > 0 {
        lemma_executed_none(bs.drop_last(), cid);
    }
}

impl Donation {
    /// A field-by-field copy.
    pub fn duplicate(&self) -> (r: Donation)
        ensures
            r == *self,
    {
        Donation {
            id: self.id,
            campaign_id: self.campaign_id,
            donor: self.donor.clone(),
            amount: self.amount,
            timestamp: self.timestamp,
        }
    }
}

impl DonationContract {
    /// The stored admin, once initialized.
    pub closed spec fn admin_of(&self) -> Option<String> {
        self.admin
    }

    /// The number of distinct approvers that execution needs.
    pub closed spec fn quorum_of(&self) -> u64 {
        self.quorum
    }

    /// All campaigns, campaign `n` at position `n - 1`.
    pub closed spec fn campaign_seq(&self) -> Seq<Campaign> {
        self.campaigns@
    }

    /// All donations, in the order they were made.
    pub closed spec fn donation_seq(&self) -> Seq<Donation> {
        self.donations@
    }

    /// All disbursements, in the order they were proposed.
    pub closed spec fn disbursement_seq(&self) -> Seq<Disbursement> {
        self.disbursements@
    }

    /// The ledger's invariant: numbering, balances that obey conservation and
    /// never go negative, positive amounts, approver sets, a quorum of at least one.
    pub open spec fn wf(&self) -> bool {
        let cs = self.campaign_seq();
        let ds = self.donation_seq();
        let bs = self.disbursement_seq();
        &&& self.quorum_of() >= 1
        &&& forall|i: int| 0 <= i < cs.len() ==> (#[trigger] cs[i]).id == i + 1 && cs[i].goal > 0
        &&& forall|i: int| 0 <= i < cs.len() ==> campaign_balanced(#[trigger] cs[i], ds, bs)
        &&& forall|k: int| 0 <= k < ds.len() ==> donation_wf(#[trigger] ds[k], k, cs.len() as int)
        &&& forall|k: int| 0 <= k < bs.len() ==> disbursement_wf(#[trigger] bs[k], k, cs.len() as int)
    }

    /// Whether `p` is the stored admin.
    pub open spec fn is_admin(&self, p: Seq<char>) -> bool {
        match self.admin_of() {
            Some(a) => a@ == p,
            None => false,
        }
    }

    /// Whether `id` names a stored campaign.
    pub open spec fn has_campaign(&self, id: u64) -> bool {
        1 <= id <= self.campaign_seq().len()
    }

    /// The campaign named `id`.
    pub open spec fn campaign_at(&self, id: u64) -> Campaign {
        self.campaign_seq()[id - 1]
    }

    /// Whether `id` names a stored disbursement.
    pub open spec fn has_disbursement(&self, id: u64) -> bool {
        1 <= id <= self.disbursement_seq().len()
    }

    /// The disbursement named `id`.
    pub open spec fn disbursement_at(&self, id: u64) -> Disbursement {
        self.disbursement_seq()[id - 1]
    }

    /// A fresh, uninitialized ledger: no admin, quorum one, nothing stored.
    pub fn new() -> (r: DonationContract)
        ensures
            r.wf(),
            r.admin_of().is_none(),
            r.quorum_of() == 1,
            r.campaign_seq().len() == 0,
            r.donation_seq().len() == 0,
            r.disbursement_seq().len() == 0,
    {
        DonationContract {
            admin: None,
            quorum: 1,
            campaigns: Vec::new(),
            donations: Vec::new(),
            disbursements: Vec::new(),
        }
    }

    /// Outcome of `initialize` when it fails.
    pub open spec fn initialize_error(&self, admin: String, auth: Seq<String>) -> Option<ContractError> {
        if self.admin_of().is_some() {
            Some(ContractError::AlreadyInitialized)
        } else if !holds_principal(auth, admin@) {
            Some(ContractError::Unauthorized)
        } else {
            None
        }
    }

    /// Records `admin` as the ledger's admin; only possible once, and only
    /// with the admin's signature among `auth`.
    pub fn initialize(&mut self, admin: &String, auth: &Vec<String>) -> (r: Result<(), ContractError>)
        requires
            old(self).wf(),
        ensures
            final(self).wf(),
            match old(self).initialize_error(*admin, auth@) {
                Some(e) => r == Err::<(), ContractError>(e) && *final(self) == *old(self),
                None => {
                    &&& r is Ok
                    &&& final(self).admin_of() == Some(*admin)
                    &&& final(self).quorum_of() == old(self).quorum_of()
                    &&& final(self).campaign_seq() == old(self).campaign_seq()
                    &&& final(self).donation_seq() == old(self).donation_seq()
                    &&& final(self).disbursement_seq() == old(self).disbursement_seq()
                },
            },
    {
        if self.admin.is_some() {
            return Err(ContractError::AlreadyInitialized);
        }
        if !contains_principal(auth, admin) {
            return Err(ContractError::Unauthorized);
        }
        self.admin = Some(admin.clone());
        assert(self.donation_seq() == old(self).donation_seq());
        assert(self.disbursement_seq() == old(self).disbursement_seq());
        Ok(())
    }

    /// Outcome of `set_quorum` when it fails.
    pub open spec fn set_quorum_error(&self, admin: String, n: u64, auth: Seq<String>) -> Option<ContractError> {
        match self.admin_of() {
            None => Some(ContractError::NotInitialized),
            Some(a) => if a@ != admin@ || !holds_principal(auth, admin@) {
                Some(ContractError::Unauthorized)
            } else if n < 1 {
                Some(ContractError::InvalidQuorum)
            } else {
                None
            },
        }
    }

    /// Sets the quorum to `n` (at least one), by the admin alone.
    pub fn set_quorum(&mut self, admin: &String, n: u64, auth: &Vec<String>) -> (r: Result<(), ContractError>)
        requires
            old(self).wf(),
        ensures
            final(self).wf(),
            match old(self).set_quorum_error(*admin, n, auth@) {
                Some(e) => r == Err::<(), ContractError>(e) && *final(self) == *old(self),
                None => {
                    &&& r is Ok
                    &&& final(self).quorum_of() == n
                    &&& final(self).admin_of() == old(self).admin_of()
                    &&& final(self).campaign_seq() == old(self).campaign_seq()
                    &&& final(self).donation_seq() == old(self).donation_seq()
                    &&& final(self).disbursement_seq() == old(self).disbursement_seq()
                },
            },
    {
        match &self.admin {
            None => {
                return Err(ContractError::NotInitialized);
            },
            Some(a) => {
                if *a != *admin || !contains_principal(auth, admin) {
                    return Err(ContractError::Unauthorized);
                }
            },
        }
        if n < 1 {
            return Err(ContractError::InvalidQuorum);
        }
        self.quorum = n;
        assert(self.donation_seq() == old(self).donation_seq());
        assert(self.disbursement_seq() == old(self).disbursement_seq());
        Ok(())
    }
    /// Outcome of `create_campaign` when it fails.
    pub open spec fn create_campaign_error(org: String, goal: i128, deadline: u64, now: u64, auth: Seq<String>) -> Option<ContractError> {
        if !holds_principal(auth, org@) {
            Some(ContractError::Unauthorized)
        } else if goal <= 0 {
            Some(ContractError::InvalidGoal)
        } else if deadline <= now {
            Some(ContractError::InvalidDeadline)
        } else {
            None
        }
    }

    /// Opens campaign number `count + 1` for `org`, which must have signed,
    /// with a positive goal and a deadline after the ledger time `now`.
    pub fn create_campaign(
        &mut self,
        org: &String,
        name: &String,
        goal: i128,
        deadline: u64,
        now: u64,
        auth: &Vec<String>,
    ) -> (r: Result<u64, ContractError>)
        requires
            old(self).wf(),
            old(self).campaign_seq().len() < u64::MAX,
        ensures
            final(self).wf(),
            match Self::create_campaign_error(*org, goal, deadline, now, auth@) {
                Some(e) => r == Err::<u64, ContractError>(e) && *final(self) == *old(self),
                None => {
                    &&& r == Ok::<u64, ContractError>((old(self).campaign_seq().len() + 1) as u64)
                    &&& final(self).campaign_seq() == old(self).campaign_seq().push(
                        (Campaign {
                            id: (old(self).campaign_seq().len() + 1) as u64,
                            name: *name,
                            org: *org,
                            goal,
                            raised: 0,
                            deadline,
                            status: CampaignStatus::Active,
                        }),
                    )
                    &&& final(self).admin_of() == old(self).admin_of()
                    &&& final(self).quorum_of() == old(self).quorum_of()
                    &&& final(self).donation_seq() == old(self).donation_seq()
                    &&& final(self).disbursement_seq() == old(self).disbursement_seq()
                },
            },
    {
        if !contains_principal(auth, org) {
            return Err(ContractError::Unauthorized);
        }
        if goal <= 0 {
            return Err(ContractError::InvalidGoal);
        }
        if deadline <= now {
            return Err(ContractError::InvalidDeadline);
        }
        let id: u64 = self.campaigns.len() as u64 + 1;
        let campaign = Campaign {
            id,
            name: name.clone(),
            org: org.clone(),
            goal,
            raised: 0,
            deadline,
            status: CampaignStatus::Active,
        };
        proof {
            let ds = self.donation_seq();
            let bs = self.disbursement_seq();
            assert(self.wf());
            assert forall|k: int| 0 <= k < ds.len() implies (#[trigger] ds[k]).campaign_id != id by {
                assert(donation_wf(ds[k], k, self.campaign_seq().len() as int));
            }
            assert forall|k: int| 0 <= k < bs.len() implies (#[trigger] bs[k]).campaign_id != id by {
                assert(disbursement_wf(bs[k], k, self.campaign_seq().len() as int));
            }
            lemma_donated_none(ds, id);
            lemma_executed_none(bs, id);
        }
        self.campaigns.push(campaign);
        proof {
            let cs = self.campaigns@;
            let ds = self.donations@;
            let bs = self.disbursements@;
            assert forall|k: int| 0 <= k < ds.len() implies donation_wf(#[trigger] ds[k], k, cs.len() as int) by {
                assert(donation_wf(ds[k], k, old(self).campaigns@.len() as int));
            }
            assert forall|k: int| 0 <= k < bs.len() implies disbursement_wf(#[trigger] bs[k], k, cs.len() as int) by {
                assert(disbursement_wf(bs[k], k, old(self).campaigns@.len() as int));
            }
            assert forall|i: int| 0 <= i < cs.len() implies campaign_balanced(#[trigger] cs[i], ds, bs) by {
                if i < cs.len() - 1 {
                    assert(cs[i] == old(self).campaigns@[i]);
                }
            }
        }
        Ok(id)
    }

    /// Outcome of `donate` when it fails.
    pub open spec fn donate_error(&self, campaign_id: u64, donor: String, amount: i128, now: u64, auth: Seq<String>) -> Option<ContractError> {
        if !holds_principal(auth, donor@) {
            Some(ContractError::Unauthorized)
        } else if amount <= 0 {
            Some(ContractError::NonPositiveAmount)
        } else if !self.has_campaign(campaign_id) {
            Some(ContractError::NotFound)
        } else if self.campaign_at(campaign_id).status != CampaignStatus::Active {
            Some(ContractError::NotActive)
        } else if now > self.campaign_at(campaign_id).deadline {
            Some(ContractError::DeadlinePassed)
        } else if self.campaign_at(campaign_id).raised + amount > i128::MAX {
            Some(ContractError::Overflow)
        } else {
            None
        }
    }

    /// Campaign `c` after receiving `amount`: the balance grows, and the
    /// campaign is completed once the balance reaches the goal.
    pub open spec fn after_donation(c: Campaign, amount: i128) -> Campaign {
        Campaign {
            id: c.id,
            name: c.name,
            org: c.org,
            goal: c.goal,
            raised: (c.raised + amount) as i128,
            deadline: c.deadline,
            status: if c.raised + amount >= c.goal {
                CampaignStatus::Completed
            } else {
                CampaignStatus::Active
            },
        }
    }

    /// Records a donation of `amount` by `donor` (who must have signed) to an
    /// active campaign whose deadline has not passed at ledger time `now`.
    /// Returns the donation's number across all campaigns.
    pub fn donate(
        &mut self,
        campaign_id: u64,
        donor: &String,
        amount: i128,
        now: u64,
        auth: &Vec<String>,
    ) -> (r: Result<u64, ContractError>)
        requires
            old(self).wf(),
            old(self).donation_seq().len() < u64::MAX,
        ensures
            final(self).wf(),
            match old(self).donate_error(campaign_id, *donor, amount, now, auth@) {
                Some(e) => r == Err::<u64, ContractError>(e) && *final(self) == *old(self),
                None => {
                    &&& r == Ok::<u64, ContractError>((old(self).donation_seq().len() + 1) as u64)
                    &&& final(self).campaign_seq() == old(self).campaign_seq().update(
                        campaign_id - 1,
                        Self::after_donation(old(self).campaign_at(campaign_id), amount),
                    )
                    &&& final(self).donation_seq() == old(self).donation_seq().push(
                        (Donation {
                            id: (old(self).donation_seq().len() + 1) as u64,
                            campaign_id,
                            donor: *donor,
                            amount,
                            timestamp: now,
                        }),
                    )
                    &&& final(self).admin_of() == old(self).admin_of()
                    &&& final(self).quorum_of() == old(self).quorum_of()
                    &&& final(self).disbursement_seq() == old(self).disbursement_seq()
                },
            },
    {
        if !contains_principal(auth, donor) {
            return Err(ContractError::Unauthorized);
        }
        if amount <= 0 {
            return Err(ContractError::NonPositiveAmount);
        }
        if campaign_id < 1 || campaign_id > self.campaigns.len() as u64 {
            return Err(ContractError::NotFound);
        }
        let i: usize = (campaign_id - 1) as usize;
        if self.campaigns[i].status != CampaignStatus::Active {
            return Err(ContractError::NotActive);
        }
        if now > self.campaigns[i].deadline {
            return Err(ContractError::DeadlinePassed);
        }
        let raised = self.campaigns[i].raised;
        if raised > i128::MAX - amount {
            return Err(ContractError::Overflow);
        }
        let new_raised: i128 = raised + amount;
        let goal = self.campaigns[i].goal;
        self.campaigns[i].raised = new_raised;
        if new_raised >= goal {
            self.campaigns[i].status = CampaignStatus::Completed;
        }
        let id: u64 = self.donations.len() as u64 + 1;
        let donation = Donation { id, campaign_id, donor: donor.clone(), amount, timestamp: now };
        proof {
            lemma_donated_push(self.donations@, donation, campaign_id);
        }
        self.donations.push(donation);
        proof {
            let cs = self.campaigns@;
            let ds = self.donations@;
            let bs = self.disbursements@;
            assert(cs[i as int] == Self::after_donation(old(self).campaigns@[i as int], amount));
            assert(cs =~= old(self).campaigns@.update(i as int, Self::after_donation(old(self).campaigns@[i as int], amount)));
            assert forall|j: int| 0 <= j < cs.len() implies campaign_balanced(#[trigger] cs[j], ds, bs) by {
                lemma_donated_push(old(self).donations@, donation, cs[j].id);
                assert(campaign_balanced(old(self).campaigns@[j], old(self).donations@, bs));
            }
            assert forall|k: int| 0 <= k < ds.len() implies donation_wf(#[trigger] ds[k], k, cs.len() as int) by {
                if k < ds.len() - 1 {
                    assert(ds[k] == old(self).donations@[k]);
                }
            }
        }
        Ok(id)
    }

    /// Outcome of `close_campaign` when it fails.
    pub open spec fn close_campaign_error(&self, campaign_id: u64, auth: Seq<String>) -> Option<ContractError> {
        if !self.has_campaign(campaign_id) {
            Some(ContractError::NotFound)
        } else if !holds_principal(auth, self.campaign_at(campaign_id).org@) {
            Some(ContractError::Unauthorized)
        } else if self.campaign_at(campaign_id).status == CampaignStatus::Closed {
            Some(ContractError::AlreadyClosed)
        } else {
            None
        }
    }

    /// Closes a campaign, with its owner's signature. The balance stays.
    pub fn close_campaign(&mut self, campaign_id: u64, auth: &Vec<String>) -> (r: Result<(), ContractError>)
        requires
            old(self).wf(),
        ensures
            final(self).wf(),
            match old(self).close_campaign_error(campaign_id, auth@) {
                Some(e) => r == Err::<(), ContractError>(e) && *final(self) == *old(self),
                None => {
                    let c = old(self).campaign_at(campaign_id);
                    &&& r is Ok
                    &&& final(self).campaign_seq() == old(self).campaign_seq().update(
                        campaign_id - 1,
                        (Campaign {
                            id: c.id,
                            name: c.name,
                            org: c.org,
                            goal: c.goal,
                            raised: c.raised,
                            deadline: c.deadline,
                            status: CampaignStatus::Closed,
                        }),
                    )
                    &&& final(self).admin_of() == old(self).admin_of()
                    &&& final(self).quorum_of() == old(self).quorum_of()
                    &&& final(self).donation_seq() == old(self).donation_seq()
                    &&& final(self).disbursement_seq() == old(self).disbursement_seq()
                },
            },
    {
        if campaign_id < 1 || campaign_id > self.campaigns.len() as u64 {
            return Err(ContractError::NotFound);
        }
        let i: usize = (campaign_id - 1) as usize;
        if !contains_principal(auth, &self.campaigns[i].org) {
            return Err(ContractError::Unauthorized);
        }
        if self.campaigns[i].status == CampaignStatus::Closed {
            return Err(ContractError::AlreadyClosed);
        }
        self.campaigns[i].status = CampaignStatus::Closed;
        proof {
            let cs = self.campaigns@;
            assert(self.donations@ == old(self).donations@);
            assert(self.disbursements@ == old(self).disbursements@);
            assert forall|j: int| 0 <= j < cs.len() implies campaign_balanced(#[trigger] cs[j], self.donations@, self.disbursements@) by {
                assert(campaign_balanced(old(self).campaigns@[j], old(self).donations@, old(self).disbursements@));
            }
        }
        Ok(())
    }
    /// Outcome of `propose_disbursement` when it fails.
    pub open spec fn propose_error(&self, campaign_id: u64, amount: i128, proposer: String, auth: Seq<String>) -> Option<ContractError> {
        if !self.has_campaign(campaign_id) {
            Some(ContractError::NotFound)
        } else if proposer@ != self.campaign_at(campaign_id).org@ || !holds_principal(auth, proposer@) {
            Some(ContractError::Unauthorized)
        } else if amount <= 0 {
            Some(ContractError::NonPositiveAmount)
        } else if self.campaign_at(campaign_id).status == CampaignStatus::Closed {
            Some(ContractError::AlreadyClosed)
        } else if amount > self.campaign_at(campaign_id).raised {
            Some(ContractError::InsufficientAvailable)
        } else {
            None
        }
    }

    /// The owning organization (`proposer`, who must have signed) proposes to
    /// pay `amount` out of the campaign's available balance to `recipient`;
    /// the available balance is `raised`, from which executed disbursements
    /// are already deducted.
    /// The new disbursement is pending with no approver; its number is returned.
    pub fn propose_disbursement(
        &mut self,
        campaign_id: u64,
        recipient: &String,
        amount: i128,
        proposer: &String,
        auth: &Vec<String>,
    ) -> (r: Result<u64, ContractError>)
        requires
            old(self).wf(),
            old(self).disbursement_seq().len() < u64::MAX,
        ensures
            final(self).wf(),
            match old(self).propose_error(campaign_id, amount, *proposer, auth@) {
                Some(e) => r == Err::<u64, ContractError>(e) && *final(self) == *old(self),
                None => {
                    let id = (old(self).disbursement_seq().len() + 1) as u64;
                    &&& r == Ok::<u64, ContractError>(id)
                    &&& final(self).disbursement_seq().len() == id
                    &&& final(self).disbursement_seq().drop_last() == old(self).disbursement_seq()
                    &&& fresh_disbursement(final(self).disbursement_seq().last(), id, campaign_id, *recipient, amount)
                    &&& final(self).admin_of() == old(self).admin_of()
                    &&& final(self).quorum_of() == old(self).quorum_of()
                    &&& final(self).campaign_seq() == old(self).campaign_seq()
                    &&& final(self).donation_seq() == old(self).donation_seq()
                },
            },
    {
        if campaign_id < 1 || campaign_id > self.campaigns.len() as u64 {
            return Err(ContractError::NotFound);
        }
        let i: usize = (campaign_id - 1) as usize;
        if *proposer != self.campaigns[i].org || !contains_principal(auth, proposer) {
            return Err(ContractError::Unauthorized);
        }
        if amount <= 0 {
            return Err(ContractError::NonPositiveAmount);
        }
        if self.campaigns[i].status == CampaignStatus::Closed {
            return Err(ContractError::AlreadyClosed);
        }
        if amount > self.campaigns[i].raised {
            return Err(ContractError::InsufficientAvailable);
        }
        let id: u64 = self.disbursements.len() as u64 + 1;
        let b = Disbursement {
            id,
            campaign_id,
            recipient: recipient.clone(),
            amount,
            status: DisbursementStatus::Pending,
            approvers: Vec::new(),
            executed_at: None,
        };
        self.disbursements.push(b);
        proof {
            let cs = self.campaign_seq();
            let ds = self.donation_seq();
            let bs = self.disbursement_seq();
            assert(bs.drop_last() =~= old(self).disbursement_seq());
            assert forall|j: int| 0 <= j < cs.len() implies campaign_balanced(#[trigger] cs[j], ds, bs) by {
                lemma_executed_push(old(self).disbursement_seq(), b, cs[j].id);
                assert(campaign_balanced(old(self).campaign_seq()[j], ds, old(self).disbursement_seq()));
            }
            assert forall|k: int| 0 <= k < bs.len() implies disbursement_wf(#[trigger] bs[k], k, cs.len() as int) by {
                if k < bs.len() - 1 {
                    assert(bs[k] == old(self).disbursement_seq()[k]);
                }
            }
        }
        Ok(id)
    }

    /// Outcome of `approve_disbursement` when it fails.
    pub open spec fn approve_error(&self, id: u64, approver: String, auth: Seq<String>) -> Option<ContractError> {
        if !self.has_disbursement(id) {
            Some(ContractError::NotFound)
        } else if !holds_principal(auth, approver@) {
            Some(ContractError::Unauthorized)
        } else if self.disbursement_at(id).status != DisbursementStatus::Pending {
            Some(ContractError::NotPending)
        } else {
            None
        }
    }

    /// Adds `approver` (who must have signed) to a pending disbursement's
    /// approver set; approving twice changes nothing.
    pub fn approve_disbursement(&mut self, id: u64, approver: &String, auth: &Vec<String>) -> (r: Result<(), ContractError>)
        requires
            old(self).wf(),
        ensures
            final(self).wf(),
            match old(self).approve_error(id, *approver, auth@) {
                Some(e) => r == Err::<(), ContractError>(e) && *final(self) == *old(self),
                None => {
                    &&& r is Ok
                    &&& final(self).disbursement_seq().len() == old(self).disbursement_seq().len()
                    &&& forall|k: int| 0 <= k < old(self).disbursement_seq().len() && k != id - 1
                        ==> #[trigger] final(self).disbursement_seq()[k] == old(self).disbursement_seq()[k]
                    &&& approval_added(old(self).disbursement_at(id), final(self).disbursement_at(id), *approver)
                    &&& final(self).admin_of() == old(self).admin_of()
                    &&& final(self).quorum_of() == old(self).quorum_of()
                    &&& final(self).campaign_seq() == old(self).campaign_seq()
                    &&& final(self).donation_seq() == old(self).donation_seq()
                },
            },
    {
        if id < 1 || id > self.disbursements.len() as u64 {
            return Err(ContractError::NotFound);
        }
        let i: usize = (id - 1) as usize;
        if !contains_principal(auth, approver) {
            return Err(ContractError::Unauthorized);
        }
        if self.disbursements[i].status != DisbursementStatus::Pending {
            return Err(ContractError::NotPending);
        }
        proof {
            assert(disbursement_wf(self.disbursement_seq()[i as int], i as int, self.campaign_seq().len() as int));
        }
        insert_principal(&mut self.disbursements[i].approvers, approver);
        proof {
            let cs = self.campaign_seq();
            let ds = self.donation_seq();
            let bs = self.disbursement_seq();
            let ob = old(self).disbursement_seq();
            assert(ds == old(self).donation_seq());
            assert(bs =~= ob.update(i as int, bs[i as int]));
            assert forall|j: int| 0 <= j < cs.len() implies campaign_balanced(#[trigger] cs[j], ds, bs) by {
                lemma_executed_update(ob, i as int, bs[i as int], cs[j].id);
                assert(campaign_balanced(old(self).campaign_seq()[j], ds, ob));
            }
            assert forall|k: int| 0 <= k < bs.len() implies disbursement_wf(#[trigger] bs[k], k, cs.len() as int) by {
                if k != i {
                    assert(bs[k] == ob[k]);
                }
            }
        }
        Ok(())
    }

    /// Outcome of `reject_disbursement` when it fails.
    pub open spec fn reject_error(&self, id: u64, caller: String, auth: Seq<String>) -> Option<ContractError> {
        if !self.has_disbursement(id) {
            Some(ContractError::NotFound)
        } else if !holds_principal(auth, caller@) || (caller@ != self.campaign_at(
            self.disbursement_at(id).campaign_id,
        ).org@ && !self.is_admin(caller@)) {
            Some(ContractError::Unauthorized)
        } else if self.disbursement_at(id).status != DisbursementStatus::Pending {
            Some(ContractError::NotPending)
        } else {
            None
        }
    }

    /// The owning organization or the admin (`caller`, who must have signed)
    /// rejects a pending disbursement for good.
    pub fn reject_disbursement(&mut self, id: u64, caller: &String, auth: &Vec<String>) -> (r: Result<(), ContractError>)
        requires
            old(self).wf(),
        ensures
            final(self).wf(),
            match old(self).reject_error(id, *caller, auth@) {
                Some(e) => r == Err::<(), ContractError>(e) && *final(self) == *old(self),
                None => {
                    let b = old(self).disbursement_at(id);
                    &&& r is Ok
                    &&& final(self).disbursement_seq() == old(self).disbursement_seq().update(
                        id - 1,
                        (Disbursement {
                            id: b.id,
                            campaign_id: b.campaign_id,
                            recipient: b.recipient,
                            amount: b.amount,
                            status: DisbursementStatus::Rejected,
                            approvers: b.approvers,
                            executed_at: b.executed_at,
                        }),
                    )
                    &&& final(self).admin_of() == old(self).admin_of()
                    &&& final(self).quorum_of() == old(self).quorum_of()
                    &&& final(self).campaign_seq() == old(self).campaign_seq()
                    &&& final(self).donation_seq() == old(self).donation_seq()
                },
            },
    {
        if id < 1 || id > self.disbursements.len() as u64 {
            return Err(ContractError::NotFound);
        }
        let i: usize = (id - 1) as usize;
        proof {
            assert(disbursement_wf(self.disbursement_seq()[i as int], i as int, self.campaign_seq().len() as int));
        }
        let cid = self.disbursements[i].campaign_id;
        assert(1 <= cid <= self.campaigns.len());
        let ci: usize = (cid - 1) as usize;
        let is_admin = match &self.admin {
            Some(a) => *a == *caller,
            None => false,
        };
        if !contains_principal(auth, caller) || (*caller != self.campaigns[ci].org && !is_admin) {
            return Err(ContractError::Unauthorized);
        }
        if self.disbursements[i].status != DisbursementStatus::Pending {
            return Err(ContractError::NotPending);
        }
        self.disbursements[i].status = DisbursementStatus::Rejected;
        proof {
            let cs = self.campaign_seq();
            let ds = self.donation_seq();
            let bs = self.disbursement_seq();
            let ob = old(self).disbursement_seq();
            assert(ds == old(self).donation_seq());
            assert(bs =~= ob.update(i as int, bs[i as int]));
            assert forall|j: int| 0 <= j < cs.len() implies campaign_balanced(#[trigger] cs[j], ds, bs) by {
                lemma_executed_update(ob, i as int, bs[i as int], cs[j].id);
                assert(campaign_balanced(old(self).campaign_seq()[j], ds, ob));
            }
            assert forall|k: int| 0 <= k < bs.len() implies disbursement_wf(#[trigger] bs[k], k, cs.len() as int) by {
                if k != i {
                    assert(bs[k] == ob[k]);
                }
            }
        }
        Ok(())
    }

    /// Outcome of `execute_disbursement` when it fails.
    pub open spec fn execute_error(&self, id: u64, auth: Seq<String>) -> Option<ContractError> {
        if !self.has_disbursement(id) {
            Some(ContractError::NotFound)
        } else {
            let b = self.disbursement_at(id);
            let c = self.campaign_at(b.campaign_id);
            if !holds_principal(auth, c.org@) {
                Some(ContractError::Unauthorized)
            } else if b.status == DisbursementStatus::Executed {
                Some(ContractError::AlreadyExecuted)
            } else if b.status != DisbursementStatus::Pending {
                Some(ContractError::NotPending)
            } else if !quorum_met(b, self.quorum_of()) {
                Some(ContractError::QuorumNotMet)
            } else if b.amount > c.raised {
                Some(ContractError::InsufficientAvailable)
            } else {
                None
            }
        }
    }

    /// Executes a pending disbursement whose approvers reach the quorum, with
    /// the owning organization's signature: the disbursement becomes executed
    /// at ledger time `now` and the campaign's balance drops by its amount.
    pub fn execute_disbursement(&mut self, id: u64, now: u64, auth: &Vec<String>) -> (r: Result<(), ContractError>)
        requires
            old(self).wf(),
        ensures
            final(self).wf(),
            match old(self).execute_error(id, auth@) {
                Some(e) => r == Err::<(), ContractError>(e) && *final(self) == *old(self),
                None => {
                    let b = old(self).disbursement_at(id);
                    let c = old(self).campaign_at(b.campaign_id);
                    &&& r is Ok
                    &&& final(self).disbursement_seq() == old(self).disbursement_seq().update(id - 1, executed_version(b, now))
                    &&& final(self).campaign_seq() == old(self).campaign_seq().update(b.campaign_id - 1, after_execution(c, b.amount))
                    &&& final(self).admin_of() == old(self).admin_of()
                    &&& final(self).quorum_of() == old(self).quorum_of()
                    &&& final(self).donation_seq() == old(self).donation_seq()
                },
            },
    {
        if id < 1 || id > self.disbursements.len() as u64 {
            return Err(ContractError::NotFound);
        }
        let i: usize = (id - 1) as usize;
        proof {
            assert(disbursement_wf(self.disbursement_seq()[i as int], i as int, self.campaign_seq().len() as int));
        }
        let cid = self.disbursements[i].campaign_id;
        assert(1 <= cid <= self.campaigns.len());
        let ci: usize = (cid - 1) as usize;
        if !contains_principal(auth, &self.campaigns[ci].org) {
            return Err(ContractError::Unauthorized);
        }
        if self.disbursements[i].status == DisbursementStatus::Executed {
            return Err(ContractError::AlreadyExecuted);
        }
        if self.disbursements[i].status != DisbursementStatus::Pending {
            return Err(ContractError::NotPending);
        }
        if (self.disbursements[i].approvers.len() as u64) < self.quorum {
            return Err(ContractError::QuorumNotMet);
        }
        let amount = self.disbursements[i].amount;
        if amount > self.campaigns[ci].raised {
            return Err(ContractError::InsufficientAvailable);
        }
        self.disbursements[i].status = DisbursementStatus::Executed;
        self.disbursements[i].executed_at = Some(now);
        let raised = self.campaigns[ci].raised;
        self.campaigns[ci].raised = raised - amount;
        proof {
            let cs = self.campaign_seq();
            let ds = self.donation_seq();
            let bs = self.disbursement_seq();
            let ob = old(self).disbursement_seq();
            let oc = old(self).campaign_seq();
            assert(bs =~= ob.update(i as int, bs[i as int]));
            assert(cs =~= oc.update(ci as int, cs[ci as int]));
            assert forall|j: int| 0 <= j < cs.len() implies campaign_balanced(#[trigger] cs[j], ds, bs) by {
                lemma_executed_update(ob, i as int, bs[i as int], cs[j].id);
                assert(campaign_balanced(oc[j], ds, ob));
                assert(oc[j].id == j + 1);
            }
            assert forall|k: int| 0 <= k < bs.len() implies disbursement_wf(#[trigger] bs[k], k, cs.len() as int) by {
                if k != i {
                    assert(bs[k] == ob[k]);
                }
            }
        }
        Ok(())
    }
    /// The campaign numbered `id`.
    pub fn get_campaign(&self, id: u64) -> (r: Result<&Campaign, ContractError>)
        ensures
            match r {
                Ok(c) => self.has_campaign(id) && *c == self.campaign_at(id),
                Err(e) => !self.has_campaign(id) && e == ContractError::NotFound,
            },
    {
        if id < 1 || id > self.campaigns.len() as u64 {
            return Err(ContractError::NotFound);
        }
        Ok(&self.campaigns[(id - 1) as usize])
    }

    /// The donation numbered `id`.
    pub fn get_donation(&self, id: u64) -> (r: Result<&Donation, ContractError>)
        ensures
            match r {
                Ok(d) => 1 <= id <= self.donation_seq().len() && *d == self.donation_seq()[id - 1],
                Err(e) => !(1 <= id <= self.donation_seq().len()) && e == ContractError::NotFound,
            },
    {
        if id < 1 || id > self.donations.len() as u64 {
            return Err(ContractError::NotFound);
        }
        Ok(&self.donations[(id - 1) as usize])
    }

    /// The donations made to campaign `campaign_id`, oldest first.
    pub fn get_donations(&self, campaign_id: u64) -> (r: Vec<Donation>)
        ensures
            r@ == donations_of(self.donation_seq(), campaign_id),
    {
        let mut r: Vec<Donation> = Vec::new();
        let mut i: usize = 0;
        while i < self.donations.len()
            invariant
                i <= self.donations@.len(),
                r@ == donations_of(self.donations@.take(i as int), campaign_id),
            decreases self.donations@.len() - i,
        {
            proof {
                assert(self.donations@.take(i + 1).drop_last() =~= self.donations@.take(i as int));
            }
            if self.donations[i].campaign_id == campaign_id {
                r.push(self.donations[i].duplicate());
            }
            i = i + 1;
        }
        proof {
            assert(self.donations@.take(i as int) =~= self.donations@);
        }
        r
    }

    /// The disbursement numbered `id`.
    pub fn get_disbursement(&self, id: u64) -> (r: Result<&Disbursement, ContractError>)
        ensures
            match r {
                Ok(b) => self.has_disbursement(id) && *b == self.disbursement_at(id),
                Err(e) => !self.has_disbursement(id) && e == ContractError::NotFound,
            },
    {
        if id < 1 || id > self.disbursements.len() as u64 {
            return Err(ContractError::NotFound);
        }
        Ok(&self.disbursements[(id - 1) as usize])
    }

    /// Whether disbursement `id` is pending with enough approvers to execute:
    /// the derived "approved" status.
    pub fn is_approved(&self, id: u64) -> (r: Result<bool, ContractError>)
        ensures
            match r {
                Ok(a) => self.has_disbursement(id) && a == (self.disbursement_at(id).status
                    == DisbursementStatus::Pending && quorum_met(self.disbursement_at(id), self.quorum_of())),
                Err(e) => !self.has_disbursement(id) && e == ContractError::NotFound,
            },
    {
        if id < 1 || id > self.disbursements.len() as u64 {
            return Err(ContractError::NotFound);
        }
        let b = &self.disbursements[(id - 1) as usize];
        Ok(b.status == DisbursementStatus::Pending && b.approvers.len() as u64 >= self.quorum)
    }

    /// How many campaigns were created.
    pub fn get_campaigns_count(&self) -> (r: u64)
        ensures
            r == self.campaign_seq().len(),
    {
        self.campaigns.len() as u64
    }

    /// How many donations were made, over all campaigns.
    pub fn get_total_donations_count(&self) -> (r: u64)
        ensures
            r == self.donation_seq().len(),
    {
        self.donations.len() as u64
    }

    /// How many donations were made, over all campaigns.
    pub fn get_donations_count(&self) -> (r: u64)
        ensures
            r == self.donation_seq().len(),
    {
        self.donations.len() as u64
    }

    /// How many disbursements were proposed, over all campaigns.
    pub fn get_disbursements_count(&self) -> (r: u64)
        ensures
            r == self.disbursement_seq().len(),
    {
        self.disbursements.len() as u64
    }

    /// The admin recorded by `initialize`.
    pub fn get_admin(&self) -> (r: Result<&String, ContractError>)
        ensures
            match r {
                Ok(a) => self.admin_of() == Some(*a),
                Err(e) => self.admin_of().is_none() && e == ContractError::NotInitialized,
            },
    {
        match &self.admin {
            Some(a) => Ok(a),
            None => Err(ContractError::NotInitialized),
        }
    }

    /// The number of distinct approvers that execution needs.
    pub fn get_quorum(&self) -> (r: u64)
        ensures
            r == self.quorum_of(),
    {
        self.quorum
    }

    /// Whether campaign `id` has a balance at or above its goal.
    pub fn is_goal_reached(&self, id: u64) -> (r: Result<bool, ContractError>)
        ensures
            match r {
                Ok(b) => self.has_campaign(id) && b == (self.campaign_at(id).raised >= self.campaign_at(id).goal),
                Err(e) => !self.has_campaign(id) && e == ContractError::NotFound,
            },
    {
        let c = self.get_campaign(id)?;
        Ok(c.raised >= c.goal)
    }

    /// What campaign `id` still needs to reach its goal, zero once reached.
    pub fn get_remaining_amount(&self, id: u64) -> (r: Result<i128, ContractError>)
        requires
            self.wf(),
        ensures
            match r {
                Ok(v) => self.has_campaign(id) && v == remaining_of(self.campaign_at(id)),
                Err(e) => !self.has_campaign(id) && e == ContractError::NotFound,
            },
    {
        let c = self.get_campaign(id)?;
        proof {
            assert(campaign_balanced(self.campaign_seq()[id - 1], self.donation_seq(), self.disbursement_seq()));
        }
        let remaining = c.goal - c.raised;
        if remaining > 0 {
            Ok(remaining)
        } else {
            Ok(0)
        }
    }
}

} // verus!

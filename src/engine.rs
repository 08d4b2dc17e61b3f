//! The fund-flow engine: the ledger and its off-chain mirror driven
//! together. Each write is validated against the mirror, performed on the
//! ledger, and recorded in the mirror. Every mirror campaign is linked to its
//! own ledger campaign, the n-th mirror disbursement stands for ledger
//! disbursement n, and the two layers agree after every write: balances,
//! statuses, goals, deadlines, amounts, approver sets and quorums. So the
//! mirror's checks decide exactly what the ledger accepts.

use vstd::prelude::*;
use crate::contract::{
    after_execution, executed_version, fresh_disbursement, CampaignStatus, DisbursementStatus, DonationContract,
};
use crate::error::{AppError, EntityKind, Reason};
use crate::mirror::{
    approvals_merged, audit_appended, executed_row, fresh_disbursement_row, Mirror,
};
use crate::audit::AuditAction;
use crate::models::{
    add_all, ApproveDisbursementRequest, Campaign, CreateCampaignRequest, CreateDisbursementRequest,
    CreateDonationRequest, CreateOrganizationRequest, Disbursement, DisbursementState, ExecuteDisbursementRequest,
};
use crate::principal::holds_principal;

verus! {

/// Mirror campaign `c` is linked to a ledger campaign of `l` that agrees
/// with it on balance, status, goal and deadline.
pub open spec fn linked_to(c: Campaign, l: DonationContract) -> bool {
    match c.contract_campaign_id {
        None => false,
        Some(n) => {
            &&& l.has_campaign(n)
            &&& l.campaign_at(n).raised as int == c.raised_amount as int
            &&& l.campaign_at(n).status == c.status
            &&& l.campaign_at(n).goal as int == c.goal_amount as int
            &&& l.campaign_at(n).deadline as int == c.deadline as int
        },
    }
}

/// Mirror disbursement `mb` and ledger disbursement `lb` agree: amount,
/// approver set, and status (approved in the mirror is pending on the ledger).
pub open spec fn same_disbursement(mb: Disbursement, lb: crate::contract::Disbursement) -> bool {
    &&& lb.amount as int == mb.amount as int
    &&& lb.approvers@ == mb.approved_by@
    &&& (mb.status == DisbursementState::Executed) == (lb.status == DisbursementStatus::Executed)
    &&& (mb.status == DisbursementState::Pending || mb.status == DisbursementState::Approved) == (lb.status
        == DisbursementStatus::Pending)
}

/// The two layers agree: every mirror campaign with its own ledger campaign,
/// the n-th mirror disbursement with ledger disbursement n and with the
/// ledger campaign its mirror campaign is linked to, and the quorums.
pub open spec fn consistent(l: DonationContract, m: Mirror) -> bool {
    let cs = m.campaign_seq();
    let bs = m.disbursement_seq();
    let lbs = l.disbursement_seq();
    &&& forall|i: int| 0 <= i < cs.len() ==> linked_to(#[trigger] cs[i], l)
    &&& forall|i: int, j: int|
        0 <= i < j < cs.len() ==> (#[trigger] cs[i]).contract_campaign_id != (#[trigger] cs[j]).contract_campaign_id
    &&& m.quorum_of() == l.quorum_of()
    &&& bs.len() == lbs.len()
    &&& forall|p: int| 0 <= p < bs.len() ==> same_disbursement(#[trigger] bs[p], lbs[p])
    &&& forall|p: int, i: int|
        0 <= p < bs.len() && 0 <= i < cs.len() && (#[trigger] cs[i]).id == (#[trigger] bs[p]).campaign_id
            ==> cs[i].contract_campaign_id == Some(lbs[p].campaign_id)
}

/// Ledger disbursement `b` after approvals by `approvers`, one at a time,
/// nothing else changed.
pub open spec fn ledger_approved(a: crate::contract::Disbursement, b: crate::contract::Disbursement, approvers: Seq<String>) -> bool {
    &&& b.id == a.id
    &&& b.campaign_id == a.campaign_id
    &&& b.recipient == a.recipient
    &&& b.amount == a.amount
    &&& b.status == a.status
    &&& b.executed_at == a.executed_at
    &&& b.approvers@ == add_all(a.approvers@, approvers)
}

/// The ledger and the mirror driven together.
pub struct Engine {
    ledger: DonationContract,
    mirror: Mirror,
}

proof fn lemma_campaign_pos(m: Mirror, i: int, id: u128)
    requires
        m.wf(),
        0 <= i < m.campaign_seq().len(),
        m.campaign_seq()[i].id == id,
    ensures
        m.has_campaign(id),
        m.campaign_pos(id) == i,
{
    assert(m.has_campaign(id));
    let j = m.campaign_pos(id);
    if j < i {
        assert(m.campaign_seq()[j].id != m.campaign_seq()[i].id);
    } else if j > i {
        assert(m.campaign_seq()[i].id != m.campaign_seq()[j].id);
    }
}

proof fn lemma_disbursement_pos(m: Mirror, i: int, id: u128)
    requires
        m.wf(),
        0 <= i < m.disbursement_seq().len(),
        m.disbursement_seq()[i].id == id,
    ensures
        m.has_disbursement(id),
        m.disbursement_pos(id) == i,
{
    assert(m.has_disbursement(id));
    let j = m.disbursement_pos(id);
    if j < i {
        assert(m.disbursement_seq()[j].id != m.disbursement_seq()[i].id);
    } else if j > i {
        assert(m.disbursement_seq()[i].id != m.disbursement_seq()[j].id);
    }
}

impl Engine {
    /// The ledger's state.
    pub closed spec fn ledger_of(&self) -> DonationContract {
        self.ledger
    }

    /// The mirror's state.
    pub closed spec fn mirror_of(&self) -> Mirror {
        self.mirror
    }

    /// Both layers are well formed and agree.
    pub open spec fn wf(&self) -> bool {
        &&& self.ledger_of().wf()
        &&& self.mirror_of().wf()
        &&& consistent(self.ledger_of(), self.mirror_of())
    }

    /// Room for one more write on both layers: fresh mirror identifiers for
    /// a row and its audit entry, and fresh ledger numbers.
    pub open spec fn has_room(&self) -> bool {
        &&& self.mirror_of().has_room()
        &&& self.ledger_of().campaign_seq().len() < u64::MAX
        &&& self.ledger_of().donation_seq().len() < u64::MAX
        &&& self.ledger_of().disbursement_seq().len() < u64::MAX
    }

    /// The ledger.
    pub fn ledger(&self) -> (r: &DonationContract)
        ensures
            *r == self.ledger_of(),
    {
        &self.ledger
    }

    /// The mirror.
    pub fn mirror(&self) -> (r: &Mirror)
        ensures
            *r == self.mirror_of(),
    {
        &self.mirror
    }

    /// A fresh engine whose ledger is administered by `admin` and whose
    /// disbursements need `quorum` distinct approvers.
    pub fn new(admin: &String, quorum: u64) -> (r: Engine)
        requires
            quorum >= 1,
        ensures
            r.wf(),
            r.ledger_of().admin_of() == Some(*admin),
            r.ledger_of().quorum_of() == quorum,
            r.mirror_of().quorum_of() == quorum,
            r.ledger_of().campaign_seq().len() == 0,
            r.ledger_of().donation_seq().len() == 0,
            r.ledger_of().disbursement_seq().len() == 0,
            r.mirror_of().campaign_seq().len() == 0,
            r.mirror_of().disbursement_seq().len() == 0,
            r.mirror_of().next_id_of() == 1,
    {
        let mut ledger = DonationContract::new();
        let auth = vec![admin.clone()];
        proof {
            assert(auth@[0]@ == admin@);
        }
        let _ = ledger.initialize(admin, &auth);
        let _ = ledger.set_quorum(admin, quorum, &auth);
        let mirror = Mirror::new(quorum);
        Engine { ledger, mirror }
    }

    /// Registers an organization in the mirror.
    pub fn create_organization(&mut self, req: CreateOrganizationRequest, now: i64) -> (r: Result<u128, AppError>)
        requires
            old(self).wf(),
            old(self).has_room(),
        ensures
            final(self).wf(),
            final(self).ledger_of() == old(self).ledger_of(),
            r == if old(self).mirror_of().has_wallet(req.wallet_address@) {
                Err::<u128, AppError>(AppError::BadRequest(Reason::DuplicateWallet))
            } else {
                Ok::<u128, AppError>(old(self).mirror_of().next_id_of())
            },
            r is Err ==> *final(self) == *old(self),
            r is Ok ==> {
                &&& final(self).mirror_of().org_seq().len() == old(self).mirror_of().org_seq().len() + 1
                &&& final(self).mirror_of().org_seq().drop_last() == old(self).mirror_of().org_seq()
                &&& final(self).mirror_of().org_seq().last().wallet_address == req.wallet_address
                &&& final(self).mirror_of().campaign_seq() == old(self).mirror_of().campaign_seq()
                &&& final(self).mirror_of().disbursement_seq() == old(self).mirror_of().disbursement_seq()
            },
    {
        let r = self.mirror.create_organization(req, now);
        proof {
            assert(self.mirror.campaign_seq() == old(self).mirror.campaign_seq());
            assert(self.mirror.disbursement_seq() == old(self).mirror.disbursement_seq());
            if r is Ok {
                assert(self.mirror.org_seq().drop_last() =~= old(self).mirror.org_seq());
            }
        }
        r
    }

    /// Creates a campaign on the ledger for a stored organization, signed by
    /// its wallet, and records it in the mirror linked to the ledger's number.
    pub fn create_campaign(&mut self, req: CreateCampaignRequest, now: i64) -> (r: Result<u128, AppError>)
        requires
            old(self).wf(),
            old(self).has_room(),
            now >= 0,
        ensures
            final(self).wf(),
            r == match old(self).mirror_of().campaign_refusal(&req, now) {
                Some(e) => Err::<u128, AppError>(e),
                None => Ok::<u128, AppError>(old(self).mirror_of().next_id_of()),
            },
            r is Err ==> *final(self) == *old(self),
            r is Ok ==> {
                let id = old(self).mirror_of().next_id_of();
                let n = (old(self).ledger_of().campaign_seq().len() + 1) as u64;
                let wallet = old(self).mirror_of().org_of(req.org_id).wallet_address;
                &&& final(self).mirror_of().campaign_seq() == old(self).mirror_of().campaign_seq().push(
                    (Campaign {
                        id,
                        name: req.name,
                        org_id: req.org_id,
                        goal_amount: req.goal_amount,
                        raised_amount: 0,
                        deadline: req.deadline,
                        status: CampaignStatus::Active,
                        description: req.description,
                        contract_campaign_id: Some(n),
                        created_at: now,
                        updated_at: now,
                    }),
                )
                &&& audit_appended(old(self).mirror_of().audit_seq(), final(self).mirror_of().audit_seq(),
                    (id + 1) as u128, EntityKind::Campaign, id, AuditAction::Created, wallet, now)
                &&& final(self).ledger_of().campaign_seq() == old(self).ledger_of().campaign_seq().push(
                    (crate::contract::Campaign {
                        id: n,
                        name: req.name,
                        org: wallet,
                        goal: req.goal_amount as i128,
                        raised: 0,
                        deadline: req.deadline as u64,
                        status: CampaignStatus::Active,
                    }),
                )
                &&& final(self).mirror_of().disbursement_seq() == old(self).mirror_of().disbursement_seq()
                &&& final(self).mirror_of().donation_seq() == old(self).mirror_of().donation_seq()
                &&& final(self).ledger_of().donation_seq() == old(self).ledger_of().donation_seq()
                &&& final(self).ledger_of().disbursement_seq() == old(self).ledger_of().disbursement_seq()
            },
    {
        let wallet = match self.mirror.get_organization(req.org_id) {
            Ok(o) => o.wallet_address.clone(),
            Err(e) => {
                return Err(e);
            },
        };
        req.check(now)?;
        let auth = vec![wallet.clone()];
        proof {
            assert(auth@[0]@ == wallet@);
        }
        let n = match self.ledger.create_campaign(&wallet, &req.name, req.goal_amount as i128, req.deadline as u64, now as u64, &auth) {
            Ok(n) => n,
            Err(e) => {
                return Err(AppError::from_chain(e));
            },
        };
        let ghost l1 = self.ledger;
        let ghost m0 = self.mirror;
        let r = self.mirror.create_campaign(req, Some(n), now);
        proof {
            let cs = self.mirror.campaign_seq();
            let bs = self.mirror.disbursement_seq();
            let l0 = old(self).ledger;
            assert forall|i: int| 0 <= i < cs.len() implies linked_to(#[trigger] cs[i], l1) by {
                if i < cs.len() - 1 {
                    assert(cs[i] == m0.campaign_seq()[i]);
                    assert(linked_to(m0.campaign_seq()[i], l0));
                    let k = cs[i].contract_campaign_id.unwrap();
                    assert(l1.campaign_at(k) == l0.campaign_at(k));
                }
            }
            assert forall|i: int, j: int| 0 <= i < j < cs.len() implies (#[trigger] cs[i]).contract_campaign_id
                != (#[trigger] cs[j]).contract_campaign_id by {
                assert(cs[i] == m0.campaign_seq()[i]);
                assert(linked_to(m0.campaign_seq()[i], l0));
                if j < cs.len() - 1 {
                    assert(cs[j] == m0.campaign_seq()[j]);
                }
            }
            assert forall|p: int, i: int|
                0 <= p < bs.len() && 0 <= i < cs.len() && (#[trigger] cs[i]).id == (#[trigger] bs[p]).campaign_id
                implies cs[i].contract_campaign_id == Some(l1.disbursement_seq()[p].campaign_id) by {
                if i < cs.len() - 1 {
                    assert(cs[i] == m0.campaign_seq()[i]);
                } else {
                    assert(m0.has_campaign(bs[p].campaign_id));
                    let j = m0.campaign_pos(bs[p].campaign_id);
                    assert(cs[j] == m0.campaign_seq()[j]);
                    assert(cs[j].id != cs[i].id);
                }
            }
        }
        r
    }

    /// Takes a donation: validated against the mirror, made on the ledger
    /// under the donor's signature at ledger time `now`, and recorded in the
    /// mirror.
    pub fn donate(&mut self, req: CreateDonationRequest, now: i64) -> (r: Result<u128, AppError>)
        requires
            old(self).wf(),
            old(self).has_room(),
            now >= 0,
        ensures
            final(self).wf(),
            r == if !old(self).mirror_of().has_campaign(req.campaign_id) {
                Err::<u128, AppError>(AppError::NotFound(EntityKind::Campaign))
            } else {
                match old(self).mirror_of().campaign_of(req.campaign_id).donation_refusal(req.amount, now) {
                    Some(x) => Err::<u128, AppError>(AppError::BadRequest(x)),
                    None => Ok::<u128, AppError>(old(self).mirror_of().next_id_of()),
                }
            },
            r is Err ==> *final(self) == *old(self),
            r is Ok ==> {
                let id = old(self).mirror_of().next_id_of();
                let c = old(self).mirror_of().campaign_of(req.campaign_id);
                let n = c.contract_campaign_id.unwrap();
                &&& final(self).mirror_of().campaign_seq() == old(self).mirror_of().campaign_seq().update(
                    old(self).mirror_of().campaign_pos(req.campaign_id),
                    c.after_donation(req.amount, now),
                )
                &&& final(self).mirror_of().donation_seq() == old(self).mirror_of().donation_seq().push(
                    (crate::models::Donation {
                        id,
                        campaign_id: req.campaign_id,
                        donor_address: req.donor_address,
                        amount: req.amount,
                        tx_hash: req.tx_hash,
                        timestamp: now,
                    }),
                )
                &&& audit_appended(old(self).mirror_of().audit_seq(), final(self).mirror_of().audit_seq(),
                    (id + 1) as u128, EntityKind::Donation, id, AuditAction::Created, req.donor_address, now)
                &&& final(self).ledger_of().campaign_seq() == old(self).ledger_of().campaign_seq().update(
                    n - 1,
                    DonationContract::after_donation(old(self).ledger_of().campaign_at(n), req.amount as i128),
                )
                &&& final(self).ledger_of().donation_seq() == old(self).ledger_of().donation_seq().push(
                    (crate::contract::Donation {
                        id: (old(self).ledger_of().donation_seq().len() + 1) as u64,
                        campaign_id: n,
                        donor: req.donor_address,
                        amount: req.amount as i128,
                        timestamp: now as u64,
                    }),
                )
                &&& final(self).mirror_of().disbursement_seq() == old(self).mirror_of().disbursement_seq()
                &&& final(self).ledger_of().disbursement_seq() == old(self).ledger_of().disbursement_seq()
            },
    {
        let n = match self.mirror.get_campaign(req.campaign_id) {
            Ok(c) => {
                match c.check_donation(req.amount, now) {
                    Ok(()) => {},
                    Err(e) => {
                        return Err(e);
                    },
                }
                proof {
                    let k = old(self).mirror.campaign_pos(req.campaign_id);
                    assert(linked_to(old(self).mirror.campaign_seq()[k], old(self).ledger));
                }
                c.contract_campaign_id
            },
            Err(e) => {
                return Err(e);
            },
        };
        let n = match n {
            Some(n) => n,
            None => {
                return Err(AppError::Internal);
            },
        };
        let auth = vec![req.donor_address.clone()];
        proof {
            assert(auth@[0]@ == req.donor_address@);
            assert(holds_principal(auth@, req.donor_address@));
        }
        match self.ledger.donate(n, &req.donor_address, req.amount as i128, now as u64, &auth) {
            Ok(_) => {},
            Err(e) => {
                return Err(AppError::from_chain(e));
            },
        }
        let cid = req.campaign_id;
        let ghost l1 = self.ledger;
        let ghost m0 = self.mirror;
        let r = self.mirror.record_donation(req, now);
        proof {
            let l0 = old(self).ledger;
            let k = m0.campaign_pos(cid);
            let cs = self.mirror.campaign_seq();
            let bs = self.mirror.disbursement_seq();
            assert(l1.campaign_seq()[n - 1].id == n);
            assert forall|i: int| 0 <= i < cs.len() implies linked_to(#[trigger] cs[i], l1) by {
                assert(linked_to(m0.campaign_seq()[i], l0));
                if i != k {
                    assert(cs[i] == m0.campaign_seq()[i]);
                    let j = cs[i].contract_campaign_id.unwrap();
                    assert(m0.campaign_seq()[k].contract_campaign_id == Some(n));
                    assert(j != n);
                    assert(l1.campaign_at(j) == l0.campaign_at(j));
                }
            }
            assert forall|i: int, j: int| 0 <= i < j < cs.len() implies (#[trigger] cs[i]).contract_campaign_id
                != (#[trigger] cs[j]).contract_campaign_id by {
                assert(cs[i].contract_campaign_id == m0.campaign_seq()[i].contract_campaign_id);
                assert(cs[j].contract_campaign_id == m0.campaign_seq()[j].contract_campaign_id);
            }
            assert forall|p: int, i: int|
                0 <= p < bs.len() && 0 <= i < cs.len() && (#[trigger] cs[i]).id == (#[trigger] bs[p]).campaign_id
                implies cs[i].contract_campaign_id == Some(l1.disbursement_seq()[p].campaign_id) by {
                assert(cs[i].id == m0.campaign_seq()[i].id);
                assert(cs[i].contract_campaign_id == m0.campaign_seq()[i].contract_campaign_id);
            }
        }
        r
    }

    /// Proposes a disbursement: validated against the mirror, proposed on the
    /// ledger by the campaign's owner under its own signature, and recorded
    /// in the mirror as the disbursement matching the new ledger one.
    pub fn propose_disbursement(&mut self, req: CreateDisbursementRequest, now: i64) -> (r: Result<u128, AppError>)
        requires
            old(self).wf(),
            old(self).has_room(),
        ensures
            final(self).wf(),
            r == if !old(self).mirror_of().has_campaign(req.campaign_id) {
                Err::<u128, AppError>(AppError::NotFound(EntityKind::Campaign))
            } else {
                match old(self).mirror_of().campaign_of(req.campaign_id).proposal_refusal(req.amount) {
                    Some(x) => Err::<u128, AppError>(AppError::BadRequest(x)),
                    None => Ok::<u128, AppError>(old(self).mirror_of().next_id_of()),
                }
            },
            r is Err ==> *final(self) == *old(self),
            r is Ok ==> {
                let id = old(self).mirror_of().next_id_of();
                let n = old(self).mirror_of().campaign_of(req.campaign_id).contract_campaign_id.unwrap();
                let k = (old(self).ledger_of().disbursement_seq().len() + 1) as u64;
                &&& final(self).mirror_of().disbursement_seq().drop_last() == old(self).mirror_of().disbursement_seq()
                &&& final(self).mirror_of().disbursement_seq().len() == old(self).mirror_of().disbursement_seq().len() + 1
                &&& fresh_disbursement_row(final(self).mirror_of().disbursement_seq().last(), id, req.campaign_id,
                    req.recipient_address, req.amount, now)
                &&& audit_appended(old(self).mirror_of().audit_seq(), final(self).mirror_of().audit_seq(),
                    (id + 1) as u128, EntityKind::Disbursement, id, AuditAction::Created,
                    old(self).mirror_of().owner_of(req.campaign_id).wallet_address, now)
                &&& final(self).ledger_of().disbursement_seq().drop_last() == old(self).ledger_of().disbursement_seq()
                &&& final(self).ledger_of().disbursement_seq().len() == k
                &&& fresh_disbursement(final(self).ledger_of().disbursement_seq().last(), k, n,
                    req.recipient_address, req.amount as i128)
                &&& final(self).mirror_of().campaign_seq() == old(self).mirror_of().campaign_seq()
                &&& final(self).ledger_of().campaign_seq() == old(self).ledger_of().campaign_seq()
                &&& final(self).mirror_of().donation_seq() == old(self).mirror_of().donation_seq()
                &&& final(self).ledger_of().donation_seq() == old(self).ledger_of().donation_seq()
            },
    {
        let n = match self.mirror.get_campaign(req.campaign_id) {
            Ok(c) => {
                match c.check_proposal(req.amount) {
                    Ok(()) => {},
                    Err(e) => {
                        return Err(e);
                    },
                }
                proof {
                    let k = old(self).mirror.campaign_pos(req.campaign_id);
                    assert(linked_to(old(self).mirror.campaign_seq()[k], old(self).ledger));
                }
                c.contract_campaign_id
            },
            Err(e) => {
                return Err(e);
            },
        };
        let n = match n {
            Some(n) => n,
            None => {
                return Err(AppError::Internal);
            },
        };
        let owner = match self.ledger.get_campaign(n) {
            Ok(lc) => lc.org.clone(),
            Err(_) => {
                return Err(AppError::Internal);
            },
        };
        let auth = vec![owner.clone()];
        proof {
            assert(auth@[0]@ == owner@);
        }
        match self.ledger.propose_disbursement(n, &req.recipient_address, req.amount as i128, &owner, &auth) {
            Ok(_) => {},
            Err(e) => {
                return Err(AppError::from_chain(e));
            },
        }
        let cid = req.campaign_id;
        let ghost l1 = self.ledger;
        let ghost m0 = self.mirror;
        let r = self.mirror.propose_disbursement(req, now);
        proof {
            let l0 = old(self).ledger;
            let k = m0.campaign_pos(cid);
            let cs = self.mirror.campaign_seq();
            let bs = self.mirror.disbursement_seq();
            let lbs = l1.disbursement_seq();
            assert(cs == m0.campaign_seq());
            assert forall|i: int| 0 <= i < cs.len() implies linked_to(#[trigger] cs[i], l1) by {
                assert(linked_to(m0.campaign_seq()[i], l0));
            }
            assert(bs.last().approved_by@ =~= lbs.last().approvers@);
            assert forall|p: int| 0 <= p < bs.len() implies same_disbursement(#[trigger] bs[p], lbs[p]) by {
                if p < bs.len() - 1 {
                    assert(bs[p] == m0.disbursement_seq()[p]);
                    assert(lbs[p] == l0.disbursement_seq()[p]);
                }
            }
            assert forall|p: int, i: int|
                0 <= p < bs.len() && 0 <= i < cs.len() && (#[trigger] cs[i]).id == (#[trigger] bs[p]).campaign_id
                implies cs[i].contract_campaign_id == Some(lbs[p].campaign_id) by {
                if p < bs.len() - 1 {
                    assert(bs[p] == m0.disbursement_seq()[p]);
                    assert(lbs[p] == l0.disbursement_seq()[p]);
                } else {
                    lemma_campaign_pos(m0, i, cid);
                }
            }
        }
        r
    }

    /// Approves a disbursement: validated against the mirror, approved on the
    /// ledger once per approver, in order, each under that approver's own
    /// signature, and recorded in the mirror.
    pub fn approve_disbursement(&mut self, id: u128, req: ApproveDisbursementRequest, now: i64) -> (r: Result<(), AppError>)
        requires
            old(self).wf(),
            old(self).has_room(),
        ensures
            final(self).wf(),
            r == if !old(self).mirror_of().has_disbursement(id) {
                Err::<(), AppError>(AppError::NotFound(EntityKind::Disbursement))
            } else {
                match old(self).mirror_of().disbursement_of(id).approval_refusal(req.approver_addresses@) {
                    Some(x) => Err::<(), AppError>(AppError::BadRequest(x)),
                    None => Ok::<(), AppError>(()),
                }
            },
            r is Err ==> *final(self) == *old(self),
            r is Ok ==> {
                let p = old(self).mirror_of().disbursement_pos(id);
                &&& final(self).mirror_of().disbursement_seq().len() == old(self).mirror_of().disbursement_seq().len()
                &&& forall|j: int| 0 <= j < old(self).mirror_of().disbursement_seq().len() && j != p
                    ==> #[trigger] final(self).mirror_of().disbursement_seq()[j] == old(self).mirror_of().disbursement_seq()[j]
                &&& approvals_merged(old(self).mirror_of().disbursement_seq()[p], final(self).mirror_of().disbursement_seq()[p],
                    req.approver_addresses@, old(self).mirror_of().quorum_of())
                &&& audit_appended(old(self).mirror_of().audit_seq(), final(self).mirror_of().audit_seq(),
                    old(self).mirror_of().next_id_of(), EntityKind::Disbursement, id, AuditAction::Approved,
                    req.approver_addresses@[0], now)
                &&& final(self).ledger_of().disbursement_seq().len() == old(self).ledger_of().disbursement_seq().len()
                &&& forall|j: int| 0 <= j < old(self).ledger_of().disbursement_seq().len() && j != p
                    ==> #[trigger] final(self).ledger_of().disbursement_seq()[j] == old(self).ledger_of().disbursement_seq()[j]
                &&& ledger_approved(old(self).ledger_of().disbursement_seq()[p], final(self).ledger_of().disbursement_seq()[p],
                    req.approver_addresses@)
                &&& final(self).mirror_of().campaign_seq() == old(self).mirror_of().campaign_seq()
                &&& final(self).ledger_of().campaign_seq() == old(self).ledger_of().campaign_seq()
                &&& final(self).ledger_of().donation_seq() == old(self).ledger_of().donation_seq()
            },
    {
        match self.mirror.get_disbursement(id) {
            Ok(b) => {
                match b.check_approval(&req.approver_addresses) {
                    Ok(()) => {},
                    Err(e) => {
                        return Err(e);
                    },
                }
            },
            Err(e) => {
                return Err(e);
            },
        }
        let p = match self.mirror.find_disbursement(id) {
            Some(p) => p,
            None => {
                return Err(AppError::Internal);
            },
        };
        let k: u64 = p as u64 + 1;
        let ghost l0 = self.ledger;
        let ghost pi = p as int;
        proof {
            assert(same_disbursement(self.mirror.disbursement_seq()[pi], l0.disbursement_seq()[pi]));
            assert(l0.disbursement_seq()[pi].id == k) by {
                assert(crate::contract::disbursement_wf(l0.disbursement_seq()[pi], pi, l0.campaign_seq().len() as int));
            }
        }
        let mut i: usize = 0;
        while i < req.approver_addresses.len()
            invariant
                self.ledger.wf(),
                self.mirror == old(self).mirror,
                l0 == old(self).ledger,
                0 <= pi < l0.disbursement_seq().len(),
                k == pi + 1,
                i <= req.approver_addresses@.len(),
                self.ledger.campaign_seq() == l0.campaign_seq(),
                self.ledger.donation_seq() == l0.donation_seq(),
                self.ledger.admin_of() == l0.admin_of(),
                self.ledger.quorum_of() == l0.quorum_of(),
                self.ledger.disbursement_seq().len() == l0.disbursement_seq().len(),
                forall|j: int| 0 <= j < l0.disbursement_seq().len() && j != pi
                    ==> #[trigger] self.ledger.disbursement_seq()[j] == l0.disbursement_seq()[j],
                ledger_approved(l0.disbursement_seq()[pi], self.ledger.disbursement_seq()[pi],
                    req.approver_addresses@.take(i as int)),
                l0.disbursement_seq()[pi].status == DisbursementStatus::Pending,
            decreases req.approver_addresses@.len() - i,
        {
            let auth = vec![req.approver_addresses[i].clone()];
            proof {
                assert(auth@[0]@ == req.approver_addresses@[i as int]@);
                assert(req.approver_addresses@.take(i + 1).drop_last() =~= req.approver_addresses@.take(i as int));
            }
            match self.ledger.approve_disbursement(k, &req.approver_addresses[i], &auth) {
                Ok(()) => {},
                Err(e) => {
                    return Err(AppError::from_chain(e));
                },
            }
            i = i + 1;
        }
        proof {
            assert(req.approver_addresses@.take(i as int) =~= req.approver_addresses@);
        }
        let ghost l1 = self.ledger;
        let ghost m0 = self.mirror;
        let r = match self.mirror.approve_disbursement(id, req, now) {
            Ok(()) => Ok(()),
            Err(e) => Err(e),
        };
        proof {
            lemma_disbursement_pos(m0, pi, id);
            let cs = self.mirror.campaign_seq();
            let bs = self.mirror.disbursement_seq();
            let lbs = l1.disbursement_seq();
            assert(cs == m0.campaign_seq());
            assert forall|c: int| 0 <= c < cs.len() implies linked_to(#[trigger] cs[c], l1) by {
                assert(linked_to(m0.campaign_seq()[c], l0));
            }
            assert forall|q: int| 0 <= q < bs.len() implies same_disbursement(#[trigger] bs[q], lbs[q]) by {
                assert(same_disbursement(m0.disbursement_seq()[q], l0.disbursement_seq()[q]));
                if q != pi {
                    assert(bs[q] == m0.disbursement_seq()[q]);
                }
            }
            assert forall|q: int, c: int|
                0 <= q < bs.len() && 0 <= c < cs.len() && (#[trigger] cs[c]).id == (#[trigger] bs[q]).campaign_id
                implies cs[c].contract_campaign_id == Some(lbs[q].campaign_id) by {
                assert(bs[q].campaign_id == m0.disbursement_seq()[q].campaign_id);
                assert(lbs[q].campaign_id == l0.disbursement_seq()[q].campaign_id);
            }
        }
        r
    }

    /// Executes an approved disbursement: validated against the mirror,
    /// executed on the ledger by the campaign's owner under its own signature
    /// at ledger time `now`, and recorded in the mirror under the confirmed
    /// transaction `tx_hash`. Both layers take the amount out of the balance.
    pub fn execute_disbursement(&mut self, id: u128, req: ExecuteDisbursementRequest, now: i64) -> (r: Result<(), AppError>)
        requires
            old(self).wf(),
            old(self).has_room(),
            now >= 0,
        ensures
            final(self).wf(),
            r == match old(self).mirror_of().execution_error(id) {
                Some(e) => Err::<(), AppError>(e),
                None => Ok::<(), AppError>(()),
            },
            r is Err ==> *final(self) == *old(self),
            r is Ok ==> {
                let m = old(self).mirror_of();
                let l = old(self).ledger_of();
                let p = m.disbursement_pos(id);
                let b = m.disbursement_of(id);
                let c = m.campaign_of(b.campaign_id);
                let lb = l.disbursement_seq()[p];
                &&& final(self).mirror_of().disbursement_seq() == m.disbursement_seq().update(p, executed_row(b, req.tx_hash, now))
                &&& final(self).mirror_of().campaign_seq() == m.campaign_seq().update(m.campaign_pos(b.campaign_id),
                    c.after_payout(b.amount, now))
                &&& audit_appended(m.audit_seq(), final(self).mirror_of().audit_seq(), m.next_id_of(),
                    EntityKind::Disbursement, id, AuditAction::Executed, m.owner_of(b.campaign_id).wallet_address, now)
                &&& final(self).ledger_of().disbursement_seq() == l.disbursement_seq().update(p, executed_version(lb, now as u64))
                &&& final(self).ledger_of().campaign_seq() == l.campaign_seq().update(lb.campaign_id - 1,
                    after_execution(l.campaign_at(lb.campaign_id), lb.amount))
                &&& lb.campaign_id == c.contract_campaign_id.unwrap()
                &&& final(self).ledger_of().donation_seq() == l.donation_seq()
            },
    {
        let raised = match self.mirror.get_disbursement(id) {
            Ok(b) => {
                proof {
                    let q = old(self).mirror.disbursement_pos(id);
                    assert(old(self).mirror.disbursement_seq()[q] == *b);
                    assert(old(self).mirror.has_campaign(b.campaign_id));
                }
                let c = match self.mirror.get_campaign(b.campaign_id) {
                    Ok(c) => c,
                    Err(_) => {
                        return Err(AppError::Internal);
                    },
                };
                match b.check_execution(c.raised_amount) {
                    Ok(()) => {},
                    Err(e) => {
                        return Err(e);
                    },
                }
                c.raised_amount
            },
            Err(e) => {
                return Err(e);
            },
        };
        let p = match self.mirror.find_disbursement(id) {
            Some(p) => p,
            None => {
                return Err(AppError::Internal);
            },
        };
        let k: u64 = p as u64 + 1;
        let ghost pi = p as int;
        let ghost m0 = self.mirror;
        let ghost l0 = self.ledger;
        let ghost b = m0.disbursement_of(id);
        let ghost ci = m0.campaign_pos(b.campaign_id);
        let n = match self.ledger.get_disbursement(k) {
            Ok(lb) => lb.campaign_id,
            Err(_) => {
                return Err(AppError::Internal);
            },
        };
        proof {
            assert(m0.disbursement_seq()[pi] == b);
            assert(same_disbursement(b, l0.disbursement_seq()[pi]));
            assert(crate::contract::disbursement_wf(l0.disbursement_seq()[pi], pi, l0.campaign_seq().len() as int));
            assert(m0.campaign_seq()[ci].id == b.campaign_id);
            assert(m0.campaign_seq()[ci].contract_campaign_id == Some(n));
            assert(linked_to(m0.campaign_seq()[ci], l0));
        }
        let owner = match self.ledger.get_campaign(n) {
            Ok(lc) => lc.org.clone(),
            Err(_) => {
                return Err(AppError::Internal);
            },
        };
        let auth = vec![owner.clone()];
        proof {
            assert(auth@[0]@ == owner@);
        }
        match self.ledger.execute_disbursement(k, now as u64, &auth) {
            Ok(()) => {},
            Err(e) => {
                return Err(AppError::from_chain(e));
            },
        }
        let ghost l1 = self.ledger;
        let r = match self.mirror.execute_disbursement(id, req, now) {
            Ok(()) => Ok(()),
            Err(e) => Err(e),
        };
        proof {
            lemma_disbursement_pos(m0, pi, id);
            let cs = self.mirror.campaign_seq();
            let bs = self.mirror.disbursement_seq();
            let lbs = l1.disbursement_seq();
            assert(l1.campaign_seq()[n - 1].id == n);
            assert forall|i: int| 0 <= i < cs.len() implies linked_to(#[trigger] cs[i], l1) by {
                assert(linked_to(m0.campaign_seq()[i], l0));
                if i != ci {
                    assert(cs[i] == m0.campaign_seq()[i]);
                    let j = cs[i].contract_campaign_id.unwrap();
                    assert(j != n);
                    assert(l1.campaign_at(j) == l0.campaign_at(j));
                }
            }
            assert forall|i: int, j: int| 0 <= i < j < cs.len() implies (#[trigger] cs[i]).contract_campaign_id
                != (#[trigger] cs[j]).contract_campaign_id by {
                assert(cs[i].contract_campaign_id == m0.campaign_seq()[i].contract_campaign_id);
                assert(cs[j].contract_campaign_id == m0.campaign_seq()[j].contract_campaign_id);
            }
            assert forall|q: int| 0 <= q < bs.len() implies same_disbursement(#[trigger] bs[q], lbs[q]) by {
                assert(same_disbursement(m0.disbursement_seq()[q], l0.disbursement_seq()[q]));
                if q != pi {
                    assert(bs[q] == m0.disbursement_seq()[q]);
                    assert(lbs[q] == l0.disbursement_seq()[q]);
                }
            }
            assert forall|q: int, c: int|
                0 <= q < bs.len() && 0 <= c < cs.len() && (#[trigger] cs[c]).id == (#[trigger] bs[q]).campaign_id
                implies cs[c].contract_campaign_id == Some(lbs[q].campaign_id) by {
                assert(bs[q].campaign_id == m0.disbursement_seq()[q].campaign_id);
                assert(lbs[q].campaign_id == l0.disbursement_seq()[q].campaign_id);
                assert(cs[c].id == m0.campaign_seq()[c].id);
                assert(cs[c].contract_campaign_id == m0.campaign_seq()[c].contract_campaign_id);
            }
        }
        r
    }
}

} // verus!

//! The off-chain mirror: organizations, campaigns, donations, disbursements
//! and the audit trail, with the coordinator's write operations. Each write
//! validates against the mirror, changes it, and appends exactly one audit
//! entry; a refused write changes nothing. Every operation takes the
//! instant `now` from its caller.

use vstd::prelude::*;
use crate::audit::{derefs, newest_first, sort_newest_first, AuditAction, AuditLog, Detail, DetailValue};
use crate::contract::CampaignStatus;
use crate::error::{AppError, EntityKind, Reason};
use crate::models::{
    add_all, parse_status, status_named, DonationQueryParams, CampaignQueryParams, ApproveDisbursementRequest, Campaign, CreateCampaignRequest, CreateDisbursementRequest,
    CreateDonationRequest, CreateOrganizationRequest, Disbursement, DisbursementState, Donation,
    ExecuteDisbursementRequest, Organization, UpdateCampaignRequest, UpdateOrganizationRequest,
};
use crate::principal::distinct_principals;

verus! {

broadcast use vstd::seq_lib::group_to_multiset_ensures;

/// The answer to an audit query: the campaign, its donations and
/// disbursements newest first, and every audit entry that refers to the
/// campaign or to one of them, in serving order.
pub struct AuditResponse<'a> {
    pub campaign: &'a Campaign,
    pub donations: Vec<&'a Donation>,
    pub disbursements: Vec<&'a Disbursement>,
    pub audit_logs: Vec<&'a AuditLog>,
}

/// The view of an optional text filter.
pub open spec fn filter_view(f: Option<String>) -> Option<Seq<char>> {
    match f {
        Some(s) => Some(s@),
        None => None,
    }
}

/// The donations of `ds` to campaign `cid`, by `donor` when one is given,
/// newest (last recorded) first.
pub open spec fn newest_donations(ds: Seq<Donation>, cid: u128, donor: Option<Seq<char>>) -> Seq<Donation>
    decreases ds.len(),
{
    if ds.len() == 0 {
        Seq::empty()
    } else {
        let d = ds.last();
        let rest = newest_donations(ds.drop_last(), cid, donor);
        if d.campaign_id == cid && (donor is None || d.donor_address@ == donor.unwrap()) {
            seq![d] + rest
        } else {
            rest
        }
    }
}

/// The disbursements of `bs` out of campaign `cid`, newest first.
pub open spec fn newest_disbursements(bs: Seq<Disbursement>, cid: u128) -> Seq<Disbursement>
    decreases bs.len(),
{
    if bs.len() == 0 {
        Seq::empty()
    } else {
        let rest = newest_disbursements(bs.drop_last(), cid);
        if bs.last().campaign_id == cid {
            seq![bs.last()] + rest
        } else {
            rest
        }
    }
}

/// The campaigns of `cs` of organization `org` and in status `status`, each
/// when given, newest first.
pub open spec fn newest_campaigns(cs: Seq<Campaign>, org: Option<u128>, status: Option<CampaignStatus>) -> Seq<Campaign>
    decreases cs.len(),
{
    if cs.len() == 0 {
        Seq::empty()
    } else {
        let c = cs.last();
        let rest = newest_campaigns(cs.drop_last(), org, status);
        if (org is None || c.org_id == org.unwrap()) && (status is None || c.status == status.unwrap()) {
            seq![c] + rest
        } else {
            rest
        }
    }
}

/// The page size asked for, `default` when none is, within zero and 500.
pub open spec fn limit_of(limit: Option<i64>, default: int) -> int {
    match limit {
        None => default,
        Some(l) => if l < 0 {
            0
        } else if l > 500 {
            500
        } else {
            l as int
        },
    }
}

/// The number of items to skip, zero when none or a negative one is given.
pub open spec fn offset_of(offset: Option<i64>) -> int {
    match offset {
        None => 0,
        Some(o) => if o < 0 {
            0
        } else {
            o as int
        },
    }
}

/// The items of `s` from position `offset`, at most `limit` of them.
pub open spec fn page_of<T>(s: Seq<T>, offset: int, limit: int) -> Seq<T> {
    let start = if offset < s.len() { offset } else { s.len() as int };
    let end = if start + limit < s.len() { start + limit } else { s.len() as int };
    s.subrange(start, end)
}

/// The page size to use: `default` when none is asked for, within zero and 500.
pub fn effective_limit(limit: Option<i64>, default: i64) -> (r: u64)
    requires
        0 <= default <= 500,
    ensures
        r == limit_of(limit, default as int),
{
    match limit {
        None => default as u64,
        Some(l) => if l < 0 {
            0
        } else if l > 500 {
            500
        } else {
            l as u64
        },
    }
}

/// The page size of a donation listing: 100 when none is asked for, zero
/// for a negative one, and otherwise the one asked for.
pub open spec fn donation_limit_of(limit: Option<i64>) -> int {
    match limit {
        None => 100,
        Some(l) => if l < 0 {
            0
        } else {
            l as int
        },
    }
}

/// The page size of a donation listing.
pub fn donation_page_limit(limit: Option<i64>) -> (r: u64)
    ensures
        r == donation_limit_of(limit),
{
    match limit {
        None => 100,
        Some(l) => if l < 0 {
            0
        } else {
            l as u64
        },
    }
}

/// Donation `a` is listed before `b`, or the two may come in either order:
/// it is newer, or as new with a larger identifier.
pub open spec fn donation_no_later(a: Donation, b: Donation) -> bool {
    a.timestamp > b.timestamp || (a.timestamp == b.timestamp && a.id >= b.id)
}

/// `s` is in listing order: timestamps descending, ties by identifier descending.
pub open spec fn donations_newest_first(s: Seq<&Donation>) -> bool {
    forall|i: int, j: int| 0 <= i < j < s.len() ==> donation_no_later(*#[trigger] s[i], *#[trigger] s[j])
}

/// The donations of `v` in listing order.
pub fn sort_donations<'a>(v: Vec<&'a Donation>) -> (r: Vec<&'a Donation>)
    ensures
        donations_newest_first(r@),
        derefs(r@).to_multiset() == derefs(v@).to_multiset(),
{
    let mut r: Vec<&'a Donation> = Vec::new();
    let mut i: usize = 0;
    while i < v.len()
        invariant
            i <= v@.len(),
            donations_newest_first(r@),
            derefs(r@).to_multiset() == derefs(v@.take(i as int)).to_multiset(),
        decreases v@.len() - i,
    {
        let x = v[i];
        let mut pos: usize = 0;
        while pos < r.len() && !(x.timestamp > r[pos].timestamp || (x.timestamp == r[pos].timestamp && x.id >= r[pos].id))
            invariant
                pos <= r@.len(),
                forall|k: int| 0 <= k < pos ==> donation_no_later(*r@[k], *x),
            decreases r@.len() - pos,
        {
            pos = pos + 1;
        }
        proof {
            assert(derefs(v@.take(i + 1)) =~= derefs(v@.take(i as int)).push(*x));
            r@.insert_ensures(pos as int, x);
            derefs(r@).insert_ensures(pos as int, *x);
            assert(derefs(r@.insert(pos as int, x)) =~= derefs(r@).insert(pos as int, *x));
            vstd::seq_lib::to_multiset_insert(derefs(r@), pos as int, *x);
        }
        let ghost old_r = r@;
        r.insert(pos, x);
        proof {
            assert forall|a: int, b: int| 0 <= a < b < r@.len() implies donation_no_later(*#[trigger] r@[a], *#[trigger] r@[b]) by {
                if b < pos {
                    assert(r@[a] == old_r[a] && r@[b] == old_r[b]);
                } else if b == pos {
                    assert(r@[a] == old_r[a]);
                } else if a == pos {
                    assert(r@[b] == old_r[b - 1]);
                    if pos < old_r.len() {
                        assert(donation_no_later(*x, *old_r[pos as int]));
                        if b - 1 > pos {
                            assert(donation_no_later(*old_r[pos as int], *old_r[b - 1]));
                        }
                    }
                } else if a < pos {
                    assert(r@[a] == old_r[a] && r@[b] == old_r[b - 1]);
                } else {
                    assert(r@[a] == old_r[a - 1] && r@[b] == old_r[b - 1]);
                }
            }
        }
        i = i + 1;
    }
    proof {
        assert(v@.take(i as int) =~= v@);
    }
    r
}

/// One page of a donation listing, with the number of donations the
/// campaign has in all.
pub struct DonationPage<'a> {
    pub donations: Vec<&'a Donation>,
    pub total: usize,
}

/// The number of items to skip: zero when none or a negative one is asked for.
pub fn effective_offset(offset: Option<i64>) -> (r: u64)
    ensures
        r == offset_of(offset),
{
    match offset {
        None => 0,
        Some(o) => if o < 0 {
            0
        } else {
            o as u64
        },
    }
}

/// The page of `v` that starts at `offset` and holds at most `limit` items.
pub fn take_page<'a, T>(v: &Vec<&'a T>, offset: u64, limit: u64) -> (r: Vec<&'a T>)
    ensures
        r@ == page_of(v@, offset as int, limit as int),
{
    let n = v.len();
    let start: usize = if offset < n as u64 { offset as usize } else { n };
    let end: usize = if limit < (n - start) as u64 { start + limit as usize } else { n };
    let mut r: Vec<&'a T> = Vec::new();
    let mut i: usize = start;
    while i < end
        invariant
            start <= i <= end <= n == v@.len(),
            r@ == v@.subrange(start as int, i as int),
        decreases end - i,
    {
        r.push(v[i]);
        proof {
            assert(v@.subrange(start as int, i + 1) =~= v@.subrange(start as int, i as int).push(v@[i as int]));
        }
        i = i + 1;
    }
    r
}

/// The mirror's tables. Identifiers come from one counter, so every row and
/// every audit entry gets a fresh one.
pub struct Mirror {
    organizations: Vec<Organization>,
    campaigns: Vec<Campaign>,
    donations: Vec<Donation>,
    disbursements: Vec<Disbursement>,
    audit_logs: Vec<AuditLog>,
    next_id: u128,
    quorum: u64,
}

/// `e` is the audit entry numbered `id` recording `action` on entity
/// `entity_id` of kind `kind`, by `actor`, at instant `now`.
pub open spec fn audit_entry_is(
    e: AuditLog,
    id: u128,
    kind: EntityKind,
    entity_id: u128,
    action: AuditAction,
    actor: String,
    now: i64,
) -> bool {
    &&& e.id == id
    &&& e.entity_type == kind
    &&& e.entity_id == entity_id
    &&& e.action == action
    &&& e.actor_address == actor
    &&& e.created_at == now
}

/// `new` is `old` with one audit entry appended: number `id`, recording
/// `action` on entity `entity_id` of kind `kind`, by `actor`, at instant `now`.
pub open spec fn audit_appended(
    old: Seq<AuditLog>,
    new: Seq<AuditLog>,
    id: u128,
    kind: EntityKind,
    entity_id: u128,
    action: AuditAction,
    actor: String,
    now: i64,
) -> bool {
    &&& new.len() == old.len() + 1
    &&& new.drop_last() == old
    &&& audit_entry_is(new.last(), id, kind, entity_id, action, actor, now)
}

/// A position in `s` of the organization with identifier `id`, if any.
pub open spec fn org_position(s: Seq<Organization>, id: u128) -> int {
    choose|i: int| 0 <= i < s.len() && #[trigger] s[i].id == id
}

/// A position in `s` of the campaign with identifier `id`, if any.
pub open spec fn campaign_position(s: Seq<Campaign>, id: u128) -> int {
    choose|i: int| 0 <= i < s.len() && #[trigger] s[i].id == id
}

/// A position in `s` of the disbursement with identifier `id`, if any.
pub open spec fn disbursement_position(s: Seq<Disbursement>, id: u128) -> int {
    choose|i: int| 0 <= i < s.len() && #[trigger] s[i].id == id
}

/// A disbursement waiting for execution is approved exactly when its
/// approvers reach `quorum`.
pub open spec fn approval_consistent(b: Disbursement, quorum: u64) -> bool {
    &&& b.status == DisbursementState::Pending ==> b.approved_by@.len() < quorum
    &&& b.status == DisbursementState::Approved ==> b.approved_by@.len() >= quorum
}

/// `b` is the disbursement row numbered `id` just proposed: pending, with no
/// approver and no transaction yet.
pub open spec fn fresh_disbursement_row(
    b: Disbursement,
    id: u128,
    campaign_id: u128,
    recipient: String,
    amount: i64,
    now: i64,
) -> bool {
    &&& b.id == id
    &&& b.campaign_id == campaign_id
    &&& b.recipient_address == recipient
    &&& b.amount == amount
    &&& b.status == DisbursementState::Pending
    &&& b.approved_by@.len() == 0
    &&& b.tx_hash.is_none()
    &&& b.created_at == now
    &&& b.executed_at.is_none()
}

/// `n` is disbursement row `o` after approvals by `approvers` when the
/// quorum is `quorum`.
pub open spec fn approvals_merged(o: Disbursement, n: Disbursement, approvers: Seq<String>, quorum: u64) -> bool {
    &&& n.approved_by@ == add_all(o.approved_by@, approvers)
    &&& n.status == if n.approved_by@.len() >= quorum {
        DisbursementState::Approved
    } else {
        DisbursementState::Pending
    }
    &&& n.id == o.id
    &&& n.campaign_id == o.campaign_id
    &&& n.recipient_address == o.recipient_address
    &&& n.amount == o.amount
    &&& n.tx_hash == o.tx_hash
    &&& n.created_at == o.created_at
    &&& n.executed_at == o.executed_at
}

/// Disbursement row `b` once executed under transaction `tx_hash` at `now`.
pub open spec fn executed_row(b: Disbursement, tx_hash: String, now: i64) -> Disbursement {
    Disbursement {
        id: b.id,
        campaign_id: b.campaign_id,
        recipient_address: b.recipient_address,
        amount: b.amount,
        status: DisbursementState::Executed,
        approved_by: b.approved_by,
        tx_hash: Some(tx_hash),
        created_at: b.created_at,
        executed_at: Some(now),
    }
}

/// Rows of `new` keep the identifiers of the rows of `old` at the same
/// positions; `new` may have more rows.
pub open spec fn keys_kept_orgs(old: Seq<Organization>, new: Seq<Organization>) -> bool {
    &&& old.len() <= new.len()
    &&& forall|i: int| 0 <= i < old.len() ==> (#[trigger] new[i]).id == old[i].id
}

/// Campaign rows of `new` keep the identifiers of those of `old`.
pub open spec fn keys_kept_campaigns(old: Seq<Campaign>, new: Seq<Campaign>) -> bool {
    &&& old.len() <= new.len()
    &&& forall|i: int| 0 <= i < old.len() ==> (#[trigger] new[i]).id == old[i].id
}

proof fn lemma_links_kept(m1: Mirror, m2: Mirror)
    requires
        keys_kept_orgs(m1.org_seq(), m2.org_seq()),
        keys_kept_campaigns(m1.campaign_seq(), m2.campaign_seq()),
    ensures
        forall|id: u128| m1.has_org(id) ==> #[trigger] m2.has_org(id),
        forall|id: u128| m1.has_campaign(id) ==> #[trigger] m2.has_campaign(id),
{
    assert forall|id: u128| m1.has_org(id) implies #[trigger] m2.has_org(id) by {
        let k = m1.org_pos(id);
        assert(m2.org_seq()[k].id == id);
    }
    assert forall|id: u128| m1.has_campaign(id) implies #[trigger] m2.has_campaign(id) by {
        let k = m1.campaign_pos(id);
        assert(m2.campaign_seq()[k].id == id);
    }
}

impl Mirror {
    /// All organizations, oldest first.
    pub closed spec fn org_seq(&self) -> Seq<Organization> {
        self.organizations@
    }

    /// All campaigns, oldest first.
    pub closed spec fn campaign_seq(&self) -> Seq<Campaign> {
        self.campaigns@
    }

    /// All donations, oldest first.
    pub closed spec fn donation_seq(&self) -> Seq<Donation> {
        self.donations@
    }

    /// All disbursements, oldest first.
    pub closed spec fn disbursement_seq(&self) -> Seq<Disbursement> {
        self.disbursements@
    }

    /// The audit trail, oldest entry first.
    pub closed spec fn audit_seq(&self) -> Seq<AuditLog> {
        self.audit_logs@
    }

    /// The next identifier to hand out.
    pub closed spec fn next_id_of(&self) -> u128 {
        self.next_id
    }

    /// The number of distinct approvers that makes a disbursement approved.
    pub closed spec fn quorum_of(&self) -> u64 {
        self.quorum
    }

    /// Room for the identifiers of one more write: a row and its audit entry.
    pub open spec fn has_room(&self) -> bool {
        self.next_id_of() < u128::MAX - 1
    }

    /// Whether an organization has identifier `id`.
    pub open spec fn has_org(&self, id: u128) -> bool {
        exists|i: int| 0 <= i < self.org_seq().len() && #[trigger] self.org_seq()[i].id == id
    }

    /// The position of organization `id`.
    pub open spec fn org_pos(&self, id: u128) -> int {
        org_position(self.org_seq(), id)
    }

    /// Organization `id`.
    pub open spec fn org_of(&self, id: u128) -> Organization {
        self.org_seq()[self.org_pos(id)]
    }

    /// Whether an organization is registered under `wallet`.
    pub open spec fn has_wallet(&self, wallet: Seq<char>) -> bool {
        exists|i: int| 0 <= i < self.org_seq().len() && #[trigger] self.org_seq()[i].wallet_address@ == wallet
    }

    /// Whether a campaign has identifier `id`.
    pub open spec fn has_campaign(&self, id: u128) -> bool {
        exists|i: int| 0 <= i < self.campaign_seq().len() && #[trigger] self.campaign_seq()[i].id == id
    }

    /// The position of campaign `id`.
    pub open spec fn campaign_pos(&self, id: u128) -> int {
        campaign_position(self.campaign_seq(), id)
    }

    /// Campaign `id`.
    pub open spec fn campaign_of(&self, id: u128) -> Campaign {
        self.campaign_seq()[self.campaign_pos(id)]
    }

    /// Whether a disbursement has identifier `id`.
    pub open spec fn has_disbursement(&self, id: u128) -> bool {
        exists|i: int| 0 <= i < self.disbursement_seq().len() && #[trigger] self.disbursement_seq()[i].id == id
    }

    /// The position of disbursement `id`.
    pub open spec fn disbursement_pos(&self, id: u128) -> int {
        disbursement_position(self.disbursement_seq(), id)
    }

    /// Disbursement `id`.
    pub open spec fn disbursement_of(&self, id: u128) -> Disbursement {
        self.disbursement_seq()[self.disbursement_pos(id)]
    }

    /// The owner of campaign `id`.
    pub open spec fn owner_of(&self, id: u128) -> Organization {
        self.org_of(self.campaign_of(id).org_id)
    }

    /// The mirror's invariant: fresh and distinct identifiers, distinct wallets, every campaign
    /// owned by a stored organization, every donation and disbursement
    /// belonging to a stored campaign, balances never negative, positive
    /// amounts, approver sets, and an executed disbursement always carrying
    /// the hash of its confirmed transaction, and the approved status derived
    /// from the quorum.
    pub open spec fn wf(&self) -> bool {
        let os = self.org_seq();
        let cs = self.campaign_seq();
        let ds = self.donation_seq();
        let bs = self.disbursement_seq();
        &&& self.quorum_of() >= 1
        &&& forall|i: int| 0 <= i < os.len() ==> (#[trigger] os[i]).id < self.next_id_of()
        &&& forall|i: int, j: int| 0 <= i < j < os.len() ==> (#[trigger] os[i]).id != (#[trigger] os[j]).id
        &&& forall|i: int| 0 <= i < cs.len() ==> (#[trigger] cs[i]).id < self.next_id_of()
        &&& forall|i: int, j: int| 0 <= i < j < cs.len() ==> (#[trigger] cs[i]).id != (#[trigger] cs[j]).id
        &&& forall|i: int| 0 <= i < bs.len() ==> (#[trigger] bs[i]).id < self.next_id_of()
        &&& forall|i: int, j: int| 0 <= i < j < bs.len() ==> (#[trigger] bs[i]).id != (#[trigger] bs[j]).id
        &&& forall|i: int| 0 <= i < cs.len() ==> self.has_org((#[trigger] cs[i]).org_id)
        &&& forall|i: int| 0 <= i < cs.len() ==> (#[trigger] cs[i]).raised_amount >= 0
        &&& forall|i: int| 0 <= i < ds.len() ==> self.has_campaign((#[trigger] ds[i]).campaign_id)
        &&& forall|i: int| 0 <= i < ds.len() ==> (#[trigger] ds[i]).amount > 0
        &&& forall|i: int| 0 <= i < bs.len() ==> self.has_campaign((#[trigger] bs[i]).campaign_id)
        &&& forall|i: int| 0 <= i < bs.len() ==> (#[trigger] bs[i]).amount > 0
        &&& forall|i: int| 0 <= i < bs.len() ==> distinct_principals((#[trigger] bs[i]).approved_by@)
        &&& forall|i: int| 0 <= i < bs.len() ==> ((#[trigger] bs[i]).status == DisbursementState::Executed
            <==> bs[i].tx_hash.is_some())
        &&& forall|i: int| 0 <= i < bs.len() ==> approval_consistent(#[trigger] bs[i], self.quorum_of())
        &&& forall|i: int, j: int| 0 <= i < j < os.len() ==> (#[trigger] os[i]).wallet_address@
            != (#[trigger] os[j]).wallet_address@
    }

    /// An empty mirror whose disbursements need `quorum` approvers.
    pub fn new(quorum: u64) -> (r: Mirror)
        requires
            quorum >= 1,
        ensures
            r.wf(),
            r.quorum_of() == quorum,
            r.next_id_of() == 1,
            r.org_seq().len() == 0,
            r.campaign_seq().len() == 0,
            r.donation_seq().len() == 0,
            r.disbursement_seq().len() == 0,
            r.audit_seq().len() == 0,
    {
        Mirror {
            organizations: Vec::new(),
            campaigns: Vec::new(),
            donations: Vec::new(),
            disbursements: Vec::new(),
            audit_logs: Vec::new(),
            next_id: 1,
            quorum,
        }
    }

    fn find_org(&self, id: u128) -> (r: Option<usize>)
        requires
            self.wf(),
        ensures
            match r {
                Some(i) => self.has_org(id) && i == self.org_pos(id) && i < self.org_seq().len(),
                None => !self.has_org(id),
            },
    {
        let mut i: usize = 0;
        while i < self.organizations.len()
            invariant
                self.wf(),
                i <= self.organizations@.len(),
                forall|k: int| 0 <= k < i ==> (#[trigger] self.organizations@[k]).id != id,
            decreases self.organizations@.len() - i,
        {
            if self.organizations[i].id == id {
                proof {
                    assert(self.org_seq()[i as int].id == id);
                    assert(self.has_org(id));
                    let j = self.org_pos(id);
                    if j != i {
                        if j < i {
                            assert(self.org_seq()[j].id != self.org_seq()[i as int].id);
                        } else {
                            assert(self.org_seq()[i as int].id != self.org_seq()[j].id);
                        }
                    }
                }
                return Some(i);
            }
            i = i + 1;
        }
        None
    }

    /// The position of campaign `id`, if there is one.
    pub fn find_campaign(&self, id: u128) -> (r: Option<usize>)
        requires
            self.wf(),
        ensures
            match r {
                Some(i) => self.has_campaign(id) && i == self.campaign_pos(id) && i < self.campaign_seq().len(),
                None => !self.has_campaign(id),
            },
    {
        let mut i: usize = 0;
        while i < self.campaigns.len()
            invariant
                self.wf(),
                i <= self.campaigns@.len(),
                forall|k: int| 0 <= k < i ==> (#[trigger] self.campaigns@[k]).id != id,
            decreases self.campaigns@.len() - i,
        {
            if self.campaigns[i].id == id {
                proof {
                    assert(self.campaign_seq()[i as int].id == id);
                    assert(self.has_campaign(id));
                    let j = self.campaign_pos(id);
                    if j != i {
                        if j < i {
                            assert(self.campaign_seq()[j].id != self.campaign_seq()[i as int].id);
                        } else {
                            assert(self.campaign_seq()[i as int].id != self.campaign_seq()[j].id);
                        }
                    }
                }
                return Some(i);
            }
            i = i + 1;
        }
        None
    }

    /// The position of disbursement `id`, if there is one.
    pub fn find_disbursement(&self, id: u128) -> (r: Option<usize>)
        requires
            self.wf(),
        ensures
            match r {
                Some(i) => self.has_disbursement(id) && i == self.disbursement_pos(id) && i < self.disbursement_seq().len(),
                None => !self.has_disbursement(id),
            },
    {
        let mut i: usize = 0;
        while i < self.disbursements.len()
            invariant
                self.wf(),
                i <= self.disbursements@.len(),
                forall|k: int| 0 <= k < i ==> (#[trigger] self.disbursements@[k]).id != id,
            decreases self.disbursements@.len() - i,
        {
            if self.disbursements[i].id == id {
                proof {
                    assert(self.disbursement_seq()[i as int].id == id);
                    assert(self.has_disbursement(id));
                    let j = self.disbursement_pos(id);
                    if j != i {
                        if j < i {
                            assert(self.disbursement_seq()[j].id != self.disbursement_seq()[i as int].id);
                        } else {
                            assert(self.disbursement_seq()[i as int].id != self.disbursement_seq()[j].id);
                        }
                    }
                }
                return Some(i);
            }
            i = i + 1;
        }
        None
    }

    fn find_wallet(&self, wallet: &String) -> (r: Option<usize>)
        ensures
            match r {
                Some(i) => i < self.org_seq().len() && self.org_seq()[i as int].wallet_address@ == wallet@,
                None => !self.has_wallet(wallet@),
            },
    {
        let mut i: usize = 0;
        while i < self.organizations.len()
            invariant
                i <= self.organizations@.len(),
                forall|k: int| 0 <= k < i ==> (#[trigger] self.organizations@[k]).wallet_address@ != wallet@,
            decreases self.organizations@.len() - i,
        {
            if self.organizations[i].wallet_address == *wallet {
                return Some(i);
            }
            i = i + 1;
        }
        None
    }

    fn log(&mut self, kind: EntityKind, entity_id: u128, action: AuditAction, actor: String, details: Vec<Detail>, now: i64)
        requires
            old(self).next_id_of() < u128::MAX,
        ensures
            final(self).audit_seq().len() == old(self).audit_seq().len() + 1,
            final(self).audit_seq().drop_last() == old(self).audit_seq(),
            audit_entry_is(final(self).audit_seq().last(), old(self).next_id_of(), kind, entity_id, action, actor, now),
            final(self).next_id_of() == old(self).next_id_of() + 1,
            final(self).org_seq() == old(self).org_seq(),
            final(self).campaign_seq() == old(self).campaign_seq(),
            final(self).donation_seq() == old(self).donation_seq(),
            final(self).disbursement_seq() == old(self).disbursement_seq(),
            final(self).quorum_of() == old(self).quorum_of(),
    {
        let entry = AuditLog {
            id: self.next_id,
            entity_type: kind,
            entity_id,
            action,
            actor_address: actor,
            details,
            created_at: now,
        };
        self.audit_logs.push(entry);
        self.next_id = self.next_id + 1;
        proof {
            assert(self.audit_logs@.drop_last() =~= old(self).audit_logs@);
        }
    }
    /// Registers an organization under a wallet that no organization has yet.
    /// It starts unverified. Returns its identifier.
    pub fn create_organization(&mut self, req: CreateOrganizationRequest, now: i64) -> (r: Result<u128, AppError>)
        requires
            old(self).wf(),
            old(self).has_room(),
        ensures
            final(self).wf(),
            if old(self).has_wallet(req.wallet_address@) {
                r == Err::<u128, AppError>(AppError::BadRequest(Reason::DuplicateWallet)) && *final(self) == *old(self)
            } else {
                let id = old(self).next_id_of();
                &&& r == Ok::<u128, AppError>(id)
                &&& final(self).org_seq() == old(self).org_seq().push(
                    (Organization {
                        id,
                        name: req.name,
                        wallet_address: req.wallet_address,
                        verified: false,
                        email: req.email,
                        description: req.description,
                        created_at: now,
                        updated_at: now,
                    }),
                )
                &&& audit_appended(old(self).audit_seq(), final(self).audit_seq(), (id + 1) as u128,
                    EntityKind::Organization, id, AuditAction::Created, req.wallet_address, now)
                &&& final(self).next_id_of() == id + 2
                &&& final(self).campaign_seq() == old(self).campaign_seq()
                &&& final(self).donation_seq() == old(self).donation_seq()
                &&& final(self).disbursement_seq() == old(self).disbursement_seq()
                &&& final(self).quorum_of() == old(self).quorum_of()
            },
    {
        if self.find_wallet(&req.wallet_address).is_some() {
            return Err(AppError::BadRequest(Reason::DuplicateWallet));
        }
        let id = self.next_id;
        let details = vec![Detail { key: "name", value: DetailValue::Text(req.name.clone()) }];
        let actor = req.wallet_address.clone();
        let org = Organization {
            id,
            name: req.name,
            wallet_address: req.wallet_address,
            verified: false,
            email: req.email,
            description: req.description,
            created_at: now,
            updated_at: now,
        };
        self.organizations.push(org);
        self.next_id = id + 1;
        proof {
            lemma_links_kept(*old(self), *self);
        }
        self.log(EntityKind::Organization, id, AuditAction::Created, actor, details, now);
        proof {
            lemma_links_kept(*old(self), *self);
            assert(self.donation_seq() == old(self).donation_seq());
            assert(self.disbursement_seq() == old(self).disbursement_seq());
        }
        proof {
            let os = self.org_seq();
            assert forall|i: int, j: int| 0 <= i < j < os.len() implies (#[trigger] os[i]).id != (#[trigger] os[j]).id by {
                if j == os.len() - 1 {
                    assert(os[i] == old(self).org_seq()[i]);
                } else {
                    assert(os[i] == old(self).org_seq()[i] && os[j] == old(self).org_seq()[j]);
                }
            }
            assert forall|i: int| 0 <= i < os.len() implies (#[trigger] os[i]).id < self.next_id_of() by {
                if i < os.len() - 1 {
                    assert(os[i] == old(self).org_seq()[i]);
                }
            }
        }
        Ok(id)
    }

    /// Applies a partial update to organization `id`.
    pub fn update_organization(&mut self, id: u128, req: UpdateOrganizationRequest, now: i64) -> (r: Result<(), AppError>)
        requires
            old(self).wf(),
            old(self).has_room(),
        ensures
            final(self).wf(),
            if !old(self).has_org(id) {
                r == Err::<(), AppError>(AppError::NotFound(EntityKind::Organization)) && *final(self) == *old(self)
            } else {
                let o = old(self).org_of(id);
                let n = final(self).org_seq()[old(self).org_pos(id)];
                &&& r is Ok
                &&& final(self).org_seq().len() == old(self).org_seq().len()
                &&& forall|k: int| 0 <= k < old(self).org_seq().len() && k != old(self).org_pos(id)
                    ==> #[trigger] final(self).org_seq()[k] == old(self).org_seq()[k]
                &&& n.id == o.id && n.wallet_address == o.wallet_address && n.created_at == o.created_at
                &&& n.updated_at == now
                &&& n.name == match req.name { Some(x) => x, None => o.name }
                &&& n.email == match req.email { Some(x) => Some(x), None => o.email }
                &&& n.description == match req.description { Some(x) => Some(x), None => o.description }
                &&& n.verified == match req.verified { Some(x) => x, None => o.verified }
                &&& audit_appended(old(self).audit_seq(), final(self).audit_seq(), old(self).next_id_of(),
                    EntityKind::Organization, id, AuditAction::Updated, o.wallet_address, now)
                &&& final(self).next_id_of() == old(self).next_id_of() + 1
                &&& final(self).campaign_seq() == old(self).campaign_seq()
                &&& final(self).donation_seq() == old(self).donation_seq()
                &&& final(self).disbursement_seq() == old(self).disbursement_seq()
                &&& final(self).quorum_of() == old(self).quorum_of()
            },
    {
        let i = match self.find_org(id) {
            Some(i) => i,
            None => {
                return Err(AppError::NotFound(EntityKind::Organization));
            },
        };
        self.organizations[i].apply_update(req, now);
        let verified = self.organizations[i].verified;
        let actor = self.organizations[i].wallet_address.clone();
        proof {
            assert(self.organizations@ =~= old(self).organizations@.update(i as int, self.organizations@[i as int]));
            lemma_links_kept(*old(self), *self);
            let os = self.org_seq();
            assert forall|a: int, b: int| 0 <= a < b < os.len() implies (#[trigger] os[a]).id != (#[trigger] os[b]).id by {
                assert(os[a].id == old(self).org_seq()[a].id && os[b].id == old(self).org_seq()[b].id);
            }
            assert forall|a: int| 0 <= a < os.len() implies (#[trigger] os[a]).id < self.next_id_of() by {
                assert(os[a].id == old(self).org_seq()[a].id);
            }
        }
        self.log(EntityKind::Organization, id, AuditAction::Updated, actor, vec![Detail { key: "verified", value: DetailValue::Flag(verified) }], now);
        proof {
            lemma_links_kept(*old(self), *self);
            assert(self.donation_seq() == old(self).donation_seq());
            assert(self.disbursement_seq() == old(self).disbursement_seq());
        }
        Ok(())
    }

    /// Why creating a campaign is refused, if it is.
    pub open spec fn campaign_refusal(&self, req: &CreateCampaignRequest, now: i64) -> Option<AppError> {
        if !self.has_org(req.org_id) {
            Some(AppError::NotFound(EntityKind::Organization))
        } else {
            match req.refusal(now) {
                Some(x) => Some(AppError::BadRequest(x)),
                None => None,
            }
        }
    }

    /// Records a campaign of a stored organization, with a positive goal and
    /// a deadline after `now`, linked to the ledger's campaign number when
    /// the ledger has created it. It starts active with nothing raised.
    pub fn create_campaign(
        &mut self,
        req: CreateCampaignRequest,
        contract_campaign_id: Option<u64>,
        now: i64,
    ) -> (r: Result<u128, AppError>)
        requires
            old(self).wf(),
            old(self).has_room(),
        ensures
            final(self).wf(),
            match old(self).campaign_refusal(&req, now) {
                Some(e) => r == Err::<u128, AppError>(e) && *final(self) == *old(self),
                None => {
                    let id = old(self).next_id_of();
                    &&& r == Ok::<u128, AppError>(id)
                    &&& final(self).campaign_seq() == old(self).campaign_seq().push(
                        (Campaign {
                            id,
                            name: req.name,
                            org_id: req.org_id,
                            goal_amount: req.goal_amount,
                            raised_amount: 0,
                            deadline: req.deadline,
                            status: CampaignStatus::Active,
                            description: req.description,
                            contract_campaign_id,
                            created_at: now,
                            updated_at: now,
                        }),
                    )
                    &&& audit_appended(old(self).audit_seq(), final(self).audit_seq(), (id + 1) as u128,
                        EntityKind::Campaign, id, AuditAction::Created, old(self).org_of(req.org_id).wallet_address, now)
                    &&& final(self).next_id_of() == id + 2
                    &&& final(self).org_seq() == old(self).org_seq()
                    &&& final(self).donation_seq() == old(self).donation_seq()
                    &&& final(self).disbursement_seq() == old(self).disbursement_seq()
                    &&& final(self).quorum_of() == old(self).quorum_of()
                },
            },
    {
        let oi = match self.find_org(req.org_id) {
            Some(oi) => oi,
            None => {
                return Err(AppError::NotFound(EntityKind::Organization));
            },
        };
        req.check(now)?;
        let id = self.next_id;
        let actor = self.organizations[oi].wallet_address.clone();
        let details = vec![
            Detail { key: "name", value: DetailValue::Text(req.name.clone()) },
            Detail { key: "goal_amount", value: DetailValue::Amount(req.goal_amount) },
        ];
        let c = Campaign {
            id,
            name: req.name,
            org_id: req.org_id,
            goal_amount: req.goal_amount,
            raised_amount: 0,
            deadline: req.deadline,
            status: CampaignStatus::Active,
            description: req.description,
            contract_campaign_id,
            created_at: now,
            updated_at: now,
        };
        self.campaigns.push(c);
        self.next_id = id + 1;
        proof {
            lemma_links_kept(*old(self), *self);
            let cs = self.campaign_seq();
            assert forall|i: int, j: int| 0 <= i < j < cs.len() implies (#[trigger] cs[i]).id != (#[trigger] cs[j]).id by {
                if j == cs.len() - 1 {
                    assert(cs[i] == old(self).campaign_seq()[i]);
                } else {
                    assert(cs[i] == old(self).campaign_seq()[i] && cs[j] == old(self).campaign_seq()[j]);
                }
            }
            assert forall|i: int| 0 <= i < cs.len() implies self.has_org((#[trigger] cs[i]).org_id) by {
                if i < cs.len() - 1 {
                    assert(cs[i] == old(self).campaign_seq()[i]);
                } else {
                    assert(self.org_seq()[oi as int].id == req.org_id);
                }
            }
            assert forall|i: int| 0 <= i < cs.len() implies (#[trigger] cs[i]).raised_amount >= 0 by {
                if i < cs.len() - 1 {
                    assert(cs[i] == old(self).campaign_seq()[i]);
                }
            }
        }
        self.log(EntityKind::Campaign, id, AuditAction::Created, actor, details, now);
        proof {
            lemma_links_kept(*old(self), *self);
            assert(self.donation_seq() == old(self).donation_seq());
            assert(self.disbursement_seq() == old(self).disbursement_seq());
        }
        proof {
            let cs = self.campaign_seq();
            assert forall|i: int| 0 <= i < cs.len() implies (#[trigger] cs[i]).id < self.next_id_of() by {
                if i < cs.len() - 1 {
                    assert(cs[i] == old(self).campaign_seq()[i]);
                }
            }
        }
        Ok(id)
    }
    /// Records a donation already accepted by the ledger under transaction
    /// `tx_hash`: the campaign must be active and before its deadline at
    /// `now`, the amount positive. The balance grows and the campaign is
    /// completed once it reaches the goal. Returns the donation's identifier.
    pub fn record_donation(&mut self, req: CreateDonationRequest, now: i64) -> (r: Result<u128, AppError>)
        requires
            old(self).wf(),
            old(self).has_room(),
        ensures
            final(self).wf(),
            if !old(self).has_campaign(req.campaign_id) {
                r == Err::<u128, AppError>(AppError::NotFound(EntityKind::Campaign)) && *final(self) == *old(self)
            } else {
                let c = old(self).campaign_of(req.campaign_id);
                match c.donation_refusal(req.amount, now) {
                    Some(x) => r == Err::<u128, AppError>(AppError::BadRequest(x)) && *final(self) == *old(self),
                    None => {
                        let id = old(self).next_id_of();
                        &&& r == Ok::<u128, AppError>(id)
                        &&& final(self).campaign_seq() == old(self).campaign_seq().update(
                            old(self).campaign_pos(req.campaign_id),
                            c.after_donation(req.amount, now),
                        )
                        &&& final(self).donation_seq() == old(self).donation_seq().push(
                            (Donation {
                                id,
                                campaign_id: req.campaign_id,
                                donor_address: req.donor_address,
                                amount: req.amount,
                                tx_hash: req.tx_hash,
                                timestamp: now,
                            }),
                        )
                        &&& audit_appended(old(self).audit_seq(), final(self).audit_seq(), (id + 1) as u128,
                            EntityKind::Donation, id, AuditAction::Created, req.donor_address, now)
                        &&& final(self).next_id_of() == id + 2
                        &&& final(self).org_seq() == old(self).org_seq()
                        &&& final(self).disbursement_seq() == old(self).disbursement_seq()
                        &&& final(self).quorum_of() == old(self).quorum_of()
                    },
                }
            },
    {
        let ci = match self.find_campaign(req.campaign_id) {
            Some(ci) => ci,
            None => {
                return Err(AppError::NotFound(EntityKind::Campaign));
            },
        };
        self.campaigns[ci].check_donation(req.amount, now)?;
        self.campaigns[ci].apply_donation(req.amount, now);
        let id = self.next_id;
        let details = vec![
            Detail { key: "campaign_id", value: DetailValue::Id(req.campaign_id) },
            Detail { key: "amount", value: DetailValue::Amount(req.amount) },
            Detail { key: "tx_hash", value: DetailValue::Text(req.tx_hash.clone()) },
        ];
        let actor = req.donor_address.clone();
        let d = Donation {
            id,
            campaign_id: req.campaign_id,
            donor_address: req.donor_address,
            amount: req.amount,
            tx_hash: req.tx_hash,
            timestamp: now,
        };
        self.donations.push(d);
        self.next_id = id + 1;
        proof {
            let cs = self.campaign_seq();
            assert(cs =~= old(self).campaign_seq().update(ci as int, cs[ci as int]));
            assert(cs[ci as int].id == req.campaign_id);
        }
        self.log(EntityKind::Donation, id, AuditAction::Created, actor, details, now);
        proof {
            lemma_links_kept(*old(self), *self);
            let cs = self.campaign_seq();
            let ds = self.donation_seq();
            assert(self.disbursement_seq() == old(self).disbursement_seq());
            assert forall|i: int, j: int| 0 <= i < j < cs.len() implies (#[trigger] cs[i]).id != (#[trigger] cs[j]).id by {
                assert(cs[i].id == old(self).campaign_seq()[i].id && cs[j].id == old(self).campaign_seq()[j].id);
            }
            assert forall|i: int| 0 <= i < cs.len() implies (#[trigger] cs[i]).id < self.next_id_of() by {
                assert(cs[i].id == old(self).campaign_seq()[i].id);
            }
            assert forall|i: int| 0 <= i < cs.len() implies self.has_org((#[trigger] cs[i]).org_id)
                && cs[i].raised_amount >= 0 by {
                assert(cs[i].org_id == old(self).campaign_seq()[i].org_id);
                assert(old(self).has_org(old(self).campaign_seq()[i].org_id));
            }
            assert forall|i: int| 0 <= i < ds.len() implies self.has_campaign((#[trigger] ds[i]).campaign_id)
                && ds[i].amount > 0 by {
                if i < ds.len() - 1 {
                    assert(ds[i] == old(self).donation_seq()[i]);
                    assert(old(self).has_campaign(ds[i].campaign_id));
                } else {
                    assert(cs[ci as int].id == req.campaign_id);
                }
            }
        }
        Ok(id)
    }

    /// Records a proposal to pay `amount` out of a campaign to a recipient:
    /// the amount must be positive and covered by the balance, and the
    /// campaign not closed. The new disbursement is pending with no approver.
    /// Returns its identifier.
    pub fn propose_disbursement(&mut self, req: CreateDisbursementRequest, now: i64) -> (r: Result<u128, AppError>)
        requires
            old(self).wf(),
            old(self).has_room(),
        ensures
            final(self).wf(),
            if !old(self).has_campaign(req.campaign_id) {
                r == Err::<u128, AppError>(AppError::NotFound(EntityKind::Campaign)) && *final(self) == *old(self)
            } else {
                let c = old(self).campaign_of(req.campaign_id);
                match c.proposal_refusal(req.amount) {
                    Some(x) => r == Err::<u128, AppError>(AppError::BadRequest(x)) && *final(self) == *old(self),
                    None => {
                        let id = old(self).next_id_of();
                        &&& r == Ok::<u128, AppError>(id)
                        &&& final(self).disbursement_seq().len() == old(self).disbursement_seq().len() + 1
                        &&& final(self).disbursement_seq().drop_last() == old(self).disbursement_seq()
                        &&& fresh_disbursement_row(final(self).disbursement_seq().last(), id, req.campaign_id,
                            req.recipient_address, req.amount, now)
                        &&& audit_appended(old(self).audit_seq(), final(self).audit_seq(), (id + 1) as u128,
                            EntityKind::Disbursement, id, AuditAction::Created,
                            old(self).owner_of(req.campaign_id).wallet_address, now)
                        &&& final(self).next_id_of() == id + 2
                        &&& final(self).org_seq() == old(self).org_seq()
                        &&& final(self).campaign_seq() == old(self).campaign_seq()
                        &&& final(self).donation_seq() == old(self).donation_seq()
                        &&& final(self).quorum_of() == old(self).quorum_of()
                    },
                }
            },
    {
        let ci = match self.find_campaign(req.campaign_id) {
            Some(ci) => ci,
            None => {
                return Err(AppError::NotFound(EntityKind::Campaign));
            },
        };
        self.campaigns[ci].check_proposal(req.amount)?;
        proof {
            assert(self.has_org(self.campaign_seq()[ci as int].org_id));
        }
        let oi = match self.find_org(self.campaigns[ci].org_id) {
            Some(oi) => oi,
            None => {
                return Err(AppError::Internal);
            },
        };
        let actor = self.organizations[oi].wallet_address.clone();
        let id = self.next_id;
        let details = vec![
            Detail { key: "campaign_id", value: DetailValue::Id(req.campaign_id) },
            Detail { key: "recipient_address", value: DetailValue::Text(req.recipient_address.clone()) },
            Detail { key: "amount", value: DetailValue::Amount(req.amount) },
        ];
        let b = Disbursement {
            id,
            campaign_id: req.campaign_id,
            recipient_address: req.recipient_address,
            amount: req.amount,
            status: DisbursementState::Pending,
            approved_by: Vec::new(),
            tx_hash: None,
            created_at: now,
            executed_at: None,
        };
        self.disbursements.push(b);
        self.next_id = id + 1;
        self.log(EntityKind::Disbursement, id, AuditAction::Created, actor, details, now);
        proof {
            lemma_links_kept(*old(self), *self);
            let bs = self.disbursement_seq();
            assert(bs.drop_last() =~= old(self).disbursement_seq());
            assert(self.donation_seq() == old(self).donation_seq());
            assert forall|i: int, j: int| 0 <= i < j < bs.len() implies (#[trigger] bs[i]).id != (#[trigger] bs[j]).id by {
                if j == bs.len() - 1 {
                    assert(bs[i] == old(self).disbursement_seq()[i]);
                } else {
                    assert(bs[i] == old(self).disbursement_seq()[i] && bs[j] == old(self).disbursement_seq()[j]);
                }
            }
            assert forall|i: int| 0 <= i < bs.len() implies (#[trigger] bs[i]).id < self.next_id_of()
                && self.has_campaign(bs[i].campaign_id) && bs[i].amount > 0
                && distinct_principals(bs[i].approved_by@)
                && (bs[i].status == DisbursementState::Executed <==> bs[i].tx_hash.is_some()) by {
                if i < bs.len() - 1 {
                    assert(bs[i] == old(self).disbursement_seq()[i]);
                    assert(old(self).has_campaign(bs[i].campaign_id));
                } else {
                    assert(self.campaign_seq()[ci as int].id == req.campaign_id);
                }
            }
        }
        Ok(id)
    }

    /// Adds the given approvers to a disbursement that still waits for
    /// execution; it becomes approved once its approvers reach the quorum.
    pub fn approve_disbursement(&mut self, id: u128, req: ApproveDisbursementRequest, now: i64) -> (r: Result<(), AppError>)
        requires
            old(self).wf(),
            old(self).has_room(),
        ensures
            final(self).wf(),
            if !old(self).has_disbursement(id) {
                r == Err::<(), AppError>(AppError::NotFound(EntityKind::Disbursement)) && *final(self) == *old(self)
            } else {
                let b = old(self).disbursement_of(id);
                let k = old(self).disbursement_pos(id);
                match b.approval_refusal(req.approver_addresses@) {
                    Some(x) => r == Err::<(), AppError>(AppError::BadRequest(x)) && *final(self) == *old(self),
                    None => {
                        &&& r is Ok
                        &&& final(self).disbursement_seq().len() == old(self).disbursement_seq().len()
                        &&& forall|j: int| 0 <= j < old(self).disbursement_seq().len() && j != k
                            ==> #[trigger] final(self).disbursement_seq()[j] == old(self).disbursement_seq()[j]
                        &&& approvals_merged(b, final(self).disbursement_seq()[k], req.approver_addresses@, old(self).quorum_of())
                        &&& audit_appended(old(self).audit_seq(), final(self).audit_seq(), old(self).next_id_of(),
                            EntityKind::Disbursement, id, AuditAction::Approved, req.approver_addresses@[0], now)
                        &&& final(self).next_id_of() == old(self).next_id_of() + 1
                        &&& final(self).org_seq() == old(self).org_seq()
                        &&& final(self).campaign_seq() == old(self).campaign_seq()
                        &&& final(self).donation_seq() == old(self).donation_seq()
                        &&& final(self).quorum_of() == old(self).quorum_of()
                    },
                }
            },
    {
        let bi = match self.find_disbursement(id) {
            Some(bi) => bi,
            None => {
                return Err(AppError::NotFound(EntityKind::Disbursement));
            },
        };
        self.disbursements[bi].check_approval(&req.approver_addresses)?;
        let q = self.quorum;
        proof {
            assert(distinct_principals(self.disbursement_seq()[bi as int].approved_by@));
        }
        self.disbursements[bi].merge_approvals(&req.approver_addresses, q);
        let actor = req.approver_addresses[0].clone();
        let mut details: Vec<Detail> = Vec::new();
        let mut i: usize = 0;
        while i < req.approver_addresses.len()
            decreases req.approver_addresses@.len() - i,
        {
            details.push(Detail { key: "approver", value: DetailValue::Text(req.approver_addresses[i].clone()) });
            i = i + 1;
        }
        proof {
            let bs = self.disbursement_seq();
            assert(bs =~= old(self).disbursement_seq().update(bi as int, bs[bi as int]));
        }
        self.log(EntityKind::Disbursement, id, AuditAction::Approved, actor, details, now);
        proof {
            lemma_links_kept(*old(self), *self);
            let bs = self.disbursement_seq();
            assert(self.donation_seq() == old(self).donation_seq());
            assert forall|a: int, c: int| 0 <= a < c < bs.len() implies (#[trigger] bs[a]).id != (#[trigger] bs[c]).id by {
                assert(bs[a].id == old(self).disbursement_seq()[a].id && bs[c].id == old(self).disbursement_seq()[c].id);
            }
            assert forall|a: int| 0 <= a < bs.len() implies (#[trigger] bs[a]).id < self.next_id_of()
                && self.has_campaign(bs[a].campaign_id) && bs[a].amount > 0
                && distinct_principals(bs[a].approved_by@)
                && (bs[a].status == DisbursementState::Executed <==> bs[a].tx_hash.is_some()) by {
                assert(old(self).has_campaign(old(self).disbursement_seq()[a].campaign_id));
                if a != bi {
                    assert(bs[a] == old(self).disbursement_seq()[a]);
                }
            }
        }
        Ok(())
    }

    /// Why executing disbursement `id` is refused, if it is.
    pub open spec fn execution_error(&self, id: u128) -> Option<AppError> {
        if !self.has_disbursement(id) {
            Some(AppError::NotFound(EntityKind::Disbursement))
        } else {
            let b = self.disbursement_of(id);
            match b.execution_refusal(self.campaign_of(b.campaign_id).raised_amount) {
                Some(x) => Some(AppError::BadRequest(x)),
                None => None,
            }
        }
    }

    /// Records the execution, confirmed by the ledger under transaction
    /// `tx_hash`, of an approved disbursement that the campaign's balance
    /// covers: the disbursement becomes executed and the balance drops by
    /// its amount. A disbursement is executed at most once.
    pub fn execute_disbursement(&mut self, id: u128, req: ExecuteDisbursementRequest, now: i64) -> (r: Result<(), AppError>)
        requires
            old(self).wf(),
            old(self).has_room(),
        ensures
            final(self).wf(),
            match old(self).execution_error(id) {
                Some(e) => r == Err::<(), AppError>(e) && *final(self) == *old(self),
                None => {
                    let b = old(self).disbursement_of(id);
                    let c = old(self).campaign_of(b.campaign_id);
                    &&& r is Ok
                    &&& final(self).disbursement_seq() == old(self).disbursement_seq().update(
                        old(self).disbursement_pos(id),
                        executed_row(b, req.tx_hash, now),
                    )
                    &&& final(self).campaign_seq() == old(self).campaign_seq().update(
                        old(self).campaign_pos(b.campaign_id),
                        c.after_payout(b.amount, now),
                    )
                    &&& audit_appended(old(self).audit_seq(), final(self).audit_seq(), old(self).next_id_of(),
                        EntityKind::Disbursement, id, AuditAction::Executed,
                        old(self).owner_of(b.campaign_id).wallet_address, now)
                    &&& final(self).next_id_of() == old(self).next_id_of() + 1
                    &&& final(self).org_seq() == old(self).org_seq()
                    &&& final(self).donation_seq() == old(self).donation_seq()
                    &&& final(self).quorum_of() == old(self).quorum_of()
                },
            },
    {
        let bi = match self.find_disbursement(id) {
            Some(bi) => bi,
            None => {
                return Err(AppError::NotFound(EntityKind::Disbursement));
            },
        };
        proof {
            assert(self.has_campaign(self.disbursement_seq()[bi as int].campaign_id));
        }
        let ci = match self.find_campaign(self.disbursements[bi].campaign_id) {
            Some(ci) => ci,
            None => {
                return Err(AppError::Internal);
            },
        };
        self.disbursements[bi].check_execution(self.campaigns[ci].raised_amount)?;
        proof {
            assert(self.has_org(self.campaign_seq()[ci as int].org_id));
        }
        let oi = match self.find_org(self.campaigns[ci].org_id) {
            Some(oi) => oi,
            None => {
                return Err(AppError::Internal);
            },
        };
        let actor = self.organizations[oi].wallet_address.clone();
        let amount = self.disbursements[bi].amount;
        let details = vec![
            Detail { key: "tx_hash", value: DetailValue::Text(req.tx_hash.clone()) },
            Detail { key: "amount", value: DetailValue::Amount(amount) },
        ];
        self.disbursements[bi].mark_executed(req.tx_hash, now);
        self.campaigns[ci].apply_payout(amount, now);
        proof {
            let bs = self.disbursement_seq();
            let cs = self.campaign_seq();
            assert(bs =~= old(self).disbursement_seq().update(bi as int, bs[bi as int]));
            assert(cs =~= old(self).campaign_seq().update(ci as int, cs[ci as int]));
        }
        self.log(EntityKind::Disbursement, id, AuditAction::Executed, actor, details, now);
        proof {
            lemma_links_kept(*old(self), *self);
            let bs = self.disbursement_seq();
            let cs = self.campaign_seq();
            assert(self.donation_seq() == old(self).donation_seq());
            assert forall|a: int, c: int| 0 <= a < c < bs.len() implies (#[trigger] bs[a]).id != (#[trigger] bs[c]).id by {
                assert(bs[a].id == old(self).disbursement_seq()[a].id && bs[c].id == old(self).disbursement_seq()[c].id);
            }
            assert forall|a: int| 0 <= a < bs.len() implies (#[trigger] bs[a]).id < self.next_id_of()
                && self.has_campaign(bs[a].campaign_id) && bs[a].amount > 0
                && distinct_principals(bs[a].approved_by@)
                && (bs[a].status == DisbursementState::Executed <==> bs[a].tx_hash.is_some()) by {
                assert(old(self).has_campaign(old(self).disbursement_seq()[a].campaign_id));
                if a != bi {
                    assert(bs[a] == old(self).disbursement_seq()[a]);
                }
            }
            assert forall|a: int, c: int| 0 <= a < c < cs.len() implies (#[trigger] cs[a]).id != (#[trigger] cs[c]).id by {
                assert(cs[a].id == old(self).campaign_seq()[a].id && cs[c].id == old(self).campaign_seq()[c].id);
            }
            assert forall|a: int| 0 <= a < cs.len() implies (#[trigger] cs[a]).id < self.next_id_of()
                && self.has_org(cs[a].org_id) && cs[a].raised_amount >= 0 by {
                assert(old(self).has_org(old(self).campaign_seq()[a].org_id));
                if a != ci {
                    assert(cs[a] == old(self).campaign_seq()[a]);
                }
            }
        }
        Ok(())
    }
    /// Whether audit entry `e` refers to campaign `cid`, to one of its
    /// donations, or to one of its disbursements.
    pub open spec fn refers_to(&self, e: AuditLog, cid: u128) -> bool {
        ||| e.entity_type == EntityKind::Campaign && e.entity_id == cid
        ||| e.entity_type == EntityKind::Donation && exists|k: int|
            0 <= k < self.donation_seq().len() && #[trigger] self.donation_seq()[k].id == e.entity_id
                && self.donation_seq()[k].campaign_id == cid
        ||| e.entity_type == EntityKind::Disbursement && exists|k: int|
            0 <= k < self.disbursement_seq().len() && #[trigger] self.disbursement_seq()[k].id == e.entity_id
                && self.disbursement_seq()[k].campaign_id == cid
    }

    /// The entries of `s` that refer to campaign `cid`, in the order of `s`.
    pub open spec fn entries_for(&self, s: Seq<AuditLog>, cid: u128) -> Seq<AuditLog>
        decreases s.len(),
    {
        if s.len() == 0 {
            Seq::empty()
        } else if self.refers_to(s.last(), cid) {
            self.entries_for(s.drop_last(), cid).push(s.last())
        } else {
            self.entries_for(s.drop_last(), cid)
        }
    }

    fn donation_in_campaign(&self, id: u128, cid: u128) -> (r: bool)
        ensures
            r == exists|k: int| 0 <= k < self.donation_seq().len() && #[trigger] self.donation_seq()[k].id == id
                && self.donation_seq()[k].campaign_id == cid,
    {
        let mut i: usize = 0;
        while i < self.donations.len()
            invariant
                i <= self.donations@.len(),
                forall|k: int| 0 <= k < i ==> !(#[trigger] self.donations@[k].id == id && self.donations@[k].campaign_id == cid),
            decreases self.donations@.len() - i,
        {
            if self.donations[i].id == id && self.donations[i].campaign_id == cid {
                proof {
                    assert(self.donation_seq()[i as int].id == id);
                }
                return true;
            }
            i = i + 1;
        }
        false
    }

    fn disbursement_in_campaign(&self, id: u128, cid: u128) -> (r: bool)
        ensures
            r == exists|k: int| 0 <= k < self.disbursement_seq().len() && #[trigger] self.disbursement_seq()[k].id == id
                && self.disbursement_seq()[k].campaign_id == cid,
    {
        let mut i: usize = 0;
        while i < self.disbursements.len()
            invariant
                i <= self.disbursements@.len(),
                forall|k: int| 0 <= k < i ==> !(#[trigger] self.disbursements@[k].id == id && self.disbursements@[k].campaign_id == cid),
            decreases self.disbursements@.len() - i,
        {
            if self.disbursements[i].id == id && self.disbursements[i].campaign_id == cid {
                proof {
                    assert(self.disbursement_seq()[i as int].id == id);
                }
                return true;
            }
            i = i + 1;
        }
        false
    }

    fn refers(&self, e: &AuditLog, cid: u128) -> (r: bool)
        ensures
            r == self.refers_to(*e, cid),
    {
        match e.entity_type {
            EntityKind::Campaign => e.entity_id == cid,
            EntityKind::Donation => self.donation_in_campaign(e.entity_id, cid),
            EntityKind::Disbursement => self.disbursement_in_campaign(e.entity_id, cid),
            EntityKind::Organization => false,
        }
    }

    /// The donations to campaign `cid`, by `donor` when one is given, newest first.
    pub fn donations_of(&self, cid: u128, donor: &Option<String>) -> (r: Vec<&Donation>)
        ensures
            derefs(r@) == newest_donations(self.donation_seq(), cid, filter_view(*donor)),
    {
        let ghost ds = self.donations@;
        let ghost f = filter_view(*donor);
        let mut r: Vec<&Donation> = Vec::new();
        let mut i: usize = self.donations.len();
        proof {
            assert(ds.take(ds.len() as int) =~= ds);
            assert(derefs(r@) =~= Seq::<Donation>::empty());
            assert(derefs(r@) + newest_donations(ds.take(i as int), cid, f) =~= newest_donations(ds, cid, f));
        }
        while i > 0
            invariant
                i <= ds.len(),
                ds == self.donations@,
                f == filter_view(*donor),
                derefs(r@) + newest_donations(ds.take(i as int), cid, f) == newest_donations(ds, cid, f),
            decreases i,
        {
            let d = &self.donations[i - 1];
            let keep = d.campaign_id == cid && match donor {
                None => true,
                Some(w) => d.donor_address == *w,
            };
            proof {
                assert(ds.take(i as int).drop_last() =~= ds.take(i - 1));
                assert(ds.take(i as int).last() == ds[i - 1]);
            }
            if keep {
                let ghost before = r@;
                r.push(d);
                proof {
                    assert(derefs(r@) =~= derefs(before).push(*d));
                    assert(derefs(r@) + newest_donations(ds.take(i - 1), cid, f) =~= derefs(before)
                        + newest_donations(ds.take(i as int), cid, f));
                }
            }
            i = i - 1;
        }
        proof {
            assert(ds.take(0) =~= Seq::<Donation>::empty());
            assert(derefs(r@) + Seq::<Donation>::empty() =~= derefs(r@));
        }
        r
    }

    /// The disbursements out of campaign `cid`, newest first.
    pub fn campaign_disbursements(&self, cid: u128) -> (r: Vec<&Disbursement>)
        ensures
            derefs(r@) == newest_disbursements(self.disbursement_seq(), cid),
    {
        let ghost bs = self.disbursements@;
        let mut r: Vec<&Disbursement> = Vec::new();
        let mut i: usize = self.disbursements.len();
        proof {
            assert(bs.take(bs.len() as int) =~= bs);
            assert(derefs(r@) =~= Seq::<Disbursement>::empty());
            assert(derefs(r@) + newest_disbursements(bs.take(i as int), cid) =~= newest_disbursements(bs, cid));
        }
        while i > 0
            invariant
                i <= bs.len(),
                bs == self.disbursements@,
                derefs(r@) + newest_disbursements(bs.take(i as int), cid) == newest_disbursements(bs, cid),
            decreases i,
        {
            let b = &self.disbursements[i - 1];
            proof {
                assert(bs.take(i as int).drop_last() =~= bs.take(i - 1));
                assert(bs.take(i as int).last() == bs[i - 1]);
            }
            if b.campaign_id == cid {
                let ghost before = r@;
                r.push(b);
                proof {
                    assert(derefs(r@) =~= derefs(before).push(*b));
                    assert(derefs(r@) + newest_disbursements(bs.take(i - 1), cid) =~= derefs(before)
                        + newest_disbursements(bs.take(i as int), cid));
                }
            }
            i = i - 1;
        }
        proof {
            assert(bs.take(0) =~= Seq::<Disbursement>::empty());
            assert(derefs(r@) + Seq::<Disbursement>::empty() =~= derefs(r@));
        }
        r
    }

    /// The campaigns of organization `org` and in status `status`, each when
    /// given, newest first.
    pub fn campaigns_matching(&self, org: Option<u128>, status: Option<CampaignStatus>) -> (r: Vec<&Campaign>)
        ensures
            derefs(r@) == newest_campaigns(self.campaign_seq(), org, status),
    {
        let ghost cs = self.campaigns@;
        let mut r: Vec<&Campaign> = Vec::new();
        let mut i: usize = self.campaigns.len();
        proof {
            assert(cs.take(cs.len() as int) =~= cs);
            assert(derefs(r@) =~= Seq::<Campaign>::empty());
            assert(derefs(r@) + newest_campaigns(cs.take(i as int), org, status) =~= newest_campaigns(cs, org, status));
        }
        while i > 0
            invariant
                i <= cs.len(),
                cs == self.campaigns@,
                derefs(r@) + newest_campaigns(cs.take(i as int), org, status) == newest_campaigns(cs, org, status),
            decreases i,
        {
            let c = &self.campaigns[i - 1];
            let keep = match org {
                None => true,
                Some(o) => c.org_id == o,
            } && match status {
                None => true,
                Some(st) => c.status == st,
            };
            proof {
                assert(cs.take(i as int).drop_last() =~= cs.take(i - 1));
                assert(cs.take(i as int).last() == cs[i - 1]);
            }
            if keep {
                let ghost before = r@;
                r.push(c);
                proof {
                    assert(derefs(r@) =~= derefs(before).push(*c));
                    assert(derefs(r@) + newest_campaigns(cs.take(i - 1), org, status) =~= derefs(before)
                        + newest_campaigns(cs.take(i as int), org, status));
                }
            }
            i = i - 1;
        }
        proof {
            assert(cs.take(0) =~= Seq::<Campaign>::empty());
            assert(derefs(r@) + Seq::<Campaign>::empty() =~= derefs(r@));
        }
        r
    }

    /// A page of the donations to campaign `cid` by the donor given in
    /// `params` if any, newest first (timestamps descending, ties by
    /// identifier descending): at most `limit` (100 when none is given) after
    /// skipping `offset`. `total` counts all donations to the campaign.
    pub fn campaign_donations(&self, cid: u128, params: &DonationQueryParams) -> (r: DonationPage<'_>)
        ensures
            r.total == newest_donations(self.donation_seq(), cid, None).len(),
            exists|s: Seq<&Donation>|
                {
                    &&& donations_newest_first(s)
                    &&& derefs(s).to_multiset() == newest_donations(
                        self.donation_seq(),
                        cid,
                        filter_view(params.donor_address),
                    ).to_multiset()
                    &&& #[trigger] page_of(s, offset_of(params.offset), donation_limit_of(params.limit))
                        == r.donations@
                },
    {
        let all = self.donations_of(cid, &params.donor_address);
        let sorted = sort_donations(all);
        let donations = take_page(&sorted, effective_offset(params.offset), donation_page_limit(params.limit));
        let total = self.donations_of(cid, &None).len();
        proof {
            assert(derefs(sorted@).to_multiset() == newest_donations(self.donation_seq(), cid, filter_view(params.donor_address)).to_multiset());
            assert(page_of(sorted@, offset_of(params.offset), donation_limit_of(params.limit)) == donations@);
        }
        DonationPage { donations, total }
    }

    /// A page of the campaigns, newest first, of the organization and in the
    /// status given in `params` if any. The page holds at most `limit` (50
    /// when none is given, never over 500) after skipping `offset`. An
    /// unknown status name is refused.
    pub fn list_campaigns(&self, params: &CampaignQueryParams) -> (r: Result<Vec<&Campaign>, AppError>)
        ensures
            match params.status {
                Some(st) if status_named(st@).is_none() => r == Err::<Vec<&Campaign>, AppError>(
                    AppError::BadRequest(Reason::UnknownStatus)),
                _ => r matches Ok(v) && derefs(v@) == page_of(
                    newest_campaigns(self.campaign_seq(), params.org_id, match params.status {
                        Some(st) => status_named(st@),
                        None => None,
                    }),
                    offset_of(params.offset),
                    limit_of(params.limit, 50),
                ),
            },
    {
        let status = match &params.status {
            None => None,
            Some(st) => match parse_status(st.as_str()) {
                Some(x) => Some(x),
                None => {
                    return Err(AppError::BadRequest(Reason::UnknownStatus));
                },
            },
        };
        let all = self.campaigns_matching(params.org_id, status);
        let r = take_page(&all, effective_offset(params.offset), effective_limit(params.limit, 50));
        proof {
            assert(derefs(r@) =~= page_of(derefs(all@), offset_of(params.offset), limit_of(params.limit, 50)));
        }
        Ok(r)
    }

    /// The merged history of campaign `cid`.
    pub fn get_audit(&self, cid: u128) -> (r: Result<AuditResponse<'_>, AppError>)
        requires
            self.wf(),
        ensures
            match r {
                Err(e) => !self.has_campaign(cid) && e == AppError::NotFound(EntityKind::Campaign),
                Ok(a) => {
                    &&& self.has_campaign(cid)
                    &&& *a.campaign == self.campaign_of(cid)
                    &&& derefs(a.donations@) == newest_donations(self.donation_seq(), cid, None)
                    &&& derefs(a.disbursements@) == newest_disbursements(self.disbursement_seq(), cid)
                    &&& newest_first(a.audit_logs@)
                    &&& derefs(a.audit_logs@).to_multiset() == self.entries_for(self.audit_seq(), cid).to_multiset()
                },
            },
    {
        let ci = match self.find_campaign(cid) {
            Some(ci) => ci,
            None => {
                return Err(AppError::NotFound(EntityKind::Campaign));
            },
        };
        let donations = self.donations_of(cid, &None);
        let disbursements = self.campaign_disbursements(cid);
        let ghost logs = self.audit_logs@;
        let mut selected: Vec<&AuditLog> = Vec::new();
        let mut i: usize = 0;
        while i < self.audit_logs.len()
            invariant
                i <= logs.len(),
                logs == self.audit_logs@,
                derefs(selected@) == self.entries_for(logs.take(i as int), cid),
            decreases logs.len() - i,
        {
            let e = &self.audit_logs[i];
            proof {
                assert(logs.take(i + 1).drop_last() =~= logs.take(i as int));
                assert(logs.take(i + 1).last() == logs[i as int]);
            }
            if self.refers(e, cid) {
                let ghost before = selected@;
                selected.push(e);
                proof {
                    assert(derefs(selected@) =~= derefs(before).push(*e));
                }
            }
            i = i + 1;
        }
        proof {
            assert(logs.take(i as int) =~= logs);
        }
        let audit_logs = sort_newest_first(selected);
        Ok(AuditResponse { campaign: &self.campaigns[ci], donations, disbursements, audit_logs })
    }

    /// Organization `id`.
    pub fn get_organization(&self, id: u128) -> (r: Result<&Organization, AppError>)
        requires
            self.wf(),
        ensures
            match r {
                Ok(o) => self.has_org(id) && *o == self.org_of(id),
                Err(e) => !self.has_org(id) && e == AppError::NotFound(EntityKind::Organization),
            },
    {
        match self.find_org(id) {
            Some(i) => Ok(&self.organizations[i]),
            None => Err(AppError::NotFound(EntityKind::Organization)),
        }
    }

    /// The organization registered under `wallet`.
    pub fn get_organization_by_wallet(&self, wallet: &String) -> (r: Result<&Organization, AppError>)
        ensures
            match r {
                Ok(o) => self.has_wallet(wallet@) && o.wallet_address@ == wallet@,
                Err(e) => !self.has_wallet(wallet@) && e == AppError::NotFound(EntityKind::Organization),
            },
    {
        match self.find_wallet(wallet) {
            Some(i) => {
                proof {
                    assert(self.org_seq()[i as int].wallet_address@ == wallet@);
                }
                Ok(&self.organizations[i])
            },
            None => Err(AppError::NotFound(EntityKind::Organization)),
        }
    }

    /// Campaign `id`.
    pub fn get_campaign(&self, id: u128) -> (r: Result<&Campaign, AppError>)
        requires
            self.wf(),
        ensures
            match r {
                Ok(c) => self.has_campaign(id) && *c == self.campaign_of(id),
                Err(e) => !self.has_campaign(id) && e == AppError::NotFound(EntityKind::Campaign),
            },
    {
        match self.find_campaign(id) {
            Some(i) => Ok(&self.campaigns[i]),
            None => Err(AppError::NotFound(EntityKind::Campaign)),
        }
    }

    /// Disbursement `id`.
    pub fn get_disbursement(&self, id: u128) -> (r: Result<&Disbursement, AppError>)
        requires
            self.wf(),
        ensures
            match r {
                Ok(b) => self.has_disbursement(id) && *b == self.disbursement_of(id),
                Err(e) => !self.has_disbursement(id) && e == AppError::NotFound(EntityKind::Disbursement),
            },
    {
        match self.find_disbursement(id) {
            Some(i) => Ok(&self.disbursements[i]),
            None => Err(AppError::NotFound(EntityKind::Disbursement)),
        }
    }

    /// All organizations, newest first.
    pub fn list_organizations(&self) -> (r: Vec<&Organization>)
        ensures
            derefs(r@) == self.org_seq().reverse(),
    {
        let ghost os = self.organizations@;
        let mut r: Vec<&Organization> = Vec::new();
        let mut i: usize = self.organizations.len();
        while i > 0
            invariant
                i <= os.len(),
                os == self.organizations@,
                derefs(r@) == os.subrange(i as int, os.len() as int).reverse(),
            decreases i,
        {
            let ghost before = r@;
            r.push(&self.organizations[i - 1]);
            proof {
                assert(derefs(r@) =~= derefs(before).push(os[i - 1]));
                assert(derefs(r@) =~= os.subrange(i - 1, os.len() as int).reverse());
            }
            i = i - 1;
        }
        proof {
            assert(os.subrange(0, os.len() as int) =~= os);
        }
        r
    }

    /// The audit trail, oldest entry first.
    pub fn audit_trail(&self) -> (r: &Vec<AuditLog>)
        ensures
            r@ == self.audit_seq(),
    {
        &self.audit_logs
    }
    /// Administrative update of campaign `id`: a known status name and a
    /// non-negative balance replace the stored ones.
    pub fn update_campaign(&mut self, id: u128, req: UpdateCampaignRequest, now: i64) -> (r: Result<(), AppError>)
        requires
            old(self).wf(),
            old(self).has_room(),
        ensures
            final(self).wf(),
            if !old(self).has_campaign(id) {
                r == Err::<(), AppError>(AppError::NotFound(EntityKind::Campaign)) && *final(self) == *old(self)
            } else {
                let c = old(self).campaign_of(id);
                let k = old(self).campaign_pos(id);
                let n = final(self).campaign_seq()[k];
                match Campaign::update_refusal(&req) {
                    Some(x) => r == Err::<(), AppError>(AppError::BadRequest(x)) && *final(self) == *old(self),
                    None => {
                        &&& r is Ok
                        &&& final(self).campaign_seq().len() == old(self).campaign_seq().len()
                        &&& forall|j: int| 0 <= j < old(self).campaign_seq().len() && j != k
                            ==> #[trigger] final(self).campaign_seq()[j] == old(self).campaign_seq()[j]
                        &&& n.status == match req.status { Some(s) => status_named(s@).unwrap(), None => c.status }
                        &&& n.raised_amount == match req.raised_amount { Some(v) => v, None => c.raised_amount }
                        &&& n.updated_at == now
                        &&& n.id == c.id && n.name == c.name && n.org_id == c.org_id && n.goal_amount == c.goal_amount
                        &&& n.deadline == c.deadline && n.description == c.description
                        &&& n.contract_campaign_id == c.contract_campaign_id && n.created_at == c.created_at
                        &&& audit_appended(old(self).audit_seq(), final(self).audit_seq(), old(self).next_id_of(),
                            EntityKind::Campaign, id, AuditAction::Updated, old(self).owner_of(id).wallet_address, now)
                        &&& final(self).next_id_of() == old(self).next_id_of() + 1
                        &&& final(self).org_seq() == old(self).org_seq()
                        &&& final(self).donation_seq() == old(self).donation_seq()
                        &&& final(self).disbursement_seq() == old(self).disbursement_seq()
                        &&& final(self).quorum_of() == old(self).quorum_of()
                    },
                }
            },
    {
        let ci = match self.find_campaign(id) {
            Some(ci) => ci,
            None => {
                return Err(AppError::NotFound(EntityKind::Campaign));
            },
        };
        proof {
            assert(self.has_org(self.campaign_seq()[ci as int].org_id));
        }
        let oi = match self.find_org(self.campaigns[ci].org_id) {
            Some(oi) => oi,
            None => {
                return Err(AppError::Internal);
            },
        };
        let actor = self.organizations[oi].wallet_address.clone();
        if let Some(st) = &req.status {
            if parse_status(st.as_str()).is_none() {
                return Err(AppError::BadRequest(Reason::UnknownStatus));
            }
        }
        if let Some(v) = req.raised_amount {
            if v < 0 {
                return Err(AppError::BadRequest(Reason::NegativeRaised));
            }
        }
        let _ = self.campaigns[ci].apply_update(&req, now);
        let raised = self.campaigns[ci].raised_amount;
        proof {
            let cs = self.campaign_seq();
            assert(cs =~= old(self).campaign_seq().update(ci as int, cs[ci as int]));
        }
        self.log(EntityKind::Campaign, id, AuditAction::Updated, actor, vec![Detail { key: "raised_amount", value: DetailValue::Amount(raised) }], now);
        proof {
            lemma_links_kept(*old(self), *self);
            let cs = self.campaign_seq();
            assert(self.donation_seq() == old(self).donation_seq());
            assert(self.disbursement_seq() == old(self).disbursement_seq());
            assert forall|a: int, c: int| 0 <= a < c < cs.len() implies (#[trigger] cs[a]).id != (#[trigger] cs[c]).id by {
                assert(cs[a].id == old(self).campaign_seq()[a].id && cs[c].id == old(self).campaign_seq()[c].id);
            }
            assert forall|a: int| 0 <= a < cs.len() implies (#[trigger] cs[a]).id < self.next_id_of()
                && self.has_org(cs[a].org_id) && cs[a].raised_amount >= 0 by {
                assert(old(self).has_org(old(self).campaign_seq()[a].org_id));
                if a != ci {
                    assert(cs[a] == old(self).campaign_seq()[a]);
                }
            }
        }
        Ok(())
    }

    /// Why reconciling campaign `id` with the ledger's record `chain` is
    /// refused, if it is.
    pub open spec fn reconcile_error(&self, id: u128, chain: crate::contract::Campaign) -> Option<AppError> {
        if !self.has_campaign(id) {
            Some(AppError::NotFound(EntityKind::Campaign))
        } else if self.campaign_of(id).contract_campaign_id != Some(chain.id) {
            Some(AppError::BadRequest(Reason::NotLinked))
        } else if !(0 <= chain.raised <= i64::MAX) {
            Some(AppError::Internal)
        } else {
            None
        }
    }

    /// Whether campaign `id` already holds the balance and status of `chain`.
    pub open spec fn agrees_with(&self, id: u128, chain: crate::contract::Campaign) -> bool {
        self.campaign_of(id).raised_amount == chain.raised && self.campaign_of(id).status == chain.status
    }

    /// Overwrites the balance and status of campaign `id` with those of the
    /// ledger's record `chain` of the campaign it is linked to. When they
    /// already agree, nothing changes and nothing is logged.
    pub fn reconcile_campaign(&mut self, id: u128, chain: &crate::contract::Campaign, now: i64) -> (r: Result<(), AppError>)
        requires
            old(self).wf(),
            old(self).has_room(),
        ensures
            final(self).wf(),
            match old(self).reconcile_error(id, *chain) {
                Some(e) => r == Err::<(), AppError>(e) && *final(self) == *old(self),
                None if old(self).agrees_with(id, *chain) => r is Ok && *final(self) == *old(self),
                None => {
                    let c = old(self).campaign_of(id);
                    let k = old(self).campaign_pos(id);
                    let n = final(self).campaign_seq()[k];
                    &&& r is Ok
                    &&& final(self).campaign_seq().len() == old(self).campaign_seq().len()
                    &&& forall|j: int| 0 <= j < old(self).campaign_seq().len() && j != k
                        ==> #[trigger] final(self).campaign_seq()[j] == old(self).campaign_seq()[j]
                    &&& n.raised_amount == chain.raised
                    &&& n.status == chain.status
                    &&& n.updated_at == now
                    &&& n.id == c.id && n.name == c.name && n.org_id == c.org_id && n.goal_amount == c.goal_amount
                    &&& n.deadline == c.deadline && n.description == c.description
                    &&& n.contract_campaign_id == c.contract_campaign_id && n.created_at == c.created_at
                    &&& audit_appended(old(self).audit_seq(), final(self).audit_seq(), old(self).next_id_of(),
                        EntityKind::Campaign, id, AuditAction::Updated, chain.org, now)
                    &&& final(self).next_id_of() == old(self).next_id_of() + 1
                    &&& final(self).org_seq() == old(self).org_seq()
                    &&& final(self).donation_seq() == old(self).donation_seq()
                    &&& final(self).disbursement_seq() == old(self).disbursement_seq()
                    &&& final(self).quorum_of() == old(self).quorum_of()
                },
            },
    {
        let ci = match self.find_campaign(id) {
            Some(ci) => ci,
            None => {
                return Err(AppError::NotFound(EntityKind::Campaign));
            },
        };
        if self.campaigns[ci].contract_campaign_id != Some(chain.id) {
            return Err(AppError::BadRequest(Reason::NotLinked));
        }
        if chain.raised < 0 || chain.raised > i64::MAX as i128 {
            return Err(AppError::Internal);
        }
        if self.campaigns[ci].raised_amount as i128 == chain.raised && self.campaigns[ci].status == chain.status {
            return Ok(());
        }
        let _ = self.campaigns[ci].reconcile(chain, now);
        proof {
            let cs = self.campaign_seq();
            assert(cs =~= old(self).campaign_seq().update(ci as int, cs[ci as int]));
        }
        self.log(EntityKind::Campaign, id, AuditAction::Updated, chain.org.clone(), vec![Detail { key: "raised_amount", value: DetailValue::Amount(chain.raised as i64) }], now);
        proof {
            lemma_links_kept(*old(self), *self);
            let cs = self.campaign_seq();
            assert(self.donation_seq() == old(self).donation_seq());
            assert(self.disbursement_seq() == old(self).disbursement_seq());
            assert forall|a: int, c: int| 0 <= a < c < cs.len() implies (#[trigger] cs[a]).id != (#[trigger] cs[c]).id by {
                assert(cs[a].id == old(self).campaign_seq()[a].id && cs[c].id == old(self).campaign_seq()[c].id);
            }
            assert forall|a: int| 0 <= a < cs.len() implies (#[trigger] cs[a]).id < self.next_id_of()
                && self.has_org(cs[a].org_id) && cs[a].raised_amount >= 0 by {
                assert(old(self).has_org(old(self).campaign_seq()[a].org_id));
                if a != ci {
                    assert(cs[a] == old(self).campaign_seq()[a]);
                }
            }
        }
        Ok(())
    }
    /// The campaign of disbursement `id`.
    pub fn disbursement_campaign(&self, id: u128) -> (r: u128)
        requires
            self.wf(),
            self.has_disbursement(id),
        ensures
            r == self.disbursement_of(id).campaign_id,
    {
        match self.find_disbursement(id) {
            Some(i) => self.disbursements[i].campaign_id,
            None => 0,
        }
    }
}

} // verus!

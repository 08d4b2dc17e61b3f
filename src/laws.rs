//! Laws of the ledger and of the mirror that hold across calls.

use vstd::prelude::*;
use crate::contract::{
    after_execution, approval_added, campaign_balanced, donated_to, executed_from, executed_version, ContractError,
    DisbursementStatus, DonationContract,
};
use crate::coordinator::{has_key, Operation, PendingWrite, WriteLog, WriteState};
use crate::engine::{linked_to, Engine};
use crate::mirror::{approval_consistent, approvals_merged, Mirror};
use crate::models::{add_all, DisbursementState, Disbursement as MirrorDisbursement};
use crate::principal::{add_principal, distinct_principals, holds_principal};

verus! {

/// In every well-formed ledger state, each campaign's balance is what was
/// donated to it minus what was executed out of it, and is never negative.
pub proof fn law_balance_conserved(s: DonationContract)
    requires
        s.wf(),
    ensures
        forall|i: int|
            0 <= i < s.campaign_seq().len() ==> {
                let c = #[trigger] s.campaign_seq()[i];
                &&& c.raised as int == donated_to(s.donation_seq(), c.id) - executed_from(s.disbursement_seq(), c.id)
                &&& c.raised >= 0
                &&& executed_from(s.disbursement_seq(), c.id) <= donated_to(s.donation_seq(), c.id)
            },
{
    assert forall|i: int| 0 <= i < s.campaign_seq().len() implies {
        let c = #[trigger] s.campaign_seq()[i];
        &&& c.raised as int == donated_to(s.donation_seq(), c.id) - executed_from(s.disbursement_seq(), c.id)
        &&& c.raised >= 0
        &&& executed_from(s.disbursement_seq(), c.id) <= donated_to(s.donation_seq(), c.id)
    } by {
        assert(campaign_balanced(s.campaign_seq()[i], s.donation_seq(), s.disbursement_seq()));
    }
}

/// Approvals are set-valued: approving a disbursement a second time with the
/// same approver leaves the number of approvers unchanged.
pub proof fn law_approval_idempotent(
    d1: crate::contract::Disbursement,
    d2: crate::contract::Disbursement,
    d3: crate::contract::Disbursement,
    approver: String,
)
    requires
        approval_added(d1, d2, approver),
        approval_added(d2, d3, approver),
    ensures
        d3.approvers@ == d2.approvers@,
        d3.approvers@.len() == d2.approvers@.len(),
        distinct_principals(d1.approvers@) ==> distinct_principals(d3.approvers@),
{
    if !holds_principal(d1.approvers@, approver@) {
        let n = d1.approvers@.len() as int;
        assert(d2.approvers@[n] == approver);
        assert(holds_principal(d2.approvers@, approver@));
    }
}

/// A disbursement executes at most once: after an execution succeeds, every
/// further execution of it that the owner signs is refused with `AlreadyExecuted`.
pub proof fn law_execute_once(
    s1: DonationContract,
    s2: DonationContract,
    id: u64,
    now: u64,
    auth1: Seq<String>,
    auth2: Seq<String>,
)
    requires
        s1.wf(),
        s1.execute_error(id, auth1).is_none(),
        s2.disbursement_seq() == s1.disbursement_seq().update(
            id - 1,
            executed_version(s1.disbursement_at(id), now),
        ),
        s2.campaign_seq() == s1.campaign_seq().update(
            s1.disbursement_at(id).campaign_id - 1,
            after_execution(s1.campaign_at(s1.disbursement_at(id).campaign_id), s1.disbursement_at(id).amount),
        ),
        holds_principal(auth2, s1.campaign_at(s1.disbursement_at(id).campaign_id).org@),
    ensures
        s2.execute_error(id, auth2) == Some(ContractError::AlreadyExecuted),
{
    let b = s1.disbursement_at(id);
    assert(crate::contract::disbursement_wf(b, id - 1, s1.campaign_seq().len() as int));
    assert(s2.disbursement_at(id) == executed_version(b, now));
    assert(s2.campaign_at(b.campaign_id).org == s1.campaign_at(b.campaign_id).org);
}

proof fn lemma_add_keeps(s: Seq<String>, p: String, q: Seq<char>)
    requires
        holds_principal(s, q),
    ensures
        holds_principal(add_principal(s, p), q),
{
    if !holds_principal(s, p@) {
        let i = choose|i: int| 0 <= i < s.len() && #[trigger] s[i]@ == q;
        assert(add_principal(s, p)[i]@ == q);
    }
}

proof fn lemma_add_all_keeps(s: Seq<String>, ps: Seq<String>, q: Seq<char>)
    requires
        holds_principal(s, q),
    ensures
        holds_principal(add_all(s, ps), q),
    decreases ps.len(),
{
    if ps.len() > 0 {
        lemma_add_all_keeps(s, ps.drop_last(), q);
        lemma_add_keeps(add_all(s, ps.drop_last()), ps.last(), q);
    }
}

proof fn lemma_add_all_holds(s: Seq<String>, ps: Seq<String>)
    ensures
        forall|j: int| 0 <= j < ps.len() ==> holds_principal(add_all(s, ps), (#[trigger] ps[j])@),
    decreases ps.len(),
{
    if ps.len() > 0 {
        let init = ps.drop_last();
        let t = add_all(s, init);
        lemma_add_all_holds(s, init);
        assert(holds_principal(add_principal(t, ps.last()), ps.last()@)) by {
            if !holds_principal(t, ps.last()@) {
                assert(add_principal(t, ps.last())[t.len() as int] == ps.last());
            }
        }
        assert forall|j: int| 0 <= j < ps.len() implies holds_principal(add_all(s, ps), (#[trigger] ps[j])@) by {
            if j < ps.len() - 1 {
                assert(ps[j] == init[j]);
                lemma_add_keeps(t, ps.last(), ps[j]@);
            }
        }
    }
}

proof fn lemma_add_all_noop(t: Seq<String>, ps: Seq<String>)
    requires
        forall|j: int| 0 <= j < ps.len() ==> holds_principal(t, (#[trigger] ps[j])@),
    ensures
        add_all(t, ps) == t,
    decreases ps.len(),
{
    if ps.len() > 0 {
        let init = ps.drop_last();
        assert forall|j: int| 0 <= j < init.len() implies holds_principal(t, (#[trigger] init[j])@) by {
            assert(init[j] == ps[j]);
        }
        lemma_add_all_noop(t, init);
        assert(holds_principal(t, ps[ps.len() - 1]@));
    }
}

/// Approvals in the mirror are set-valued: approving again with the same
/// approvers leaves the approver set, and so its size, unchanged.
pub proof fn law_mirror_approval_idempotent(s: Seq<String>, approvers: Seq<String>)
    ensures
        add_all(add_all(s, approvers), approvers) == add_all(s, approvers),
        add_all(add_all(s, approvers), approvers).len() == add_all(s, approvers).len(),
{
    lemma_add_all_holds(s, approvers);
    lemma_add_all_noop(add_all(s, approvers), approvers);
}

/// The reconciler brings the mirror in line with the ledger: for a mirror
/// campaign linked to a ledger campaign whose balance fits the mirror's
/// amounts, reconciling succeeds, and afterwards the mirror holds the
/// ledger's balance and status.
pub proof fn law_reconcile_converges(m: Mirror, ledger: DonationContract, id: u128, n: u64)
    requires
        m.wf(),
        ledger.wf(),
        m.has_campaign(id),
        m.campaign_of(id).contract_campaign_id == Some(n),
        ledger.has_campaign(n),
        ledger.campaign_at(n).raised <= i64::MAX,
    ensures
        m.reconcile_error(id, ledger.campaign_at(n)).is_none(),
{
    assert(ledger.campaign_seq()[n - 1].id == n);
    assert(campaign_balanced(ledger.campaign_seq()[n - 1], ledger.donation_seq(), ledger.disbursement_seq()));
}

/// Writes are deduplicated by key: once a write (`op`, `nonce`) has been
/// started for row `row_id`, the record knows the key, and that key's
/// record is the pending write of `row_id`, which a retry then finds.
pub proof fn law_begin_idempotent(l1: WriteLog, l2: WriteLog, op: Operation, nonce: String, row_id: u128)
    requires
        l1.wf(),
        l2.wf(),
        !l1.knows(op, nonce@),
        l2.write_seq() == l1.write_seq().push(
            (PendingWrite {
                operation: op,
                nonce,
                row_id,
                state: WriteState::PendingChain,
                tx_hash: None,
                rejection: None,
            }),
        ),
    ensures
        l2.knows(op, nonce@),
        l2.write_seq()[l2.position(op, nonce@)].row_id == row_id,
        l2.write_seq()[l2.position(op, nonce@)].state == WriteState::PendingChain,
{
    let n = l1.write_seq().len() as int;
    assert(has_key(l2.write_seq()[n], op, nonce@));
    let k = l2.position(op, nonce@);
    if k != n {
        assert(l2.write_seq()[k] == l1.write_seq()[k]);
        assert(l1.knows(op, nonce@));
    }
}

/// The mirror agrees with the authoritative ledger after every write the
/// engine commits: each mirror campaign has the balance and status of the
/// ledger campaign it is linked to, and that balance is never negative.
pub proof fn law_mirror_matches_ledger(e: Engine)
    requires
        e.wf(),
    ensures
        forall|i: int|
            0 <= i < e.mirror_of().campaign_seq().len() ==> {
                let c = #[trigger] e.mirror_of().campaign_seq()[i];
                let n = c.contract_campaign_id.unwrap();
                &&& c.contract_campaign_id is Some
                &&& e.ledger_of().has_campaign(n)
                &&& e.ledger_of().campaign_at(n).raised as int == c.raised_amount as int
                &&& e.ledger_of().campaign_at(n).status == c.status
                &&& c.raised_amount >= 0
            },
{
    assert forall|i: int| 0 <= i < e.mirror_of().campaign_seq().len() implies {
        let c = #[trigger] e.mirror_of().campaign_seq()[i];
        let n = c.contract_campaign_id.unwrap();
        &&& c.contract_campaign_id is Some
        &&& e.ledger_of().has_campaign(n)
        &&& e.ledger_of().campaign_at(n).raised as int == c.raised_amount as int
        &&& e.ledger_of().campaign_at(n).status == c.status
        &&& c.raised_amount >= 0
    } by {
        assert(linked_to(e.mirror_of().campaign_seq()[i], e.ledger_of()));
    }
}

/// Re-approving a disbursement that waits for execution with approvers who
/// have all approved it already changes neither its approver set nor its
/// status.
pub proof fn law_reapproval_keeps_status(
    b: MirrorDisbursement,
    n: MirrorDisbursement,
    approvers: Seq<String>,
    quorum: u64,
)
    requires
        b.status == DisbursementState::Pending || b.status == DisbursementState::Approved,
        approval_consistent(b, quorum),
        forall|j: int| 0 <= j < approvers.len() ==> holds_principal(b.approved_by@, (#[trigger] approvers[j])@),
        approvals_merged(b, n, approvers, quorum),
    ensures
        n.approved_by@ == b.approved_by@,
        n.status == b.status,
{
    lemma_add_all_noop(b.approved_by@, approvers);
}

proof fn lemma_add_membership(s: Seq<String>, p: String, q: Seq<char>)
    ensures
        holds_principal(add_principal(s, p), q) <==> (holds_principal(s, q) || p@ == q),
{
    if holds_principal(s, p@) {
        if p@ == q {
            assert(holds_principal(s, q));
        }
    } else {
        let t = s.push(p);
        if p@ == q {
            assert(t[s.len() as int]@ == q);
        }
        if holds_principal(t, q) {
            let i = choose|i: int| 0 <= i < t.len() && #[trigger] t[i]@ == q;
            if i < s.len() {
                assert(s[i]@ == q);
            }
        }
        if holds_principal(s, q) {
            lemma_add_keeps(s, p, q);
        }
    }
}

/// Approvals merge as a set union: after approvals by `approvers`, a
/// principal has approved exactly when it had before or is one of
/// `approvers`; and the set holds no principal twice.
pub proof fn law_approvals_are_union(s: Seq<String>, approvers: Seq<String>, q: Seq<char>)
    ensures
        holds_principal(add_all(s, approvers), q) <==> (holds_principal(s, q) || holds_principal(approvers, q)),
        distinct_principals(s) ==> distinct_principals(add_all(s, approvers)),
    decreases approvers.len(),
{
    if approvers.len() > 0 {
        let init = approvers.drop_last();
        law_approvals_are_union(s, init, q);
        lemma_add_membership(add_all(s, init), approvers.last(), q);
        if holds_principal(init, q) {
            let i = choose|i: int| 0 <= i < init.len() && #[trigger] init[i]@ == q;
            assert(approvers[i]@ == q);
        }
        if holds_principal(approvers, q) {
            let i = choose|i: int| 0 <= i < approvers.len() && #[trigger] approvers[i]@ == q;
            if i < init.len() {
                assert(init[i]@ == q);
            }
        }
        if distinct_principals(s) {
            lemma_add_distinct(add_all(s, init), approvers.last());
        }
    }
}

proof fn lemma_add_distinct(s: Seq<String>, p: String)
    requires
        distinct_principals(s),
    ensures
        distinct_principals(add_principal(s, p)),
{
    if !holds_principal(s, p@) {
        let t = s.push(p);
        assert forall|i: int, j: int| 0 <= i < j < t.len() implies #[trigger] t[i]@ != #[trigger] t[j]@ by {
            if j == s.len() {
                assert(t[i] == s[i]);
            } else {
                assert(t[i] == s[i] && t[j] == s[j]);
            }
        }
    }
}

} // verus!

//! The append-only audit trail and the order in which it is served:
//! newest first, ties broken by entity id and then by entry id, both descending.

use vstd::prelude::*;
use crate::error::EntityKind;

verus! {

broadcast use vstd::seq_lib::group_to_multiset_ensures;

/// What happened to the entity an audit entry refers to.
#[derive(Clone, Copy, Debug, PartialEq, Eq, Structural)]
pub enum AuditAction {
    Created,
    Updated,
    Approved,
    Executed,
}

/// A value in an audit entry's details.
pub enum DetailValue {
    Text(String),
    Amount(i64),
    Id(u128),
    Flag(bool),
}

/// One named value in an audit entry's details.
pub struct Detail {
    pub key: &'static str,
    pub value: DetailValue,
}

/// One audit entry: who did what to which entity, when, with which inputs.
pub struct AuditLog {
    pub id: u128,
    pub entity_type: EntityKind,
    pub entity_id: u128,
    pub action: AuditAction,
    pub actor_address: String,
    pub details: Vec<Detail>,
    pub created_at: i64,
}

/// `a` is served before `b`, or the two may be served in either order: it is
/// newer, or as new with a larger entity id, or with both equal a larger entry id.
pub open spec fn served_no_later(a: AuditLog, b: AuditLog) -> bool {
    a.created_at > b.created_at || (a.created_at == b.created_at && (a.entity_id > b.entity_id || (
    a.entity_id == b.entity_id && a.id >= b.id)))
}

/// The values that the references of `s` point to.
pub open spec fn derefs<T>(s: Seq<&T>) -> Seq<T> {
    s.map_values(|x: &T| *x)
}

/// `s` is in serving order.
pub open spec fn newest_first(s: Seq<&AuditLog>) -> bool {
    forall|i: int, j: int| 0 <= i < j < s.len() ==> served_no_later(*#[trigger] s[i], *#[trigger] s[j])
}

/// The action's name, as stored and served.
pub fn action_name(a: AuditAction) -> (r: &'static str)
    ensures
        a == AuditAction::Created ==> r@ == "created"@,
        a == AuditAction::Updated ==> r@ == "updated"@,
        a == AuditAction::Approved ==> r@ == "approved"@,
        a == AuditAction::Executed ==> r@ == "executed"@,
{
    match a {
        AuditAction::Created => "created",
        AuditAction::Updated => "updated",
        AuditAction::Approved => "approved",
        AuditAction::Executed => "executed",
    }
}

/// The entity kind's name, as stored and served.
pub fn kind_name(k: EntityKind) -> (r: &'static str)
    ensures
        k == EntityKind::Organization ==> r@ == "organization"@,
        k == EntityKind::Campaign ==> r@ == "campaign"@,
        k == EntityKind::Donation ==> r@ == "donation"@,
        k == EntityKind::Disbursement ==> r@ == "disbursement"@,
{
    match k {
        EntityKind::Organization => "organization",
        EntityKind::Campaign => "campaign",
        EntityKind::Donation => "donation",
        EntityKind::Disbursement => "disbursement",
    }
}

fn no_later(a: &AuditLog, b: &AuditLog) -> (r: bool)
    ensures
        r == served_no_later(*a, *b),
{
    a.created_at > b.created_at || (a.created_at == b.created_at && (a.entity_id > b.entity_id || (
    a.entity_id == b.entity_id && a.id >= b.id)))
}

/// The entries of `v` in serving order.
pub fn sort_newest_first<'a>(v: Vec<&'a AuditLog>) -> (r: Vec<&'a AuditLog>)
    ensures
        newest_first(r@),
        derefs(r@).to_multiset() == derefs(v@).to_multiset(),
{
    let mut r: Vec<&'a AuditLog> = Vec::new();
    let mut i: usize = 0;
    while i < v.len()
        invariant
            i <= v@.len(),
            newest_first(r@),
            derefs(r@).to_multiset() == derefs(v@.take(i as int)).to_multiset(),
        decreases v@.len() - i,
    {
        let x = v[i];
        let mut pos: usize = 0;
        while pos < r.len() && !no_later(x, r[pos])
            invariant
                pos <= r@.len(),
                forall|k: int| 0 <= k < pos ==> served_no_later(*r@[k], *x),
            decreases r@.len() - pos,
        {
            pos = pos + 1;
        }
        proof {
            assert(derefs(v@.take(i + 1)) =~= derefs(v@.take(i as int)).push(*x));
            r@.insert_ensures(pos as int, x);
            derefs(r@).insert_ensures(pos as int, *x);
            assert(derefs(r@.insert(pos as int, x)) =~= derefs(r@).insert(pos as int, *x));
            vstd::seq_lib::to_multiset_insert(derefs(r@), pos as int, *x);
        }
        let ghost old_r = r@;
        r.insert(pos, x);
        proof {
            assert forall|a: int, b: int| 0 <= a < b < r@.len() implies served_no_later(*#[trigger] r@[a], *#[trigger] r@[b]) by {
                if b < pos {
                    assert(r@[a] == old_r[a] && r@[b] == old_r[b]);
                } else if b == pos {
                    assert(r@[a] == old_r[a]);
                } else if a == pos {
                    assert(r@[b] == old_r[b - 1]);
                    if pos < old_r.len() {
                        assert(served_no_later(*x, *old_r[pos as int]));
                        if b - 1 > pos {
                            assert(served_no_later(*old_r[pos as int], *old_r[b - 1]));
                        }
                    }
                } else if a < pos {
                    assert(r@[a] == old_r[a] && r@[b] == old_r[b - 1]);
                } else {
                    assert(r@[a] == old_r[a - 1] && r@[b] == old_r[b - 1]);
                }
            }
        }
        i = i + 1;
    }
    proof {
        assert(v@.take(i as int) =~= v@);
    }
    r
}

} // verus!

use aidflow::audit::{action_name, kind_name, AuditAction};
use aidflow::contract::{CampaignStatus, DonationContract};
use aidflow::error::{AppError, EntityKind, Reason};
use aidflow::mirror::Mirror;
use aidflow::models::{
    parse_status, state_name, status_name, ApproveDisbursementRequest, CampaignQueryParams, CreateCampaignRequest,
    CreateDisbursementRequest, CreateDonationRequest, CreateOrganizationRequest, DisbursementState,
    DonationQueryParams, ExecuteDisbursementRequest, UpdateCampaignRequest, UpdateOrganizationRequest,
};

const T: i64 = 1_700_000_000;

fn org(m: &mut Mirror, wallet: &str, now: i64) -> u128 {
    m.create_organization(
        CreateOrganizationRequest { name: "O".to_string(), wallet_address: wallet.to_string(), email: None, description: None },
        now,
    )
    .unwrap()
}

fn campaign(m: &mut Mirror, org_id: u128, goal: i64, deadline: i64, now: i64) -> u128 {
    m.create_campaign(
        CreateCampaignRequest { name: "C".to_string(), org_id, goal_amount: goal, deadline, description: None },
        Some(1),
        now,
    )
    .unwrap()
}

fn donate(m: &mut Mirror, cid: u128, donor: &str, amount: i64, tx: &str, now: i64) -> Result<u128, AppError> {
    m.record_donation(
        CreateDonationRequest { campaign_id: cid, donor_address: donor.to_string(), amount, tx_hash: tx.to_string() },
        now,
    )
}

fn propose(m: &mut Mirror, cid: u128, recipient: &str, amount: i64, now: i64) -> Result<u128, AppError> {
    m.propose_disbursement(
        CreateDisbursementRequest { campaign_id: cid, recipient_address: recipient.to_string(), amount },
        now,
    )
}

fn approve(m: &mut Mirror, id: u128, who: &[&str], now: i64) -> Result<(), AppError> {
    m.approve_disbursement(
        id,
        ApproveDisbursementRequest { approver_addresses: who.iter().map(|w| w.to_string()).collect() },
        now,
    )
}

fn execute(m: &mut Mirror, id: u128, tx: &str, now: i64) -> Result<(), AppError> {
    m.execute_disbursement(id, ExecuteDisbursementRequest { tx_hash: tx.to_string() }, now)
}

#[test]
fn happy_donation_scenario() {
    let mut m = Mirror::new(1);
    let o = org(&mut m, "W", T);
    let c = campaign(&mut m, o, 1000, T + 3600, T);
    donate(&mut m, c, "D1", 300, "tx1", T + 1).unwrap();
    assert_eq!(m.get_campaign(c).unwrap().status, CampaignStatus::Active);
    donate(&mut m, c, "D2", 800, "tx2", T + 2).unwrap();
    let row = m.get_campaign(c).unwrap();
    assert_eq!(row.raised_amount, 1100);
    assert_eq!(row.status, CampaignStatus::Completed);
    let audit = m.get_audit(c).unwrap();
    let seen: Vec<(EntityKind, AuditAction)> = audit.audit_logs.iter().map(|e| (e.entity_type, e.action)).collect();
    assert_eq!(
        seen,
        vec![
            (EntityKind::Donation, AuditAction::Created),
            (EntityKind::Donation, AuditAction::Created),
            (EntityKind::Campaign, AuditAction::Created),
        ]
    );
    assert_eq!(audit.audit_logs[0].actor_address, "D2");
    assert_eq!(audit.donations.len(), 2);
    assert_eq!(audit.donations[0].tx_hash, "tx2");
    assert_eq!(donate(&mut m, c, "D3", 5, "tx9", T + 3), Err(AppError::BadRequest(Reason::CampaignNotActive)));
}

#[test]
fn over_goal_donation_scenario() {
    let mut m = Mirror::new(1);
    let o = org(&mut m, "W", T);
    let c = campaign(&mut m, o, 1000, T + 3600, T);
    assert!(donate(&mut m, c, "D1", 1500, "tx1", T + 1).is_ok());
    let row = m.get_campaign(c).unwrap();
    assert_eq!(row.raised_amount, 1500);
    assert_eq!(row.status, CampaignStatus::Completed);
}

#[test]
fn deadline_rejection_scenario() {
    let mut m = Mirror::new(1);
    let o = org(&mut m, "W", T - 10);
    let c = campaign(&mut m, o, 1000, T - 1, T - 10);
    let audit_before = m.audit_trail().len();
    let e = donate(&mut m, c, "D1", 100, "tx1", T).unwrap_err();
    assert_eq!(e, AppError::BadRequest(Reason::DeadlinePassed));
    assert_eq!(e.status_code(), 400);
    assert_eq!(e.message(), "deadline passed");
    assert_eq!(m.campaign_donations(c, &DonationQueryParams { donor_address: None, limit: None, offset: None }).donations.len(), 0);
    assert_eq!(m.audit_trail().len(), audit_before);
    assert_eq!(m.get_campaign(c).unwrap().raised_amount, 0);
}

fn multisig_scenario(m: &mut Mirror) -> (u128, u128) {
    let o = org(m, "W", T);
    let c = campaign(m, o, 100_000, T + 3600, T + 1);
    donate(m, c, "D", 10_000, "tx0", T + 2).unwrap();
    let d = propose(m, c, "R", 5_000, T + 3).unwrap();
    approve(m, d, &["A1"], T + 4).unwrap();
    let row = m.get_disbursement(d).unwrap();
    assert_eq!(row.status, DisbursementState::Pending);
    assert_eq!(row.approved_by.len(), 1);
    approve(m, d, &["A2"], T + 5).unwrap();
    assert_eq!(m.get_disbursement(d).unwrap().status, DisbursementState::Approved);
    execute(m, d, "tx3", T + 6).unwrap();
    (c, d)
}

#[test]
fn multisig_disbursement_scenario() {
    let mut m = Mirror::new(2);
    let (c, d) = multisig_scenario(&mut m);
    let row = m.get_disbursement(d).unwrap();
    assert_eq!(row.status, DisbursementState::Executed);
    assert_eq!(row.tx_hash, Some("tx3".to_string()));
    assert_eq!(row.executed_at, Some(T + 6));
    assert_eq!(m.get_campaign(c).unwrap().raised_amount, 5_000);
    let e = execute(&mut m, d, "tx4", T + 7).unwrap_err();
    assert_eq!(e, AppError::BadRequest(Reason::AlreadyExecuted));
    assert_eq!(e.status_code(), 400);
    assert_eq!(m.get_campaign(c).unwrap().raised_amount, 5_000);
    assert_eq!(approve(&mut m, d, &["A3"], T + 8), Err(AppError::BadRequest(Reason::NotPending)));
}

#[test]
fn insufficient_funds_scenario() {
    let mut m = Mirror::new(1);
    let o = org(&mut m, "W", T);
    let c = campaign(&mut m, o, 100_000, T + 3600, T);
    donate(&mut m, c, "D", 5_000, "tx0", T).unwrap();
    let first = propose(&mut m, c, "R", 4_000, T).unwrap();
    let second = propose(&mut m, c, "R", 2_000, T).unwrap();
    approve(&mut m, first, &["A"], T).unwrap();
    approve(&mut m, second, &["A"], T).unwrap();
    execute(&mut m, first, "txa", T).unwrap();
    assert_eq!(m.get_campaign(c).unwrap().raised_amount, 1_000);
    assert_eq!(execute(&mut m, second, "txb", T), Err(AppError::BadRequest(Reason::InsufficientFunds)));
    assert_eq!(m.get_disbursement(second).unwrap().status, DisbursementState::Approved);
}

#[test]
fn audit_merge_scenario() {
    let mut m = Mirror::new(2);
    let other = org(&mut m, "V", T);
    let elsewhere = campaign(&mut m, other, 10, T + 3600, T);
    donate(&mut m, elsewhere, "X", 5, "txx", T + 3).unwrap();
    let (c, d) = multisig_scenario(&mut m);
    let audit = m.get_audit(c).unwrap();
    assert_eq!(audit.campaign.id, c);
    assert_eq!(audit.donations.len(), 1);
    assert_eq!(audit.disbursements.len(), 1);
    assert_eq!(audit.disbursements[0].id, d);
    let seen: Vec<(EntityKind, AuditAction, i64)> =
        audit.audit_logs.iter().map(|e| (e.entity_type, e.action, e.created_at)).collect();
    assert_eq!(
        seen,
        vec![
            (EntityKind::Disbursement, AuditAction::Executed, T + 6),
            (EntityKind::Disbursement, AuditAction::Approved, T + 5),
            (EntityKind::Disbursement, AuditAction::Approved, T + 4),
            (EntityKind::Disbursement, AuditAction::Created, T + 3),
            (EntityKind::Donation, AuditAction::Created, T + 2),
            (EntityKind::Campaign, AuditAction::Created, T + 1),
        ]
    );
    assert_eq!(audit.audit_logs[0].actor_address, "W");
    assert_eq!(m.get_audit(999_999).err(), Some(AppError::NotFound(EntityKind::Campaign)));
}

#[test]
fn audit_ties_break_by_entity_id_descending() {
    let mut m = Mirror::new(1);
    let o = org(&mut m, "W", T);
    let c = campaign(&mut m, o, 100_000, T + 3600, T);
    let d1 = donate(&mut m, c, "D1", 1, "t1", T + 1).unwrap();
    let d2 = donate(&mut m, c, "D2", 1, "t2", T + 1).unwrap();
    let audit = m.get_audit(c).unwrap();
    let ids: Vec<u128> = audit.audit_logs.iter().map(|e| e.entity_id).collect();
    assert_eq!(ids, vec![d2, d1, c]);
}

#[test]
fn every_write_appends_one_audit_entry() {
    let mut m = Mirror::new(1);
    let o = org(&mut m, "W", T);
    assert_eq!(m.audit_trail().len(), 1);
    let c = campaign(&mut m, o, 100, T + 10, T);
    assert_eq!(m.audit_trail().len(), 2);
    donate(&mut m, c, "D", 60, "tx", T).unwrap();
    assert_eq!(m.audit_trail().len(), 3);
    let d = propose(&mut m, c, "R", 10, T).unwrap();
    approve(&mut m, d, &["A", "B"], T).unwrap();
    execute(&mut m, d, "tx", T).unwrap();
    assert_eq!(m.audit_trail().len(), 6);
    assert!(m.audit_trail().iter().all(|e| !e.actor_address.is_empty()));
    assert!(propose(&mut m, c, "R", 0, T).is_err());
    assert_eq!(m.audit_trail().len(), 6);
}

#[test]
fn mirror_approving_twice_keeps_set() {
    let mut m = Mirror::new(3);
    let o = org(&mut m, "W", T);
    let c = campaign(&mut m, o, 100, T + 10, T);
    donate(&mut m, c, "D", 60, "tx", T).unwrap();
    let d = propose(&mut m, c, "R", 10, T).unwrap();
    approve(&mut m, d, &["A", "A", "B"], T).unwrap();
    assert_eq!(m.get_disbursement(d).unwrap().approved_by.len(), 2);
    approve(&mut m, d, &["A", "B"], T).unwrap();
    assert_eq!(m.get_disbursement(d).unwrap().approved_by, vec!["A".to_string(), "B".to_string()]);
    assert_eq!(m.get_disbursement(d).unwrap().status, DisbursementState::Pending);
    assert_eq!(approve(&mut m, d, &[], T), Err(AppError::BadRequest(Reason::NoApprovers)));
    assert_eq!(execute(&mut m, d, "tx", T), Err(AppError::BadRequest(Reason::QuorumNotMet)));
}

#[test]
fn reconcile_brings_mirror_to_ledger_balance() {
    let mut l = DonationContract::new();
    let auth = vec!["W".to_string(), "D".to_string()];
    let n = l.create_campaign(&"W".to_string(), &"C".to_string(), 1000, 100, 1, &auth).unwrap();
    l.donate(n, &"D".to_string(), 1200, 2, &auth).unwrap();
    let mut m = Mirror::new(1);
    let o = org(&mut m, "W", T);
    let c = campaign(&mut m, o, 1000, T + 10, T);
    m.update_campaign(c, UpdateCampaignRequest { status: None, raised_amount: Some(7) }, T).unwrap();
    assert_eq!(m.get_campaign(c).unwrap().raised_amount, 7);
    let chain = l.get_campaign(n).unwrap();
    m.reconcile_campaign(c, chain, T + 1).unwrap();
    let row = m.get_campaign(c).unwrap();
    assert_eq!(row.raised_amount as i128, chain.raised);
    assert_eq!(row.raised_amount, 1200);
    assert_eq!(row.status, CampaignStatus::Completed);
    let other = l.create_campaign(&"W".to_string(), &"C2".to_string(), 10, 100, 1, &auth).unwrap();
    assert_eq!(
        m.reconcile_campaign(c, l.get_campaign(other).unwrap(), T),
        Err(AppError::BadRequest(Reason::NotLinked))
    );
}

#[test]
fn mirror_refusals() {
    let mut m = Mirror::new(1);
    let o = org(&mut m, "W", T);
    let dup = m.create_organization(
        CreateOrganizationRequest { name: "X".to_string(), wallet_address: "W".to_string(), email: None, description: None },
        T,
    );
    assert_eq!(dup, Err(AppError::BadRequest(Reason::DuplicateWallet)));
    let bad_org = m.create_campaign(
        CreateCampaignRequest { name: "C".to_string(), org_id: 12345, goal_amount: 5, deadline: T + 1, description: None },
        None,
        T,
    );
    assert_eq!(bad_org, Err(AppError::NotFound(EntityKind::Organization)));
    assert_eq!(bad_org.unwrap_err().status_code(), 404);
    let bad_goal = m.create_campaign(
        CreateCampaignRequest { name: "C".to_string(), org_id: o, goal_amount: 0, deadline: T + 1, description: None },
        None,
        T,
    );
    assert_eq!(bad_goal, Err(AppError::BadRequest(Reason::InvalidGoal)));
    let bad_deadline = m.create_campaign(
        CreateCampaignRequest { name: "C".to_string(), org_id: o, goal_amount: 5, deadline: T, description: None },
        None,
        T,
    );
    assert_eq!(bad_deadline, Err(AppError::BadRequest(Reason::InvalidDeadline)));
    let c = campaign(&mut m, o, 100, T + 10, T);
    assert_eq!(donate(&mut m, 777, "D", 5, "tx", T), Err(AppError::NotFound(EntityKind::Campaign)));
    assert_eq!(donate(&mut m, c, "D", 0, "tx", T), Err(AppError::BadRequest(Reason::NonPositiveAmount)));
    donate(&mut m, c, "D", 50, "tx", T).unwrap();
    assert_eq!(donate(&mut m, c, "D", i64::MAX, "tx", T), Err(AppError::BadRequest(Reason::AmountTooLarge)));
    assert_eq!(propose(&mut m, c, "R", 51, T), Err(AppError::BadRequest(Reason::InsufficientFunds)));
    assert_eq!(propose(&mut m, c, "R", -1, T), Err(AppError::BadRequest(Reason::NonPositiveAmount)));
    assert_eq!(propose(&mut m, 4242, "R", 1, T), Err(AppError::NotFound(EntityKind::Campaign)));
    assert_eq!(approve(&mut m, 4242, &["A"], T), Err(AppError::NotFound(EntityKind::Disbursement)));
    assert_eq!(execute(&mut m, 4242, "tx", T), Err(AppError::NotFound(EntityKind::Disbursement)));
    assert_eq!(
        m.update_campaign(c, UpdateCampaignRequest { status: Some("paused".to_string()), raised_amount: None }, T),
        Err(AppError::BadRequest(Reason::UnknownStatus))
    );
    assert_eq!(
        m.update_campaign(c, UpdateCampaignRequest { status: None, raised_amount: Some(-3) }, T),
        Err(AppError::BadRequest(Reason::NegativeRaised))
    );
    m.update_campaign(c, UpdateCampaignRequest { status: Some("closed".to_string()), raised_amount: None }, T).unwrap();
    assert_eq!(m.get_campaign(c).unwrap().status, CampaignStatus::Closed);
    assert_eq!(propose(&mut m, c, "R", 1, T), Err(AppError::BadRequest(Reason::CampaignClosed)));
    assert_eq!(m.get_organization(99).err(), Some(AppError::NotFound(EntityKind::Organization)));
    assert_eq!(m.update_organization(99, UpdateOrganizationRequest { name: None, email: None, description: None, verified: None }, T),
        Err(AppError::NotFound(EntityKind::Organization)));
}

#[test]
fn organization_update_and_lookup() {
    let mut m = Mirror::new(1);
    let o = org(&mut m, "W", T);
    let p = org(&mut m, "V", T + 1);
    m.update_organization(
        o,
        UpdateOrganizationRequest { name: Some("New".to_string()), email: Some("a@b".to_string()), description: None, verified: Some(true) },
        T + 2,
    )
    .unwrap();
    let row = m.get_organization(o).unwrap();
    assert_eq!(row.name, "New");
    assert_eq!(row.email, Some("a@b".to_string()));
    assert_eq!(row.description, None);
    assert!(row.verified);
    assert_eq!(row.updated_at, T + 2);
    assert_eq!(m.get_organization_by_wallet(&"V".to_string()).unwrap().id, p);
    assert!(m.get_organization_by_wallet(&"Z".to_string()).is_err());
    let ids: Vec<u128> = m.list_organizations().iter().map(|x| x.id).collect();
    assert_eq!(ids, vec![p, o]);
}

#[test]
fn listings_filter_and_paginate() {
    let mut m = Mirror::new(1);
    let o = org(&mut m, "W", T);
    let p = org(&mut m, "V", T);
    let mut mine = Vec::new();
    for _ in 0..3 {
        mine.push(campaign(&mut m, o, 100, T + 10, T));
    }
    let theirs = campaign(&mut m, p, 100, T + 10, T);
    let all = m.list_campaigns(&CampaignQueryParams { org_id: None, status: None, limit: None, offset: None }).unwrap();
    assert_eq!(all.len(), 4);
    assert_eq!(all[0].id, theirs);
    let page = m
        .list_campaigns(&CampaignQueryParams { org_id: Some(o), status: Some("active".to_string()), limit: Some(2), offset: Some(1) })
        .unwrap();
    let ids: Vec<u128> = page.iter().map(|c| c.id).collect();
    assert_eq!(ids, vec![mine[1], mine[0]]);
    let far = m.list_campaigns(&CampaignQueryParams { org_id: None, status: None, limit: Some(10_000), offset: Some(10) }).unwrap();
    assert_eq!(far.len(), 0);
    assert!(m.list_campaigns(&CampaignQueryParams { org_id: None, status: Some("bogus".to_string()), limit: None, offset: None }).is_err());
    let c = mine[0];
    for (i, donor) in ["A", "B", "A", "C", "A"].iter().enumerate() {
        donate(&mut m, c, donor, 1 + i as i64, "tx", T).unwrap();
    }
    let by_a = m.campaign_donations(c, &DonationQueryParams { donor_address: Some("A".to_string()), limit: None, offset: None });
    assert_eq!(by_a.total, 5);
    let amounts: Vec<i64> = by_a.donations.iter().map(|d| d.amount).collect();
    assert_eq!(amounts, vec![5, 3, 1]);
    let paged = m.campaign_donations(c, &DonationQueryParams { donor_address: None, limit: Some(2), offset: Some(1) });
    let amounts: Vec<i64> = paged.donations.iter().map(|d| d.amount).collect();
    assert_eq!(amounts, vec![4, 3]);
    let none = m.campaign_donations(c, &DonationQueryParams { donor_address: None, limit: Some(-4), offset: Some(-2) });
    assert_eq!(none.donations.len(), 0);
    assert_eq!(none.total, 5);
    assert_eq!(m.campaign_disbursements(c).len(), 0);
}

#[test]
fn names_and_status_codes() {
    assert_eq!(parse_status("active"), Some(CampaignStatus::Active));
    assert_eq!(parse_status("completed"), Some(CampaignStatus::Completed));
    assert_eq!(parse_status("closed"), Some(CampaignStatus::Closed));
    assert_eq!(parse_status("Active"), None);
    assert_eq!(status_name(CampaignStatus::Completed), "completed");
    assert_eq!(state_name(DisbursementState::Approved), "approved");
    assert_eq!(action_name(AuditAction::Executed), "executed");
    assert_eq!(kind_name(EntityKind::Disbursement), "disbursement");
    assert_eq!(AppError::Unauthorized.status_code(), 401);
    assert_eq!(AppError::ChainTransient.status_code(), 502);
    assert_eq!(AppError::Internal.status_code(), 500);
    assert_eq!(AppError::from_chain(aidflow::contract::ContractError::NotActive).status_code(), 400);
    assert_eq!(AppError::NotFound(EntityKind::Campaign).message(), "Campaign not found");
}

#[test]
fn donation_listing_follows_timestamps_not_recording_order() {
    let mut m = Mirror::new(1);
    let o = org(&mut m, "W", T);
    let c = campaign(&mut m, o, 1_000_000, T + 100, T);
    donate(&mut m, c, "A", 1, "t1", T + 50).unwrap();
    donate(&mut m, c, "B", 2, "t2", T + 10).unwrap();
    donate(&mut m, c, "C", 3, "t3", T + 30).unwrap();
    let page = m.campaign_donations(c, &DonationQueryParams { donor_address: None, limit: None, offset: None });
    let amounts: Vec<i64> = page.donations.iter().map(|d| d.amount).collect();
    assert_eq!(amounts, vec![1, 3, 2]);
    assert_eq!(page.total, 3);
}

#[test]
fn donation_pages_are_not_capped_at_500() {
    let mut m = Mirror::new(1);
    let o = org(&mut m, "W", T);
    let c = campaign(&mut m, o, i64::MAX, T + 100, T);
    for i in 0..520 {
        donate(&mut m, c, "D", 1, "tx", T + (i % 7)).unwrap();
    }
    let page = m.campaign_donations(c, &DonationQueryParams { donor_address: None, limit: Some(600), offset: None });
    assert_eq!(page.donations.len(), 520);
    assert_eq!(page.total, 520);
    let default = m.campaign_donations(c, &DonationQueryParams { donor_address: None, limit: None, offset: Some(10) });
    assert_eq!(default.donations.len(), 100);
    assert!(default.donations.windows(2).all(|w| w[0].timestamp >= w[1].timestamp));
}

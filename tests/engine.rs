use aidflow::contract::{CampaignStatus, DisbursementStatus};
use aidflow::engine::Engine;
use aidflow::error::{AppError, Reason};
use aidflow::models::{
    ApproveDisbursementRequest, CreateCampaignRequest, CreateDisbursementRequest, CreateDonationRequest,
    CreateOrganizationRequest, DisbursementState, ExecuteDisbursementRequest,
};

const T: i64 = 1_700_000_000;

fn setup(quorum: u64, goal: i64, deadline: i64) -> (Engine, u128) {
    let mut e = Engine::new(&"admin".to_string(), quorum);
    let o = e
        .create_organization(
            CreateOrganizationRequest { name: "O".to_string(), wallet_address: "W".to_string(), email: None, description: None },
            T,
        )
        .unwrap();
    let c = e
        .create_campaign(CreateCampaignRequest { name: "C".to_string(), org_id: o, goal_amount: goal, deadline, description: None }, T)
        .unwrap();
    (e, c)
}

fn donate(e: &mut Engine, c: u128, donor: &str, amount: i64, now: i64) -> Result<u128, AppError> {
    e.donate(CreateDonationRequest { campaign_id: c, donor_address: donor.to_string(), amount, tx_hash: "tx".to_string() }, now)
}

#[test]
fn engine_keeps_mirror_and_ledger_in_step() {
    let (mut e, c) = setup(2, 100_000, T + 3600);
    donate(&mut e, c, "D", 10_000, T + 1).unwrap();
    let link = e.mirror().get_campaign(c).unwrap().contract_campaign_id.unwrap();
    assert_eq!(e.ledger().get_campaign(link).unwrap().raised, 10_000);
    let d = e
        .propose_disbursement(CreateDisbursementRequest { campaign_id: c, recipient_address: "R".to_string(), amount: 5_000 }, T + 2)
        .unwrap();
    e.approve_disbursement(d, ApproveDisbursementRequest { approver_addresses: vec!["A1".to_string()] }, T + 3).unwrap();
    assert_eq!(e.mirror().get_disbursement(d).unwrap().status, DisbursementState::Pending);
    e.approve_disbursement(d, ApproveDisbursementRequest { approver_addresses: vec!["A2".to_string()] }, T + 4).unwrap();
    assert_eq!(e.mirror().get_disbursement(d).unwrap().status, DisbursementState::Approved);
    e.execute_disbursement(d, ExecuteDisbursementRequest { tx_hash: "tx3".to_string() }, T + 5).unwrap();
    assert_eq!(e.mirror().get_campaign(c).unwrap().raised_amount, 5_000);
    assert_eq!(e.ledger().get_campaign(link).unwrap().raised, 5_000);
    assert_eq!(e.ledger().get_disbursement(1).unwrap().status, DisbursementStatus::Executed);
    assert_eq!(
        e.execute_disbursement(d, ExecuteDisbursementRequest { tx_hash: "tx4".to_string() }, T + 6),
        Err(AppError::BadRequest(Reason::AlreadyExecuted))
    );
    assert_eq!(e.ledger().get_campaign(link).unwrap().raised, 5_000);
}

#[test]
fn engine_rejects_late_donation_without_ledger_call() {
    let (mut e, c) = setup(1, 1000, T + 10);
    assert_eq!(donate(&mut e, c, "D", 100, T + 11), Err(AppError::BadRequest(Reason::DeadlinePassed)));
    assert_eq!(e.ledger().get_donations_count(), 0);
    assert_eq!(e.mirror().get_campaign(c).unwrap().raised_amount, 0);
}

#[test]
fn engine_completion_matches_on_both_layers() {
    let (mut e, c) = setup(1, 1000, T + 3600);
    donate(&mut e, c, "D1", 300, T).unwrap();
    donate(&mut e, c, "D2", 800, T).unwrap();
    let link = e.mirror().get_campaign(c).unwrap().contract_campaign_id.unwrap();
    assert_eq!(e.mirror().get_campaign(c).unwrap().status, CampaignStatus::Completed);
    assert_eq!(e.ledger().get_campaign(link).unwrap().status, CampaignStatus::Completed);
    assert_eq!(e.mirror().get_campaign(c).unwrap().raised_amount, 1100);
    assert_eq!(e.ledger().get_donations_count(), 2);
}

#[test]
fn engine_approvals_reach_the_ledger_one_per_approver() {
    let (mut e, c) = setup(2, 100_000, T + 3600);
    donate(&mut e, c, "D", 1_000, T).unwrap();
    let d = e
        .propose_disbursement(CreateDisbursementRequest { campaign_id: c, recipient_address: "R".to_string(), amount: 400 }, T)
        .unwrap();
    assert_eq!(e.ledger().get_disbursements_count(), 1);
    assert_eq!(e.ledger().get_disbursement(1).unwrap().amount, 400);
    e.approve_disbursement(d, ApproveDisbursementRequest { approver_addresses: vec!["A1".to_string()] }, T).unwrap();
    assert_eq!(
        e.execute_disbursement(d, ExecuteDisbursementRequest { tx_hash: "tx".to_string() }, T),
        Err(AppError::BadRequest(Reason::QuorumNotMet))
    );
    assert_eq!(e.ledger().get_disbursement(1).unwrap().status, DisbursementStatus::Pending);
    e.approve_disbursement(d, ApproveDisbursementRequest { approver_addresses: vec!["A1".to_string(), "A2".to_string()] }, T)
        .unwrap();
    let lb = e.ledger().get_disbursement(1).unwrap();
    assert_eq!(lb.approvers, vec!["A1".to_string(), "A2".to_string()]);
    assert_eq!(e.mirror().get_disbursement(d).unwrap().approved_by, lb.approvers);
    assert_eq!(e.ledger().is_approved(1), Ok(true));
    assert_eq!(
        e.propose_disbursement(CreateDisbursementRequest { campaign_id: c, recipient_address: "R".to_string(), amount: 5_000 }, T),
        Err(AppError::BadRequest(Reason::InsufficientFunds))
    );
    assert_eq!(e.ledger().get_disbursements_count(), 1);
}

use aidflow::contract::{CampaignStatus, ContractError, DisbursementStatus, DonationContract};

fn s(x: &str) -> String {
    x.to_string()
}

fn signed(p: &[&str]) -> Vec<String> {
    p.iter().map(|x| x.to_string()).collect()
}

const NOW: u64 = 1_000;
const LATER: u64 = 1_000 + 3_600;

fn ledger_with_admin() -> DonationContract {
    let mut l = DonationContract::new();
    l.initialize(&s("admin"), &signed(&["admin"])).unwrap();
    l
}

#[test]
fn test_initialize() {
    let l = ledger_with_admin();
    assert_eq!(l.get_campaigns_count(), 0);
    assert_eq!(l.get_donations_count(), 0);
    assert_eq!(l.get_admin().unwrap(), "admin");
}

#[test]
fn test_test_create_campaign() {
    let mut l = ledger_with_admin();
    let target = 100_000_0000000i128;
    let id = l
        .create_campaign(&s("ngo"), &s("Clean Water Project"), target, LATER, NOW, &signed(&["ngo"]))
        .unwrap();
    assert_eq!(id, 1);
    assert_eq!(l.get_campaigns_count(), 1);
    let c = l.get_campaign(id).unwrap();
    assert_eq!(c.id, 1);
    assert_eq!(c.goal, target);
    assert_eq!(c.raised, 0);
    assert_eq!(c.status, CampaignStatus::Active);
}

#[test]
fn test_create_campaign() {
    let mut l = ledger_with_admin();
    let id = l
        .create_campaign(&s("ngo"), &s("Save the Children"), 1000000, LATER, NOW, &signed(&["ngo"]))
        .unwrap();
    assert_eq!(id, 1);
    let c = l.get_campaign(id).unwrap();
    assert_eq!(c.id, 1);
    assert_eq!(c.goal, 1000000);
    assert_eq!(c.raised, 0);
    assert_eq!(c.status, CampaignStatus::Active);
    assert_eq!(c.name, "Save the Children");
}

#[test]
fn test_campaigns_count() {
    let mut l = ledger_with_admin();
    assert_eq!(l.get_campaigns_count(), 0);
    l.create_campaign(&s("ngo"), &s("Campaign 1"), 1000000, LATER, NOW, &signed(&["ngo"])).unwrap();
    assert_eq!(l.get_campaigns_count(), 1);
    l.create_campaign(&s("ngo"), &s("Campaign 2"), 2000000, LATER, NOW, &signed(&["ngo"])).unwrap();
    assert_eq!(l.get_campaigns_count(), 2);
}

#[test]
fn test_donate() {
    let mut l = ledger_with_admin();
    let target = 50_000_0000000i128;
    let cid = l.create_campaign(&s("ngo"), &s("Education Fund"), target, LATER, NOW, &signed(&["ngo"])).unwrap();
    let amount = 1_000_0000000i128;
    let did = l.donate(cid, &s("donor"), amount, NOW + 1, &signed(&["donor"])).unwrap();
    assert_eq!(did, 1);
    assert_eq!(l.get_donations_count(), 1);
    assert_eq!(l.get_total_donations_count(), 1);
    assert_eq!(l.get_campaign(cid).unwrap().raised, amount);
    let d = l.get_donation(did).unwrap();
    assert_eq!(d.amount, amount);
    assert_eq!(d.campaign_id, cid);
    assert_eq!(d.donor, "donor");
    assert_eq!(d.timestamp, NOW + 1);
}

#[test]
fn test_multisig_disbursement() {
    let mut l = ledger_with_admin();
    l.set_quorum(&s("admin"), 2, &signed(&["admin"])).unwrap();
    assert_eq!(l.get_quorum(), 2);
    let target = 100_000_0000000i128;
    let cid = l.create_campaign(&s("ngo"), &s("Relief Fund"), target, LATER, NOW, &signed(&["ngo"])).unwrap();
    let donation = 10_000_0000000i128;
    l.donate(cid, &s("donor"), donation, NOW, &signed(&["donor"])).unwrap();
    let amount = 5_000_0000000i128;
    let bid = l.propose_disbursement(cid, &s("recipient"), amount, &s("ngo"), &signed(&["ngo"])).unwrap();
    assert_eq!(bid, 1);
    assert_eq!(l.get_disbursements_count(), 1);
    l.approve_disbursement(bid, &s("approver1"), &signed(&["approver1"])).unwrap();
    l.approve_disbursement(bid, &s("approver2"), &signed(&["approver2"])).unwrap();
    l.execute_disbursement(bid, NOW + 5, &signed(&["ngo"])).unwrap();
    let b = l.get_disbursement(bid).unwrap();
    assert_eq!(b.status, DisbursementStatus::Executed);
    assert_eq!(b.approvers.len(), 2);
    assert_eq!(b.executed_at, Some(NOW + 5));
    assert_eq!(l.get_campaign(cid).unwrap().raised, donation - amount);
}

#[test]
fn test_close_campaign() {
    let mut l = ledger_with_admin();
    let cid = l.create_campaign(&s("ngo"), &s("Test Campaign"), 10_000_0000000i128, LATER, NOW, &signed(&["ngo"])).unwrap();
    l.close_campaign(cid, &signed(&["ngo"])).unwrap();
    assert_eq!(l.get_campaign(cid).unwrap().status, CampaignStatus::Closed);
    assert_eq!(l.close_campaign(cid, &signed(&["ngo"])), Err(ContractError::AlreadyClosed));
}

#[test]
fn ledger_happy_donation_completes_campaign() {
    let mut l = ledger_with_admin();
    let cid = l.create_campaign(&s("W"), &s("C"), 1000, LATER, NOW, &signed(&["W"])).unwrap();
    l.donate(cid, &s("D1"), 300, NOW, &signed(&["D1"])).unwrap();
    assert_eq!(l.get_campaign(cid).unwrap().status, CampaignStatus::Active);
    assert_eq!(l.is_goal_reached(cid), Ok(false));
    assert_eq!(l.get_remaining_amount(cid), Ok(700));
    l.donate(cid, &s("D2"), 800, NOW, &signed(&["D2"])).unwrap();
    let c = l.get_campaign(cid).unwrap();
    assert_eq!(c.raised, 1100);
    assert_eq!(c.status, CampaignStatus::Completed);
    assert_eq!(l.is_goal_reached(cid), Ok(true));
    assert_eq!(l.get_remaining_amount(cid), Ok(0));
    assert_eq!(l.get_donations(cid).len(), 2);
    assert_eq!(l.donate(cid, &s("D3"), 1, NOW, &signed(&["D3"])), Err(ContractError::NotActive));
}

#[test]
fn ledger_over_goal_donation_accepted() {
    let mut l = ledger_with_admin();
    let cid = l.create_campaign(&s("W"), &s("C"), 1000, LATER, NOW, &signed(&["W"])).unwrap();
    l.donate(cid, &s("D1"), 1500, NOW, &signed(&["D1"])).unwrap();
    let c = l.get_campaign(cid).unwrap();
    assert_eq!(c.raised, 1500);
    assert_eq!(c.status, CampaignStatus::Completed);
}

#[test]
fn ledger_rejects_donation_after_deadline() {
    let mut l = ledger_with_admin();
    let cid = l.create_campaign(&s("W"), &s("C"), 1000, NOW + 10, NOW, &signed(&["W"])).unwrap();
    assert_eq!(l.donate(cid, &s("D1"), 10, NOW + 10, &signed(&["D1"])).map(|_| ()), Ok(()));
    assert_eq!(l.donate(cid, &s("D1"), 10, NOW + 11, &signed(&["D1"])), Err(ContractError::DeadlinePassed));
    assert_eq!(l.get_donations_count(), 1);
}

#[test]
fn ledger_second_execution_is_refused() {
    let mut l = ledger_with_admin();
    l.set_quorum(&s("admin"), 2, &signed(&["admin"])).unwrap();
    let cid = l.create_campaign(&s("W"), &s("C"), 100_000, LATER, NOW, &signed(&["W"])).unwrap();
    l.donate(cid, &s("D"), 10_000, NOW, &signed(&["D"])).unwrap();
    let bid = l.propose_disbursement(cid, &s("R"), 5_000, &s("W"), &signed(&["W"])).unwrap();
    l.approve_disbursement(bid, &s("A1"), &signed(&["A1"])).unwrap();
    assert_eq!(l.is_approved(bid), Ok(false));
    assert_eq!(l.execute_disbursement(bid, NOW, &signed(&["W"])), Err(ContractError::QuorumNotMet));
    l.approve_disbursement(bid, &s("A2"), &signed(&["A2"])).unwrap();
    assert_eq!(l.is_approved(bid), Ok(true));
    l.execute_disbursement(bid, NOW, &signed(&["W"])).unwrap();
    assert_eq!(l.get_campaign(cid).unwrap().raised, 5_000);
    assert_eq!(l.execute_disbursement(bid, NOW, &signed(&["W"])), Err(ContractError::AlreadyExecuted));
    assert_eq!(l.get_campaign(cid).unwrap().raised, 5_000);
    assert_eq!(l.approve_disbursement(bid, &s("A3"), &signed(&["A3"])), Err(ContractError::NotPending));
}

#[test]
fn ledger_approving_twice_keeps_one_approval() {
    let mut l = ledger_with_admin();
    let cid = l.create_campaign(&s("W"), &s("C"), 100, LATER, NOW, &signed(&["W"])).unwrap();
    l.donate(cid, &s("D"), 50, NOW, &signed(&["D"])).unwrap();
    let bid = l.propose_disbursement(cid, &s("R"), 10, &s("W"), &signed(&["W"])).unwrap();
    assert_eq!(l.get_disbursement(bid).unwrap().approvers.len(), 0);
    l.approve_disbursement(bid, &s("A1"), &signed(&["A1"])).unwrap();
    l.approve_disbursement(bid, &s("A1"), &signed(&["A1"])).unwrap();
    assert_eq!(l.get_disbursement(bid).unwrap().approvers.len(), 1);
}

#[test]
fn ledger_insufficient_available_on_second_execution() {
    let mut l = ledger_with_admin();
    let cid = l.create_campaign(&s("W"), &s("C"), 100_000, LATER, NOW, &signed(&["W"])).unwrap();
    l.donate(cid, &s("D"), 5_000, NOW, &signed(&["D"])).unwrap();
    let first = l.propose_disbursement(cid, &s("R"), 4_000, &s("W"), &signed(&["W"])).unwrap();
    let second = l.propose_disbursement(cid, &s("R"), 2_000, &s("W"), &signed(&["W"])).unwrap();
    l.approve_disbursement(first, &s("A"), &signed(&["A"])).unwrap();
    l.approve_disbursement(second, &s("A"), &signed(&["A"])).unwrap();
    l.execute_disbursement(first, NOW, &signed(&["W"])).unwrap();
    assert_eq!(l.get_campaign(cid).unwrap().raised, 1_000);
    assert_eq!(l.execute_disbursement(second, NOW, &signed(&["W"])), Err(ContractError::InsufficientAvailable));
    assert_eq!(
        l.propose_disbursement(cid, &s("R"), 1_001, &s("W"), &signed(&["W"])),
        Err(ContractError::InsufficientAvailable)
    );
}

#[test]
fn ledger_balance_is_donations_minus_executed() {
    let mut l = ledger_with_admin();
    let a = l.create_campaign(&s("W"), &s("A"), 1_000_000, LATER, NOW, &signed(&["W"])).unwrap();
    let b = l.create_campaign(&s("V"), &s("B"), 1_000_000, LATER, NOW, &signed(&["V"])).unwrap();
    l.donate(a, &s("D"), 700, NOW, &signed(&["D"])).unwrap();
    l.donate(b, &s("D"), 300, NOW, &signed(&["D"])).unwrap();
    l.donate(a, &s("E"), 200, NOW, &signed(&["E"])).unwrap();
    let x = l.propose_disbursement(a, &s("R"), 400, &s("W"), &signed(&["W"])).unwrap();
    l.approve_disbursement(x, &s("A1"), &signed(&["A1"])).unwrap();
    l.execute_disbursement(x, NOW, &signed(&["W"])).unwrap();
    let donated: i128 = l.get_donations(a).iter().map(|d| d.amount).sum();
    assert_eq!(donated, 900);
    assert_eq!(l.get_campaign(a).unwrap().raised, donated - 400);
    assert_eq!(l.get_campaign(b).unwrap().raised, 300);
    assert_eq!(l.get_donations(b).len(), 1);
}

#[test]
fn ledger_refusals() {
    let mut l = DonationContract::new();
    assert_eq!(l.get_admin(), Err(ContractError::NotInitialized));
    assert_eq!(l.set_quorum(&s("admin"), 2, &signed(&["admin"])), Err(ContractError::NotInitialized));
    assert_eq!(l.initialize(&s("admin"), &signed(&["someone"])), Err(ContractError::Unauthorized));
    l.initialize(&s("admin"), &signed(&["admin"])).unwrap();
    assert_eq!(l.initialize(&s("admin"), &signed(&["admin"])), Err(ContractError::AlreadyInitialized));
    assert_eq!(l.set_quorum(&s("admin"), 0, &signed(&["admin"])), Err(ContractError::InvalidQuorum));
    assert_eq!(l.set_quorum(&s("other"), 3, &signed(&["other"])), Err(ContractError::Unauthorized));
    assert_eq!(l.create_campaign(&s("W"), &s("C"), 10, LATER, NOW, &signed(&["X"])), Err(ContractError::Unauthorized));
    assert_eq!(l.create_campaign(&s("W"), &s("C"), 0, LATER, NOW, &signed(&["W"])), Err(ContractError::InvalidGoal));
    assert_eq!(l.create_campaign(&s("W"), &s("C"), 10, NOW, NOW, &signed(&["W"])), Err(ContractError::InvalidDeadline));
    let cid = l.create_campaign(&s("W"), &s("C"), i128::MAX, LATER, NOW, &signed(&["W"])).unwrap();
    assert_eq!(l.donate(cid, &s("D"), 5, NOW, &signed(&["X"])), Err(ContractError::Unauthorized));
    assert_eq!(l.donate(cid, &s("D"), 0, NOW, &signed(&["D"])), Err(ContractError::NonPositiveAmount));
    assert_eq!(l.donate(9, &s("D"), 5, NOW, &signed(&["D"])), Err(ContractError::NotFound));
    l.donate(cid, &s("D"), i128::MAX - 1, NOW, &signed(&["D"])).unwrap();
    assert_eq!(l.donate(cid, &s("D"), 2, NOW, &signed(&["D"])), Err(ContractError::Overflow));
    assert_eq!(l.propose_disbursement(cid, &s("R"), 5, &s("X"), &signed(&["X"])), Err(ContractError::Unauthorized));
    assert_eq!(l.propose_disbursement(cid, &s("R"), -5, &s("W"), &signed(&["W"])), Err(ContractError::NonPositiveAmount));
    assert_eq!(l.propose_disbursement(7, &s("R"), 5, &s("W"), &signed(&["W"])), Err(ContractError::NotFound));
    let bid = l.propose_disbursement(cid, &s("R"), 5, &s("W"), &signed(&["W"])).unwrap();
    assert_eq!(l.approve_disbursement(bid, &s("A"), &signed(&["B"])), Err(ContractError::Unauthorized));
    assert_eq!(l.approve_disbursement(bid + 1, &s("A"), &signed(&["A"])), Err(ContractError::NotFound));
    assert_eq!(l.execute_disbursement(bid, NOW, &signed(&["A"])), Err(ContractError::Unauthorized));
    assert_eq!(l.reject_disbursement(bid, &s("R"), &signed(&["R"])), Err(ContractError::Unauthorized));
    l.reject_disbursement(bid, &s("admin"), &signed(&["admin"])).unwrap();
    assert_eq!(l.get_disbursement(bid).unwrap().status, DisbursementStatus::Rejected);
    assert_eq!(l.execute_disbursement(bid, NOW, &signed(&["W"])), Err(ContractError::NotPending));
    assert_eq!(l.get_campaign(5).map(|c| c.id), Err(ContractError::NotFound));
    l.close_campaign(cid, &signed(&["W"])).unwrap();
    assert_eq!(l.propose_disbursement(cid, &s("R"), 5, &s("W"), &signed(&["W"])), Err(ContractError::AlreadyClosed));
    assert_eq!(l.close_campaign(cid, &signed(&["X"])), Err(ContractError::Unauthorized));
    assert_eq!(l.close_campaign(4, &signed(&["W"])), Err(ContractError::NotFound));
}

#[test]
fn ledger_closed_campaign_still_executes_pending() {
    let mut l = ledger_with_admin();
    let cid = l.create_campaign(&s("W"), &s("C"), 100, LATER, NOW, &signed(&["W"])).unwrap();
    l.donate(cid, &s("D"), 60, NOW, &signed(&["D"])).unwrap();
    let bid = l.propose_disbursement(cid, &s("R"), 60, &s("W"), &signed(&["W"])).unwrap();
    l.approve_disbursement(bid, &s("A"), &signed(&["A"])).unwrap();
    l.close_campaign(cid, &signed(&["W"])).unwrap();
    assert_eq!(l.donate(cid, &s("D"), 1, NOW, &signed(&["D"])), Err(ContractError::NotActive));
    l.execute_disbursement(bid, NOW, &signed(&["W"])).unwrap();
    assert_eq!(l.get_campaign(cid).unwrap().raised, 0);
}

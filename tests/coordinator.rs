use aidflow::contract::ContractError;
use aidflow::coordinator::{Begun, ChainOutcome, Operation, WriteLog, WriteState};
use aidflow::error::AppError;

#[test]
fn retry_with_same_key_finds_existing_write() {
    let mut log = WriteLog::new();
    assert_eq!(log.begin(Operation::Donate, "n1".to_string(), 10), Begun::Fresh(10));
    assert_eq!(log.begin(Operation::Donate, "n1".to_string(), 11), Begun::Existing(10, WriteState::PendingChain));
    assert_eq!(log.begin(Operation::ProposeDisbursement, "n1".to_string(), 12), Begun::Fresh(12));
    assert_eq!(log.pending().len(), 2);
}

#[test]
fn confirmed_write_is_final() {
    let mut log = WriteLog::new();
    log.begin(Operation::CreateCampaign, "a".to_string(), 1);
    assert_eq!(log.settle(Operation::CreateCampaign, &"a".to_string(), ChainOutcome::Confirmed("tx1".to_string())), Ok(()));
    let w = log.lookup(Operation::CreateCampaign, &"a".to_string()).unwrap();
    assert_eq!(w.state, WriteState::Confirmed);
    assert_eq!(w.tx_hash, Some("tx1".to_string()));
    assert_eq!(
        log.settle(Operation::CreateCampaign, &"a".to_string(), ChainOutcome::Rejected(ContractError::NotFound)),
        Ok(())
    );
    assert_eq!(log.lookup(Operation::CreateCampaign, &"a".to_string()).unwrap().tx_hash, Some("tx1".to_string()));
    assert_eq!(log.begin(Operation::CreateCampaign, "a".to_string(), 2), Begun::Existing(1, WriteState::Confirmed));
    assert_eq!(log.pending().len(), 0);
}

#[test]
fn rejected_write_fails_and_transient_stays_pending() {
    let mut log = WriteLog::new();
    log.begin(Operation::Donate, "x".to_string(), 1);
    log.begin(Operation::Donate, "y".to_string(), 2);
    let e = log.settle(Operation::Donate, &"x".to_string(), ChainOutcome::Rejected(ContractError::DeadlinePassed));
    assert_eq!(e, Err(AppError::ChainRejected(ContractError::DeadlinePassed)));
    assert_eq!(log.lookup(Operation::Donate, &"x".to_string()).unwrap().state, WriteState::Failed);
    let t = log.settle(Operation::Donate, &"y".to_string(), ChainOutcome::Transient);
    assert_eq!(t, Err(AppError::ChainTransient));
    assert_eq!(t.unwrap_err().status_code(), 502);
    let pending = log.pending();
    assert_eq!(pending.len(), 1);
    assert_eq!(pending[0].row_id, 2);
    assert_eq!(
        log.settle(Operation::Donate, &"x".to_string(), ChainOutcome::Confirmed("late".to_string())),
        Err(AppError::ChainRejected(ContractError::DeadlinePassed))
    );
    assert_eq!(log.settle(Operation::Donate, &"zzz".to_string(), ChainOutcome::Transient), Err(AppError::Internal));
    assert!(log.lookup(Operation::Donate, &"zzz".to_string()).is_none());
}

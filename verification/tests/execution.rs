use luna_distributor::distribution::{Payout, PayoutPlan};
use luna_distributor::error::DistributorError;
use luna_distributor::execution::Execution;
use luna_distributor::store::ConfigStore;
use luna_distributor::weights::WeightEntry;
use luna_distributor::whitelist::WhitelistEntry;

fn plan(balance: u128) -> PayoutPlan {
    let store = ConfigStore::instantiate(
        "owner",
        "addrZ",
        "addrD",
        vec![WhitelistEntry::new("addrA", "A"), WhitelistEntry::new("addrB", "B")],
        vec![WeightEntry::percent("A", 40), WeightEntry::percent("B", 30)],
    )
    .unwrap();
    store.distribute("anyone", "uluna", balance).unwrap()
}

fn line(recipient: &str, amount: u128) -> Payout {
    Payout { recipient: recipient.to_string(), amount, denom: "uluna".to_string() }
}

#[test]
fn execution_proposes_the_transfers_in_order() {
    let mut execution = Execution::start(&plan(100));
    let mut sent = vec![];
    while let Some(transfer) = execution.next() {
        sent.push(transfer);
        assert_eq!(execution.record(true), Ok(()));
    }
    assert_eq!(
        sent,
        vec![line("addrA", 40), line("addrB", 30), line("addrZ", 15), line("addrD", 15)]
    );
    assert!(execution.is_complete());
    assert!(!execution.has_failed());
    assert_eq!(execution.settled(), 4);
}

#[test]
fn execution_skips_lines_of_zero() {
    // 1 unit: shares 0 and 0, remainder 1 to burn, 0 to developer
    let mut execution = Execution::start(&plan(1));
    assert_eq!(execution.next(), Some(line("addrZ", 1)));
    assert_eq!(execution.record(true), Ok(()));
    assert_eq!(execution.next(), None);
    assert!(execution.is_complete());
}

#[test]
fn execution_of_an_empty_balance_is_complete_at_once() {
    let mut execution = Execution::start(&plan(0));
    assert_eq!(execution.next(), None);
    assert!(execution.is_complete());
    assert_eq!(execution.record(true), Ok(()));
    assert_eq!(execution.record(false), Ok(()));
    assert!(execution.is_complete());
    assert_eq!(execution.settled(), 0);
}

#[test]
fn refused_transfer_fails_the_execution() {
    let mut execution = Execution::start(&plan(100));
    assert_eq!(execution.record(true), Ok(()));
    assert_eq!(execution.next(), Some(line("addrB", 30)));
    assert_eq!(execution.record(false), Err(DistributorError::TransferFailed));
    assert!(execution.has_failed());
    assert!(!execution.is_complete());
    assert_eq!(execution.settled(), 1);
}

#[test]
fn nothing_is_proposed_after_a_refusal() {
    let mut execution = Execution::start(&plan(100));
    assert_eq!(execution.record(false), Err(DistributorError::TransferFailed));
    assert_eq!(execution.next(), None);
    assert_eq!(execution.record(true), Err(DistributorError::TransferFailed));
    assert_eq!(execution.next(), None);
    assert_eq!(execution.settled(), 0);
    assert!(!execution.is_complete());
}

#[test]
fn answers_after_completion_change_nothing() {
    let mut execution = Execution::start(&plan(100));
    for _ in 0..4 {
        assert_eq!(execution.record(true), Ok(()));
    }
    assert!(execution.is_complete());
    assert_eq!(execution.record(false), Ok(()));
    assert_eq!(execution.record(true), Ok(()));
    assert!(execution.is_complete());
    assert_eq!(execution.settled(), 4);
}

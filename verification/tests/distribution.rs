use luna_distributor::config::Config;
use luna_distributor::distribution::{plan_distribution, Payout, PayoutPlan};
use luna_distributor::error::DistributorError;
use luna_distributor::weights::{WeightEntry, WeightTable};
use luna_distributor::whitelist::{Whitelist, WhitelistEntry};

fn config_with(
    burn: &str,
    developer: &str,
    whitelist: &[(&str, &str)],
    weights: Vec<WeightEntry>,
) -> Config {
    let routes = whitelist.iter().map(|(a, p)| WhitelistEntry::new(a, p)).collect();
    Config {
        admin: "owner".to_string(),
        burn_address: burn.to_string(),
        developer_address: developer.to_string(),
        whitelist: Whitelist::from_entries(routes).unwrap(),
        weights: WeightTable::from_entries(weights).unwrap(),
    }
}

fn config(whitelist: &[(&str, &str)], weights: &[(&str, u64)]) -> Config {
    let table = weights.iter().map(|(p, w)| WeightEntry::percent(p, *w)).collect();
    config_with("addrZ", "addrD", whitelist, table)
}

fn line(recipient: &str, amount: u128) -> Payout {
    Payout { recipient: recipient.to_string(), amount, denom: "uluna".to_string() }
}

fn total(plan: &PayoutPlan) -> u128 {
    plan.entries().iter().map(|p| p.amount).sum()
}

#[test]
fn plan_splits_by_weight_and_halves_the_remainder() {
    let cfg = config(&[("addrA", "A"), ("addrB", "B")], &[("A", 40), ("B", 30)]);
    let plan = plan_distribution(100, &cfg, "uluna").unwrap();
    assert_eq!(
        plan.entries(),
        vec![line("addrA", 40), line("addrB", 30), line("addrZ", 15), line("addrD", 15)]
    );
    assert_eq!(plan.balance(), 100);
    assert_eq!(total(&plan), 100);
    assert_eq!(plan.amount_for("addrA"), 40);
    assert_eq!(plan.amount_for("addrB"), 30);
    assert_eq!(plan.amount_for("addrZ") + plan.amount_for("addrD"), 30);
}

#[test]
fn plan_fails_on_unresolved_protocol() {
    let cfg = config(&[("addrA", "A")], &[("A", 40), ("B", 30)]);
    assert_eq!(plan_distribution(100, &cfg, "uluna"), Err(DistributorError::UnresolvedProtocol));
    let none = config(&[], &[("A", 0)]);
    assert_eq!(plan_distribution(0, &none, "uluna"), Err(DistributorError::UnresolvedProtocol));
}

#[test]
fn odd_remainder_gives_the_extra_unit_to_burn() {
    let cfg = config(&[("addrA", "A")], &[("A", 50)]);
    let plan = plan_distribution(101, &cfg, "uluna").unwrap();
    // floor(101 * 0.5) = 50, remainder 51 = 26 burn + 25 developer
    assert_eq!(plan.entries(), vec![line("addrA", 50), line("addrZ", 26), line("addrD", 25)]);
    assert_eq!(total(&plan), 101);
}

#[test]
fn rounding_leftovers_go_to_the_remainder() {
    let third: u128 = 333_333_333_333_333_333;
    let weights = vec![
        WeightEntry::new("A", third),
        WeightEntry::new("B", third),
        WeightEntry::new("C", third),
    ];
    let cfg = config_with("addrZ", "addrD", &[("a", "A"), ("b", "B"), ("c", "C")], weights);
    let plan = plan_distribution(10, &cfg, "uluna").unwrap();
    assert_eq!(
        plan.entries(),
        vec![line("a", 3), line("b", 3), line("c", 3), line("addrZ", 1), line("addrD", 0)]
    );
    assert_eq!(plan.transfers(), vec![line("a", 3), line("b", 3), line("c", 3), line("addrZ", 1)]);
    assert_eq!(total(&plan), 10);
}

#[test]
fn without_weights_the_whole_balance_is_remainder() {
    let cfg = config(&[("addrA", "A")], &[]);
    let plan = plan_distribution(7, &cfg, "uluna").unwrap();
    assert_eq!(plan.entries(), vec![line("addrZ", 4), line("addrD", 3)]);
    assert_eq!(plan.amount_for("addrA"), 0);
}

#[test]
fn full_weights_leave_no_remainder() {
    let cfg = config(&[("addrA", "A"), ("addrB", "B")], &[("A", 60), ("B", 40)]);
    let plan = plan_distribution(1000, &cfg, "uluna").unwrap();
    assert_eq!(
        plan.entries(),
        vec![line("addrA", 600), line("addrB", 400), line("addrZ", 0), line("addrD", 0)]
    );
    assert_eq!(plan.transfers(), vec![line("addrA", 600), line("addrB", 400)]);
}

#[test]
fn zero_balance_plans_no_transfer() {
    let cfg = config(&[("addrA", "A")], &[("A", 40)]);
    let plan = plan_distribution(0, &cfg, "uluna").unwrap();
    assert_eq!(plan.entries(), vec![line("addrA", 0), line("addrZ", 0), line("addrD", 0)]);
    assert_eq!(plan.transfers(), vec![]);
    assert_eq!(plan.balance(), 0);
}

#[test]
fn the_largest_balance_is_conserved() {
    let cfg = config(&[("addrA", "A"), ("addrB", "B")], &[("A", 33), ("B", 33)]);
    let plan = plan_distribution(u128::MAX, &cfg, "uluna").unwrap();
    assert_eq!(total(&plan), u128::MAX);
    assert_eq!(plan.balance(), u128::MAX);
    assert_eq!(plan.amount_for("addrA"), 112293181083909692942913620452483509780);
    assert_eq!(plan.amount_for("addrA"), plan.amount_for("addrB"));
    assert_eq!(plan.amount_for("addrZ"), plan.amount_for("addrD") + 1);
}

#[test]
fn burn_address_that_is_whitelisted_gets_one_line() {
    let cfg = config_with(
        "addrA",
        "addrD",
        &[("addrA", "A"), ("addrB", "B")],
        vec![WeightEntry::percent("A", 40), WeightEntry::percent("B", 30)],
    );
    let plan = plan_distribution(100, &cfg, "uluna").unwrap();
    assert_eq!(plan.entries(), vec![line("addrA", 55), line("addrB", 30), line("addrD", 15)]);
    assert_eq!(total(&plan), 100);
}

#[test]
fn developer_address_equal_to_burn_address_gets_the_whole_remainder() {
    let cfg = config_with(
        "sink",
        "sink",
        &[("addrA", "A")],
        vec![WeightEntry::percent("A", 40)],
    );
    let plan = plan_distribution(101, &cfg, "uluna").unwrap();
    assert_eq!(plan.entries(), vec![line("addrA", 40), line("sink", 61)]);
}

#[test]
fn protocols_with_one_address_share_a_line() {
    let cfg = config(&[("shared", "A"), ("shared", "B"), ("addrC", "C")], &[
        ("A", 10),
        ("C", 20),
        ("B", 30),
    ]);
    let plan = plan_distribution(1000, &cfg, "uluna").unwrap();
    assert_eq!(
        plan.entries(),
        vec![line("shared", 400), line("addrC", 200), line("addrZ", 200), line("addrD", 200)]
    );
}

#[test]
fn repeated_weight_entries_are_each_rounded_down() {
    let cfg = config(&[("addrA", "A")], &[("A", 50), ("A", 50)]);
    let plan = plan_distribution(3, &cfg, "uluna").unwrap();
    // floor(1.5) + floor(1.5) = 2, remainder 1 to burn
    assert_eq!(plan.entries(), vec![line("addrA", 2), line("addrZ", 1), line("addrD", 0)]);
}

#[test]
fn whitelisted_address_without_weight_is_never_paid() {
    let cfg = config(&[("addrA", "A"), ("idle", "I")], &[("A", 40)]);
    let plan = plan_distribution(100, &cfg, "uluna").unwrap();
    assert_eq!(plan.amount_for("idle"), 0);
    assert!(plan.entries().iter().all(|p| p.recipient != "idle"));
}

#[test]
fn every_line_carries_the_denom() {
    let cfg = config(&[("addrA", "A")], &[("A", 40)]);
    let plan = plan_distribution(100, &cfg, "uusd").unwrap();
    assert_eq!(plan.len(), 3);
    assert!(plan.entries().iter().all(|p| p.denom == "uusd"));
    assert_eq!(plan.entry(0).recipient, "addrA");
    assert_eq!(plan.entry(0).clone(), *plan.entry(0));
}

#[test]
fn planning_is_deterministic() {
    let cfg = config(&[("addrA", "A"), ("addrB", "B")], &[("A", 41), ("B", 17)]);
    let first = plan_distribution(987_654_321, &cfg, "uluna").unwrap();
    let second = plan_distribution(987_654_321, &cfg, "uluna").unwrap();
    assert_eq!(first, second);
    assert_eq!(total(&first), 987_654_321);
}

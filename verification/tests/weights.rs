use luna_distributor::error::DistributorError;
use luna_distributor::fraction::{PERCENT, SCALE};
use luna_distributor::weights::{WeightEntry, WeightTable};

fn entries(list: &[(&str, u64)]) -> Vec<WeightEntry> {
    list.iter().map(|(p, w)| WeightEntry::percent(p, *w)).collect()
}

#[test]
fn entry_constructors_fill_the_fields() {
    let raw = WeightEntry::new("A", 5);
    assert_eq!(raw.protocol, "A");
    assert_eq!(raw.weight, 5);
    let percent = WeightEntry::percent("B", 40);
    assert_eq!(percent.protocol, "B");
    assert_eq!(percent.weight, 40 * PERCENT);
    assert_eq!(percent.clone(), percent);
}

#[test]
fn new_table_is_empty() {
    let table = WeightTable::new();
    assert_eq!(table.len(), 0);
    assert_eq!(table.total_weight(), 0);
    assert_eq!(table.weight_of("A"), 0);
    assert_eq!(table.entries(), vec![]);
}

#[test]
fn set_weights_accepts_a_sum_of_zero() {
    let mut table = WeightTable::new();
    assert_eq!(table.set_weights(vec![]), Ok(()));
    assert_eq!(table.total_weight(), 0);
    assert_eq!(table.set_weights(entries(&[("A", 0), ("B", 0)])), Ok(()));
    assert_eq!(table.total_weight(), 0);
    assert_eq!(table.len(), 2);
}

#[test]
fn set_weights_accepts_sums_up_to_one() {
    let mut table = WeightTable::new();
    assert_eq!(table.set_weights(entries(&[("A", 40), ("B", 30)])), Ok(()));
    assert_eq!(table.total_weight(), 70 * PERCENT);
    assert_eq!(table.set_weights(entries(&[("A", 40), ("B", 60)])), Ok(()));
    assert_eq!(table.total_weight(), SCALE);
    assert_eq!(table.set_weights(entries(&[("A", 100)])), Ok(()));
    assert_eq!(table.total_weight(), SCALE);
}

#[test]
fn set_weights_rejects_a_sum_above_one() {
    let mut table = WeightTable::new();
    table.set_weights(entries(&[("A", 40), ("B", 30)])).unwrap();
    assert_eq!(
        table.set_weights(entries(&[("A", 40), ("B", 61)])),
        Err(DistributorError::InvalidWeight)
    );
    assert_eq!(table.entries(), entries(&[("A", 40), ("B", 30)]));
    let by_one_unit = vec![WeightEntry::new("A", SCALE), WeightEntry::new("B", 1)];
    assert_eq!(table.set_weights(by_one_unit), Err(DistributorError::InvalidWeight));
    assert_eq!(table.total_weight(), 70 * PERCENT);
}

#[test]
fn set_weights_rejects_a_single_weight_above_one() {
    let mut table = WeightTable::new();
    assert_eq!(table.set_weights(entries(&[("A", 101)])), Err(DistributorError::InvalidWeight));
    assert_eq!(
        table.set_weights(vec![WeightEntry::new("A", u128::MAX)]),
        Err(DistributorError::InvalidWeight)
    );
    assert_eq!(
        table.set_weights(vec![WeightEntry::new("A", u128::MAX), WeightEntry::new("B", u128::MAX)]),
        Err(DistributorError::InvalidWeight)
    );
    assert_eq!(table.len(), 0);
}

#[test]
fn set_weights_replaces_the_table() {
    let mut table = WeightTable::new();
    table.set_weights(entries(&[("A", 40), ("B", 30)])).unwrap();
    table.set_weights(entries(&[("C", 10)])).unwrap();
    assert_eq!(table.entries(), entries(&[("C", 10)]));
    assert_eq!(table.weight_of("A"), 0);
    assert_eq!(table.weight_of("C"), 10 * PERCENT);
}

#[test]
fn from_entries_validates_like_set_weights() {
    assert!(WeightTable::from_entries(entries(&[("A", 50), ("B", 50)])).is_ok());
    assert_eq!(
        WeightTable::from_entries(entries(&[("A", 50), ("B", 51)])),
        Err(DistributorError::InvalidWeight)
    );
}

#[test]
fn weight_of_is_zero_for_an_absent_protocol() {
    let table = WeightTable::from_entries(entries(&[("A", 40), ("B", 30)])).unwrap();
    assert_eq!(table.weight_of("A"), 40 * PERCENT);
    assert_eq!(table.weight_of("B"), 30 * PERCENT);
    assert_eq!(table.weight_of("C"), 0);
    assert_eq!(table.weight_of(""), 0);
}

#[test]
fn weight_of_adds_up_repeated_entries() {
    let table = WeightTable::from_entries(entries(&[("A", 20), ("B", 30), ("A", 10)])).unwrap();
    assert_eq!(table.weight_of("A"), 30 * PERCENT);
    assert_eq!(table.total_weight(), 60 * PERCENT);
}

#[test]
fn entry_and_clone_show_the_table() {
    let table = WeightTable::from_entries(entries(&[("A", 40), ("B", 30)])).unwrap();
    assert_eq!(table.entry(0), &WeightEntry::percent("A", 40));
    assert_eq!(table.entry(1), &WeightEntry::percent("B", 30));
    assert_eq!(table.clone(), table);
}

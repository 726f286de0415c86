use luna_distributor::error::DistributorError;
use luna_distributor::whitelist::{Route, Whitelist, WhitelistEntry};

fn entries(list: &[(&str, &str)]) -> Vec<WhitelistEntry> {
    list.iter().map(|(a, p)| WhitelistEntry::new(a, p)).collect()
}

#[test]
fn entry_constructor_fills_the_fields() {
    let entry = WhitelistEntry::new("addr1", "A");
    assert_eq!(entry.address, "addr1");
    assert_eq!(entry.protocol, "A");
    assert_eq!(entry.clone(), entry);
}

#[test]
fn new_whitelist_routes_nothing() {
    let list = Whitelist::new();
    assert_eq!(list.len(), 0);
    assert_eq!(list.address_for("A"), Route::Unrouted);
}

#[test]
fn set_entries_rejects_duplicate_protocol() {
    let mut list = Whitelist::new();
    assert_eq!(
        list.set_entries(entries(&[("addr1", "A"), ("addr2", "A")])),
        Err(DistributorError::DuplicateProtocol)
    );
    assert_eq!(list.len(), 0);
}

#[test]
fn set_entries_rejects_a_late_duplicate_and_keeps_the_old_list() {
    let mut list = Whitelist::new();
    list.set_entries(entries(&[("addr1", "A")])).unwrap();
    assert_eq!(
        list.set_entries(entries(&[("addr1", "A"), ("addr2", "B"), ("addr3", "C"), ("addr4", "B")])),
        Err(DistributorError::DuplicateProtocol)
    );
    assert_eq!(list.entries(), entries(&[("addr1", "A")]));
}

#[test]
fn set_entries_accepts_one_address_for_two_protocols() {
    let mut list = Whitelist::new();
    assert_eq!(list.set_entries(entries(&[("addr1", "A"), ("addr1", "B")])), Ok(()));
    assert_eq!(list.address_for("A"), Route::Address("addr1".to_string()));
    assert_eq!(list.address_for("B"), Route::Address("addr1".to_string()));
}

#[test]
fn set_entries_replaces_the_list() {
    let mut list = Whitelist::new();
    list.set_entries(entries(&[("addr1", "A"), ("addr2", "B")])).unwrap();
    list.set_entries(entries(&[("addr3", "C")])).unwrap();
    assert_eq!(list.entries(), entries(&[("addr3", "C")]));
    assert_eq!(list.address_for("A"), Route::Unrouted);
    assert_eq!(list.set_entries(vec![]), Ok(()));
    assert_eq!(list.len(), 0);
}

#[test]
fn address_for_finds_each_protocol() {
    let list = Whitelist::from_entries(entries(&[("addr1", "A"), ("addr2", "B"), ("addr3", "C")]))
        .unwrap();
    assert_eq!(list.address_for("A"), Route::Address("addr1".to_string()));
    assert_eq!(list.address_for("B"), Route::Address("addr2".to_string()));
    assert_eq!(list.address_for("C"), Route::Address("addr3".to_string()));
    assert_eq!(list.address_for("D"), Route::Unrouted);
    assert_eq!(list.address_for("a"), Route::Unrouted);
}

#[test]
fn an_address_without_weight_is_listed_but_inert() {
    let list = Whitelist::from_entries(entries(&[("addr1", "A")])).unwrap();
    assert_eq!(list.entry(0), &WhitelistEntry::new("addr1", "A"));
    assert_eq!(list.clone(), list);
}

#[test]
fn from_entries_validates_like_set_entries() {
    assert!(Whitelist::from_entries(entries(&[("addr1", "A"), ("addr2", "B")])).is_ok());
    assert_eq!(
        Whitelist::from_entries(entries(&[("addr1", "A"), ("addr1", "A")])),
        Err(DistributorError::DuplicateProtocol)
    );
}

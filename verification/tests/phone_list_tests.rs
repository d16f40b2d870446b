use conference_mapper::phone_list::PhoneNumberList;

#[test]
fn phone_list_with_entries_is_enabled() {
    let entries = vec![
        ("US".to_string(), vec!["+1-555-0100".to_string(), "+1-555-0101".to_string()]),
        ("DE".to_string(), vec!["+49-555-0102".to_string()]),
    ];
    let list = PhoneNumberList::from_entries(entries.clone());
    assert!(list.numbers_enabled);
    assert_eq!(list.message, "Phone numbers available.");
    assert_eq!(list.numbers, entries);
}

#[test]
fn empty_phone_list_is_disabled() {
    let list = PhoneNumberList::from_entries(Vec::new());
    assert!(!list.numbers_enabled);
    assert_eq!(list.message, "");
    assert!(list.numbers.is_empty());
}

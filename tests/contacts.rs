use imessage_collate::contacts::{normalize_number, Contact, ContactMap};

fn contact(given: &str, family: &str, phones: &[&str], emails: &[&str]) -> Contact {
    Contact {
        given_name: given.to_string(),
        family_name: family.to_string(),
        phone_numbers: phones.iter().map(|p| p.to_string()).collect(),
        email_addresses: emails.iter().map(|e| e.to_string()).collect(),
    }
}

#[test]
fn test_normalize_number() {
    // Test various input formats
    assert_eq!(
        normalize_number("555-555-0100"),
        Some("+15555550100".to_string())
    );
    assert_eq!(
        normalize_number("(555) 555-0101"),
        Some("+15555550101".to_string())
    );
    assert_eq!(
        normalize_number("(555) 555-0102"),
        Some("+15555550102".to_string())
    );
    assert_eq!(
        normalize_number("555 555 0103"),
        Some("+15555550103".to_string())
    );

    // Test 11-digit number with leading 1
    assert_eq!(
        normalize_number("15555550104"),
        Some("+15555550104".to_string())
    );
    assert_eq!(
        normalize_number("1 (555) 555-0105"),
        Some("+15555550105".to_string())
    );
    assert_eq!(
        normalize_number("+15555550106"),
        Some("+15555550106".to_string())
    );

    // Test already normalized number
    assert_eq!(
        normalize_number("+15555550107"),
        Some("+15555550107".to_string())
    );

    // Test edge cases
    assert_eq!(normalize_number(""), None); // Empty string
    assert_eq!(normalize_number("123"), None); // Too short
    assert_eq!(normalize_number("abc-def-ghij"), None); // No digits

    // Test with extra characters
    assert_eq!(
        normalize_number("+1 (555) 555-0108"),
        Some("+15555550108".to_string())
    );
    assert_eq!(
        normalize_number("1-555-555-0100"),
        Some("+15555550100".to_string())
    );
}

#[test]
fn normalize_scenario_examples() {
    assert_eq!(normalize_number("(555) 555-0101"), Some("+15555550101".to_string()));
    assert_eq!(normalize_number("abc"), None);
    assert_eq!(normalize_number("123"), None);
}

#[test]
fn normalize_nine_digits_is_rejected() {
    assert_eq!(normalize_number("555-555-010"), None);
}

#[test]
fn normalize_international_numbers() {
    assert_eq!(normalize_number("25555550100"), Some("+25555550100".to_string()));
    assert_eq!(normalize_number("44 20 7946 0958 1"), Some("+4420794609581".to_string()));
    assert_eq!(normalize_number("+44 (20) 7946-0958"), Some("+442079460958".to_string()));
}

#[test]
fn normalize_is_idempotent_on_examples() {
    for x in ["555-555-0100", "1 (555) 555-0105", "+44 20 7946 0958", "12345678901234"] {
        let once = normalize_number(x).unwrap();
        assert!(once.starts_with('+'));
        assert_eq!(normalize_number(&once), Some(once.clone()));
    }
}

#[test]
fn full_name_joins_and_trims() {
    assert_eq!(contact("Ada", "Lovelace", &[], &[]).full_name(), "Ada Lovelace");
    assert_eq!(contact("", "Smith", &[], &[]).full_name(), "Smith");
    assert_eq!(contact("Cher", "", &[], &[]).full_name(), "Cher");
    assert_eq!(contact("  Bo ", " Li  ", &[], &[]).full_name(), "Bo   Li");
    assert_eq!(contact("\u{3000}Bo", "Li\u{A0}\t", &[], &[]).full_name(), "Bo Li");
    assert_eq!(contact("", "", &[], &[]).full_name(), "");
}

#[test]
fn contact_map_from_contacts() {
    let contacts = vec![
        contact("Alice", "Ames", &["(555) 555-0101", "12"], &["alice@example.com"]),
        contact("Bob", "", &["555 555 0102"], &[]),
    ];
    let map = ContactMap::from_contacts(&contacts);
    assert_eq!(map.len(), 3);
    assert_eq!(map.get("+15555550101"), Some(&"Alice Ames".to_string()));
    assert_eq!(map.get("alice@example.com"), Some(&"Alice Ames".to_string()));
    assert_eq!(map.get("+15555550102"), Some(&"Bob".to_string()));
    assert_eq!(map.get("(555) 555-0101"), None);
    assert_eq!(map.get("12"), None);
}

#[test]
fn contact_map_later_entry_wins() {
    let contacts = vec![
        contact("First", "Person", &["5555550101"], &[]),
        contact("Second", "Person", &["+1 555 555 0101"], &[]),
    ];
    let map = ContactMap::from_contacts(&contacts);
    assert_eq!(map.get("+15555550101"), Some(&"Second Person".to_string()));
    assert_eq!(map.len(), 1);
    assert_eq!(ContactMap::empty().len(), 0);
}

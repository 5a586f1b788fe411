use oml_storage::{ExternalId, IdError, RandomId, SequentialId, SimpleExternalId, StorageId};

#[test]
fn test_random_id() {
    // Generate a new random ID
    let id1 = RandomId::new();
    println!("Generated random ID: {}", id1.to_string());

    // Create from string
    let id_str = id1.to_string();
    let id2 = RandomId::from_string(&id_str).unwrap();

    // Verify they're equal
    assert_eq!(id1, id2);

    // Generate a new one - should be different
    let id3 = RandomId::generate_new(None);
    assert_ne!(id1, id3);

    // Generate from previous - with RandomId this still creates a new random ID
    let id4 = RandomId::generate_new(Some(&id1));
    assert_ne!(id1, id4);

    // Format validation
    assert!(RandomId::is_valid_format(&id_str));
}

#[test]
fn test_sequential_id() {
    // Start with ID 1
    let id1 = SequentialId::new(1);
    println!("Initial sequential ID: {}", id1.to_string());

    // Create from string
    let id_str = id1.to_string();
    let id2 = SequentialId::from_string(&id_str).unwrap();

    // Verify they're equal
    assert_eq!(id1, id2);

    // Generate a new one without previous - should start at 1
    let id3 = SequentialId::generate_new(None);
    assert_eq!(id3.value(), 1);

    // Generate from previous - should increment
    let id4 = SequentialId::generate_new(Some(&id1));
    assert_eq!(id4.value(), 2);

    // Format validation
    assert!(SequentialId::is_valid_format("123"));
    assert!(!SequentialId::is_valid_format("abc"));
}

#[test]
fn test_external_id() {
    // Create an external ID for a Facebook user
    let id1 = ExternalId::new("facebook", "12345678");
    println!("External ID: {}", id1.to_string());

    // Create from string
    let id_str = id1.to_string();
    let id2 = ExternalId::from_string(&id_str).unwrap();

    // Verify they're equal
    assert_eq!(id1, id2);

    // Test prefix and ID getters
    assert_eq!(id1.prefix(), "facebook");
    assert_eq!(id1.id(), "12345678");

    // Format validation
    assert!(ExternalId::is_valid_format("facebook:12345678"));
    assert!(!ExternalId::is_valid_format("facebook"));
    assert!(!ExternalId::is_valid_format("facebook:"));
    assert!(!ExternalId::is_valid_format(":12345678"));

    // Invalid format should fail parsing
    assert!(ExternalId::from_string("invalid").is_err());
}

#[test]
fn test_simple_external_id() {
    // Create an external ID
    let id1 = SimpleExternalId::new("12344321");
    println!("Simple External ID: {}", id1.to_string());

    // Create from string
    let id_str = id1.to_string();
    let id2 = SimpleExternalId::from_string(&id_str).unwrap();

    // Verify they're equal
    assert_eq!(id1, id2);

    // Test ID getter
    assert_eq!(id1.id(), "12344321");

    // Format validation
    assert!(SimpleExternalId::is_valid_format("12344321"));
    assert!(!SimpleExternalId::is_valid_format(""));

    // Invalid format should fail parsing
    assert!(SimpleExternalId::from_string("").is_err());
}

#[test]
fn sequential_text_is_plain_decimal() {
    assert_eq!(SequentialId::new(0).to_string(), "0");
    assert_eq!(SequentialId::new(1234567890).to_string(), "1234567890");
    assert_eq!(SequentialId::new(u64::MAX).to_string(), "18446744073709551615");
    let back = SequentialId::from_string("18446744073709551615").unwrap();
    assert_eq!(back.value(), u64::MAX);
}

#[test]
fn sequential_parse_reads_like_u64_from_str() {
    assert_eq!(SequentialId::from_string("+5").unwrap().value(), 5);
    assert_eq!(SequentialId::from_string("007").unwrap().value(), 7);
    assert_eq!(SequentialId::from_string("18446744073709551616"), Err(IdError::Overflow));
    assert_eq!(SequentialId::from_string("99999999999999999999"), Err(IdError::Overflow));
    assert_eq!(SequentialId::from_string(""), Err(IdError::Empty));
    assert_eq!(SequentialId::from_string("+"), Err(IdError::Empty));
    assert_eq!(SequentialId::from_string("-1"), Err(IdError::NotANumber));
    assert_eq!(SequentialId::from_string("12a"), Err(IdError::NotANumber));
    assert!(!SequentialId::is_valid_format(" 1"));
}

#[test]
fn sequential_generate_counts_up() {
    assert_eq!(SequentialId::generate_new(None).value(), 1);
    let n = SequentialId::new(41);
    let next = SequentialId::generate_new(Some(&n));
    assert_eq!(next.value(), 42);
    assert!(n.is_less(&next));
    assert!(!next.is_less(&n));
}

#[test]
fn external_id_splits_at_first_colon() {
    let id = ExternalId::from_string("a:b").unwrap();
    assert_eq!(id.prefix(), "a");
    assert_eq!(id.id(), "b");
    let id = ExternalId::from_string("a:b:c").unwrap();
    assert_eq!(id.prefix(), "a");
    assert_eq!(id.id(), "b:c");
    assert_eq!(id.to_string(), "a:b:c");
    assert_eq!(ExternalId::from_string("a"), Err(IdError::MissingSeparator));
    assert_eq!(ExternalId::from_string("a:"), Err(IdError::EmptyPart));
    assert_eq!(ExternalId::from_string(":b"), Err(IdError::EmptyPart));
    assert_eq!(ExternalId::from_string(""), Err(IdError::MissingSeparator));
}

#[test]
fn external_ids_generate_placeholders() {
    let e = ExternalId::generate_new(None);
    assert_eq!(e.to_string(), "unknown:default");
    assert_eq!(e, ExternalId::default());
    let s = SimpleExternalId::generate_new(None);
    assert_eq!(s.id(), "default");
}

#[test]
fn random_id_is_url_safe() {
    let id = RandomId::new();
    assert_eq!(id.value().chars().count(), 21);
    assert!(id
        .value()
        .chars()
        .all(|c| c == '_' || c == '-' || c.is_ascii_alphanumeric()));
    assert_eq!(RandomId::from_string(""), Err(IdError::Empty));
    assert!(!RandomId::is_valid_format(""));
    assert_eq!(RandomId::from_str("abc").value(), "abc");
}

#[test]
fn text_ids_order_lexicographically() {
    assert!(RandomId::from_str("ab").is_less(&RandomId::from_str("b")));
    assert!(RandomId::from_str("ab").is_less(&RandomId::from_str("abc")));
    assert!(!RandomId::from_str("abc").is_less(&RandomId::from_str("abc")));
    assert!(!RandomId::from_str("b").is_less(&RandomId::from_str("ab")));
    assert!(SimpleExternalId::new("10").is_less(&SimpleExternalId::new("9")));
    assert!(ExternalId::new("a", "z").is_less(&ExternalId::new("b", "a")));
    assert!(ExternalId::new("a", "a").is_less(&ExternalId::new("a", "b")));
    assert!(!ExternalId::new("a", "b").is_less(&ExternalId::new("a", "b")));
}

#[test]
fn ids_round_trip_through_text() {
    for n in [0u64, 1, 9, 10, 99, 100, 65535, u64::MAX - 1] {
        let id = SequentialId::new(n);
        assert_eq!(SequentialId::from_string(&id.to_string()).unwrap(), id);
    }
    let e = ExternalId::new("x", "y:z");
    assert_eq!(ExternalId::from_string(&e.to_string()).unwrap(), e);
    let r = RandomId::generate_new(None);
    assert_eq!(RandomId::from_string(&r.to_string()).unwrap(), r);
    let s = SimpleExternalId::new("q");
    assert_eq!(SimpleExternalId::from_string(&s.to_string()).unwrap(), s);
}

#[test]
fn parse_all_reads_every_text_or_fails() {
    let texts: Vec<String> = vec!["3".to_string(), "+4".to_string(), "10".to_string()];
    let ids: Vec<SequentialId> = oml_storage::parse_all(&texts).unwrap();
    assert_eq!(ids, vec![SequentialId::new(3), SequentialId::new(4), SequentialId::new(10)]);
    let bad: Vec<String> = vec!["3".to_string(), "x".to_string()];
    assert_eq!(oml_storage::parse_all::<SequentialId>(&bad), Err(IdError::NotANumber));
    let none: Vec<String> = Vec::new();
    assert_eq!(oml_storage::parse_all::<ExternalId>(&none), Ok(vec![]));
}

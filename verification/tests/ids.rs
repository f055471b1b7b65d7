use internetarchive_rs::ids::{
    is_bucket_creation_safe_character, is_bucket_creation_safe_edge_character,
    looks_like_ipv4_address,
};
use internetarchive_rs::{IdentifierError, ItemIdentifier, TaskId};

#[test]
fn item_identifier_accepts_documented_shapes() {
    assert_eq!(
        ItemIdentifier::new("xfetch-2026_demo").unwrap().as_str(),
        "xfetch-2026_demo"
    );
    assert_eq!(
        "demo_item".parse::<ItemIdentifier>().unwrap().as_str(),
        "demo_item"
    );
    assert_eq!(
        ItemIdentifier::new("Demo_Item").unwrap().as_str(),
        "Demo_Item"
    );
    assert_eq!(
        ItemIdentifier::new("Demo.Item_2026").unwrap().as_str(),
        "Demo.Item_2026"
    );
}

#[test]
fn item_identifier_rejects_empty_and_invalid_values() {
    assert_eq!(
        ItemIdentifier::new("   ").unwrap_err(),
        IdentifierError::Empty
    );
    let long_identifier = "a".repeat(ItemIdentifier::MAX_IDENTIFIER_LEN + 1);
    assert_eq!(
        ItemIdentifier::new(&long_identifier).unwrap_err(),
        IdentifierError::TooLong {
            identifier: long_identifier,
            max: ItemIdentifier::MAX_IDENTIFIER_LEN,
        }
    );
    assert_eq!(
        ItemIdentifier::new("-bad").unwrap_err(),
        IdentifierError::InvalidStartCharacter {
            identifier: String::from("-bad"),
            character: '-',
        }
    );
    assert_eq!(
        ItemIdentifier::new("_bad").unwrap_err(),
        IdentifierError::InvalidStartCharacter {
            identifier: String::from("_bad"),
            character: '_',
        }
    );
    assert_eq!(
        ItemIdentifier::new(".bad").unwrap_err(),
        IdentifierError::InvalidStartCharacter {
            identifier: String::from(".bad"),
            character: '.',
        }
    );
    assert!(matches!(
        ItemIdentifier::new("bad item").unwrap_err(),
        IdentifierError::InvalidCharacter { character: ' ', .. }
    ));
    assert!(matches!(
        ItemIdentifier::new("bad/item").unwrap_err(),
        IdentifierError::InvalidCharacter { character: '/', .. }
    ));
}

#[test]
fn item_identifier_validates_bucket_creation_safe_subset() {
    ItemIdentifier::new("demo-item.2026")
        .unwrap()
        .validate_for_bucket_creation()
        .unwrap();

    assert_eq!(
        ItemIdentifier::new("ab")
            .unwrap()
            .validate_for_bucket_creation()
            .unwrap_err(),
        IdentifierError::TooShortForBucketCreation {
            identifier: String::from("ab"),
            min: ItemIdentifier::MIN_BUCKET_IDENTIFIER_LEN,
        }
    );

    let long_identifier = "a".repeat(ItemIdentifier::MAX_BUCKET_IDENTIFIER_LEN + 1);
    assert_eq!(
        ItemIdentifier::new(&long_identifier)
            .unwrap()
            .validate_for_bucket_creation()
            .unwrap_err(),
        IdentifierError::TooLongForBucketCreation {
            identifier: long_identifier,
            max: ItemIdentifier::MAX_BUCKET_IDENTIFIER_LEN,
        }
    );

    assert_eq!(
        ItemIdentifier::new("Demo-item")
            .unwrap()
            .validate_for_bucket_creation()
            .unwrap_err(),
        IdentifierError::InvalidBucketCreationCharacter {
            identifier: String::from("Demo-item"),
            character: 'D',
        }
    );
    assert_eq!(
        ItemIdentifier::new("demo_item")
            .unwrap()
            .validate_for_bucket_creation()
            .unwrap_err(),
        IdentifierError::InvalidBucketCreationCharacter {
            identifier: String::from("demo_item"),
            character: '_',
        }
    );
    assert_eq!(
        ItemIdentifier::new("demo-")
            .unwrap()
            .validate_for_bucket_creation()
            .unwrap_err(),
        IdentifierError::InvalidBucketCreationEdgeCharacter {
            identifier: String::from("demo-"),
            character: '-',
        }
    );
    assert_eq!(
        ItemIdentifier::new("demo.")
            .unwrap()
            .validate_for_bucket_creation()
            .unwrap_err(),
        IdentifierError::InvalidBucketCreationEdgeCharacter {
            identifier: String::from("demo."),
            character: '.',
        }
    );
    assert_eq!(
        ItemIdentifier::new("demo..item")
            .unwrap()
            .validate_for_bucket_creation()
            .unwrap_err(),
        IdentifierError::AdjacentBucketCreationPeriods {
            identifier: String::from("demo..item"),
        }
    );
    assert_eq!(
        ItemIdentifier::new("192.168.5.4")
            .unwrap()
            .validate_for_bucket_creation()
            .unwrap_err(),
        IdentifierError::BucketCreationIdentifierLooksLikeIpAddress {
            identifier: String::from("192.168.5.4"),
        }
    );
    assert_eq!(
        ItemIdentifier::new("demo-.item")
            .unwrap()
            .validate_for_bucket_creation()
            .unwrap_err(),
        IdentifierError::PeriodAdjacentBucketCreationDash {
            identifier: String::from("demo-.item"),
        }
    );
    assert_eq!(
        ItemIdentifier::new("demo.-item")
            .unwrap()
            .validate_for_bucket_creation()
            .unwrap_err(),
        IdentifierError::PeriodAdjacentBucketCreationDash {
            identifier: String::from("demo.-item"),
        }
    );
    for identifier in [
        "xn--demo",
        "sthree-demo",
        "amzn-s3-demo-item",
        "demo-s3alias",
        "demo--ol-s3",
        "demo.mrap",
        "demo--x-s3",
        "demo--table-s3",
    ] {
        ItemIdentifier::new(identifier)
            .unwrap()
            .validate_for_bucket_creation()
            .unwrap();
    }
}

#[test]
fn task_ids_round_trip() {
    let task = TaskId::from(42_u64);
    assert_eq!(task.0, 42);
    assert_eq!(task.to_string(), "42");
}

#[test]
fn identifier_try_from_and_string_round_trip_work() {
    let identifier = ItemIdentifier::try_from(String::from("demo-item")).unwrap();
    assert_eq!(identifier.as_str(), "demo-item");
    assert_eq!(identifier.to_string(), "demo-item");
    assert_eq!(String::from(identifier.clone()), "demo-item");
    assert_eq!(ItemIdentifier::try_from("demo-item").unwrap(), identifier);
}

#[test]
fn identifier_is_trimmed_and_validating_again_changes_nothing() {
    let first = ItemIdentifier::new("  demo-item \t").unwrap();
    assert_eq!(first.as_str(), "demo-item");
    let second = ItemIdentifier::new(first.as_str()).unwrap();
    assert_eq!(second, first);
}

#[test]
fn identifier_length_limit_counts_bytes() {
    let exactly = "a".repeat(ItemIdentifier::MAX_IDENTIFIER_LEN);
    assert!(ItemIdentifier::new(&exactly).is_ok());
    let boundary = "b".repeat(ItemIdentifier::MIN_BUCKET_IDENTIFIER_LEN);
    ItemIdentifier::new(&boundary)
        .unwrap()
        .validate_for_bucket_creation()
        .unwrap();
    let longest = "c".repeat(ItemIdentifier::MAX_BUCKET_IDENTIFIER_LEN);
    ItemIdentifier::new(&longest)
        .unwrap()
        .validate_for_bucket_creation()
        .unwrap();
}

#[test]
fn ipv4_shapes_follow_u8_parsing() {
    assert!(looks_like_ipv4_address("192.168.5.4"));
    assert!(looks_like_ipv4_address("0.0.0.0"));
    assert!(looks_like_ipv4_address("+1.2.3.4"));
    assert!(!looks_like_ipv4_address("256.1.1.1"));
    assert!(!looks_like_ipv4_address("1.2.3"));
    assert!(!looks_like_ipv4_address("1.2.3.4.5"));
    assert!(!looks_like_ipv4_address("1..3.4"));
    assert!(!looks_like_ipv4_address("a.b.c.d"));
}

#[test]
fn bucket_character_classes() {
    for c in ['a', 'z', '0', '9', '-', '.'] {
        assert!(is_bucket_creation_safe_character(c));
    }
    for c in ['A', '_', ' ', '/'] {
        assert!(!is_bucket_creation_safe_character(c));
    }
    assert!(is_bucket_creation_safe_edge_character('a'));
    assert!(is_bucket_creation_safe_edge_character('7'));
    assert!(!is_bucket_creation_safe_edge_character('-'));
    assert!(!is_bucket_creation_safe_edge_character('.'));
}

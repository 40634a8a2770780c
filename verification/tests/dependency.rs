use cargo_registry::models::dependency::{
    Dependency, DependencyKind, IndexDependencyKind, KindError, ReverseDependency,
};

#[test]
fn kinds_are_persisted_as_small_integers() {
    assert_eq!(DependencyKind::Normal.to_i32(), 0);
    assert_eq!(DependencyKind::Build.to_i32(), 1);
    assert_eq!(DependencyKind::Dev.to_i32(), 2);
}

#[test]
fn kinds_are_read_back_from_their_integers() {
    assert_eq!(DependencyKind::from_i32(0), Ok(DependencyKind::Normal));
    assert_eq!(DependencyKind::from_i32(1), Ok(DependencyKind::Build));
    assert_eq!(DependencyKind::from_i32(2), Ok(DependencyKind::Dev));
    for kind in [DependencyKind::Normal, DependencyKind::Build, DependencyKind::Dev] {
        assert_eq!(DependencyKind::from_i32(kind.to_i32()), Ok(kind));
    }
}

#[test]
fn unknown_kind_is_reported_not_defaulted() {
    for n in [3, 4, -1, 255, 256, i32::MAX, i32::MIN] {
        assert_eq!(DependencyKind::from_i32(n), Err(KindError::UnknownKind(n)));
    }
}

#[test]
fn kinds_are_decoded_from_big_endian_bytes() {
    assert_eq!(DependencyKind::from_sql(&[0, 0, 0, 0]), Ok(DependencyKind::Normal));
    assert_eq!(DependencyKind::from_sql(&[0, 0, 0, 1]), Ok(DependencyKind::Build));
    assert_eq!(DependencyKind::from_sql(&[0, 0, 0, 2]), Ok(DependencyKind::Dev));
    assert_eq!(DependencyKind::from_sql(&[0, 0, 0, 3]), Err(KindError::UnknownKind(3)));
    assert_eq!(DependencyKind::from_sql(&[1, 0, 0, 0]), Err(KindError::UnknownKind(16777216)));
    assert_eq!(DependencyKind::from_sql(&[0, 0, 1, 0]), Err(KindError::UnknownKind(256)));
    assert_eq!(DependencyKind::from_sql(&[0x12, 0x34, 0x56, 0x78]), Err(KindError::UnknownKind(0x12345678)));
    assert_eq!(DependencyKind::from_sql(&[0xff, 0xff, 0xff, 0xff]), Err(KindError::UnknownKind(-1)));
    assert_eq!(DependencyKind::from_sql(&[0x80, 0, 0, 0]), Err(KindError::UnknownKind(i32::MIN)));
    assert_eq!(DependencyKind::from_sql(&[0x7f, 0xff, 0xff, 0xff]), Err(KindError::UnknownKind(i32::MAX)));
}

#[test]
fn decoding_agrees_with_std_on_every_byte_pattern_tried() {
    for bytes in [[0u8, 0, 0, 2], [0, 1, 2, 3], [0xfe, 0xdc, 0xba, 0x98], [0x80, 0, 0, 1]] {
        let n = i32::from_be_bytes(bytes);
        assert_eq!(DependencyKind::from_sql(&bytes), DependencyKind::from_i32(n));
    }
}

#[test]
fn wrong_sizes_are_reported() {
    assert_eq!(DependencyKind::from_sql(&[]), Err(KindError::TooShort));
    assert_eq!(DependencyKind::from_sql(&[0, 0, 1]), Err(KindError::TooShort));
    assert_eq!(DependencyKind::from_sql(&[0, 0, 0, 0, 1]), Err(KindError::TooLong));
    assert_eq!(DependencyKind::from_sql(&[0; 8]), Err(KindError::TooLong));
}

#[test]
fn kinds_are_stored_as_they_are_decoded() {
    for kind in [DependencyKind::Normal, DependencyKind::Build, DependencyKind::Dev] {
        let stored = kind.to_sql();
        assert_eq!(stored, kind.to_i32().to_be_bytes().to_vec());
        assert_eq!(DependencyKind::from_sql(&stored), Ok(kind));
    }
}

#[test]
fn kinds_map_onto_the_index() {
    assert_eq!(IndexDependencyKind::from(DependencyKind::Normal), IndexDependencyKind::Normal);
    assert_eq!(IndexDependencyKind::from(DependencyKind::Build), IndexDependencyKind::Build);
    assert_eq!(IndexDependencyKind::from(DependencyKind::Dev), IndexDependencyKind::Dev);
    let through_into: IndexDependencyKind = DependencyKind::Dev.into();
    assert_eq!(through_into, IndexDependencyKind::Dev);
}

#[test]
fn dependency_records_hold_their_fields() {
    let dependency = Dependency {
        id: 1,
        version_id: 2,
        crate_id: 3,
        req: ">= 1.0".to_string(),
        optional: false,
        default_features: true,
        features: vec!["derive".to_string()],
        target: None,
        kind: DependencyKind::Build,
        explicit_name: Some("renamed".to_string()),
    };
    let reverse = ReverseDependency { dependency, crate_downloads: 42, name: "user".to_string() };
    assert_eq!(reverse.dependency.kind, DependencyKind::Build);
    assert_eq!(reverse.dependency.features, vec!["derive".to_string()]);
    assert_eq!(reverse.crate_downloads, 42);
    assert_eq!(reverse.name, "user");
    assert!(format!("{:?}", reverse).contains("renamed"));
}

#[test]
fn unknown_kind_message_names_the_integer() {
    assert_eq!(KindError::UnknownKind(3).message(), "unknown kind: 3");
    assert_eq!(KindError::UnknownKind(-1).message(), "unknown kind: -1");
    assert_eq!(KindError::UnknownKind(0).message(), "unknown kind: 0");
    assert_eq!(KindError::UnknownKind(i32::MAX).message(), "unknown kind: 2147483647");
    assert_eq!(KindError::UnknownKind(i32::MIN).message(), "unknown kind: -2147483648");
    let from_row = DependencyKind::from_sql(&[0, 0, 0, 9]).unwrap_err();
    assert_eq!(from_row.message(), "unknown kind: 9");
}

#[test]
fn size_messages_say_what_was_received() {
    assert_eq!(KindError::TooShort.message(), "received less than 4 bytes while decoding a kind");
    assert_eq!(KindError::TooLong.message(), "received more than 4 bytes while decoding a kind");
}

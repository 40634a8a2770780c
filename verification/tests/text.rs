use cargo_registry::util::text::decimal_bytes;

#[test]
fn decimal_bytes_agree_with_std() {
    let samples = [
        0, 1, 9, 10, 11, 99, 100, 101, 12345, 1_000_000, 2_147_483_647, -1, -9, -10, -100, -12345,
        -2_147_483_647, -2_147_483_648,
    ];
    for n in samples {
        assert_eq!(decimal_bytes(n), n.to_string().into_bytes(), "{}", n);
    }
}

#[test]
fn decimal_bytes_of_known_values() {
    assert_eq!(decimal_bytes(0), b"0".to_vec());
    assert_eq!(decimal_bytes(7), b"7".to_vec());
    assert_eq!(decimal_bytes(42), b"42".to_vec());
    assert_eq!(decimal_bytes(-42), b"-42".to_vec());
    assert_eq!(decimal_bytes(1000), b"1000".to_vec());
}

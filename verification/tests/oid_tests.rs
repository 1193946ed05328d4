use myblog::oid::ObjectId;

#[test]
fn parses_a_24_digit_hex_string_and_renders_it_back() {
    let oid = ObjectId::with_string("0123456789abcdef01234567").expect("valid id");
    assert_eq!(oid.to_hex(), "0123456789abcdef01234567");
}

#[test]
fn upper_case_input_renders_lower_case() {
    let oid = ObjectId::with_string("0123456789ABCDEF01234567").expect("valid id");
    assert_eq!(oid.to_hex(), "0123456789abcdef01234567");
}

#[test]
fn rejects_malformed_identifier_strings() {
    assert!(ObjectId::with_string("").is_none());
    assert!(ObjectId::with_string("0123").is_none());
    assert!(ObjectId::with_string("0123456789abcdef0123456g").is_none());
    assert!(ObjectId::with_string("0123456789abcdef012345678").is_none());
    assert!(ObjectId::with_string("zzzzzzzzzzzzzzzzzzzzzzzz").is_none());
}

#[test]
fn equals_compares_the_bytes() {
    let a = ObjectId::with_string("0123456789abcdef01234567").unwrap();
    let b = ObjectId::with_string("0123456789ABCDEF01234567").unwrap();
    let c = ObjectId::with_string("ffffffffffffffffffffffff").unwrap();
    assert!(a.equals(&b));
    assert!(!a.equals(&c));
}

#[test]
fn roundtrips_an_identifier_generated_by_the_driver() {
    let generated = bson::oid::ObjectId::new().to_hex();
    let oid = ObjectId::with_string(&generated).expect("driver ids are hex");
    assert_eq!(oid.to_hex(), generated);
}

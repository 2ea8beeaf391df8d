use csfle::document::{clone_bson, clone_document, Bson, Document};
use csfle::strutil::{u64_to_string, validate_utf8};

#[test]
fn document_get_finds_the_first_match() {
    let mut d = Document::new();
    d.insert("a".to_string(), Bson::Int32(1));
    d.insert("b".to_string(), Bson::Int32(2));
    d.insert("a".to_string(), Bson::Int32(3));
    assert_eq!(d.get(&"a".to_string()), Some(&Bson::Int32(1)));
    assert_eq!(d.get(&"b".to_string()), Some(&Bson::Int32(2)));
    assert_eq!(d.get(&"c".to_string()), None);
}

#[test]
fn cloned_documents_are_independent() {
    let mut d = Document::new();
    d.insert("x".to_string(), Bson::String("v".to_string()));
    let copy = clone_document(&d);
    d.insert("y".to_string(), Bson::Null);
    assert_eq!(copy.get(&"y".to_string()), None);
    assert_eq!(copy.get(&"x".to_string()), Some(&Bson::String("v".to_string())));
    assert_eq!(clone_bson(&Bson::Int64(9)), Bson::Int64(9));
}

#[test]
fn decimal_formatting_exact_values() {
    assert_eq!(u64_to_string(0), "0");
    assert_eq!(u64_to_string(200), "200");
    assert_eq!(u64_to_string(10), "10");
    assert_eq!(u64_to_string(u64::MAX), "18446744073709551615");
}

#[test]
fn utf8_validation_matches_the_standard_library() {
    let cases: Vec<Vec<u8>> = vec![
        b"hello".to_vec(),
        "🤔🤔".as_bytes().to_vec(),
        vec![0xC3, 0xA9],
        vec![0xFF],
        vec![0xC3],
        vec![0xE2, 0x82],
        vec![0xED, 0xA0, 0x80], // surrogate range
        vec![0xC0, 0x80],       // overlong
        vec![0xF4, 0x90, 0x80, 0x80], // above the last scalar
        vec![],
    ];
    for bytes in cases {
        assert_eq!(
            validate_utf8(&bytes),
            std::str::from_utf8(&bytes).is_ok(),
            "disagreement on {:?}",
            bytes
        );
    }
}

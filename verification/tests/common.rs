use identity_core::common::one_or_many::OneOrMany;
use identity_core::common::value::Json;
use identity_core::common::value::Object;
use identity_core::error::CoreError;
use identity_core::utils::lexicographic::compare;

#[test]
fn test_one_or_many() {
    let one = OneOrMany::One(7);
    assert_eq!(one.len(), 1);
    assert!(!one.is_empty());
    assert_eq!(one.get(0), Some(&7));
    assert_eq!(one.get(1), None);
    assert_eq!(one.as_slice(), &[7]);

    let many = OneOrMany::Many(vec![1, 2, 3]);
    assert_eq!(many.len(), 3);
    assert_eq!(many.get(2), Some(&3));
    assert_eq!(many.get(3), None);
    assert_eq!(many.as_slice(), &[1, 2, 3]);

    let none: OneOrMany<u8> = OneOrMany::Many(vec![]);
    assert!(none.is_empty());
    assert_eq!(none.as_slice(), &[] as &[u8]);
}

#[test]
fn test_object_lookup_takes_the_first_member() {
    let object = Object::from_entries(vec![
        ("a".to_string(), Json::Bool(true)),
        ("b".to_string(), Json::Null),
        ("a".to_string(), Json::Bool(false)),
    ]);
    assert_eq!(object.len(), 3);
    assert!(matches!(object.get("a"), Some(Json::Bool(true))));
    assert!(matches!(object.get("b"), Some(Json::Null)));
    assert!(object.get("c").is_none());
    assert!(object.get("").is_none());
    let entries = object.into_entries();
    assert_eq!(entries.len(), 3);
    assert_eq!(entries[2].0, "a");
    assert_eq!(Object::new().len(), 0);
}

#[test]
fn test_json_from_str() {
    assert!(matches!(Json::from_str("null"), Ok(Json::Null)));
    assert!(matches!(Json::from_str("true"), Ok(Json::Bool(true))));
    assert!(matches!(Json::from_str("\"a\\nb\""), Ok(Json::String(text)) if text == "a\nb"));
    assert!(matches!(Json::from_str("1.5"), Ok(Json::Number(text)) if text == "1.5"));
    assert!(matches!(Json::from_str("[]"), Ok(Json::Array(items)) if items.is_empty()));
    assert!(matches!(Json::from_str("{}"), Ok(Json::Object(object)) if object.len() == 0));
    assert!(matches!(Json::from_str(""), Err(CoreError::DecodeJson)));
    assert!(matches!(Json::from_str("{\"a\":}"), Err(CoreError::DecodeJson)));
    assert!(matches!(Json::from_str("nul"), Err(CoreError::DecodeJson)));
}

#[test]
fn test_json_accessors() {
    assert_eq!(Json::String("x".to_string()).as_str(), Some("x"));
    assert_eq!(Json::Null.as_str(), None);
    assert!(Json::Null.at(0).is_none());
    assert!(Json::Null.get("a").is_none());
    assert!(Json::Array(vec![]).at(0).is_none());
    assert!(Json::Array(vec![Json::Null]).get("0").is_none());
}

#[test]
fn test_compare_bytes() {
    assert_eq!(compare(&[], &[]), 0);
    assert_eq!(compare(&[], &[0]), -1);
    assert_eq!(compare(&[0], &[]), 1);
    assert_eq!(compare(&[1, 2, 3], &[1, 2, 3]), 0);
    assert_eq!(compare(&[1, 2, 3], &[1, 2, 4]), -1);
    assert_eq!(compare(&[1, 3], &[1, 2, 4]), 1);
    assert_eq!(compare(&[1, 2], &[1, 2, 0]), -1);
    assert_eq!(compare(&[255], &[0, 255]), 1);
}

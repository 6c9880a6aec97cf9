use goose::extension_data::ExtensionData;
use goose::json::Json;

fn sample() -> Json {
    Json::Object(vec![
        ("a".to_string(), Json::Array(vec![Json::Null, Json::Bool(true)])),
        ("b".to_string(), Json::NegInt(-1)),
        ("a".to_string(), Json::text("second")),
        ("c".to_string(), Json::Object(vec![("d".to_string(), Json::Float(1))])),
    ])
}

#[test]
fn members_are_found_by_name_or_by_place() {
    let value = sample();
    assert_eq!(value.get("b"), Some(&Json::NegInt(-1)));
    assert_eq!(
        value.get("a"),
        Some(&Json::Array(vec![Json::Null, Json::Bool(true)]))
    );
    assert_eq!(value.get("z"), None);
    assert_eq!(value.member(9, "b"), Some(&Json::NegInt(-1)));

    let list = Json::Array(vec![Json::PosInt(7)]);
    assert_eq!(list.get("b"), None);
    assert_eq!(list.member(0, "b"), Some(&Json::PosInt(7)));
    assert_eq!(list.member(1, "b"), None);
    assert_eq!(Json::Null.member(0, "b"), None);
}

#[test]
fn values_are_read_as_what_they_are() {
    assert_eq!(Json::text("x").as_str(), Some("x"));
    assert_eq!(Json::Null.as_str(), None);
    assert_eq!(Json::integer(-4), Json::NegInt(-4));
    assert_eq!(Json::integer(4), Json::PosInt(4));
    assert_eq!(Json::PosInt(i64::MAX as u64).as_i64(), Some(i64::MAX));
    assert_eq!(Json::PosInt(i64::MAX as u64 + 1).as_i64(), None);
    assert_eq!(Json::NegInt(i64::MIN).as_i64(), Some(i64::MIN));
    assert_eq!(Json::Float(0).as_i64(), None);
    assert!(sample().is_record(0));
    assert!(Json::Array(vec![Json::Null]).is_record(1));
    assert!(!Json::Array(vec![Json::Null]).is_record(0));
    assert!(!Json::text("x").is_record(9));
}

#[test]
fn a_copy_is_the_same_all_the_way_down() {
    assert_eq!(sample().clone(), sample());
}

#[test]
fn a_record_is_replaced_in_place() {
    let mut data = ExtensionData::new();
    data.set_extension_state("a", "v0", Json::PosInt(1));
    data.set_extension_state("b", "v0", sample());
    data.set_extension_state("a", "v1", Json::PosInt(2));
    data.set_extension_state("a", "v0", Json::PosInt(3));

    assert_eq!(data.get_extension_state("a", "v0"), Some(&Json::PosInt(3)));
    assert_eq!(data.get_extension_state("a", "v1"), Some(&Json::PosInt(2)));
    assert_eq!(data.get_extension_state("b", "v0"), Some(&sample()));
    assert_eq!(data.get_extension_state("b", "v1"), None);
    let order: Vec<(&str, &str)> = data
        .records()
        .iter()
        .map(|record| (record.extension.as_str(), record.version.as_str()))
        .collect();
    assert_eq!(order, vec![("a", "v0"), ("b", "v0"), ("a", "v1")]);
    assert_eq!(data.clone(), data);
}

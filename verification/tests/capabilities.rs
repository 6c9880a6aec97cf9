use goose::capabilities::{
    capability_names, find_capability, list_capabilities, SessionPermissions,
    PERMISSIONS_EXTENSION, PERMISSIONS_VERSION, SESSION_MODIFICATION,
};
use goose::extension_data::ExtensionData;
use goose::json::Json;

fn strings(items: &[&str]) -> Json {
    Json::Array(items.iter().map(|item| Json::text(item)).collect())
}

fn read_record(record: Json) -> SessionPermissions {
    let mut extension_data = ExtensionData::new();
    extension_data.set_extension_state(PERMISSIONS_EXTENSION, PERMISSIONS_VERSION, record);
    SessionPermissions::read(&extension_data)
}

#[test]
fn nothing_is_granted_by_default() {
    let permissions = SessionPermissions::read(&ExtensionData::new());

    assert!(!permissions.is_granted(SESSION_MODIFICATION));
    assert!(permissions.granted().is_empty());
}

#[test]
fn granting_and_revoking_round_trips_through_extension_data() {
    let mut extension_data = ExtensionData::new();
    let mut permissions = SessionPermissions::default();

    assert!(permissions.grant(SESSION_MODIFICATION));
    assert!(!permissions.grant(SESSION_MODIFICATION));
    permissions.write_into(&mut extension_data).unwrap();

    let reloaded = SessionPermissions::read(&extension_data);
    assert!(reloaded.is_granted(SESSION_MODIFICATION));
    assert_eq!(reloaded.granted(), vec![SESSION_MODIFICATION]);

    permissions.revoke(SESSION_MODIFICATION);
    permissions.write_into(&mut extension_data).unwrap();
    assert!(!SessionPermissions::read(&extension_data).is_granted(SESSION_MODIFICATION));
}

#[test]
fn unreadable_records_are_treated_as_no_grants() {
    let mut extension_data = ExtensionData::new();
    extension_data.set_extension_state(
        PERMISSIONS_EXTENSION,
        "v0",
        Json::text("not a permission record"),
    );

    assert!(!SessionPermissions::read(&extension_data).is_granted(SESSION_MODIFICATION));
}

#[test]
fn listing_reports_every_capability_and_its_description() {
    let listed = list_capabilities();

    assert!(listed.iter().any(|def| def.name == SESSION_MODIFICATION));
    assert!(listed.iter().all(|def| !def.description.is_empty()));
    assert!(find_capability("not-a-capability").is_none());
}

#[test]
fn a_capability_is_found_by_its_name() {
    let def = find_capability(SESSION_MODIFICATION).unwrap();
    assert_eq!(def.name, "session-modification");
    assert_eq!(
        def.description,
        "Let the model compact the conversation when it judges the work needs it"
    );
    assert_eq!(capability_names(), vec!["session-modification"]);
}

#[test]
fn grants_are_listed_in_dictionary_order() {
    let mut permissions = SessionPermissions::default();
    for name in ["b", "aa", "é", "a", "", "z", "aa"] {
        permissions.grant(name);
    }

    assert_eq!(permissions.granted(), vec!["", "a", "aa", "b", "z", "é"]);
    assert!(permissions.revoke("aa"));
    assert!(!permissions.revoke("aa"));
    assert_eq!(permissions.granted(), vec!["", "a", "b", "z", "é"]);
}

#[test]
fn the_record_of_the_grants_is_an_object_with_the_sorted_names() {
    let mut permissions = SessionPermissions::default();
    permissions.grant("b");
    permissions.grant("a");

    assert_eq!(
        permissions.to_value(),
        Json::Object(vec![("granted".to_string(), strings(&["a", "b"]))])
    );
}

#[test]
fn every_form_of_the_record_is_read() {
    let object = |fields: Vec<(&str, Json)>| {
        Json::Object(
            fields
                .into_iter()
                .map(|(name, value)| (name.to_string(), value))
                .collect(),
        )
    };

    assert_eq!(
        read_record(object(vec![("granted", strings(&["b", "a", "b"]))])).granted(),
        vec!["a", "b"]
    );
    assert!(read_record(object(vec![])).granted().is_empty());
    assert_eq!(
        read_record(object(vec![
            ("unknown", Json::Null),
            ("granted", strings(&["a"])),
        ]))
        .granted(),
        vec!["a"]
    );
    assert_eq!(
        read_record(Json::Array(vec![strings(&["a"])])).granted(),
        vec!["a"]
    );
    assert!(read_record(Json::Array(vec![])).granted().is_empty());
}

#[test]
fn a_record_that_is_wrong_anywhere_grants_nothing() {
    let mixed = Json::Array(vec![Json::text("a"), Json::PosInt(1)]);
    for granted in [Json::Null, Json::Bool(true), Json::text("a"), mixed] {
        let record = Json::Object(vec![("granted".to_string(), granted)]);
        assert!(SessionPermissions::from_value(&record).is_none());
        assert!(read_record(record).granted().is_empty());
    }
    assert!(SessionPermissions::from_value(&Json::Array(vec![
        strings(&["a"]),
        strings(&["b"])
    ]))
    .is_none());
}

#[test]
fn writing_the_grants_leaves_other_records_alone() {
    let mut extension_data = ExtensionData::new();
    extension_data.set_extension_state("todo", "v0", Json::text("milk"));
    extension_data.set_extension_state("permissions", "v1", Json::PosInt(1));

    let mut permissions = SessionPermissions::default();
    permissions.grant("a");
    permissions.write_into(&mut extension_data).unwrap();

    assert_eq!(
        extension_data.get_extension_state("todo", "v0"),
        Some(&Json::text("milk"))
    );
    assert_eq!(
        extension_data.get_extension_state("permissions", "v1"),
        Some(&Json::PosInt(1))
    );
    assert_eq!(SessionPermissions::read(&extension_data), permissions);
    assert_eq!(extension_data.records().len(), 3);
}

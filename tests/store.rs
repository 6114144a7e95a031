use fhir_store::history::{fhir_log_entity_history, path_to_string, Change, PathSegment};
use fhir_store::json::{json_equal, to_json_text, JsonValue};
use fhir_store::search::{SearchError, SearchValue};
use fhir_store::store::{EntityHistoryOperation, PutError, Store};
use fhir_store::date::Date;

const PATIENT: &str = r#"{"resourceType":"Patient","id":"66033","meta":{"profile":["http://hl7.org/fhir/uv/ips/StructureDefinition/Patient-uv-ips"]},"language":"en","identifier":[{"system":"urn:oid:1.3.182.4.4","value":"1998041799999"},{"system":"urn:ietf:rfc:3986","value":"urn:uuid:647515ed-0d5e-4c99-b23d-073fbc593f76"}],"name":[{"family":"Lux-Brennard","given":["Marie"]}],"gender":"female","birthDate":"1998-04-17"}"#;

const SCHEMA: &str = r#"{"type":"object","required":["resourceType"],"properties":{"resourceType":{"type":"string"}}}"#;

fn to_doc(v: &serde_json::Value) -> JsonValue {
    match v {
        serde_json::Value::Null => JsonValue::Null,
        serde_json::Value::Bool(b) => JsonValue::Bool(*b),
        serde_json::Value::Number(n) => JsonValue::Number(n.to_string()),
        serde_json::Value::String(s) => JsonValue::Str(s.clone()),
        serde_json::Value::Array(a) => JsonValue::Array(a.iter().map(to_doc).collect()),
        serde_json::Value::Object(o) => {
            JsonValue::Object(o.iter().map(|(k, v)| (k.clone(), to_doc(v))).collect())
        }
    }
}

fn doc(text: &str) -> JsonValue {
    to_doc(&serde_json::from_str(text).unwrap())
}

fn as_serde(d: &JsonValue) -> serde_json::Value {
    serde_json::from_str(&to_json_text(d)).unwrap()
}

fn patient() -> JsonValue {
    doc(PATIENT)
}

fn store() -> Store {
    Store::new(SCHEMA.to_string())
}

fn text(s: &str) -> SearchValue {
    SearchValue::Text(s.to_string())
}

#[test]
fn insert_valid_patient() {
    let mut s = store();
    let inserted = s.fhir_put(&patient()).unwrap();
    let got = s.fhir_get("Patient", inserted.id).unwrap();
    let mut got = as_serde(&got);
    let id_text = got["id"].as_str().unwrap().to_string();
    assert_eq!(id_text.len(), 36);
    assert_eq!(id_text, uuid::Uuid::from_u128(inserted.id).to_string());
    assert_eq!(got["resourceType"], "Patient");
    got.as_object_mut().unwrap().remove("id");
    let mut raw: serde_json::Value = serde_json::from_str(PATIENT).unwrap();
    raw.as_object_mut().unwrap().remove("id");
    assert_eq!(raw, got);

    let history = s.fhir_get_history("Patient", inserted.id).unwrap();
    assert_eq!(history.history.len(), 1);
    match &history.history[0].operation {
        EntityHistoryOperation::Insert { data } => {
            got.as_object_mut().unwrap().remove("resourceType");
            assert_eq!(as_serde(data), got);
        }
        other => panic!("unexpected history entry {other:?}"),
    }
}

#[test]
fn insert_without_resource_type() {
    let mut s = store();
    let mut raw: serde_json::Value = serde_json::from_str(PATIENT).unwrap();
    raw.as_object_mut().unwrap().remove("resourceType");
    let r = s.fhir_put(&to_doc(&raw));
    assert!(matches!(r, Err(PutError::MissingResourceType)));
    assert!(s.entity_ids().is_empty());
    assert!(s.history_of(0).is_empty());
    assert_eq!(s.fhir_search("Patient", "gender", "eq", &text("female")).unwrap(), Vec::<u128>::new());
}

#[test]
fn put_rejects_non_object() {
    let mut s = store();
    assert!(matches!(s.fhir_put(&doc("[1,2]")), Err(PutError::NotAnObject)));
}

#[test]
fn ensure_no_id_in_data() {
    let mut s = store();
    let id = s.fhir_put(&patient()).unwrap().id;
    let h = s.history_of(id);
    match &h[0].operation {
        EntityHistoryOperation::Insert { data } => {
            let stored = as_serde(data);
            assert!(stored.get("id").is_none());
            assert!(stored.get("resourceType").is_none());
            assert_eq!(stored["gender"], "female");
        }
        other => panic!("unexpected history entry {other:?}"),
    }
}

#[test]
fn fhir_search() {
    let mut s = store();
    let id = s.fhir_put(&patient()).unwrap().id;
    let ids = s.fhir_search("Patient", "gender", "=", &text("female")).unwrap();
    assert_eq!(ids, vec![id]);
}

#[test]
fn concrete_patient_scenario_indexes() {
    let mut s = store();
    let d = doc(r#"{"resourceType":"Patient","gender":"female","name":[{"family":"Lux-Brennard","given":["Marie"]}],"birthDate":"1998-04-17"}"#);
    let id = s.fhir_put(&d).unwrap().id;
    assert_eq!(s.fhir_search("Patient", "gender", "eq", &text("female")).unwrap(), vec![id]);
    assert_eq!(s.fhir_search("Patient", "name", "eq", &text("marie lux-brennard")).unwrap(), vec![id]);
    let day = Date { year: 1998, month: 4, day: 17 };
    assert_eq!(s.fhir_search("Patient", "birth_date", "eq", &SearchValue::Date(day)).unwrap(), vec![id]);
    let got = as_serde(&s.fhir_get("Patient", id).unwrap());
    assert_eq!(got["resourceType"], "Patient");
    assert_eq!(got["birthDate"], "1998-04-17");
    let h = s.fhir_get_history("Patient", id).unwrap();
    assert_eq!(h.history.len(), 1);
    assert!(matches!(h.history[0].operation, EntityHistoryOperation::Insert { .. }));
}

#[test]
fn search_returns_only_matching_genders() {
    let mut s = store();
    let f1 = s.fhir_put(&doc(r#"{"resourceType":"Patient","gender":"female"}"#)).unwrap().id;
    let _m = s.fhir_put(&doc(r#"{"resourceType":"Patient","gender":"male"}"#)).unwrap().id;
    let _none = s.fhir_put(&doc(r#"{"resourceType":"Patient"}"#)).unwrap().id;
    let f2 = s.fhir_put(&doc(r#"{"resourceType":"Patient","gender":"female"}"#)).unwrap().id;
    assert_eq!(s.fhir_search("Patient", "gender", "eq", &text("female")).unwrap(), vec![f1, f2]);
    assert_eq!(s.fhir_search("Patient", "gender", "ne", &text("female")).unwrap().len(), 1);
}

#[test]
fn unknown_search_key_is_refused() {
    let mut s = store();
    s.fhir_put(&patient()).unwrap();
    match s.fhir_search("Patient", "nonexistent_key", "eq", &text("x")) {
        Err(SearchError::UnknownSearchKey(k)) => assert_eq!(k, "nonexistent_key"),
        other => panic!("unexpected {other:?}"),
    }
    let e = s.fhir_search("Patient", "nonexistent_key", "eq", &text("x")).unwrap_err();
    assert_eq!(e.message(), "unknown search key: 'nonexistent_key'");
}

#[test]
fn unknown_operator_is_refused() {
    let s = store();
    match s.fhir_search("Patient", "gender", "approx", &text("x")) {
        Err(SearchError::UnknownOperator(op)) => assert_eq!(op, "approx"),
        other => panic!("unexpected {other:?}"),
    }
}

#[test]
fn value_of_wrong_type_is_refused() {
    let s = store();
    let day = Date { year: 1998, month: 4, day: 17 };
    assert!(matches!(
        s.fhir_search("Patient", "gender", "eq", &SearchValue::Date(day)),
        Err(SearchError::InvalidValueType)
    ));
    assert!(matches!(
        s.fhir_search("Patient", "birth_date", "eq", &text("1998-04-17")),
        Err(SearchError::InvalidValueType)
    ));
}

#[test]
fn unregistered_type_is_stored_but_not_searchable() {
    let mut s = store();
    let id = s.fhir_put(&doc(r#"{"resourceType":"Observation","status":"final"}"#)).unwrap().id;
    assert!(s.fhir_get("Observation", id).is_some());
    assert!(s.fhir_get("Patient", id).is_none());
    assert!(matches!(
        s.fhir_search("Observation", "status", "eq", &text("final")),
        Err(SearchError::UnknownSearchKey(_))
    ));
}

#[test]
fn date_ordering_search() {
    let mut s = store();
    let a = s.fhir_put(&doc(r#"{"resourceType":"Patient","birthDate":"1990-01-01"}"#)).unwrap().id;
    let b = s.fhir_put(&doc(r#"{"resourceType":"Patient","birthDate":"2001-12-31"}"#)).unwrap().id;
    let pivot = SearchValue::Date(Date { year: 2000, month: 1, day: 1 });
    assert_eq!(s.fhir_search("Patient", "birth_date", "lt", &pivot).unwrap(), vec![a]);
    assert_eq!(s.fhir_search("Patient", "birth_date", ">=", &pivot).unwrap(), vec![b]);
}

#[test]
fn invalid_birth_date_is_skipped_with_warning() {
    let mut s = store();
    let ins = s.fhir_put(&doc(r#"{"resourceType":"Patient","birthDate":"1998-02-30"}"#)).unwrap();
    assert_eq!(ins.warnings, vec!["invalid date value for birth_date: 1998-02-30".to_string()]);
    let any = SearchValue::Date(Date { year: 1, month: 1, day: 1 });
    assert_eq!(s.fhir_search("Patient", "birth_date", "gte", &any).unwrap(), Vec::<u128>::new());
}

#[test]
fn unreadable_patient_is_refused() {
    let mut s = store();
    let r = s.fhir_put(&doc(r#"{"resourceType":"Patient","gender":"robot"}"#));
    assert!(matches!(r, Err(PutError::UnreadableResource)));
    assert!(s.entity_ids().is_empty());
}

#[test]
fn schema_violation_is_refused() {
    let mut s = Store::new(r#"{"type":"object","required":["gender"]}"#.to_string());
    let r = s.fhir_put(&doc(r#"{"resourceType":"Patient"}"#));
    assert!(matches!(r, Err(PutError::SchemaViolation)));
    assert!(s.entity_ids().is_empty());
    assert!(s.fhir_put(&doc(r#"{"resourceType":"Patient","gender":"male"}"#)).is_ok());
}

#[test]
fn validity_checks_resource_type() {
    let s = store();
    assert!(s.fhir_is_valid("Patient", &doc(r#"{"gender":"male"}"#)));
    assert!(s.fhir_is_valid("Patient", &doc(r#"{"resourceType":"Patient"}"#)));
    assert!(!s.fhir_is_valid("Patient", &doc(r#"{"resourceType":"Observation"}"#)));
    assert!(!s.fhir_is_valid("Patient", &doc("3")));
}

#[test]
fn duplicate_id_is_refused() {
    let mut s = store();
    assert_eq!(s.put_checked(&patient(), 7, 100, true).unwrap().id, 7);
    assert!(matches!(s.put_checked(&patient(), 7, 200, true), Err(PutError::DuplicateId)));
    assert_eq!(s.entity_ids(), vec![7]);
}

#[test]
fn update_records_a_diff() {
    let mut s = store();
    let id = s.put_checked(&doc(r#"{"resourceType":"Patient","gender":"female","active":true,"name":[{"given":["Ann"]}]}"#), 1, 10, true).unwrap().id;
    let new_doc = doc(r#"{"resourceType":"Patient","gender":"male","name":[{"given":["Ann","Bea"]}],"birthDate":"2000-01-01"}"#);
    assert_eq!(s.put_update_checked(id, &new_doc, 20, true), Ok(true));
    let h = s.fhir_get_history("Patient", id).unwrap();
    assert_eq!(h.history.len(), 2);
    assert_eq!(h.history[1].timestamp, 20);
    match &h.history[1].operation {
        EntityHistoryOperation::Update { added, changed, removed } => {
            assert_eq!(as_serde(changed), serde_json::from_str::<serde_json::Value>(r#"{"gender": "male"}"#).unwrap());
            assert_eq!(as_serde(added), serde_json::from_str::<serde_json::Value>(r#"{"birthDate": "2000-01-01", "name.[0].given.[1]": "Bea"}"#).unwrap());
            assert_eq!(as_serde(removed), serde_json::from_str::<serde_json::Value>(r#"{"active": true}"#).unwrap());
        }
        other => panic!("unexpected history entry {other:?}"),
    }
    // the index is not derived again on update
    assert_eq!(s.fhir_search("Patient", "gender", "eq", &text("female")).unwrap(), vec![id]);
}

#[test]
fn identical_update_records_nothing() {
    let mut s = store();
    let id = s.put_checked(&patient(), 5, 10, true).unwrap().id;
    assert_eq!(s.put_update_checked(id, &patient(), 20, true), Ok(true));
    assert_eq!(s.history_of(id).len(), 1);
}

#[test]
fn update_of_absent_entity_changes_nothing() {
    let mut s = store();
    assert_eq!(s.put_update_checked(9, &patient(), 20, true), Ok(false));
    assert_eq!(s.fhir_put_update(9, &patient()), Ok(false));
    assert!(matches!(s.fhir_put_update(9, &doc("1")), Err(PutError::NotAnObject)));
}

#[test]
fn update_checks_schema() {
    let mut s = store();
    let id = s.put_checked(&patient(), 5, 10, true).unwrap().id;
    assert_eq!(s.put_update_checked(id, &patient(), 20, false), Err(PutError::SchemaViolation));
    assert_eq!(s.history_of(id).len(), 1);
}

#[test]
fn delete_keeps_history() {
    let mut s = store();
    let id = s.put_checked(&patient(), 3, 10, true).unwrap().id;
    assert!(s.delete_checked(id, 5));
    assert!(s.fhir_get("Patient", id).is_none());
    assert!(s.fhir_get_history("Patient", id).is_none());
    let h = s.history_of(id);
    assert_eq!(h.len(), 2);
    assert!(matches!(h[0].operation, EntityHistoryOperation::Insert { .. }));
    assert!(matches!(h[1].operation, EntityHistoryOperation::Delete));
    // timestamps never go back
    assert_eq!(h[1].timestamp, 10);
    assert_eq!(s.fhir_search("Patient", "gender", "eq", &text("female")).unwrap(), Vec::<u128>::new());
    assert!(!s.delete_checked(id, 20));
    assert!(!s.fhir_delete(id));
}

#[test]
fn change_logging_cases() {
    let a = doc(r#"{"x":1}"#);
    let b = doc(r#"{"x":2}"#);
    assert!(matches!(fhir_log_entity_history(None, Some(&a)), Some(Change::Insert(_))));
    assert!(matches!(fhir_log_entity_history(Some(&a), None), Some(Change::Delete(_))));
    assert!(fhir_log_entity_history(Some(&a), Some(&a)).is_none());
    assert!(fhir_log_entity_history(None, None).is_none());
    match fhir_log_entity_history(Some(&a), Some(&b)) {
        Some(Change::Update(d)) => {
            assert_eq!(d.changed.len(), 1);
            assert!(d.added.is_empty() && d.removed.is_empty());
            assert_eq!(path_to_string(&d.changed[0].path), "x");
            assert!(json_equal(&d.changed[0].value, &doc("2")));
        }
        other => panic!("unexpected {other:?}"),
    }
}

#[test]
fn path_text_joins_segments() {
    let p = vec![
        PathSegment::Key("name".to_string()),
        PathSegment::Index(12),
        PathSegment::Key("given".to_string()),
    ];
    assert_eq!(path_to_string(&p), "name.[12].given");
    assert_eq!(path_to_string(&Vec::new()), "");
}

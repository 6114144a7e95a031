use fhir_store::api::{
    default_count, fhir_create, fhir_list, sort_ids, split_search_param, AppError, Configuration, Environment,
    ListQueryParams,
};
use fhir_store::date::{parse_date, Date};
use fhir_store::index::{collect_index_values_for, IndexedKeyType};
use fhir_store::json::{json_equal, to_json_text, JsonValue};
use fhir_store::models::{AdministrativeGender, Patient};
use fhir_store::patient::{date_index_values_for, find_search_index_for_key, text_index_values_for};
use fhir_store::search::{text_value_matches, SearchOperator};
use fhir_store::store::Store;
use fhir_store::trigram::similar;

fn to_doc(v: &serde_json::Value) -> JsonValue {
    match v {
        serde_json::Value::Null => JsonValue::Null,
        serde_json::Value::Bool(b) => JsonValue::Bool(*b),
        serde_json::Value::Number(n) => JsonValue::Number(n.to_string()),
        serde_json::Value::String(s) => JsonValue::Str(s.clone()),
        serde_json::Value::Array(a) => JsonValue::Array(a.iter().map(to_doc).collect()),
        serde_json::Value::Object(o) => {
            JsonValue::Object(o.iter().map(|(k, v)| (k.clone(), to_doc(v))).collect())
        }
    }
}

fn doc(text: &str) -> JsonValue {
    to_doc(&serde_json::from_str(text).unwrap())
}

#[test]
fn operator_tokens() {
    let cases = [
        ("eq", SearchOperator::Eq), ("=", SearchOperator::Eq),
        ("ne", SearchOperator::Ne), ("!=", SearchOperator::Ne), ("<>", SearchOperator::Ne),
        ("lt", SearchOperator::Lt), ("<", SearchOperator::Lt),
        ("lte", SearchOperator::Lte), ("<=", SearchOperator::Lte),
        ("gt", SearchOperator::Gt), (">", SearchOperator::Gt),
        ("gte", SearchOperator::Gte), (">=", SearchOperator::Gte),
        ("like", SearchOperator::Like), ("~", SearchOperator::Like),
        ("%", SearchOperator::Trgm), ("trgm", SearchOperator::Trgm),
    ];
    for (t, op) in cases {
        assert_eq!(SearchOperator::from_str(t).unwrap(), op, "token {t}");
    }
    assert!(SearchOperator::from_str("==").is_err());
    assert!(SearchOperator::from_str("").is_err());
}

#[test]
fn postgres_operators() {
    assert_eq!(SearchOperator::Eq.to_postgres_operator(), "=");
    assert_eq!(SearchOperator::Ne.to_postgres_operator(), "!=");
    assert_eq!(SearchOperator::Lte.to_postgres_operator(), "<=");
    assert_eq!(SearchOperator::Gte.to_postgres_operator(), ">=");
    assert_eq!(SearchOperator::Like.to_postgres_operator(), "ilike");
    assert_eq!(SearchOperator::Trgm.to_postgres_operator(), "%");
}

#[test]
fn patient_key_types() {
    assert_eq!(find_search_index_for_key("birth_date"), Some(IndexedKeyType::Date));
    assert_eq!(find_search_index_for_key("gender"), Some(IndexedKeyType::Text));
    assert_eq!(find_search_index_for_key("name"), Some(IndexedKeyType::Text));
    assert_eq!(find_search_index_for_key("birthDate"), None);
}

#[test]
fn dates_parse() {
    assert_eq!(parse_date("1998-04-17"), Some(Date { year: 1998, month: 4, day: 17 }));
    assert_eq!(parse_date("2000-02-29"), Some(Date { year: 2000, month: 2, day: 29 }));
    assert_eq!(parse_date("1900-02-29"), None);
    assert_eq!(parse_date("1998-13-01"), None);
    assert_eq!(parse_date("1998-04-31"), None);
    assert_eq!(parse_date("1998"), None);
    assert_eq!(parse_date("1998-4-17"), None);
}

#[test]
fn name_index_value_is_trimmed_lowercase() {
    let d = doc(r#"{"name":[{"prefix":["Dr."],"given":["  Marie ","Anne"],"family":"LUX-Brennard","suffix":["Jr"]},{"given":["Émile"]}]}"#);
    let vals = text_index_values_for(&d).unwrap();
    assert_eq!(vals, vec![("name".to_string(), vec!["dr.   marie  anne lux-brennard jr émile".to_string()])]);
}

#[test]
fn blank_name_gives_no_index_value() {
    let d = doc(r#"{"gender":"other","name":[{"given":["   "]}]}"#);
    let vals = text_index_values_for(&d).unwrap();
    assert_eq!(vals, vec![("gender".to_string(), vec!["other".to_string()])]);
}

#[test]
fn date_values_and_warnings() {
    let (vals, warnings) = date_index_values_for(&doc(r#"{"birthDate":"1998-04-17"}"#)).unwrap();
    assert_eq!(vals, vec![("birth_date".to_string(), vec![Date { year: 1998, month: 4, day: 17 }])]);
    assert!(warnings.is_empty());
    let (vals, warnings) = date_index_values_for(&doc(r#"{"birthDate":"1998"}"#)).unwrap();
    assert!(vals.is_empty());
    assert_eq!(warnings.len(), 1);
    assert!(date_index_values_for(&doc(r#"{"birthDate":7}"#)).is_none());
}

#[test]
fn registry_skips_unregistered_types() {
    let v = collect_index_values_for("Observation", &doc(r#"{"gender":"robot"}"#)).unwrap();
    assert!(v.text.is_none() && v.date.is_none());
    assert!(collect_index_values_for("Patient", &doc(r#"{"gender":"robot"}"#)).is_none());
}

#[test]
fn patient_decoding() {
    let p = Patient::from_json(&doc(r#"{"gender":"unknown","name":null,"birthDate":null,"other":1}"#)).unwrap();
    assert_eq!(p.gender, Some(AdministrativeGender::Unknown));
    assert!(p.name.is_none() && p.birth_date.is_none());
    assert!(Patient::from_json(&doc(r#"{"name":[{"use":"nick"}]}"#)).is_none());
    assert!(Patient::from_json(&doc(r#"{"name":[{"use":"nickname","given":[1]}]}"#)).is_none());
    assert!(Patient::from_json(&doc("[]")).is_none());
}

#[test]
fn like_is_case_insensitive() {
    let v = "marie lux-brennard".to_string();
    assert!(text_value_matches(SearchOperator::Like, &v, &"%LUX%".to_string()));
    assert!(text_value_matches(SearchOperator::Like, &v, &"mari_ %".to_string()));
    assert!(!text_value_matches(SearchOperator::Like, &v, &"lux%".to_string()));
}

#[test]
fn text_ordering() {
    let v = "anna".to_string();
    assert!(text_value_matches(SearchOperator::Lt, &v, &"anne".to_string()));
    assert!(text_value_matches(SearchOperator::Lt, &v, &"annabel".to_string()));
    assert!(text_value_matches(SearchOperator::Gte, &v, &"ann".to_string()));
    assert!(!text_value_matches(SearchOperator::Gt, &v, &"anna".to_string()));
}

#[test]
fn trigram_similarity() {
    assert!(similar("marie", "maria"));
    assert!(similar("Marie Lux-Brennard", "marie lux"));
    assert!(!similar("abc", "xyz"));
    assert!(!similar("", ""));
    assert!(text_value_matches(SearchOperator::Trgm, &"brennard".to_string(), &"brenard".to_string()));
}

#[test]
fn json_text_escapes() {
    let d = JsonValue::Object(vec![
        ("a\"b".to_string(), JsonValue::Str("x\\y\n".to_string())),
        ("n".to_string(), JsonValue::Array(vec![JsonValue::Number("1.5".to_string()), JsonValue::Null, JsonValue::Bool(false)])),
    ]);
    assert_eq!(to_json_text(&d), r#"{"a\"b":"x\\y\u000a","n":[1.5,null,false]}"#);
    let back: serde_json::Value = serde_json::from_str(&to_json_text(&d)).unwrap();
    assert!(json_equal(&to_doc(&back), &d));
}

#[test]
fn json_members() {
    let d = doc(r#"{"id":"1","a":2}"#);
    assert!(json_equal(d.get_member(&"a".to_string()).unwrap(), &doc("2")));
    assert!(d.get_member(&"b".to_string()).is_none());
    assert!(json_equal(&d.without(&"id".to_string()), &doc(r#"{"a":2}"#)));
    assert!(!json_equal(&doc("[1,2]"), &doc("[2,1]")));
}

#[test]
fn search_param_prefixes() {
    let cases = [
        ("eqfemale", "=", "female"), ("nefemale", "!=", "female"), ("gt2000-01-01", ">", "2000-01-01"),
        ("ge5", ">=", "5"), ("lt5", "<", "5"), ("le5", "<=", "5"), ("likemar%", "~", "mar%"),
        ("trgmmarie", "%", "marie"), ("female", "=", "female"), ("f", "=", "f"),
    ];
    for (input, op, value) in cases {
        assert_eq!(split_search_param(&input.to_string()), (op.to_string(), value.to_string()), "{input}");
    }
}

#[test]
fn ids_sort() {
    assert_eq!(sort_ids(&vec![5, 1, 3, 1]), vec![1, 1, 3, 5]);
    assert_eq!(sort_ids(&vec![]), Vec::<u128>::new());
}

fn list_params(count: i64, offset: i64, params: &[(&str, &str)]) -> ListQueryParams {
    ListQueryParams {
        count,
        offset,
        search_params: params.iter().map(|(k, v)| (k.to_string(), v.to_string())).collect(),
    }
}

#[test]
fn list_pages_in_id_order() {
    let mut s = Store::new(r#"{"type":"object"}"#.to_string());
    for id in [30u128, 10, 20] {
        s.put_checked(&doc(r#"{"resourceType":"Patient","gender":"female"}"#), id, 1, true).unwrap();
    }
    s.put_checked(&doc(r#"{"resourceType":"Patient","gender":"male"}"#), 40, 1, true).unwrap();
    let page = fhir_list(&s, "Patient", &list_params(2, 0, &[("gender", "eqfemale")])).unwrap();
    let ids: Vec<String> = page.iter().map(|d| {
        let v: serde_json::Value = serde_json::from_str(&to_json_text(d)).unwrap();
        v["id"].as_str().unwrap().to_string()
    }).collect();
    assert_eq!(ids, vec![uuid::Uuid::from_u128(10).to_string(), uuid::Uuid::from_u128(20).to_string()]);
    let rest = fhir_list(&s, "Patient", &list_params(2, 2, &[("gender", "female")])).unwrap();
    assert_eq!(rest.len(), 1);
    assert!(fhir_list(&s, "Patient", &list_params(2, 5, &[("gender", "female")])).unwrap().is_empty());
}

#[test]
fn list_refuses_bad_requests() {
    let s = Store::new(r#"{"type":"object"}"#.to_string());
    assert!(matches!(fhir_list(&s, "Patient", &list_params(20, 0, &[])), Err(AppError::BadRequest(_))));
    assert!(matches!(fhir_list(&s, "Patient", &list_params(20, 0, &[("a", "1"), ("b", "2")])), Err(AppError::BadRequest(_))));
    assert!(matches!(fhir_list(&s, "Patient", &list_params(0, 0, &[("gender", "f")])), Err(AppError::BadRequest(_))));
    assert!(matches!(fhir_list(&s, "Patient", &list_params(101, 0, &[("gender", "f")])), Err(AppError::BadRequest(_))));
    assert!(matches!(fhir_list(&s, "Patient", &list_params(20, -1, &[("gender", "f")])), Err(AppError::BadRequest(_))));
    assert!(matches!(fhir_list(&s, "Patient", &list_params(20, 0, &[("birth_date", "eqsoon")])), Err(AppError::BadRequest(_))));
    match fhir_list(&s, "Patient", &list_params(20, 0, &[("nope", "eqx")])) {
        Err(AppError::BadRequest(Some(m))) => assert_eq!(m, "unknown search key: 'nope'"),
        other => panic!("unexpected {other:?}"),
    }
}

#[test]
fn error_responses() {
    let (status, body) = AppError::NotFound.into_response();
    assert_eq!((status, body.error.as_str()), (404, "not found"));
    let (status, body) = AppError::BadRequest(None).into_response();
    assert_eq!((status, body.error.as_str()), (400, "bad request"));
    let (status, body) = AppError::BadRequest(Some("exactly one".to_string())).into_response();
    assert_eq!((status, body.error.as_str()), (400, "exactly one"));
    let (status, body) = AppError::Internal("db down".to_string()).into_response();
    assert_eq!((status, body.error.as_str()), (500, "internal server error"));
}

#[test]
fn configuration_defaults() {
    assert_eq!(default_count(), 20);
    assert_eq!(Environment::default(), Environment::Production);
    let c = Configuration { env: Environment::default(), database_url: "postgres://x".to_string() };
    assert!(c.is_production());
    let d = Configuration { env: Environment::Development, database_url: String::new() };
    assert!(!d.is_production());
}

#[test]
fn create_takes_resource_type_from_path() {
    let mut s = Store::new(r#"{"type":"object"}"#.to_string());
    let id = fhir_create(&mut s, "Patient", &doc(r#"{"resourceType":"Observation","gender":"male"}"#)).unwrap().id;
    assert!(s.fhir_get("Observation", id).is_none());
    let got = s.fhir_get("Patient", id).unwrap();
    let v: serde_json::Value = serde_json::from_str(&to_json_text(&got)).unwrap();
    assert_eq!(v["resourceType"], "Patient");
    assert_eq!(s.fhir_search("Patient", "gender", "eq", &fhir_store::search::SearchValue::Text("male".to_string())).unwrap(), vec![id]);
    assert!(fhir_create(&mut s, "Patient", &doc("1")).is_err());
}

#[test]
fn schema_compilation() {
    assert!(Store::new(r#"{"type":"object"}"#.to_string()).compile_schema());
    assert!(!Store::new("not json".to_string()).compile_schema());
    assert!(!Store::new(r#"{"type":12}"#.to_string()).compile_schema());
    let s = Store::new(r#"{"type":"object","required":["a"]}"#.to_string());
    assert!(s.is_valid(&doc(r#"{"a":1}"#)));
    assert!(!s.is_valid(&doc(r#"{"b":1}"#)));
}

#[test]
fn search_overloads() {
    let mut s = Store::new(r#"{"type":"object"}"#.to_string());
    let id = s.put_checked(&doc(r#"{"resourceType":"Patient","gender":"other","birthDate":"2001-02-03"}"#), 11, 0, true).unwrap().id;
    assert_eq!(s.fhir_search_text("Patient", "gender", "eq", "other".to_string()).unwrap(), vec![id]);
    assert_eq!(s.fhir_search_date("Patient", "birth_date", "lte", Date { year: 2001, month: 2, day: 3 }).unwrap(), vec![id]);
}

#[test]
fn generated_ids_are_version_seven() {
    let id = fhir_store::ids::fhir_generate_id();
    assert_eq!((id >> 76) & 0xf, 7);
    assert_eq!((id >> 62) & 0x3, 2);
    assert_ne!(fhir_store::ids::fhir_generate_id(), id);
}

#[test]
fn page_size_bounds_are_inclusive() {
    let mut s = Store::new(r#"{"type":"object"}"#.to_string());
    s.put_checked(&doc(r#"{"resourceType":"Patient","gender":"male"}"#), 1, 0, true).unwrap();
    assert_eq!(fhir_list(&s, "Patient", &list_params(1, 0, &[("gender", "male")])).unwrap().len(), 1);
    assert_eq!(fhir_list(&s, "Patient", &list_params(100, 0, &[("gender", "male")])).unwrap().len(), 1);
}

#[test]
fn repeated_member_reads_the_last() {
    let d = JsonValue::Object(vec![
        ("a".to_string(), JsonValue::Number("1".to_string())),
        ("a".to_string(), JsonValue::Number("2".to_string())),
    ]);
    assert!(json_equal(d.get_member(&"a".to_string()).unwrap(), &doc("2")));
    assert!(json_equal(&d.without(&"a".to_string()), &doc("{}")));
}

#[test]
fn id_text_is_hyphenated_hex() {
    for id in [0u128, 1, u128::MAX, 0x0123_4567_89ab_cdef_0011_2233_4455_6677, fhir_store::ids::fhir_generate_id()] {
        assert_eq!(fhir_store::ids::id_to_string(id), uuid::Uuid::from_u128(id).to_string());
    }
    assert_eq!(fhir_store::ids::id_to_string(0x0123_4567_89ab_cdef_0011_2233_4455_6677), "01234567-89ab-cdef-0011-223344556677");
}

use warden_secret_operator::crd::{
    get_api_version, get_kind, ApplyCondition, ConditionStatus, ConditionType, ObjectMeta,
    WardenSecret, WardenSecretSpec, WardenSecretStatus,
};
use warden_secret_operator::json::{JsonNumber, JsonObject, JsonValue};

fn to_serde(value: JsonValue) -> serde_json::Value {
    match value {
        JsonValue::Null => serde_json::Value::Null,
        JsonValue::Bool(b) => serde_json::Value::Bool(b),
        JsonValue::Number(JsonNumber::PosInt(n)) => serde_json::Value::from(n),
        JsonValue::Number(JsonNumber::NegInt(n)) => serde_json::Value::from(n),
        JsonValue::Number(JsonNumber::Float(bits)) => serde_json::Value::from(f64::from_bits(bits)),
        JsonValue::Text(text) => serde_json::Value::String(text),
        JsonValue::Array(items) => {
            serde_json::Value::Array(items.into_iter().map(to_serde).collect())
        }
        JsonValue::Object(object) => serde_json::Value::Object(
            object.into_entries().into_iter().map(|(key, value)| (key, to_serde(value))).collect(),
        ),
    }
}

fn parsed(text: &str) -> serde_json::Value {
    serde_json::from_str(text).unwrap()
}

fn condition(type_: ConditionType, status: ConditionStatus) -> ApplyCondition {
    ApplyCondition {
        status,
        reason: None,
        message: None,
        type_,
        last_transition: "2024-02-03T04:05:06+00:00".to_owned(),
    }
}

fn status_of(conditions: Vec<ApplyCondition>) -> WardenSecretStatus {
    WardenSecretStatus { conditions, start_time: None, observed_generation: None }
}

#[test]
fn names_of_the_resource() {
    assert_eq!(get_api_version(), "tomjo.net/v2");
    assert_eq!(get_kind(), "WardenSecret");
}

#[test]
fn condition_status_from_text() {
    assert_eq!(ConditionStatus::from_str("True"), ConditionStatus::True);
    assert_eq!(ConditionStatus::from_str("False"), ConditionStatus::False);
    assert_eq!(ConditionStatus::from_str("Unknown"), ConditionStatus::Unknown);
    assert_eq!(ConditionStatus::from_str("true"), ConditionStatus::Unknown);
    assert_eq!(ConditionStatus::from_str(""), ConditionStatus::Unknown);
}

#[test]
fn condition_status_reads_back() {
    for status in [ConditionStatus::True, ConditionStatus::False, ConditionStatus::Unknown] {
        assert_eq!(ConditionStatus::from_str(&status.to_str()), status);
        let document = JsonValue::Text(status.to_str());
        assert_eq!(ConditionStatus::deserialize_status_bool(&document), status);
    }
    assert_eq!(ConditionStatus::True.to_str(), "True");
    assert_eq!(ConditionStatus::False.to_str(), "False");
    assert_eq!(ConditionStatus::Unknown.to_str(), "Unknown");
}

#[test]
fn condition_status_from_json() {
    let read = |value: JsonValue| ConditionStatus::deserialize_status_bool(&value);
    assert_eq!(read(JsonValue::Bool(true)), ConditionStatus::True);
    assert_eq!(read(JsonValue::Bool(false)), ConditionStatus::False);
    assert_eq!(read(JsonValue::Text("False".to_owned())), ConditionStatus::False);
    assert_eq!(read(JsonValue::Text("yes".to_owned())), ConditionStatus::Unknown);
    assert_eq!(read(JsonValue::Null), ConditionStatus::Unknown);
    assert_eq!(read(JsonValue::Number(JsonNumber::PosInt(1))), ConditionStatus::Unknown);
    assert_eq!(read(JsonValue::Array(vec![])), ConditionStatus::Unknown);
    assert_eq!(read(JsonValue::Object(JsonObject::new())), ConditionStatus::Unknown);
    assert_eq!(ConditionStatus::from_bool(true), ConditionStatus::True);
    assert_eq!(ConditionStatus::from_bool(false), ConditionStatus::False);
}

#[test]
fn absent_conditions_are_unknown() {
    assert_eq!(ConditionStatus::default(), ConditionStatus::Unknown);
    assert_eq!(ConditionType::default(), ConditionType::Unknown);
}

#[test]
fn the_first_ready_condition_decides() {
    assert!(!status_of(vec![]).is_ready());
    assert!(status_of(vec![condition(ConditionType::Ready, ConditionStatus::True)]).is_ready());
    assert!(!status_of(vec![condition(ConditionType::Ready, ConditionStatus::Unknown)]).is_ready());
    assert!(!status_of(vec![condition(ConditionType::Unknown, ConditionStatus::True)]).is_ready());
    assert!(!status_of(vec![
        condition(ConditionType::Unknown, ConditionStatus::True),
        condition(ConditionType::Ready, ConditionStatus::False),
        condition(ConditionType::Ready, ConditionStatus::True),
    ])
    .is_ready());
}

#[test]
fn observed_generation_is_that_of_the_status() {
    let resource = |status: Option<WardenSecretStatus>| WardenSecret {
        metadata: ObjectMeta {
            name: None,
            generate_name: None,
            namespace: None,
            uid: None,
            generation: Some(9),
            finalizers: None,
            deletion_timestamp: None,
            labels: None,
            annotations: None,
        },
        spec: WardenSecretSpec { type_: "Opaque".to_owned(), item: "/x".to_owned() },
        status,
    };
    assert_eq!(resource(None).get_observed_generation(), None);
    assert_eq!(resource(Some(status_of(vec![]))).get_observed_generation(), None);
    let mut status = status_of(vec![]);
    status.observed_generation = Some(4);
    assert_eq!(resource(Some(status)).get_observed_generation(), Some(4));
}

#[test]
fn status_document_names_its_members() {
    let mut ready = condition(ConditionType::Ready, ConditionStatus::False);
    ready.reason = Some("ObtainingSecretsFailed".to_owned());
    ready.message = Some("no such item".to_owned());
    let status = WardenSecretStatus {
        conditions: vec![ready],
        start_time: Some("2024-01-01T00:00:00+00:00".to_owned()),
        observed_generation: Some(-3),
    };
    assert_eq!(
        to_serde(status.to_json()),
        parsed(
            r#"{
                "conditions": [{
                    "status": "False",
                    "reason": "ObtainingSecretsFailed",
                    "message": "no such item",
                    "type": "Ready",
                    "lastTransitionTime": "2024-02-03T04:05:06+00:00"
                }],
                "startTime": "2024-01-01T00:00:00+00:00",
                "observedGeneration": -3
            }"#
        )
    );
}

#[test]
fn status_document_leaves_out_what_is_absent() {
    let status = status_of(vec![condition(ConditionType::Ready, ConditionStatus::True)]);
    assert_eq!(
        to_serde(status.to_json()),
        parsed(
            r#"{
                "conditions": [{
                    "status": "True",
                    "type": "Ready",
                    "lastTransitionTime": "2024-02-03T04:05:06+00:00"
                }],
                "startTime": null,
                "observedGeneration": null
            }"#
        )
    );
    assert_eq!(
        to_serde(status_of(vec![]).to_json()),
        parsed(r#"{"startTime": null, "observedGeneration": null}"#)
    );
}

#[test]
fn conditions_of_an_unknown_type_are_thrown_away() {
    let status = status_of(vec![
        condition(ConditionType::Unknown, ConditionStatus::True),
        condition(ConditionType::Ready, ConditionStatus::Unknown),
        condition(ConditionType::Unknown, ConditionStatus::False),
    ]);
    let document = to_serde(status.to_json());
    assert_eq!(document["conditions"].as_array().unwrap().len(), 1);
    assert_eq!(document["conditions"][0]["status"], "Unknown");
    let only_unknown = status_of(vec![condition(ConditionType::Unknown, ConditionStatus::True)]);
    assert!(to_serde(only_unknown.to_json()).get("conditions").is_none());
}

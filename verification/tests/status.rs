use warden_secret_operator::bw::WardenCommandError;
use warden_secret_operator::crd::{
    ApplyCondition, ConditionStatus, ConditionType, WardenSecretStatus,
};
use warden_secret_operator::error::Error;
use warden_secret_operator::json::{JsonNumber, JsonValue};
use warden_secret_operator::status::{
    add_finalizer, delete_finalizer, patch_status, update_ready_condition, update_status,
    update_status_at,
};

const THEN: &str = "2024-01-01T00:00:00+00:00";
const NOW: &str = "2024-02-03T04:05:06+00:00";

fn to_serde(value: JsonValue) -> serde_json::Value {
    match value {
        JsonValue::Null => serde_json::Value::Null,
        JsonValue::Bool(b) => serde_json::Value::Bool(b),
        JsonValue::Number(JsonNumber::PosInt(n)) => serde_json::Value::from(n),
        JsonValue::Number(JsonNumber::NegInt(n)) => serde_json::Value::from(n),
        JsonValue::Number(JsonNumber::Float(bits)) => serde_json::Value::from(f64::from_bits(bits)),
        JsonValue::Text(text) => serde_json::Value::String(text),
        JsonValue::Array(items) => {
            serde_json::Value::Array(items.into_iter().map(to_serde).collect())
        }
        JsonValue::Object(object) => serde_json::Value::Object(
            object.into_entries().into_iter().map(|(key, value)| (key, to_serde(value))).collect(),
        ),
    }
}

fn parsed(text: &str) -> serde_json::Value {
    serde_json::from_str(text).unwrap()
}

fn condition(type_: ConditionType, status: ConditionStatus) -> ApplyCondition {
    ApplyCondition { status, reason: None, message: None, type_, last_transition: THEN.to_owned() }
}

fn status_of(conditions: Vec<ApplyCondition>) -> WardenSecretStatus {
    WardenSecretStatus {
        conditions,
        start_time: Some(THEN.to_owned()),
        observed_generation: Some(7),
    }
}

#[test]
fn ready_condition_is_replaced_or_added() {
    let ready = || condition(ConditionType::Ready, ConditionStatus::True);
    let other = || condition(ConditionType::Unknown, ConditionStatus::False);
    let old = || condition(ConditionType::Ready, ConditionStatus::Unknown);
    assert_eq!(update_ready_condition(status_of(vec![]), ready()), status_of(vec![ready()]));
    assert_eq!(
        update_ready_condition(status_of(vec![other()]), ready()),
        status_of(vec![other(), ready()])
    );
    assert_eq!(
        update_ready_condition(status_of(vec![other(), old(), old()]), ready()),
        status_of(vec![other(), ready(), old()])
    );
    let once = update_ready_condition(status_of(vec![other(), old()]), old());
    assert_eq!(
        update_ready_condition(once, ready()),
        update_ready_condition(status_of(vec![other(), old()]), ready())
    );
}

#[test]
fn success_makes_the_status_ready() {
    let before = status_of(vec![condition(ConditionType::Ready, ConditionStatus::Unknown)]);
    let after = update_status_at(before, None, NOW.to_owned());
    assert!(after.is_ready());
    assert_eq!(after.conditions.len(), 1);
    assert_eq!(after.conditions[0].last_transition, NOW);
    assert_eq!(after.conditions[0].reason, None);
    assert_eq!(after.conditions[0].message, None);
    assert_eq!(after.observed_generation, Some(7));
    assert_eq!(after.start_time.as_deref(), Some(THEN));
}

#[test]
fn success_keeps_the_time_of_the_last_transition() {
    let before = status_of(vec![condition(ConditionType::Ready, ConditionStatus::True)]);
    let after = update_status_at(before.clone(), None, NOW.to_owned());
    assert_eq!(after, before);
}

#[test]
fn failure_tells_the_reason() {
    let error = WardenCommandError::WardenCommandError("Not found.".to_owned());
    let before = status_of(vec![condition(ConditionType::Ready, ConditionStatus::True)]);
    let after = update_status_at(before, Some(error), NOW.to_owned());
    assert!(!after.is_ready());
    assert_eq!(after.conditions[0].status, ConditionStatus::False);
    assert_eq!(after.conditions[0].reason.as_deref(), Some("Bitwarden CLI error Not found."));
    assert_eq!(after.conditions[0].message.as_deref(), Some("Could not fetch secret"));
    assert_eq!(after.conditions[0].last_transition, NOW);
    let again = WardenCommandError::WardenCommandError("Not found.".to_owned());
    assert_eq!(update_status_at(after.clone(), Some(again), "later".to_owned()), after);
}

#[test]
fn outcome_is_added_to_a_status_without_conditions() {
    let after = update_status_at(status_of(vec![]), None, NOW.to_owned());
    assert!(after.is_ready());
    assert_eq!(after.conditions[0].last_transition, NOW);
    let error = WardenCommandError::IO("broken pipe".to_owned());
    let after = update_status_at(status_of(vec![]), Some(error), NOW.to_owned());
    assert_eq!(after.conditions.len(), 1);
    assert_eq!(after.conditions[0].reason.as_deref(), Some("IO error: broken pipe"));
}

#[test]
fn outcome_is_told_at_the_current_time() {
    let after = update_status(status_of(vec![]), None);
    assert!(after.conditions[0].last_transition.ends_with("+00:00"));
    assert!(after.conditions[0].last_transition.as_str() > NOW);
}

#[test]
fn status_patch_document() {
    let status = status_of(vec![condition(ConditionType::Ready, ConditionStatus::True)]);
    assert_eq!(
        to_serde(patch_status(&status)),
        parsed(
            r#"{
                "apiVersion": "tomjo.net/v2",
                "kind": "WardenSecret",
                "status": {
                    "conditions": [{
                        "status": "True",
                        "type": "Ready",
                        "lastTransitionTime": "2024-01-01T00:00:00+00:00"
                    }],
                    "startTime": "2024-01-01T00:00:00+00:00",
                    "observedGeneration": 7
                }
            }"#
        )
    );
}

#[test]
fn finalizer_patches() {
    assert_eq!(
        to_serde(add_finalizer()),
        parsed(r#"{"metadata": {"finalizers": ["bitwardensecrets.tomjo.net/finalizer.secret"]}}"#)
    );
    assert_eq!(
        delete_finalizer(true).map(to_serde),
        Some(parsed(r#"{"metadata": {"finalizers": null}}"#))
    );
    assert!(delete_finalizer(false).is_none());
}

#[test]
fn messages_of_reconciliation_errors() {
    let text = "timeout".to_owned();
    assert_eq!(
        Error::KubeError { source: text.clone() }.to_text(),
        "Kubernetes reported error: timeout"
    );
    assert_eq!(Error::SerdeError { source: text.clone() }.to_text(), "Serde error: timeout");
    assert_eq!(Error::UserInputError(text).to_text(), "Invalid BitwardenSecret CRD: timeout");
}

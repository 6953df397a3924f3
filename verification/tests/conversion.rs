use warden_secret_operator::conversion::{
    check_answerable, convert, convert_all, convert_all_at, convert_at, crdconvert_handler,
    crdconvert_handler_at, ConversionRequest, ConversionReview, Status, StatusSummary, TypeMeta,
};
use warden_secret_operator::json::{JsonNumber, JsonObject, JsonValue};

const NOW: &str = "2024-02-03T04:05:06+00:00";

fn to_serde(value: JsonValue) -> serde_json::Value {
    match value {
        JsonValue::Null => serde_json::Value::Null,
        JsonValue::Bool(b) => serde_json::Value::Bool(b),
        JsonValue::Number(JsonNumber::PosInt(n)) => serde_json::Value::from(n),
        JsonValue::Number(JsonNumber::NegInt(n)) => serde_json::Value::from(n),
        JsonValue::Number(JsonNumber::Float(bits)) => serde_json::Value::from(f64::from_bits(bits)),
        JsonValue::Text(text) => serde_json::Value::String(text),
        JsonValue::Array(items) => {
            serde_json::Value::Array(items.into_iter().map(to_serde).collect())
        }
        JsonValue::Object(object) => serde_json::Value::Object(
            object.into_entries().into_iter().map(|(key, value)| (key, to_serde(value))).collect(),
        ),
    }
}

fn from_serde(value: serde_json::Value) -> JsonValue {
    match value {
        serde_json::Value::Null => JsonValue::Null,
        serde_json::Value::Bool(b) => JsonValue::Bool(b),
        serde_json::Value::Number(n) => JsonValue::Number(match (n.as_u64(), n.as_i64()) {
            (Some(n), _) => JsonNumber::PosInt(n),
            (None, Some(n)) => JsonNumber::NegInt(n),
            (None, None) => JsonNumber::Float(n.as_f64().unwrap().to_bits()),
        }),
        serde_json::Value::String(text) => JsonValue::Text(text),
        serde_json::Value::Array(items) => {
            JsonValue::Array(items.into_iter().map(from_serde).collect())
        }
        serde_json::Value::Object(members) => JsonValue::Object(JsonObject::from_entries(
            members.into_iter().map(|(key, value)| (key, from_serde(value))).collect(),
        )),
    }
}

fn parsed(text: &str) -> serde_json::Value {
    serde_json::from_str(text).unwrap()
}

fn document(text: &str) -> JsonValue {
    from_serde(parsed(text))
}

fn refusal(text: &str, desired: &str) -> Status {
    match convert(document(text), desired) {
        Err(status) => status,
        Ok(_) => panic!("converted"),
    }
}

fn converted(text: &str, desired: &str) -> serde_json::Value {
    match convert_at(document(text), desired, NOW) {
        Ok(value) => to_serde(value),
        Err(status) => panic!("{}", status.message),
    }
}

const V2: &str = r#"{
    "apiVersion": "tomjo.net/v2",
    "kind": "WardenSecret",
    "metadata": {"name": "example", "generation": 3},
    "spec": {"item": "my-collection/my-secret", "type": "Opaque"},
    "status": {
        "startTime": "2023-01-01T00:00:00+00:00",
        "observedGeneration": 3,
        "conditions": [
            {"type": "Other", "status": "True"},
            {"type": "Ready", "status": "False", "lastTransitionTime": "t"},
            {"type": "Ready", "status": "False"}
        ]
    }
}"#;

const V1: &str = r#"{
    "apiVersion": "tomjo.net/v1",
    "kind": "WardenSecret",
    "metadata": {"name": "example", "generation": 3},
    "spec": {"item": "my-collection/my-secret", "type": "Opaque"},
    "status": {
        "start_time": "2023-01-01T00:00:00+00:00",
        "phase": "Succeeded",
        "conditions": [
            {"type": "Other", "status": true},
            {"type": "Ready", "status": false, "lastTransitionTime": "t"},
            {"type": "Ready", "status": false}
        ]
    }
}"#;

#[test]
fn downgrade_rewrites_the_status() {
    assert_eq!(
        converted(V2, "tomjo.net/v1"),
        parsed(
            r#"{
                "apiVersion": "tomjo.net/v1",
                "kind": "WardenSecret",
                "metadata": {"name": "example", "generation": 3},
                "spec": {"item": "my-collection/my-secret", "type": "Opaque"},
                "status": {
                    "start_time": "2023-01-01T00:00:00+00:00",
                    "phase": "Succeeded",
                    "conditions": [
                        {"type": "Other", "status": "True"},
                        {"type": "Ready", "status": false, "lastTransitionTime": "t"},
                        {"type": "Ready", "status": "False"}
                    ]
                }
            }"#
        )
    );
}

#[test]
fn upgrade_rewrites_the_status() {
    assert_eq!(
        converted(V1, "tomjo.net/v2"),
        parsed(
            r#"{
                "apiVersion": "tomjo.net/v2",
                "kind": "WardenSecret",
                "metadata": {"name": "example", "generation": 3},
                "spec": {"item": "my-collection/my-secret", "type": "Opaque"},
                "status": {
                    "startTime": "2024-02-03T04:05:06+00:00",
                    "observedGeneration": 0,
                    "conditions": [
                        {"type": "Other", "status": true},
                        {"type": "Ready", "status": "False", "lastTransitionTime": "t"},
                        {"type": "Ready", "status": false}
                    ]
                }
            }"#
        )
    );
}

#[test]
fn resource_without_status_gets_one() {
    assert_eq!(
        converted(r#"{"apiVersion": "tomjo.net/v2"}"#, "tomjo.net/v1"),
        parsed(
            r#"{
                "apiVersion": "tomjo.net/v1",
                "status": {"start_time": null, "phase": "Succeeded", "conditions": null}
            }"#
        )
    );
    assert_eq!(
        converted(r#"{"apiVersion": "tomjo.net/v1", "status": null}"#, "tomjo.net/v2"),
        parsed(
            r#"{
                "apiVersion": "tomjo.net/v2",
                "status": {"startTime": null, "observedGeneration": 0, "conditions": null}
            }"#
        )
    );
}

#[test]
fn ready_condition_in_both_directions() {
    let ready = |version: &str, status: &str| {
        let text = format!(
            r#"{{"apiVersion": "{version}", "status":
                {{"conditions": [{{"type": "Ready", "status": {status}}}]}}}}"#
        );
        let desired =
            if version == "tomjo.net/v1" { "tomjo.net/v2" } else { "tomjo.net/v1" };
        converted(&text, desired)["status"]["conditions"][0]["status"].clone()
    };
    assert_eq!(ready("tomjo.net/v2", "\"True\""), true);
    assert_eq!(ready("tomjo.net/v2", "\"False\""), false);
    assert_eq!(ready("tomjo.net/v2", "\"Unknown\""), true);
    assert_eq!(ready("tomjo.net/v2", "null"), true);
    assert_eq!(ready("tomjo.net/v1", "true"), "True");
    assert_eq!(ready("tomjo.net/v1", "false"), "False");
    assert_eq!(ready("tomjo.net/v1", "\"True\""), "Unknown");
    assert_eq!(ready("tomjo.net/v1", "1"), "Unknown");
}

#[test]
fn conditions_that_are_no_list_of_objects_stay() {
    let text = r#"{"apiVersion": "tomjo.net/v2",
        "status": {"conditions": [1, "x", null, {"kind": "Ready"}, {"type": 3}]}}"#;
    assert_eq!(
        converted(text, "tomjo.net/v1")["status"]["conditions"],
        parsed(r#"[1, "x", null, {"kind": "Ready"}, {"type": 3}]"#)
    );
    let text = r#"{"apiVersion": "tomjo.net/v2", "status": {"conditions": {"type": "Ready"}}}"#;
    assert_eq!(
        converted(text, "tomjo.net/v1")["status"]["conditions"],
        parsed(r#"{"type": "Ready"}"#)
    );
}

#[test]
fn numbers_survive_a_conversion() {
    let text = r#"{"apiVersion": "tomjo.net/v2", "a": 1.5, "b": -7, "c": 18446744073709551615}"#;
    let after = converted(text, "tomjo.net/v1");
    assert_eq!(after["a"], 1.5);
    assert_eq!(after["b"], -7);
    assert_eq!(after["c"], u64::MAX);
}

#[test]
fn round_trip_restores_the_conditions() {
    let there = converted(V2, "tomjo.net/v1");
    let back = converted(&there.to_string(), "tomjo.net/v2");
    let original = parsed(V2);
    assert_eq!(back["status"]["conditions"], original["status"]["conditions"]);
    assert_eq!(back["spec"], original["spec"]);
    assert_eq!(back["metadata"], original["metadata"]);
    assert_eq!(back["apiVersion"], original["apiVersion"]);
    assert_eq!(back["status"]["startTime"], NOW);
    assert_eq!(back["status"]["observedGeneration"], 0);
}

#[test]
fn refusals_say_why() {
    let status = refusal("{}", "tomjo.net/v1");
    assert_eq!(status.message, "No apiVersion in request");
    assert_eq!(status.reason, "ConversionRequestInvalid");
    assert_eq!(status.status, Some(StatusSummary::Failure));
    assert_eq!(status.code, 0);
    let status = refusal(r#"{"apiVersion": 2}"#, "tomjo.net/v1");
    assert_eq!(status.message, "No apiVersion in request");
    let status = refusal("[]", "tomjo.net/v1");
    assert_eq!(status.message, "No apiVersion in request");
    let status = refusal(r#"{"apiVersion": "tomjo.net/v2"}"#, "tomjo.net/v2");
    assert_eq!(status.message, "Already at desired API version tomjo.net/v2");
    assert_eq!(status.reason, "AlreadyAtDesiredAPIVersion");
    let status = refusal(r#"{"apiVersion": "tomjo.net/v2"}"#, "tomjo.net/v3");
    assert_eq!(status.message, "Unsupported API version tomjo.net/v3");
    assert_eq!(status.reason, "UnsupportedAPIVersion");
    let status = refusal(r#"{"apiVersion": "tomjo.net/v0"}"#, "tomjo.net/v1");
    assert_eq!(status.message, "Unsupported API conversion from tomjo.net/v0 to tomjo.net/v1");
    assert_eq!(status.reason, "UnsupportedAPIConversion");
    let status = refusal(r#"{"apiVersion": "tomjo.net/v0"}"#, "tomjo.net/v2");
    assert_eq!(status.message, "Unsupported API conversion from tomjo.net/v0 to tomjo.net/v2");
    let status = refusal(r#"{"apiVersion": "tomjo.net/v0"}"#, "tomjo.net/v0");
    assert_eq!(status.reason, "AlreadyAtDesiredAPIVersion");
}

#[test]
fn upgrade_takes_the_current_time() {
    match convert(document(V1), "tomjo.net/v2") {
        Ok(value) => {
            let after = to_serde(value);
            let time = after["status"]["startTime"].as_str().unwrap();
            assert!(time.ends_with("+00:00"));
            assert!(time.len() >= 25);
            assert_eq!(&time[10..11], "T");
            assert!(&time[0..4] >= "2024");
        }
        Err(status) => panic!("{}", status.message),
    }
}

fn request(objects: Vec<JsonValue>) -> ConversionRequest {
    ConversionRequest {
        types: None,
        uid: "f2a1".to_owned(),
        desired_api_version: "tomjo.net/v1".to_owned(),
        objects,
    }
}

#[test]
fn all_resources_are_converted_in_order() {
    let objects = vec![
        document(r#"{"apiVersion": "tomjo.net/v2", "n": 1}"#),
        document(r#"{"apiVersion": "tomjo.net/v2", "n": 2}"#),
    ];
    let response = convert_all(request(objects));
    assert_eq!(response.uid, "f2a1");
    assert_eq!(response.result.status, Some(StatusSummary::Success));
    assert_eq!(response.result.message, "");
    let after: Vec<serde_json::Value> =
        response.converted_objects.into_iter().map(to_serde).collect();
    assert_eq!(after.len(), 2);
    assert_eq!(after[0]["n"], 1);
    assert_eq!(after[1]["n"], 2);
    assert_eq!(after[1]["apiVersion"], "tomjo.net/v1");
}

#[test]
fn one_refusal_refuses_all() {
    let objects = vec![
        document(r#"{"apiVersion": "tomjo.net/v2"}"#),
        document(r#"{"apiVersion": "tomjo.net/v1"}"#),
        document(r#"{"apiVersion": "tomjo.net/v2", "status": 5}"#),
    ];
    let request = request(objects);
    assert!(check_answerable(&request));
    let response = convert_all(request);
    assert!(response.converted_objects.is_empty());
    assert_eq!(response.result.status, Some(StatusSummary::Failure));
    assert_eq!(response.result.message, "Already at desired API version tomjo.net/v1");
    assert_eq!(response.result.reason, "ConversionFailure");
}

#[test]
fn status_that_cannot_be_rewritten_is_found() {
    let ask = |text: &str| check_answerable(&request(vec![document(text)]));
    assert!(ask(r#"{"apiVersion": "tomjo.net/v2"}"#));
    assert!(ask(r#"{"apiVersion": "tomjo.net/v2", "status": null}"#));
    assert!(ask(r#"{"apiVersion": "tomjo.net/v2", "status": {}}"#));
    assert!(!ask(r#"{"apiVersion": "tomjo.net/v2", "status": "x"}"#));
    assert!(!ask(r#"{"apiVersion": "tomjo.net/v2", "status": []}"#));
    assert!(ask(r#"{"apiVersion": "tomjo.net/v9", "status": []}"#));
}

#[test]
fn each_resource_has_its_own_time() {
    let mut request = request(vec![document(V1), document(V1)]);
    request.desired_api_version = "tomjo.net/v2".to_owned();
    let times = vec!["first".to_owned(), "second".to_owned()];
    let response = convert_all_at(request, &times);
    let after: Vec<serde_json::Value> =
        response.converted_objects.into_iter().map(to_serde).collect();
    assert_eq!(after[0]["status"]["startTime"], "first");
    assert_eq!(after[1]["status"]["startTime"], "second");
}

fn review(request: Option<ConversionRequest>) -> ConversionReview {
    ConversionReview {
        types: TypeMeta {
            api_version: "apiextensions.k8s.io/v1beta1".to_owned(),
            kind: "ConversionReview".to_owned(),
        },
        request,
        response: None,
    }
}

#[test]
fn reply_carries_the_type_and_uid_of_the_review() {
    let body = review(Some(request(vec![document(V2)])));
    let reply = crdconvert_handler(body);
    assert_eq!(reply.types.api_version, "apiextensions.k8s.io/v1beta1");
    assert_eq!(reply.types.kind, "ConversionReview");
    assert!(reply.request.is_none());
    let response = reply.response.unwrap();
    assert!(response.types.is_none());
    assert_eq!(response.uid, "f2a1");
    assert_eq!(response.converted_objects.len(), 1);
}

#[test]
fn review_without_request_is_invalid() {
    let reply = crdconvert_handler_at(review(None), &vec![]);
    assert_eq!(reply.types.api_version, "apiextensions.k8s.io/v1");
    assert_eq!(reply.types.kind, "ConversionReview");
    let response = reply.response.unwrap();
    assert_eq!(response.uid, "");
    assert_eq!(response.result.message, "request missing in ConversionReview");
    assert_eq!(response.result.reason, "ConversionRequestInvalid");
    assert_eq!(response.result.status, Some(StatusSummary::Failure));
    assert!(response.converted_objects.is_empty());
}

#[test]
fn reply_agrees_with_the_api_machinery() {
    let missing: kube::core::conversion::ConversionReview = serde_json::from_str(
        r#"{"apiVersion": "apiextensions.k8s.io/v1", "kind": "ConversionReview"}"#,
    )
    .unwrap();
    let error = match kube::core::conversion::ConversionRequest::from_review(missing) {
        Err(error) => error.to_string(),
        Ok(_) => panic!("a request"),
    };
    let ours = crdconvert_handler_at(review(None), &vec![]);
    let response = ours.response.unwrap();
    assert_eq!(response.result.message, error);
    let theirs = kube::core::conversion::ConversionResponse::invalid(
        kube::client::Status::failure(&error, "ConversionRequestInvalid"),
    )
    .into_review();
    assert_eq!(theirs.types.api_version, ours.types.api_version);
    assert_eq!(theirs.types.kind, ours.types.kind);
    let theirs = theirs.response.unwrap();
    assert_eq!(theirs.uid, response.uid);
    assert_eq!(theirs.result.code, response.result.code);
    assert_eq!(theirs.result.message, response.result.message);
    assert_eq!(theirs.result.reason, response.result.reason);
}

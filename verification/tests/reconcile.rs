use warden_secret_operator::bw::WardenCommandError;
use warden_secret_operator::crd::{
    ApplyCondition, ConditionStatus, ConditionType, ObjectMeta, WardenSecret, WardenSecretSpec,
    WardenSecretStatus,
};
use warden_secret_operator::error::Error;
use warden_secret_operator::json::{JsonNumber, JsonValue};
use warden_secret_operator::owner::OwnerReference;
use warden_secret_operator::reconcile::{
    advance, advance_at, can_advance, can_reconcile, delete_secret, determine_action, name_any,
    namespace_any, on_error, reconcile, reconcile_at, Action, BitwardenSecretAction, ExistingSecret, KubeCall,
    Progress, Reply, Request, Stage,
};
use warden_secret_operator::secrets::SecretManifest;
use warden_secret_operator::text_map::TextMap;

fn to_serde(value: JsonValue) -> serde_json::Value {
    match value {
        JsonValue::Null => serde_json::Value::Null,
        JsonValue::Bool(b) => serde_json::Value::Bool(b),
        JsonValue::Number(JsonNumber::PosInt(n)) => serde_json::Value::from(n),
        JsonValue::Number(JsonNumber::NegInt(n)) => serde_json::Value::from(n),
        JsonValue::Number(JsonNumber::Float(bits)) => serde_json::Value::from(f64::from_bits(bits)),
        JsonValue::Text(text) => serde_json::Value::String(text),
        JsonValue::Array(items) => {
            serde_json::Value::Array(items.into_iter().map(to_serde).collect())
        }
        JsonValue::Object(object) => serde_json::Value::Object(
            object.into_entries().into_iter().map(|(key, value)| (key, to_serde(value))).collect(),
        ),
    }
}

fn parsed(text: &str) -> serde_json::Value {
    serde_json::from_str(text).unwrap()
}

fn texts(entries: &[(&str, &str)]) -> TextMap<String> {
    TextMap::from_entries(
        entries.iter().map(|(key, value)| ((*key).to_owned(), (*value).to_owned())).collect(),
    )
}

fn new_resource() -> WardenSecret {
    WardenSecret {
        metadata: ObjectMeta {
            name: Some("example".to_owned()),
            generate_name: None,
            namespace: Some("apps".to_owned()),
            uid: Some("u-1".to_owned()),
            generation: Some(2),
            finalizers: None,
            deletion_timestamp: None,
            labels: Some(texts(&[("app", "web")])),
            annotations: None,
        },
        spec: WardenSecretSpec {
            type_: "Opaque".to_owned(),
            item: "my-collection/my-secret".to_owned(),
        },
        status: None,
    }
}

fn changed_resource() -> WardenSecret {
    let mut resource = new_resource();
    resource.metadata.finalizers =
        Some(vec!["bitwardensecrets.tomjo.net/finalizer.secret".to_owned()]);
    resource
}

fn settled_resource() -> WardenSecret {
    let mut resource = changed_resource();
    resource.status = Some(WardenSecretStatus {
        conditions: vec![],
        start_time: None,
        observed_generation: Some(2),
    });
    resource
}

fn deleted_resource() -> WardenSecret {
    let mut resource = changed_resource();
    resource.metadata.deletion_timestamp = Some("2024-01-01T00:00:00Z".to_owned());
    resource
}

fn asked(progress: Progress) -> (Request, Stage) {
    match progress {
        Progress::Perform(request, stage) => (request, stage),
        Progress::Finished(_) => panic!("finished"),
    }
}

fn called(progress: Progress) -> (KubeCall, Stage) {
    match asked(progress) {
        (Request::Kube { name, namespace, call }, stage) => {
            assert_eq!(name, "example");
            assert_eq!(namespace, "apps");
            (call, stage)
        }
        _ => panic!("another request"),
    }
}

fn finished(progress: Progress) -> Result<Action, Error> {
    match progress {
        Progress::Finished(result) => result,
        Progress::Perform(_, _) => panic!("not finished"),
    }
}

fn patched(progress: Progress) -> (serde_json::Value, Stage) {
    match called(progress) {
        (KubeCall::PatchStatus(patch), stage) => (to_serde(patch), stage),
        _ => panic!("another call"),
    }
}

fn next(resource: &WardenSecret, stage: Stage, reply: Reply, now: &str) -> Progress {
    advance_at(resource, stage, reply, now.to_owned(), "start".to_owned())
}

fn done() -> Reply {
    Reply::Done(Ok(()))
}

fn fields() -> Reply {
    Reply::Fields(Ok(texts(&[("password", "hunter2")])))
}

fn attachments() -> Reply {
    Reply::Attachments(Ok(TextMap::from_entries(vec![("key.pem".to_owned(), b"pem".to_vec())])))
}

/// A new resource up to the stage at which its fields are fetched.
fn accepted(resource: &WardenSecret) -> Stage {
    let (_, stage) = patched(reconcile_at(resource, &None, "t0".to_owned(), "s0".to_owned()));
    let (_, stage) = called(next(resource, stage, done(), "t1"));
    let (_, stage) = patched(next(resource, stage, done(), "t2"));
    asked(next(resource, stage, done(), "t3")).1
}

fn owner() -> OwnerReference {
    OwnerReference {
        api_version: "tomjo.net/v2".to_owned(),
        kind: "WardenSecret".to_owned(),
        name: "example".to_owned(),
        uid: "u-1".to_owned(),
        block_owner_deletion: Some(true),
        controller: None,
    }
}

#[test]
fn action_for_each_state() {
    assert_eq!(determine_action(&new_resource()), BitwardenSecretAction::Create);
    assert_eq!(determine_action(&changed_resource()), BitwardenSecretAction::Update);
    assert_eq!(determine_action(&settled_resource()), BitwardenSecretAction::NoOp);
    assert_eq!(determine_action(&deleted_resource()), BitwardenSecretAction::Delete);
    let mut resource = new_resource();
    resource.metadata.finalizers = Some(vec![]);
    assert_eq!(determine_action(&resource), BitwardenSecretAction::Create);
    resource.metadata.deletion_timestamp = Some("now".to_owned());
    assert_eq!(determine_action(&resource), BitwardenSecretAction::Delete);
    let mut resource = changed_resource();
    resource.metadata.generation = None;
    assert_eq!(determine_action(&resource), BitwardenSecretAction::NoOp);
    let mut resource = settled_resource();
    resource.metadata.generation = Some(3);
    assert_eq!(determine_action(&resource), BitwardenSecretAction::Update);
}

#[test]
fn names_and_namespaces() {
    let mut resource = new_resource();
    assert_eq!(name_any(&resource), "example");
    assert_eq!(namespace_any(&resource), "apps");
    resource.metadata.namespace = None;
    assert_eq!(namespace_any(&resource), "default");
    resource.metadata.name = None;
    assert_eq!(name_any(&resource), "");
    resource.metadata.generate_name = Some("example-".to_owned());
    assert_eq!(name_any(&resource), "example-");
}

#[test]
fn settled_resource_is_left_alone() {
    let resource = settled_resource();
    assert_eq!(finished(reconcile(&resource, &None)), Ok(Action::Requeue(300)));
    assert_eq!(finished(reconcile(&resource, &Some("42".to_owned()))), Ok(Action::Requeue(42)));
    assert!(can_reconcile(&resource, &None));
    assert!(!can_reconcile(&resource, &Some("never".to_owned())));
    assert!(can_reconcile(&new_resource(), &Some("never".to_owned())));
}

#[test]
fn failed_reconciliation_is_tried_again() {
    assert_eq!(on_error(), Action::Requeue(5));
}

#[test]
fn new_resource_is_taken_care_of_first() {
    let resource = new_resource();
    let (patch, stage) = patched(reconcile_at(&resource, &None, "t0".to_owned(), "s0".to_owned()));
    assert_eq!(
        patch["status"],
        parsed(
            r#"{
                "startTime": "s0",
                "observedGeneration": 2,
                "conditions": [{"type": "Ready", "status": "Unknown", "lastTransitionTime": "t0"}]
            }"#
        )
    );
    let (call, stage) = called(next(&resource, stage, done(), "t1"));
    match call {
        KubeCall::MergeResource(patch) => assert_eq!(
            to_serde(patch),
            parsed(
                r#"{"metadata": {"finalizers": ["bitwardensecrets.tomjo.net/finalizer.secret"]}}"#
            )
        ),
        _ => panic!("another call"),
    }
    let (patch, stage) = patched(next(&resource, stage, done(), "t2"));
    assert_eq!(
        patch["status"],
        parsed(
            r#"{
                "startTime": "s0",
                "observedGeneration": 2,
                "conditions": [{"type": "Ready", "status": "True", "lastTransitionTime": "t2"}]
            }"#
        )
    );
    let (request, stage) = asked(next(&resource, stage, done(), "t3"));
    assert!(matches!(request, Request::FetchFields(item) if item == "my-collection/my-secret"));
    let (request, _) = asked(next(&resource, stage, fields(), "t4"));
    assert!(matches!(request, Request::FetchAttachments(item) if item == "my-collection/my-secret"));
}

fn check_manifest(secret: SecretManifest) {
    assert_eq!(secret.name, "example");
    assert_eq!(secret.namespace, "apps");
    assert_eq!(secret.type_, "Opaque");
    assert_eq!(secret.owner_references, vec![owner()]);
    assert_eq!(secret.labels.into_entries(), vec![("app".to_owned(), "web".to_owned())]);
    assert!(secret.annotations.into_entries().is_empty());
    assert_eq!(
        secret.string_data.into_entries(),
        vec![("password".to_owned(), "hunter2".to_owned())]
    );
    assert_eq!(secret.data.into_entries(), vec![("key.pem".to_owned(), b"pem".to_vec())]);
}

#[test]
fn new_resource_gets_its_secret() {
    let resource = new_resource();
    let stage = accepted(&resource);
    let (_, stage) = asked(next(&resource, stage, fields(), "t4"));
    let (call, stage) = called(next(&resource, stage, attachments(), "t5"));
    assert!(matches!(call, KubeCall::GetSecret));
    let (call, stage) = called(next(&resource, stage, Reply::Secret(Ok(None)), "t6"));
    match call {
        KubeCall::CreateSecret(secret) => check_manifest(secret),
        _ => panic!("another call"),
    }
    let (patch, stage) = patched(next(&resource, stage, done(), "t7"));
    assert_eq!(
        patch["status"]["conditions"],
        parsed(r#"[{"type": "Ready", "status": "True", "lastTransitionTime": "t2"}]"#)
    );
    assert_eq!(finished(next(&resource, stage, done(), "t8")), Ok(Action::Requeue(10)));
}

#[test]
fn existing_secret_is_merged_into() {
    let resource = new_resource();
    let stage = accepted(&resource);
    let (_, stage) = asked(next(&resource, stage, fields(), "t4"));
    let (_, stage) = called(next(&resource, stage, attachments(), "t5"));
    let mut other = owner();
    other.uid = "u-0".to_owned();
    let existing = ExistingSecret { owner_references: Some(vec![other]) };
    let (call, stage) = called(next(&resource, stage, Reply::Secret(Ok(Some(existing))), "t6"));
    match call {
        KubeCall::MergeSecret(patch) => {
            let patch = to_serde(patch);
            assert_eq!(patch["type"], "Opaque");
            assert_eq!(patch["stringData"], parsed(r#"{"password": "hunter2"}"#));
            assert_eq!(patch["data"], parsed(r#"{"key.pem": "cGVt"}"#));
            assert_eq!(patch["metadata"]["ownerReferences"].as_array().unwrap().len(), 2);
            assert_eq!(patch["metadata"]["ownerReferences"][0]["uid"], "u-0");
            assert_eq!(patch["metadata"]["ownerReferences"][1]["uid"], "u-1");
        }
        _ => panic!("another call"),
    }
    assert!(matches!(stage, Stage::WritingSecret { .. }));
}

#[test]
fn existing_secret_without_owners_gets_one() {
    let resource = new_resource();
    let stage = accepted(&resource);
    let (_, stage) = asked(next(&resource, stage, fields(), "t4"));
    let (_, stage) = called(next(&resource, stage, attachments(), "t5"));
    let existing = ExistingSecret { owner_references: None };
    let (call, _) = called(next(&resource, stage, Reply::Secret(Ok(Some(existing))), "t6"));
    match call {
        KubeCall::MergeSecret(patch) => assert_eq!(
            to_serde(patch)["metadata"]["ownerReferences"].as_array().unwrap().len(),
            1
        ),
        _ => panic!("another call"),
    }
}

fn vault_error(text: &str) -> WardenCommandError {
    WardenCommandError::WardenCommandError(text.to_owned())
}

#[test]
fn failed_fetch_is_told_and_resets_the_vault() {
    let resource = new_resource();
    let stage = accepted(&resource);
    let reply = Reply::Fields(Err(vault_error("no fields")));
    let (request, stage) = asked(next(&resource, stage, reply, "t4"));
    assert!(matches!(request, Request::FetchAttachments(_)));
    let reply = Reply::Attachments(Err(vault_error("no attachments")));
    let (patch, stage) = patched(next(&resource, stage, reply, "t5"));
    assert_eq!(
        patch["status"]["conditions"],
        parsed(
            r#"[{
                "type": "Ready",
                "status": "False",
                "lastTransitionTime": "t5",
                "message": "Failed to fetch Bitwarden item fields or attachments",
                "reason": "ObtainingSecretsFailed"
            }]"#
        )
    );
    let (patch, stage) = patched(next(&resource, stage, done(), "t6"));
    assert_eq!(
        patch["status"]["conditions"],
        parsed(
            r#"[{
                "type": "Ready",
                "status": "False",
                "lastTransitionTime": "t5",
                "message": "Could not fetch secret",
                "reason": "Bitwarden CLI error no fields"
            }]"#
        )
    );
    let (request, stage) = asked(next(&resource, stage, done(), "t7"));
    assert!(matches!(request, Request::ResetVault));
    assert_eq!(finished(next(&resource, stage, Reply::VaultReset, "t8")), Ok(Action::Requeue(10)));
}

#[test]
fn failed_attachments_alone_are_told() {
    let resource = new_resource();
    let stage = accepted(&resource);
    let (_, stage) = asked(next(&resource, stage, fields(), "t4"));
    let reply = Reply::Attachments(Err(vault_error("no attachments")));
    let (_, stage) = patched(next(&resource, stage, reply, "t5"));
    let (patch, _) = patched(next(&resource, stage, done(), "t6"));
    assert_eq!(
        patch["status"]["conditions"][0]["reason"],
        "Bitwarden CLI error no attachments"
    );
}

#[test]
fn nameless_resource_is_refused_once_its_item_is_there() {
    let mut resource = new_resource();
    resource.metadata.name = None;
    resource.metadata.generate_name = Some("example".to_owned());
    let stage = accepted(&resource);
    let (_, stage) = asked(next(&resource, stage, fields(), "t4"));
    assert_eq!(
        finished(next(&resource, stage, attachments(), "t5")),
        Err(Error::UserInputError("BitwardenSecret without name, uid: u-1".to_owned()))
    );
}

#[test]
fn uid_is_needed_once_the_item_is_there() {
    let mut resource = new_resource();
    let stage = accepted(&resource);
    let (_, stage) = asked(next(&resource, stage, fields(), "t4"));
    assert!(can_advance(&resource, &stage, &attachments()));
    resource.metadata.uid = None;
    assert!(!can_advance(&resource, &stage, &attachments()));
    assert!(can_advance(&resource, &stage, &Reply::Attachments(Err(vault_error("x")))));
    let failed = Reply::Fields(Err(vault_error("x")));
    let (_, stage) = asked(next(&resource, accepted(&resource), failed, "t4"));
    assert!(can_advance(&resource, &stage, &attachments()));
}

#[test]
fn stages_wait_for_their_replies() {
    let resource = changed_resource();
    let (_, stage) = called(reconcile(&resource, &None));
    assert!(can_advance(&resource, &stage, &Reply::Status(Ok(None))));
    assert!(can_advance(&resource, &stage, &Reply::Status(Err("timeout".to_owned()))));
    for reply in [done(), fields(), attachments(), Reply::VaultReset, Reply::Secret(Ok(None))] {
        assert!(!can_advance(&resource, &stage, &reply));
    }
    assert!(!can_advance(&resource, &stage, &Reply::Resource(Ok(true))));
    let (_, stage) = asked(next(&resource, stage, Reply::Status(Ok(None)), "t1"));
    assert!(can_advance(&resource, &stage, &fields()));
    assert!(!can_advance(&resource, &stage, &attachments()));
}

#[test]
fn only_an_existing_secret_is_deleted() {
    assert!(matches!(delete_secret(true), Some(KubeCall::DeleteSecret)));
    assert!(delete_secret(false).is_none());
}

#[test]
fn changed_resource_keeps_its_status() {
    let resource = changed_resource();
    let (call, stage) = called(reconcile(&resource, &None));
    assert!(matches!(call, KubeCall::GetStatus));
    let status = WardenSecretStatus {
        conditions: vec![ApplyCondition {
            status: ConditionStatus::False,
            reason: Some("r".to_owned()),
            message: Some("m".to_owned()),
            type_: ConditionType::Ready,
            last_transition: "then".to_owned(),
        }],
        start_time: Some("s".to_owned()),
        observed_generation: Some(1),
    };
    let (request, stage) = asked(next(&resource, stage, Reply::Status(Ok(Some(status))), "t1"));
    assert!(matches!(request, Request::FetchFields(_)));
    let (_, stage) = asked(next(&resource, stage, fields(), "t2"));
    let (_, stage) = called(next(&resource, stage, attachments(), "t3"));
    let (_, stage) = called(next(&resource, stage, Reply::Secret(Ok(None)), "t4"));
    let (patch, stage) = patched(next(&resource, stage, done(), "t5"));
    assert_eq!(
        patch["status"],
        parsed(
            r#"{
                "startTime": "s",
                "observedGeneration": 2,
                "conditions": [{"type": "Ready", "status": "True", "lastTransitionTime": "t5"}]
            }"#
        )
    );
    assert_eq!(finished(next(&resource, stage, done(), "t6")), Ok(Action::Requeue(10)));
}

#[test]
fn changed_resource_without_status_gets_one() {
    let resource = changed_resource();
    let (_, stage) = called(reconcile(&resource, &None));
    let (_, stage) = asked(next(&resource, stage, Reply::Status(Ok(None)), "t1"));
    let reply = Reply::Fields(Err(vault_error("x")));
    let (_, stage) = asked(next(&resource, stage, reply, "t2"));
    let (patch, _) = patched(next(&resource, stage, attachments(), "t3"));
    assert_eq!(patch["status"]["startTime"], "start");
    assert_eq!(patch["status"]["observedGeneration"], 2);
    assert_eq!(patch["status"]["conditions"][0]["lastTransitionTime"], "t3");
}

#[test]
fn deleted_resource_is_cleaned_up() {
    let resource = deleted_resource();
    let (call, stage) = called(reconcile(&resource, &None));
    assert!(matches!(call, KubeCall::GetSecret));
    let existing = ExistingSecret { owner_references: None };
    let (call, stage) = called(advance(&resource, stage, Reply::Secret(Ok(Some(existing)))));
    assert!(matches!(call, KubeCall::DeleteSecret));
    let (call, stage) = called(advance(&resource, stage, done()));
    assert!(matches!(call, KubeCall::GetResource));
    let (call, stage) = called(advance(&resource, stage, Reply::Resource(Ok(true))));
    match call {
        KubeCall::MergeResource(patch) => {
            assert_eq!(to_serde(patch), parsed(r#"{"metadata": {"finalizers": null}}"#));
        }
        _ => panic!("another call"),
    }
    assert_eq!(finished(advance(&resource, stage, done())), Ok(Action::AwaitChange));
}

#[test]
fn deletion_skips_what_is_gone() {
    let resource = deleted_resource();
    let (_, stage) = called(reconcile(&resource, &None));
    let (call, stage) = called(advance(&resource, stage, Reply::Secret(Ok(None))));
    assert!(matches!(call, KubeCall::GetResource));
    assert_eq!(
        finished(advance(&resource, stage, Reply::Resource(Ok(false)))),
        Ok(Action::AwaitChange)
    );
}

#[test]
fn failed_calls_end_the_reconciliation() {
    let failed = |progress: Progress, text: &str| {
        assert_eq!(finished(progress), Err(Error::KubeError { source: text.to_owned() }));
    };
    let resource = new_resource();
    let (_, stage) = called(reconcile(&resource, &None));
    failed(advance(&resource, stage, Reply::Done(Err("conflict".to_owned()))), "conflict");
    let resource = changed_resource();
    let (_, stage) = called(reconcile(&resource, &None));
    failed(advance(&resource, stage, Reply::Status(Err("timeout".to_owned()))), "timeout");
    let resource = deleted_resource();
    let (_, stage) = called(reconcile(&resource, &None));
    failed(advance(&resource, stage, Reply::Secret(Err("forbidden".to_owned()))), "forbidden");
    let (_, stage) = called(reconcile(&resource, &None));
    let (_, stage) = called(advance(&resource, stage, Reply::Secret(Ok(None))));
    failed(advance(&resource, stage, Reply::Resource(Err("gone".to_owned()))), "gone");
}

#[test]
fn timestamps_are_current() {
    let (patch, _) = patched(reconcile(&new_resource(), &None));
    let start = patch["status"]["startTime"].as_str().unwrap().to_owned();
    assert!(start.ends_with("+00:00"));
    assert!(start.as_str() > "2024-01-01");
    let transition = patch["status"]["conditions"][0]["lastTransitionTime"].as_str().unwrap();
    assert!(transition >= start.as_str());
}

#[test]
fn timestamps_are_dates_and_times() {
    let (patch, _) = patched(reconcile(&new_resource(), &None));
    let start = patch["status"]["startTime"].as_str().unwrap();
    let parsed = k8s_openapi::chrono::DateTime::parse_from_rfc3339(start).unwrap();
    assert_eq!(parsed.offset().local_minus_utc(), 0);
    let text: Vec<char> = start.chars().collect();
    for (i, c) in [(4, '-'), (7, '-'), (10, 'T'), (13, ':'), (16, ':')] {
        assert_eq!(text[i], c);
    }
    for i in [0, 1, 2, 3, 5, 6, 8, 9, 11, 12, 14, 15, 17, 18] {
        assert!(text[i].is_ascii_digit());
    }
    let fraction = &start[19..start.len() - 6];
    assert!(fraction.is_empty() || fraction.starts_with('.'));
    assert!([0, 4, 7, 10].contains(&fraction.len()));
}

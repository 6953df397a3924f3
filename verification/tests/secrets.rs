use warden_secret_operator::crd::{ObjectMeta, WardenSecret, WardenSecretSpec};
use warden_secret_operator::error::Error;
use warden_secret_operator::json::{JsonNumber, JsonValue};
use warden_secret_operator::owner::{
    add_or_update_owner_ref, create_owner_ref_for, OwnerReference,
};
use warden_secret_operator::secrets::{create_secret, merge_secret};
use warden_secret_operator::text_map::TextMap;

fn to_serde(value: JsonValue) -> serde_json::Value {
    match value {
        JsonValue::Null => serde_json::Value::Null,
        JsonValue::Bool(b) => serde_json::Value::Bool(b),
        JsonValue::Number(JsonNumber::PosInt(n)) => serde_json::Value::from(n),
        JsonValue::Number(JsonNumber::NegInt(n)) => serde_json::Value::from(n),
        JsonValue::Number(JsonNumber::Float(bits)) => serde_json::Value::from(f64::from_bits(bits)),
        JsonValue::Text(text) => serde_json::Value::String(text),
        JsonValue::Array(items) => {
            serde_json::Value::Array(items.into_iter().map(to_serde).collect())
        }
        JsonValue::Object(object) => serde_json::Value::Object(
            object.into_entries().into_iter().map(|(key, value)| (key, to_serde(value))).collect(),
        ),
    }
}

fn parsed(text: &str) -> serde_json::Value {
    serde_json::from_str(text).unwrap()
}

fn texts(entries: &[(&str, &str)]) -> TextMap<String> {
    TextMap::from_entries(
        entries.iter().map(|(key, value)| ((*key).to_owned(), (*value).to_owned())).collect(),
    )
}

fn bytes(entries: &[(&str, &[u8])]) -> TextMap<Vec<u8>> {
    TextMap::from_entries(
        entries.iter().map(|(key, value)| ((*key).to_owned(), value.to_vec())).collect(),
    )
}

fn owner(name: &str, uid: &str) -> OwnerReference {
    OwnerReference {
        api_version: "tomjo.net/v2".to_owned(),
        kind: "WardenSecret".to_owned(),
        name: name.to_owned(),
        uid: uid.to_owned(),
        block_owner_deletion: Some(true),
        controller: None,
    }
}

fn resource(name: Option<&str>, uid: Option<&str>) -> WardenSecret {
    WardenSecret {
        metadata: ObjectMeta {
            name: name.map(str::to_owned),
            generate_name: None,
            namespace: None,
            uid: uid.map(str::to_owned),
            generation: None,
            finalizers: None,
            deletion_timestamp: None,
            labels: None,
            annotations: None,
        },
        spec: WardenSecretSpec { type_: "Opaque".to_owned(), item: "/x".to_owned() },
        status: None,
    }
}

#[test]
fn owner_with_the_same_uid_is_replaced() {
    let mut owners = vec![owner("a", "1"), owner("b", "2"), owner("c", "2")];
    add_or_update_owner_ref(&mut owners, owner("new", "2"));
    assert_eq!(owners, vec![owner("a", "1"), owner("new", "2"), owner("c", "2")]);
    add_or_update_owner_ref(&mut owners, owner("new", "2"));
    assert_eq!(owners, vec![owner("a", "1"), owner("new", "2"), owner("c", "2")]);
}

#[test]
fn owner_with_a_new_uid_is_added() {
    let mut owners = vec![];
    add_or_update_owner_ref(&mut owners, owner("a", "1"));
    add_or_update_owner_ref(&mut owners, owner("a", "2"));
    assert_eq!(owners, vec![owner("a", "1"), owner("a", "2")]);
}

#[test]
fn resource_owns_its_secret() {
    let reference = create_owner_ref_for(&resource(Some("example"), Some("u-1")));
    assert_eq!(reference, Ok(owner("example", "u-1")));
}

#[test]
fn nameless_resource_owns_nothing() {
    let reference = create_owner_ref_for(&resource(None, Some("u-1")));
    assert_eq!(
        reference,
        Err(Error::UserInputError("BitwardenSecret without name, uid: u-1".to_owned()))
    );
}

#[test]
fn owner_documents() {
    assert_eq!(
        to_serde(owner("example", "u-1").to_json()),
        parsed(
            r#"{"apiVersion": "tomjo.net/v2", "kind": "WardenSecret", "name": "example",
                "uid": "u-1", "blockOwnerDeletion": true}"#
        )
    );
    let mut controller = owner("example", "u-1");
    controller.block_owner_deletion = None;
    controller.controller = Some(false);
    assert_eq!(
        to_serde(controller.to_json()),
        parsed(
            r#"{"apiVersion": "tomjo.net/v2", "kind": "WardenSecret", "name": "example",
                "uid": "u-1", "controller": false}"#
        )
    );
}

#[test]
fn owner_document_is_that_of_the_api() {
    let theirs = k8s_openapi::apimachinery::pkg::apis::meta::v1::OwnerReference {
        api_version: "tomjo.net/v2".to_owned(),
        kind: "WardenSecret".to_owned(),
        name: "example".to_owned(),
        uid: "u-1".to_owned(),
        block_owner_deletion: Some(true),
        controller: None,
    };
    assert_eq!(
        to_serde(owner("example", "u-1").to_json()),
        serde_json::to_value(theirs).unwrap()
    );
}

#[test]
fn created_secret_holds_everything() {
    let secret = create_secret(
        owner("example", "u-1"),
        "example",
        "apps",
        "Opaque",
        texts(&[("password", "hunter2")]),
        bytes(&[("key.pem", b"pem")]),
        texts(&[("app", "web")]),
        texts(&[("note", "n")]),
    );
    assert_eq!(secret.name, "example");
    assert_eq!(secret.namespace, "apps");
    assert_eq!(secret.type_, "Opaque");
    assert_eq!(secret.owner_references, vec![owner("example", "u-1")]);
    assert_eq!(
        secret.string_data.into_entries(),
        vec![("password".to_owned(), "hunter2".to_owned())]
    );
    assert_eq!(secret.data.into_entries(), vec![("key.pem".to_owned(), b"pem".to_vec())]);
    assert_eq!(secret.labels.into_entries(), vec![("app".to_owned(), "web".to_owned())]);
    assert_eq!(secret.annotations.into_entries(), vec![("note".to_owned(), "n".to_owned())]);
}

#[test]
fn merged_secret_document() {
    let patch = merge_secret(
        vec![owner("example", "u-1")],
        "kubernetes.io/tls",
        texts(&[("user", "me"), ("password", "hunter2")]),
        bytes(&[("a", b""), ("b", b"f"), ("c", b"fo"), ("d", b"foo"), ("e", b"foobar\xff")]),
    );
    assert_eq!(
        to_serde(patch),
        parsed(
            r#"{
                "metadata": {"ownerReferences": [
                    {"apiVersion": "tomjo.net/v2", "kind": "WardenSecret", "name": "example",
                        "uid": "u-1", "blockOwnerDeletion": true}
                ]},
                "stringData": {"user": "me", "password": "hunter2"},
                "data": {"a": "", "b": "Zg==", "c": "Zm8=", "d": "Zm9v", "e": "Zm9vYmFy/w=="},
                "type": "kubernetes.io/tls"
            }"#
        )
    );
}

#[test]
fn base64_covers_the_whole_alphabet() {
    let all: Vec<u8> = (0u8..=255).collect();
    let patch = merge_secret(vec![], "Opaque", texts(&[]), bytes(&[("all", &all)]));
    let theirs = serde_json::to_value(k8s_openapi::ByteString(all)).unwrap();
    let ours = to_serde(patch);
    assert_eq!(ours["data"]["all"], theirs);
    let text = theirs.as_str().unwrap();
    assert!(text.starts_with("AAECAwQFBgcICQoLDA0ODxAR"));
    assert!(text.ends_with("+fr7/P3+/w=="));
    assert!(ours["metadata"].get("labels").is_none());
    assert!(ours["metadata"].get("annotations").is_none());
}

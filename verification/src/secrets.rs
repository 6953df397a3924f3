//! The Kubernetes secrets that the operator writes.

use vstd::prelude::*;
use crate::encoding::{base64, byte_string_text};
use crate::json::{json_items, lemma_json_items, member, members, Json, JsonObject, JsonValue};
use crate::owner::{owner_json, owner_views, OwnerReference, OwnerView};
use crate::text_map::{entry_pairs, pairs_map, TextMap};

verus! {

/// A secret to create.
pub struct SecretManifest {
    pub name: String,
    pub namespace: String,
    pub labels: TextMap<String>,
    pub annotations: TextMap<String>,
    pub owner_references: Vec<OwnerReference>,
    pub string_data: TextMap<String>,
    pub data: TextMap<Vec<u8>>,
    pub type_: String,
}

/// What a secret to create holds.
pub struct ManifestView {
    pub name: Seq<char>,
    pub namespace: Seq<char>,
    pub labels: Map<Seq<char>, Seq<char>>,
    pub annotations: Map<Seq<char>, Seq<char>>,
    pub owner_references: Seq<OwnerView>,
    pub string_data: Map<Seq<char>, Seq<char>>,
    pub data: Map<Seq<char>, Seq<u8>>,
    pub type_: Seq<char>,
}

impl View for SecretManifest {
    type V = ManifestView;

    open spec fn view(&self) -> ManifestView {
        ManifestView {
            name: self.name@,
            namespace: self.namespace@,
            labels: self.labels@,
            annotations: self.annotations@,
            owner_references: owner_views(self.owner_references@),
            string_data: self.string_data@,
            data: self.data@,
            type_: self.type_@,
        }
    }
}

/// The secret that holds the given data, owned by `owner_ref` alone.
pub fn create_secret(
    owner_ref: OwnerReference,
    name: &str,
    namespace: &str,
    type_: &str,
    string_secrets: TextMap<String>,
    secrets: TextMap<Vec<u8>>,
    labels: TextMap<String>,
    annotations: TextMap<String>,
) -> (secret: SecretManifest)
    ensures
        secret@ == (ManifestView {
            name: name@,
            namespace: namespace@,
            labels: labels@,
            annotations: annotations@,
            owner_references: seq![owner_ref@],
            string_data: string_secrets@,
            data: secrets@,
            type_: type_@,
        }),
{
    let mut owner_references: Vec<OwnerReference> = Vec::new();
    owner_references.push(owner_ref);
    assert(owner_views(owner_references@) =~= seq![owner_ref@]);
    SecretManifest {
        name: name.to_owned(),
        namespace: namespace.to_owned(),
        labels,
        annotations,
        owner_references,
        string_data: string_secrets,
        data: secrets,
        type_: type_.to_owned(),
    }
}

pub open spec fn text_json() -> spec_fn(Seq<char>) -> Json {
    |text: Seq<char>| Json::Text(text)
}

pub open spec fn bytes_json() -> spec_fn(Seq<u8>) -> Json {
    |bytes: Seq<u8>| Json::Text(base64(bytes))
}

pub open spec fn owners_json(owners: Seq<OwnerView>) -> Seq<Json> {
    Seq::new(owners.len(), |i: int| owner_json(owners[i]))
}

/// The patch that writes the given data and owners into an existing secret:
/// texts as they are, bytes in base64.
pub open spec fn secret_patch(
    owners: Seq<OwnerView>,
    type_: Seq<char>,
    string_secrets: Map<Seq<char>, Seq<char>>,
    secrets: Map<Seq<char>, Seq<u8>>,
) -> Json {
    Json::Object(
        Map::<Seq<char>, Json>::empty().insert(
            "metadata"@,
            Json::Object(
                Map::<Seq<char>, Json>::empty().insert(
                    "ownerReferences"@,
                    Json::Array(owners_json(owners)),
                ),
            ),
        ).insert("stringData"@, Json::Object(string_secrets.map_values(text_json()))).insert(
            "data"@,
            Json::Object(secrets.map_values(bytes_json())),
        ).insert("type"@, Json::Text(type_)),
    )
}

/// The JSON object of a map of texts.
fn texts_object(texts: TextMap<String>) -> (object: JsonObject)
    ensures
        object@ == texts@.map_values(text_json()),
{
    let mut rest: Vec<(String, String)> = texts.into_entries();
    let ghost pairs = entry_pairs(rest@);
    let ghost mut done: int = 0;
    let mut object: JsonObject = JsonObject::new();
    proof {
        assert(pairs.take(0) =~= Seq::empty());
        assert(pairs.skip(0) =~= pairs);
        assert(object@ =~= pairs_map(pairs.take(0)).map_values(text_json()));
    }
    while rest.len() > 0
        invariant
            0 <= done <= pairs.len(),
            entry_pairs(rest@) == pairs.skip(done),
            object@ == pairs_map(pairs.take(done)).map_values(text_json()),
        decreases rest@.len(),
    {
        let ghost before = rest@;
        let ghost earlier = object@;
        let (key, text) = rest.remove(0);
        object.insert(key, JsonValue::Text(text));
        proof {
            assert(entry_pairs(before).len() == before.len());
            assert(pairs.skip(done)[0] == pairs[done]);
            assert(entry_pairs(before)[0] == pairs[done]);
            assert(pairs.take(done + 1).drop_last() =~= pairs.take(done));
            assert(entry_pairs(rest@) =~= entry_pairs(before).skip(1));
            assert(pairs.skip(done).skip(1) =~= pairs.skip(done + 1));
            assert(object@ =~= pairs_map(pairs.take(done + 1)).map_values(text_json()));
            done = done + 1;
        }
    }
    proof {
        assert(entry_pairs(rest@).len() == 0);
        assert(pairs.take(done) =~= pairs);
    }
    object
}

/// The JSON object of a map of bytes.
fn bytes_object(values: TextMap<Vec<u8>>) -> (object: JsonObject)
    ensures
        object@ == values@.map_values(bytes_json()),
{
    let mut rest: Vec<(String, Vec<u8>)> = values.into_entries();
    let ghost pairs = entry_pairs(rest@);
    let ghost mut done: int = 0;
    let mut object: JsonObject = JsonObject::new();
    proof {
        assert(pairs.take(0) =~= Seq::empty());
        assert(pairs.skip(0) =~= pairs);
        assert(object@ =~= pairs_map(pairs.take(0)).map_values(bytes_json()));
    }
    while rest.len() > 0
        invariant
            0 <= done <= pairs.len(),
            entry_pairs(rest@) == pairs.skip(done),
            object@ == pairs_map(pairs.take(done)).map_values(bytes_json()),
        decreases rest@.len(),
    {
        let ghost before = rest@;
        let (key, bytes) = rest.remove(0);
        object.insert(key, JsonValue::Text(byte_string_text(bytes)));
        proof {
            assert(entry_pairs(before).len() == before.len());
            assert(pairs.skip(done)[0] == pairs[done]);
            assert(entry_pairs(before)[0] == pairs[done]);
            assert(pairs.take(done + 1).drop_last() =~= pairs.take(done));
            assert(entry_pairs(rest@) =~= entry_pairs(before).skip(1));
            assert(pairs.skip(done).skip(1) =~= pairs.skip(done + 1));
            assert(object@ =~= pairs_map(pairs.take(done + 1)).map_values(bytes_json()));
            done = done + 1;
        }
    }
    proof {
        assert(entry_pairs(rest@).len() == 0);
        assert(pairs.take(done) =~= pairs);
    }
    object
}

/// The JSON documents of owner references.
fn owners_array(owners: &Vec<OwnerReference>) -> (items: Vec<JsonValue>)
    ensures
        json_items(items@) == owners_json(owner_views(owners@)),
{
    let mut items: Vec<JsonValue> = Vec::new();
    let mut i: usize = 0;
    while i < owners.len()
        invariant
            i <= owners@.len(),
            items@.len() == i,
            forall|k: int| 0 <= k < i ==> (#[trigger] items@[k]).view() == owner_json(owners@[k]@),
        decreases owners@.len() - i,
    {
        items.push(owners[i].to_json());
        i = i + 1;
    }
    proof {
        lemma_json_items(items@);
        assert(json_items(items@) =~= owners_json(owner_views(owners@)));
    }
    items
}

/// The patch that writes the given data and owners into an existing secret.
/// Labels and annotations of the secret are left alone.
pub fn merge_secret(
    owner_references: Vec<OwnerReference>,
    type_: &str,
    string_secrets: TextMap<String>,
    secrets: TextMap<Vec<u8>>,
) -> (patch: JsonValue)
    ensures
        patch@ == secret_patch(
            owner_views(owner_references@),
            type_@,
            string_secrets@,
            secrets@,
        ),
{
    let mut metadata: JsonObject = JsonObject::new();
    metadata.insert(
        "ownerReferences".to_owned(),
        JsonValue::Array(owners_array(&owner_references)),
    );
    let mut object: JsonObject = JsonObject::new();
    object.insert("metadata".to_owned(), JsonValue::Object(metadata));
    object.insert("stringData".to_owned(), JsonValue::Object(texts_object(string_secrets)));
    object.insert("data".to_owned(), JsonValue::Object(bytes_object(secrets)));
    object.insert("type".to_owned(), JsonValue::Text(type_.to_owned()));
    JsonValue::Object(object)
}

/// The patch of an existing secret holds its type, its owners, every text as
/// it is and every value in base64, and nothing else: labels and annotations
/// of the secret stay as they are.
pub proof fn law_patch_holds_the_data(
    owners: Seq<OwnerView>,
    type_: Seq<char>,
    string_secrets: Map<Seq<char>, Seq<char>>,
    secrets: Map<Seq<char>, Seq<u8>>,
)
    ensures
        members(secret_patch(owners, type_, string_secrets, secrets)).dom() == set![
            "metadata"@,
            "stringData"@,
            "data"@,
            "type"@,
        ],
        member(secret_patch(owners, type_, string_secrets, secrets), "type"@) == Json::Text(type_),
        member(secret_patch(owners, type_, string_secrets, secrets), "metadata"@) == Json::Object(
            Map::<Seq<char>, Json>::empty().insert(
                "ownerReferences"@,
                Json::Array(owners_json(owners)),
            ),
        ),
        member(secret_patch(owners, type_, string_secrets, secrets), "stringData"@) matches Json::Object(
            texts,
        ) && texts.dom() == string_secrets.dom() && forall|key: Seq<char>|
            string_secrets.contains_key(key) ==> #[trigger] texts[key] == Json::Text(
                string_secrets[key],
            ),
        member(secret_patch(owners, type_, string_secrets, secrets), "data"@) matches Json::Object(
            values,
        ) && values.dom() == secrets.dom() && forall|key: Seq<char>|
            secrets.contains_key(key) ==> #[trigger] values[key] == Json::Text(
                base64(secrets[key]),
            ),
{
    reveal_strlit("metadata");
    reveal_strlit("stringData");
    reveal_strlit("data");
    reveal_strlit("type");
    assert("metadata"@.len() == 8 && "stringData"@.len() == 10 && "data"@.len() == 4
        && "type"@.len() == 4);
    assert("data"@[0] != "type"@[0]);
    assert(string_secrets.map_values(text_json()).dom() =~= string_secrets.dom());
    assert(secrets.map_values(bytes_json()).dom() =~= secrets.dom());
    assert(members(secret_patch(owners, type_, string_secrets, secrets)).dom() =~= set![
        "metadata"@,
        "stringData"@,
        "data"@,
        "type"@,
    ]);
}

/// Every owner is written, in its place.
pub proof fn law_every_owner_is_written(owners: Seq<OwnerView>)
    ensures
        owners_json(owners).len() == owners.len(),
        forall|i: int|
            0 <= i < owners.len() ==> #[trigger] owners_json(owners)[i] == owner_json(owners[i]),
{
}

/// A secret to create is what its parts say.
pub proof fn law_manifest(secret: SecretManifest)
    ensures
        secret@.name == secret.name@,
        secret@.namespace == secret.namespace@,
        secret@.type_ == secret.type_@,
        secret@.labels == secret.labels@,
        secret@.annotations == secret.annotations@,
        secret@.string_data == secret.string_data@,
        secret@.data == secret.data@,
        secret@.owner_references.len() == secret.owner_references@.len(),
        forall|i: int|
            0 <= i < secret.owner_references@.len() ==> #[trigger] secret@.owner_references[i]
                == secret.owner_references@[i]@,
{
}

} // verus!

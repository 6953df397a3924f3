//! References from a secret to the resources that own it.

use vstd::prelude::*;
use crate::crd::v2::{resource_api_version, SecretView};
use crate::crd::{get_api_version, get_kind, resource_kind, WardenSecret};
use crate::error::{Error, ErrorView};
use crate::json::{member, members, Json, JsonObject, JsonValue};
use crate::search::{first_where, lemma_first_where, lemma_first_where_unique};
use crate::text::same_text;

verus! {

/// A reference to a resource that owns another one.
#[derive(Debug, PartialEq, Eq)]
pub struct OwnerReference {
    pub api_version: String,
    pub kind: String,
    pub name: String,
    pub uid: String,
    pub block_owner_deletion: Option<bool>,
    pub controller: Option<bool>,
}

/// What an owner reference says.
pub struct OwnerView {
    pub api_version: Seq<char>,
    pub kind: Seq<char>,
    pub name: Seq<char>,
    pub uid: Seq<char>,
    pub block_owner_deletion: Option<bool>,
    pub controller: Option<bool>,
}

impl View for OwnerReference {
    type V = OwnerView;

    open spec fn view(&self) -> OwnerView {
        OwnerView {
            api_version: self.api_version@,
            kind: self.kind@,
            name: self.name@,
            uid: self.uid@,
            block_owner_deletion: self.block_owner_deletion,
            controller: self.controller,
        }
    }
}

/// What each owner reference of a list says.
pub open spec fn owner_views(owners: Seq<OwnerReference>) -> Seq<OwnerView> {
    owners.map_values(|owner: OwnerReference| owner@)
}

pub open spec fn with_uid(uid: Seq<char>) -> spec_fn(OwnerView) -> bool {
    |owner: OwnerView| owner.uid == uid
}

/// The owners with `owner` in the place of the first one that has its `uid`,
/// or at the end if none has.
pub open spec fn with_owner(owners: Seq<OwnerView>, owner: OwnerView) -> Seq<OwnerView> {
    let first = first_where(owners, with_uid(owner.uid));
    if first < owners.len() {
        owners.update(first, owner)
    } else {
        owners.push(owner)
    }
}

/// Puts `owner_ref` in the place of the first reference that has its `uid`,
/// or at the end if none has.
pub fn add_or_update_owner_ref(
    owner_references: &mut Vec<OwnerReference>,
    owner_ref: OwnerReference,
)
    ensures
        owner_views(final(owner_references)@) == with_owner(
            owner_views(old(owner_references)@),
            owner_ref@,
        ),
{
    let ghost owners = owner_views(owner_references@);
    let mut i: usize = 0;
    while i < owner_references.len()
        invariant
            i <= owner_references@.len(),
            owners == owner_views(owner_references@),
            owners == owner_views(old(owner_references)@),
            forall|j: int| 0 <= j < i ==> !with_uid(owner_ref@.uid)(#[trigger] owners[j]),
        decreases owner_references@.len() - i,
    {
        if same_text(owner_references[i].uid.as_str(), owner_ref.uid.as_str()) {
            proof {
                lemma_first_where_unique(owners, with_uid(owner_ref@.uid), i as int);
            }
            owner_references.set(i, owner_ref);
            assert(owner_views(owner_references@) =~= owners.update(i as int, owner_ref@));
            return ;
        }
        i = i + 1;
    }
    proof {
        lemma_first_where_unique(owners, with_uid(owner_ref@.uid), i as int);
    }
    owner_references.push(owner_ref);
    assert(owner_views(owner_references@) =~= owners.push(owner_ref@));
}

/// The reference that makes a resource the owner of its secret.
pub open spec fn owner_of(resource: SecretView) -> OwnerView {
    OwnerView {
        api_version: resource_api_version(),
        kind: resource_kind(),
        name: resource.metadata.name->0,
        uid: resource.metadata.uid->0,
        block_owner_deletion: Some(true),
        controller: None,
    }
}

/// Why a resource cannot own a secret: it has no name.
pub open spec fn nameless(resource: SecretView) -> ErrorView {
    ErrorView::UserInputError(
        "BitwardenSecret without name, uid: "@ + resource.metadata.uid->0,
    )
}

/// The reference that makes a resource the owner of its secret; a resource
/// without a name is refused.
pub fn create_owner_ref_for(resource: &WardenSecret) -> (r: Result<OwnerReference, Error>)
    requires
        resource.metadata.uid is Some,
    ensures
        match r {
            Ok(owner) => resource@.metadata.name is Some && owner@ == owner_of(resource@),
            Err(error) => resource@.metadata.name is None && error@ == nameless(resource@),
        },
{
    let uid: String = match &resource.metadata.uid {
        Some(uid) => uid.clone(),
        None => String::new(),
    };
    match &resource.metadata.name {
        Some(name) => Ok(
            OwnerReference {
                api_version: get_api_version().to_owned(),
                kind: get_kind().to_owned(),
                name: name.clone(),
                uid,
                block_owner_deletion: Some(true),
                controller: None,
            },
        ),
        None => Err(
            Error::UserInputError(
                "BitwardenSecret without name, uid: ".to_owned().concat(uid.as_str()),
            ),
        ),
    }
}

/// `members` with `key` added if there is a truth value for it.
pub open spec fn with_flag(
    members: Map<Seq<char>, Json>,
    key: Seq<char>,
    flag: Option<bool>,
) -> Map<Seq<char>, Json> {
    match flag {
        Some(flag) => members.insert(key, Json::Bool(flag)),
        None => members,
    }
}

/// The JSON document of an owner reference; absent flags are left out.
pub open spec fn owner_json(owner: OwnerView) -> Json {
    let base = Map::<Seq<char>, Json>::empty().insert(
        "apiVersion"@,
        Json::Text(owner.api_version),
    ).insert("kind"@, Json::Text(owner.kind)).insert("name"@, Json::Text(owner.name)).insert(
        "uid"@,
        Json::Text(owner.uid),
    );
    Json::Object(
        with_flag(
            with_flag(base, "blockOwnerDeletion"@, owner.block_owner_deletion),
            "controller"@,
            owner.controller,
        ),
    )
}

impl OwnerReference {
    /// The JSON document of the owner reference.
    pub fn to_json(&self) -> (document: JsonValue)
        ensures
            document@ == owner_json(self@),
    {
        let mut object: JsonObject = JsonObject::new();
        object.insert("apiVersion".to_owned(), JsonValue::Text(self.api_version.clone()));
        object.insert("kind".to_owned(), JsonValue::Text(self.kind.clone()));
        object.insert("name".to_owned(), JsonValue::Text(self.name.clone()));
        object.insert("uid".to_owned(), JsonValue::Text(self.uid.clone()));
        match self.block_owner_deletion {
            Some(flag) => object.insert("blockOwnerDeletion".to_owned(), JsonValue::Bool(flag)),
            None => {},
        }
        match self.controller {
            Some(flag) => object.insert("controller".to_owned(), JsonValue::Bool(flag)),
            None => {},
        }
        JsonValue::Object(object)
    }
}

/// No two owners have the same `uid`.
pub open spec fn distinct_owners(owners: Seq<OwnerView>) -> bool {
    forall|i: int, j: int|
        0 <= i < j < owners.len() ==> (#[trigger] owners[i]).uid != (#[trigger] owners[j]).uid
}

/// After an owner has been added it is among the owners, every owner with
/// another `uid` is still at its place, no owner is dropped, distinct owners
/// stay distinct, and adding it once more changes nothing.
pub proof fn law_with_owner(owners: Seq<OwnerView>, owner: OwnerView)
    ensures
        with_owner(owners, owner).contains(owner),
        owners.len() <= with_owner(owners, owner).len() <= owners.len() + 1,
        forall|i: int|
            0 <= i < owners.len() && owners[i].uid != owner.uid
                ==> #[trigger] with_owner(owners, owner)[i] == owners[i],
        distinct_owners(owners) ==> distinct_owners(with_owner(owners, owner)),
        with_owner(with_owner(owners, owner), owner) == with_owner(owners, owner),
{
    let p = with_uid(owner.uid);
    let first = first_where(owners, p);
    let after = with_owner(owners, owner);
    lemma_first_where(owners, p);
    assert(after[first] == owner);
    assert forall|j: int| 0 <= j < first implies !p(#[trigger] after[j]) by {
        assert(!p(owners[j]));
    }
    lemma_first_where_unique(after, p, first);
    assert(after.update(first, owner) =~= after);
    if distinct_owners(owners) {
        assert forall|i: int, j: int| 0 <= i < j < after.len() implies (#[trigger] after[i]).uid
            != (#[trigger] after[j]).uid by {
            if i < owners.len() && j < owners.len() {
                assert(owners[i].uid != owners[j].uid);
            } else {
                assert(!p(owners[i]));
            }
        }
    }
}

/// The first owner with the same `uid` gives its place to the new one; without
/// any the new one comes last. Nothing else changes.
pub proof fn law_first_same_owner_is_replaced(owners: Seq<OwnerView>, owner: OwnerView, i: int)
    requires
        0 <= i <= owners.len(),
        i < owners.len() ==> owners[i].uid == owner.uid,
        forall|j: int| 0 <= j < i ==> (#[trigger] owners[j]).uid != owner.uid,
    ensures
        i < owners.len() ==> with_owner(owners, owner) == owners.update(i, owner),
        i == owners.len() ==> with_owner(owners, owner) == owners.push(owner),
{
    assert forall|j: int| 0 <= j < i implies !with_uid(owner.uid)(#[trigger] owners[j]) by {
        assert(owners[j].uid != owner.uid);
    }
    lemma_first_where_unique(owners, with_uid(owner.uid), i);
}

/// The reference to a resource has its name and its `uid` and blocks its
/// deletion; it does not claim to control the secret. A resource without a
/// name is refused with its `uid`.
pub proof fn law_owner_of(resource: WardenSecret)
    requires
        resource.metadata.uid is Some,
    ensures
        owner_of(resource@).uid == resource.metadata.uid->0@,
        resource.metadata.name is Some ==> owner_of(resource@).name == resource.metadata.name->0@,
        owner_of(resource@).api_version == "tomjo.net/v2"@,
        owner_of(resource@).kind == "WardenSecret"@,
        owner_of(resource@).block_owner_deletion == Some(true),
        owner_of(resource@).controller is None,
        nameless(resource@) == ErrorView::UserInputError(
            "BitwardenSecret without name, uid: "@ + resource.metadata.uid->0@,
        ),
{
}

/// The document of an owner reference has its four texts, its flags if there
/// are any, and nothing else.
pub proof fn law_owner_document(owner: OwnerReference)
    ensures
        member(owner_json(owner@), "apiVersion"@) == Json::Text(owner.api_version@),
        member(owner_json(owner@), "kind"@) == Json::Text(owner.kind@),
        member(owner_json(owner@), "name"@) == Json::Text(owner.name@),
        member(owner_json(owner@), "uid"@) == Json::Text(owner.uid@),
        members(owner_json(owner@)).contains_key("blockOwnerDeletion"@)
            <==> owner.block_owner_deletion is Some,
        owner.block_owner_deletion matches Some(flag) ==> member(
            owner_json(owner@),
            "blockOwnerDeletion"@,
        ) == Json::Bool(flag),
        members(owner_json(owner@)).contains_key("controller"@) <==> owner.controller is Some,
        owner.controller matches Some(flag) ==> member(owner_json(owner@), "controller"@)
            == Json::Bool(flag),
        forall|key: Seq<char>| #[trigger]
            members(owner_json(owner@)).contains_key(key) ==> key == "apiVersion"@ || key
                == "kind"@ || key == "name"@ || key == "uid"@ || key == "blockOwnerDeletion"@
                || key == "controller"@,
{
    reveal_strlit("apiVersion");
    reveal_strlit("kind");
    reveal_strlit("name");
    reveal_strlit("uid");
    reveal_strlit("blockOwnerDeletion");
    reveal_strlit("controller");
    assert("apiVersion"@.len() == 10 && "kind"@.len() == 4 && "name"@.len() == 4 && "uid"@.len()
        == 3 && "blockOwnerDeletion"@.len() == 18 && "controller"@.len() == 10);
    assert("kind"@[0] != "name"@[0]);
    assert("apiVersion"@[0] != "controller"@[0]);
}

/// Each owner of a list is kept, in its place.
pub proof fn law_owners(owners: Seq<OwnerReference>)
    ensures
        owner_views(owners).len() == owners.len(),
        forall|i: int| 0 <= i < owners.len() ==> #[trigger] owner_views(owners)[i] == owners[i]@,
        forall|i: int|
            0 <= i < owners.len() ==> {
                let owner = #[trigger] owners[i];
                &&& owner@.api_version == owner.api_version@
                &&& owner@.kind == owner.kind@
                &&& owner@.name == owner.name@
                &&& owner@.uid == owner.uid@
                &&& owner@.block_owner_deletion == owner.block_owner_deletion
                &&& owner@.controller == owner.controller
            },
{
}

} // verus!

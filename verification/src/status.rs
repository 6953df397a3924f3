//! How the status of a resource changes, and the patches that the operator
//! sends for it.

use vstd::prelude::*;
use crate::bw::{CommandErrorView, WardenCommandError};
use crate::clock::{is_utc_timestamp, now_rfc3339};
use crate::crd::v2::{
    condition_views, of_type_ready, resource_api_version, status_json, ConditionView, StatusView,
};
use crate::crd::{
    get_api_version, get_kind, resource_kind, ApplyCondition, ConditionStatus, ConditionType,
    WardenSecretStatus,
};
use crate::json::{json_items, lemma_json_items, member, members, Json, JsonObject, JsonValue};
use crate::search::{lemma_first_where, lemma_first_where_unique};

verus! {

/// The name under which the operator owns the status fields that it applies.
pub const FIELD_MANAGER: &'static str = "bitwarden-operator";

/// The status with `condition` in the place of its first `Ready` condition,
/// or at the end if it has none.
pub open spec fn with_ready_condition(status: StatusView, condition: ConditionView) -> StatusView {
    let first = status.ready_position();
    StatusView {
        conditions: if first < status.conditions.len() {
            status.conditions.update(first, condition)
        } else {
            status.conditions.push(condition)
        },
        ..status
    }
}

/// Puts a `Ready` condition in the place of the first one of the status, or
/// at the end if the status has none.
pub fn update_ready_condition(
    status: WardenSecretStatus,
    new_condition: ApplyCondition,
) -> (r: WardenSecretStatus)
    requires
        new_condition.type_ == ConditionType::Ready,
    ensures
        r@ == with_ready_condition(status@, new_condition@),
{
    let position: usize = status.find_ready();
    let ghost before = condition_views(status.conditions@);
    let WardenSecretStatus { conditions, start_time, observed_generation } = status;
    let mut conditions: Vec<ApplyCondition> = conditions;
    if position < conditions.len() {
        conditions.set(position, new_condition);
        assert(condition_views(conditions@) =~= before.update(position as int, new_condition@));
    } else {
        conditions.push(new_condition);
        assert(condition_views(conditions@) =~= before.push(new_condition@));
    }
    WardenSecretStatus { conditions, start_time, observed_generation }
}

/// The status after an attempt to write the secret: its `Ready` condition
/// tells whether the attempt succeeded, and the time of its last transition
/// changes only if its status does.
pub open spec fn updated_status(
    status: StatusView,
    error: Option<CommandErrorView>,
    now: Seq<char>,
) -> StatusView {
    let first = status.ready_position();
    let outcome = if error is Some {
        ConditionStatus::False
    } else {
        ConditionStatus::True
    };
    with_ready_condition(
        status,
        ConditionView {
            status: outcome,
            reason: match error {
                Some(error) => Some(error.text()),
                None => None,
            },
            message: if error is Some {
                Some("Could not fetch secret"@)
            } else {
                None
            },
            type_: ConditionType::Ready,
            last_transition: if first < status.conditions.len() && status.conditions[first].status
                == outcome {
                status.conditions[first].last_transition
            } else {
                now
            },
        },
    )
}

/// What an optional error says.
pub open spec fn optional_error(error: Option<WardenCommandError>) -> Option<CommandErrorView> {
    match error {
        Some(error) => Some(error@),
        None => None,
    }
}

/// The status to write after an attempt to write the secret, taking `now` for
/// the current time.
pub fn update_status_at(
    status: WardenSecretStatus,
    error: Option<WardenCommandError>,
    now: String,
) -> (r: WardenSecretStatus)
    ensures
        r@ == updated_status(status@, optional_error(error), now@),
{
    let position: usize = status.find_ready();
    let (outcome, message, reason) = match error {
        Some(error) => (
            ConditionStatus::False,
            Some("Could not fetch secret".to_owned()),
            Some(error.to_text()),
        ),
        None => (ConditionStatus::True, None, None),
    };
    let last_transition: String = if position < status.conditions.len()
        && status.conditions[position].status == outcome {
        status.conditions[position].last_transition.clone()
    } else {
        now
    };
    update_ready_condition(
        status,
        ApplyCondition {
            status: outcome,
            reason,
            message,
            type_: ConditionType::Ready,
            last_transition,
        },
    )
}

/// The status to write after an attempt to write the secret.
pub fn update_status(
    status: WardenSecretStatus,
    error: Option<WardenCommandError>,
) -> (r: WardenSecretStatus)
    ensures
        exists|now: Seq<char>| #[trigger]
            is_utc_timestamp(now) && r@ == updated_status(status@, optional_error(error), now),
{
    let now: String = now_rfc3339();
    update_status_at(status, error, now)
}

/// The patch that writes a status.
pub open spec fn status_patch(status: StatusView) -> Json {
    Json::Object(
        Map::<Seq<char>, Json>::empty().insert(
            "apiVersion"@,
            Json::Text(resource_api_version()),
        ).insert("kind"@, Json::Text(resource_kind())).insert("status"@, status_json(status)),
    )
}

/// The patch that writes a status.
pub fn patch_status(status: &WardenSecretStatus) -> (patch: JsonValue)
    ensures
        patch@ == status_patch(status@),
{
    let mut object: JsonObject = JsonObject::new();
    object.insert("apiVersion".to_owned(), JsonValue::Text(get_api_version().to_owned()));
    object.insert("kind".to_owned(), JsonValue::Text(get_kind().to_owned()));
    object.insert("status".to_owned(), status.to_json());
    JsonValue::Object(object)
}

/// The patch that sets the finalizers of a resource.
pub open spec fn finalizers_patch(finalizers: Json) -> Json {
    Json::Object(
        Map::<Seq<char>, Json>::empty().insert(
            "metadata"@,
            Json::Object(Map::<Seq<char>, Json>::empty().insert("finalizers"@, finalizers)),
        ),
    )
}

/// The patch that sets the finalizers of a resource.
fn patch_finalizers(finalizers: JsonValue) -> (patch: JsonValue)
    ensures
        patch@ == finalizers_patch(finalizers@),
{
    let mut metadata: JsonObject = JsonObject::new();
    metadata.insert("finalizers".to_owned(), finalizers);
    let mut object: JsonObject = JsonObject::new();
    object.insert("metadata".to_owned(), JsonValue::Object(metadata));
    JsonValue::Object(object)
}

/// The finalizer of the operator, alone.
pub open spec fn own_finalizer() -> Json {
    Json::Array(seq![Json::Text("bitwardensecrets.tomjo.net/finalizer.secret"@)])
}

/// The patch that adds the finalizer of the operator to a resource.
pub fn add_finalizer() -> (patch: JsonValue)
    ensures
        patch@ == finalizers_patch(own_finalizer()),
{
    let mut finalizers: Vec<JsonValue> = Vec::new();
    finalizers.push(JsonValue::Text("bitwardensecrets.tomjo.net/finalizer.secret".to_owned()));
    proof {
        lemma_json_items(finalizers@);
        assert(json_items(finalizers@) =~= seq![
            Json::Text("bitwardensecrets.tomjo.net/finalizer.secret"@),
        ]);
    }
    patch_finalizers(JsonValue::Array(finalizers))
}

/// The patch that removes the finalizers of a resource, if the resource still exists.
pub fn delete_finalizer(has_resource: bool) -> (patch: Option<JsonValue>)
    ensures
        patch is Some <==> has_resource,
        patch matches Some(patch) ==> patch@ == finalizers_patch(Json::Null),
{
    if has_resource {
        Some(patch_finalizers(JsonValue::Null))
    } else {
        None
    }
}

/// Setting the `Ready` condition decides whether the status is ready, leaves
/// every condition of another kind and the rest of the status as they were,
/// and is done by the last setting alone.
pub proof fn law_ready_condition_is_set(
    status: StatusView,
    earlier: ConditionView,
    condition: ConditionView,
)
    requires
        earlier.type_ == ConditionType::Ready,
        condition.type_ == ConditionType::Ready,
    ensures
        with_ready_condition(status, condition).is_ready() <==> condition.status
            == ConditionStatus::True,
        with_ready_condition(status, condition).start_time == status.start_time,
        with_ready_condition(status, condition).observed_generation == status.observed_generation,
        forall|i: int|
            0 <= i < status.conditions.len() && i != status.ready_position()
                ==> #[trigger] with_ready_condition(status, condition).conditions[i]
                == status.conditions[i],
        with_ready_condition(with_ready_condition(status, earlier), condition)
            == with_ready_condition(status, condition),
{
    let first = status.ready_position();
    lemma_ready_position(status, earlier);
    lemma_ready_position(status, condition);
    assert(with_ready_condition(
        with_ready_condition(status, earlier),
        condition,
    ).conditions =~= with_ready_condition(status, condition).conditions);
}

/// A `Ready` condition that has been set is the first one.
proof fn lemma_ready_position(status: StatusView, condition: ConditionView)
    requires
        condition.type_ == ConditionType::Ready,
    ensures
        0 <= status.ready_position() <= status.conditions.len(),
        with_ready_condition(status, condition).ready_position() == status.ready_position(),
        status.ready_position() < with_ready_condition(status, condition).conditions.len(),
        with_ready_condition(status, condition).conditions[status.ready_position()] == condition,
{
    let p = of_type_ready();
    let first = status.ready_position();
    let after = with_ready_condition(status, condition).conditions;
    lemma_first_where(status.conditions, p);
    assert forall|j: int| 0 <= j < first implies !p(#[trigger] after[j]) by {
        assert(!p(status.conditions[j]));
    }
    lemma_first_where_unique(after, p, first);
}

/// After an attempt to write the secret the resource is ready exactly if the
/// attempt succeeded, and otherwise the reason of its `Ready` condition is the
/// message of the error. A second attempt with the same result changes
/// nothing, whenever it is made.
pub proof fn law_status_tells_the_outcome(
    status: StatusView,
    error: Option<CommandErrorView>,
    now: Seq<char>,
    later: Seq<char>,
)
    ensures
        updated_status(status, error, now).is_ready() <==> error is None,
        updated_status(status, error, now).ready_reason() == match error {
            Some(error) => Some(error.text()),
            None => None,
        },
        updated_status(updated_status(status, error, now), error, later) == updated_status(
            status,
            error,
            now,
        ),
{
    let first = status.ready_position();
    let after = updated_status(status, error, now);
    lemma_first_where(status.conditions, of_type_ready());
    let condition = if first < status.conditions.len() {
        after.conditions[first]
    } else {
        after.conditions.last()
    };
    lemma_ready_position(status, condition);
    assert(after == with_ready_condition(status, condition));
    let again = updated_status(after, error, later);
    assert(again.conditions =~= after.conditions);
}

/// The first `Ready` condition gives its place to the new one; without any the
/// new one comes last. Nothing else changes.
pub proof fn law_first_ready_condition_is_replaced(
    status: StatusView,
    condition: ConditionView,
    i: int,
)
    requires
        0 <= i <= status.conditions.len(),
        i < status.conditions.len() ==> status.conditions[i].type_ == ConditionType::Ready,
        forall|j: int|
            0 <= j < i ==> (#[trigger] status.conditions[j]).type_ != ConditionType::Ready,
    ensures
        i < status.conditions.len() ==> with_ready_condition(status, condition).conditions
            == status.conditions.update(i, condition),
        i == status.conditions.len() ==> with_ready_condition(status, condition).conditions
            == status.conditions.push(condition),
        with_ready_condition(status, condition).start_time == status.start_time,
        with_ready_condition(status, condition).observed_generation == status.observed_generation,
{
    assert forall|j: int| 0 <= j < i implies !of_type_ready()(
        #[trigger] status.conditions[j],
    ) by {
        assert(status.conditions[j].type_ != ConditionType::Ready);
    }
    lemma_first_where_unique(status.conditions, of_type_ready(), i);
}

/// An attempt to write the secret is told in the first `Ready` condition, or
/// in a new one at the end: false with the message of the error as its reason,
/// or true with neither reason nor message. The time of its last transition
/// stays if its status does, and is `now` otherwise. Nothing else changes.
pub proof fn law_outcome_is_told(
    status: StatusView,
    error: Option<CommandErrorView>,
    now: Seq<char>,
    i: int,
)
    requires
        0 <= i <= status.conditions.len(),
        i < status.conditions.len() ==> status.conditions[i].type_ == ConditionType::Ready,
        forall|j: int|
            0 <= j < i ==> (#[trigger] status.conditions[j]).type_ != ConditionType::Ready,
    ensures
        ({
            let after = updated_status(status, error, now);
            let told = after.conditions[i];
            &&& after.start_time == status.start_time
            &&& after.observed_generation == status.observed_generation
            &&& i < status.conditions.len() ==> after.conditions == status.conditions.update(i, told)
            &&& i == status.conditions.len() ==> after.conditions == status.conditions.push(told)
            &&& told.type_ == ConditionType::Ready
            &&& error is None ==> told.status == ConditionStatus::True && told.reason is None
                && told.message is None
            &&& error matches Some(e) ==> told.status == ConditionStatus::False && told.reason
                == Some(e.text()) && told.message == Some("Could not fetch secret"@)
            &&& i < status.conditions.len() && status.conditions[i].status == told.status
                ==> told.last_transition == status.conditions[i].last_transition
            &&& i == status.conditions.len() || status.conditions[i].status != told.status
                ==> told.last_transition == now
        }),
{
    assert forall|j: int| 0 <= j < i implies !of_type_ready()(
        #[trigger] status.conditions[j],
    ) by {
        assert(status.conditions[j].type_ != ConditionType::Ready);
    }
    lemma_first_where_unique(status.conditions, of_type_ready(), i);
}

/// The patch of a status names the resource type and holds the document of the
/// status; it is applied under the name of the operator.
pub proof fn law_status_patch(status: StatusView)
    ensures
        members(status_patch(status)).dom() == set!["apiVersion"@, "kind"@, "status"@],
        member(status_patch(status), "apiVersion"@) == Json::Text("tomjo.net/v2"@),
        member(status_patch(status), "kind"@) == Json::Text("WardenSecret"@),
        member(status_patch(status), "status"@) == status_json(status),
        FIELD_MANAGER@ == "bitwarden-operator"@,
{
    reveal_strlit("apiVersion");
    reveal_strlit("kind");
    reveal_strlit("status");
    assert("apiVersion"@.len() == 10 && "kind"@.len() == 4 && "status"@.len() == 6);
    assert(members(status_patch(status)).dom() =~= set!["apiVersion"@, "kind"@, "status"@]);
}

/// The patch of the finalizers sets them, and nothing else; the operator has
/// a single one.
pub proof fn law_finalizers_patch(finalizers: Json)
    ensures
        members(finalizers_patch(finalizers)).dom() == set!["metadata"@],
        members(member(finalizers_patch(finalizers), "metadata"@)).dom() == set!["finalizers"@],
        member(member(finalizers_patch(finalizers), "metadata"@), "finalizers"@) == finalizers,
        own_finalizer() == Json::Array(
            seq![Json::Text("bitwardensecrets.tomjo.net/finalizer.secret"@)],
        ),
{
    assert(members(finalizers_patch(finalizers)).dom() =~= set!["metadata"@]);
    assert(members(member(finalizers_patch(finalizers), "metadata"@)).dom() =~= set![
        "finalizers"@,
    ]);
}

/// An error is told exactly if there is one.
pub proof fn law_optional_error(error: Option<WardenCommandError>)
    ensures
        optional_error(error) is None <==> error is None,
        error matches Some(e) ==> optional_error(error) == Some(e@),
{
}

} // verus!

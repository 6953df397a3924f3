//! Version `tomjo.net/v2` of the custom resource.

use vstd::prelude::*;
use crate::json::{
    json_integer, json_items, lemma_json_items, member, members, Json, JsonObject, JsonValue,
};
use crate::search::{first_where, lemma_first_where_unique};
use crate::text::{optional, same_text};
use crate::text_map::TextMap;

verus! {

/// The specification of a `WardenSecret` resource: the type of the Kubernetes
/// secret to write, and the vault item to write into it.
#[derive(Clone, Debug, PartialEq)]
pub struct WardenSecretSpec {
    pub type_: String,
    pub item: String,
}

/// What a specification says.
pub struct SpecView {
    pub type_: Seq<char>,
    pub item: Seq<char>,
}

impl View for WardenSecretSpec {
    type V = SpecView;

    open spec fn view(&self) -> SpecView {
        SpecView { type_: self.type_@, item: self.item@ }
    }
}

/// Absence of condition should be interpreted as `Unknown`.
#[derive(Clone, Copy, Debug, PartialEq, Eq, Structural)]
pub enum ConditionStatus {
    True,
    False,
    Unknown,
}

#[derive(Clone, Copy, Debug, PartialEq, Eq, Structural)]
pub enum ConditionType {
    Ready,
    /// Any other type; a condition of it is never written.
    Unknown,
}

/// A condition of the resource.
#[derive(Clone, Debug, PartialEq)]
pub struct ApplyCondition {
    /// True when in a good state.
    pub status: ConditionStatus,
    /// Error reason type if not in a good state.
    pub reason: Option<String>,
    /// One sentence error message if not in a good state.
    pub message: Option<String>,
    /// An extensible enumeration: conditions of an unknown type get thrown away.
    pub type_: ConditionType,
    /// When the status of the condition last changed, in RFC 3339 format in UTC.
    pub last_transition: String,
}

/// What a condition says.
pub struct ConditionView {
    pub status: ConditionStatus,
    pub reason: Option<Seq<char>>,
    pub message: Option<Seq<char>>,
    pub type_: ConditionType,
    pub last_transition: Seq<char>,
}

impl View for ApplyCondition {
    type V = ConditionView;

    open spec fn view(&self) -> ConditionView {
        ConditionView {
            status: self.status,
            reason: optional(self.reason),
            message: optional(self.message),
            type_: self.type_,
            last_transition: self.last_transition@,
        }
    }
}

/// The status of a `WardenSecret` resource.
#[derive(Clone, Debug, PartialEq)]
pub struct WardenSecretStatus {
    pub conditions: Vec<ApplyCondition>,
    pub start_time: Option<String>,
    pub observed_generation: Option<i64>,
}

/// What a status says.
pub struct StatusView {
    pub conditions: Seq<ConditionView>,
    pub start_time: Option<Seq<char>>,
    pub observed_generation: Option<i64>,
}

/// What each condition of a list says.
pub open spec fn condition_views(conditions: Seq<ApplyCondition>) -> Seq<ConditionView> {
    conditions.map_values(|condition: ApplyCondition| condition@)
}

impl View for WardenSecretStatus {
    type V = StatusView;

    open spec fn view(&self) -> StatusView {
        StatusView {
            conditions: condition_views(self.conditions@),
            start_time: optional(self.start_time),
            observed_generation: self.observed_generation,
        }
    }
}

/// The metadata of a Kubernetes resource, as far as the operator reads it.
pub struct ObjectMeta {
    pub name: Option<String>,
    pub generate_name: Option<String>,
    pub namespace: Option<String>,
    pub uid: Option<String>,
    pub generation: Option<i64>,
    pub finalizers: Option<Vec<String>>,
    pub deletion_timestamp: Option<String>,
    pub labels: Option<TextMap<String>>,
    pub annotations: Option<TextMap<String>>,
}

/// What the metadata of a resource say.
pub struct MetaView {
    pub name: Option<Seq<char>>,
    pub generate_name: Option<Seq<char>>,
    pub namespace: Option<Seq<char>>,
    pub uid: Option<Seq<char>>,
    pub generation: Option<i64>,
    pub finalizers: Option<Seq<Seq<char>>>,
    pub deletion_timestamp: Option<Seq<char>>,
    pub labels: Option<Map<Seq<char>, Seq<char>>>,
    pub annotations: Option<Map<Seq<char>, Seq<char>>>,
}

/// An optional map.
pub open spec fn optional_map(map: Option<TextMap<String>>) -> Option<Map<Seq<char>, Seq<char>>> {
    match map {
        Some(map) => Some(map@),
        None => None,
    }
}

impl View for ObjectMeta {
    type V = MetaView;

    open spec fn view(&self) -> MetaView {
        MetaView {
            name: optional(self.name),
            generate_name: optional(self.generate_name),
            namespace: optional(self.namespace),
            uid: optional(self.uid),
            generation: self.generation,
            finalizers: match self.finalizers {
                Some(finalizers) => Some(crate::text::views(finalizers@)),
                None => None,
            },
            deletion_timestamp: optional(self.deletion_timestamp),
            labels: optional_map(self.labels),
            annotations: optional_map(self.annotations),
        }
    }
}

/// A `WardenSecret` resource.
pub struct WardenSecret {
    pub metadata: ObjectMeta,
    pub spec: WardenSecretSpec,
    pub status: Option<WardenSecretStatus>,
}

/// What a resource says.
pub struct SecretView {
    pub metadata: MetaView,
    pub spec: SpecView,
    pub status: Option<StatusView>,
}

impl View for WardenSecret {
    type V = SecretView;

    open spec fn view(&self) -> SecretView {
        SecretView {
            metadata: self.metadata@,
            spec: self.spec@,
            status: match self.status {
                Some(status) => Some(status@),
                None => None,
            },
        }
    }
}

impl ConditionStatus {
    /// The name of a condition status.
    pub open spec fn text(self) -> Seq<char> {
        match self {
            ConditionStatus::True => "True"@,
            ConditionStatus::False => "False"@,
            ConditionStatus::Unknown => "Unknown"@,
        }
    }

    /// The condition status with the given name; every other text is `Unknown`.
    pub open spec fn of_text(text: Seq<char>) -> ConditionStatus {
        if text == "True"@ {
            ConditionStatus::True
        } else if text == "False"@ {
            ConditionStatus::False
        } else {
            ConditionStatus::Unknown
        }
    }

    /// The condition status of a truth value.
    pub open spec fn of_bool(b: bool) -> ConditionStatus {
        if b {
            ConditionStatus::True
        } else {
            ConditionStatus::False
        }
    }

    /// The condition status that a JSON document stands for: a truth value or
    /// a name; everything else is `Unknown`.
    pub open spec fn of_json(document: Json) -> ConditionStatus {
        match document {
            Json::Bool(b) => ConditionStatus::of_bool(b),
            Json::Text(text) => ConditionStatus::of_text(text),
            _ => ConditionStatus::Unknown,
        }
    }

    /// The condition status with the given name; every other text is `Unknown`.
    pub fn from_str(s: &str) -> (status: Self)
        ensures
            status == ConditionStatus::of_text(s@),
    {
        if same_text(s, "True") {
            ConditionStatus::True
        } else if same_text(s, "False") {
            ConditionStatus::False
        } else {
            ConditionStatus::Unknown
        }
    }

    /// The name of the condition status.
    pub fn to_str(&self) -> (text: String)
        ensures
            text@ == self.text(),
    {
        let text: &str = match self {
            ConditionStatus::True => "True",
            ConditionStatus::False => "False",
            ConditionStatus::Unknown => "Unknown",
        };
        text.to_owned()
    }

    /// The condition status of a truth value.
    pub fn from_bool(b: bool) -> (status: Self)
        ensures
            status == ConditionStatus::of_bool(b),
    {
        if b {
            ConditionStatus::True
        } else {
            ConditionStatus::False
        }
    }

    /// Reads a condition status from a JSON document, be it a truth value or a name.
    pub fn deserialize_status_bool(value: &JsonValue) -> (status: Self)
        ensures
            status == ConditionStatus::of_json(value@),
    {
        match value {
            JsonValue::Bool(b) => ConditionStatus::from_bool(*b),
            JsonValue::Text(text) => ConditionStatus::from_str(text.as_str()),
            _ => ConditionStatus::Unknown,
        }
    }
}

impl Default for ConditionStatus {
    fn default() -> (status: Self)
        ensures
            status == ConditionStatus::Unknown,
    {
        ConditionStatus::Unknown
    }
}

impl Default for ConditionType {
    fn default() -> (type_: Self)
        ensures
            type_ == ConditionType::Unknown,
    {
        ConditionType::Unknown
    }
}

/// A condition status is read back from its name, and from the document that holds it.
pub proof fn law_condition_status_reads_back(status: ConditionStatus)
    ensures
        ConditionStatus::of_text(status.text()) == status,
        ConditionStatus::of_json(Json::Text(status.text())) == status,
{
    reveal_strlit("True");
    reveal_strlit("False");
    reveal_strlit("Unknown");
    assert("True"@.len() == 4 && "False"@.len() == 5 && "Unknown"@.len() == 7);
}

pub open spec fn of_type_ready() -> spec_fn(ConditionView) -> bool {
    |condition: ConditionView| condition.type_ == ConditionType::Ready
}

impl StatusView {
    /// The position of the first `Ready` condition.
    pub open spec fn ready_position(self) -> int {
        first_where(self.conditions, of_type_ready())
    }

    /// Whether the first `Ready` condition exists and is true.
    pub open spec fn is_ready(self) -> bool {
        let first = self.ready_position();
        first < self.conditions.len() && self.conditions[first].status == ConditionStatus::True
    }

    /// The reason of the first `Ready` condition.
    pub open spec fn ready_reason(self) -> Option<Seq<char>> {
        let first = self.ready_position();
        if first < self.conditions.len() {
            self.conditions[first].reason
        } else {
            None
        }
    }
}

impl WardenSecretStatus {
    /// The position of the first `Ready` condition, or the number of conditions.
    pub fn find_ready(&self) -> (position: usize)
        ensures
            position == self@.ready_position(),
            position <= self.conditions@.len(),
            position < self.conditions@.len() ==> self.conditions@[position as int].type_
                == ConditionType::Ready,
    {
        let ghost conditions = condition_views(self.conditions@);
        let mut i: usize = 0;
        while i < self.conditions.len()
            invariant
                i <= self.conditions@.len(),
                conditions == condition_views(self.conditions@),
                forall|j: int| 0 <= j < i ==> !of_type_ready()(#[trigger] conditions[j]),
            decreases self.conditions@.len() - i,
        {
            if self.conditions[i].type_ == ConditionType::Ready {
                proof {
                    lemma_first_where_unique(conditions, of_type_ready(), i as int);
                }
                return i;
            }
            i = i + 1;
        }
        proof {
            lemma_first_where_unique(conditions, of_type_ready(), i as int);
        }
        i
    }

    /// Whether the first `Ready` condition exists and is true.
    pub fn is_ready(&self) -> (r: bool)
        ensures
            r == self@.is_ready(),
    {
        let position: usize = self.find_ready();
        position < self.conditions.len() && self.conditions[position].status
            == ConditionStatus::True
    }
}

impl SecretView {
    /// The generation that the status was last written for.
    pub open spec fn observed_generation(self) -> Option<i64> {
        match self.status {
            Some(status) => status.observed_generation,
            None => None,
        }
    }
}

impl WardenSecret {
    /// The generation that the status was last written for.
    pub fn get_observed_generation(&self) -> (generation: Option<i64>)
        ensures
            generation == self@.observed_generation(),
    {
        match &self.status {
            Some(status) => status.observed_generation,
            None => None,
        }
    }
}

/// The API version of the custom resource.
pub open spec fn resource_api_version() -> Seq<char> {
    "tomjo.net/v2"@
}

/// The API version of the custom resource.
pub fn get_api_version() -> (version: &'static str)
    ensures
        version@ == resource_api_version(),
{
    "tomjo.net/v2"
}

/// The members of a condition that are always written.
pub open spec fn condition_base(condition: ConditionView) -> Map<Seq<char>, Json> {
    Map::<Seq<char>, Json>::empty().insert("status"@, Json::Text(condition.status.text())).insert(
        "type"@,
        Json::Text("Ready"@),
    ).insert("lastTransitionTime"@, Json::Text(condition.last_transition))
}

/// `members` with `key` added if there is a text for it.
pub open spec fn with_optional(
    members: Map<Seq<char>, Json>,
    key: Seq<char>,
    text: Option<Seq<char>>,
) -> Map<Seq<char>, Json> {
    match text {
        Some(text) => members.insert(key, Json::Text(text)),
        None => members,
    }
}

/// The JSON document of a `Ready` condition: a reason and a message are left out if absent.
pub open spec fn condition_json(condition: ConditionView) -> Json {
    Json::Object(
        with_optional(
            with_optional(condition_base(condition), "reason"@, condition.reason),
            "message"@,
            condition.message,
        ),
    )
}

pub open spec fn as_json() -> spec_fn(ConditionView) -> Json {
    |condition: ConditionView| condition_json(condition)
}

/// The JSON documents of the conditions that are written: those of an unknown
/// type are thrown away.
pub open spec fn written_conditions(conditions: Seq<ConditionView>) -> Seq<Json> {
    conditions.filter(of_type_ready()).map_values(as_json())
}

/// The JSON document of a status: the list of conditions is left out if empty.
pub open spec fn status_json(status: StatusView) -> Json {
    let base = Map::<Seq<char>, Json>::empty().insert(
        "startTime"@,
        match status.start_time {
            Some(start_time) => Json::Text(start_time),
            None => Json::Null,
        },
    ).insert(
        "observedGeneration"@,
        match status.observed_generation {
            Some(generation) => json_integer(generation as int),
            None => Json::Null,
        },
    );
    let written = written_conditions(status.conditions);
    Json::Object(
        if written.len() > 0 {
            base.insert("conditions"@, Json::Array(written))
        } else {
            base
        },
    )
}

impl ApplyCondition {
    /// The JSON document of a `Ready` condition.
    fn to_json(&self) -> (document: JsonValue)
        requires
            self.type_ == ConditionType::Ready,
        ensures
            document@ == condition_json(self@),
    {
        let mut object: JsonObject = JsonObject::new();
        object.insert("status".to_owned(), JsonValue::Text(self.status.to_str()));
        object.insert("type".to_owned(), JsonValue::Text("Ready".to_owned()));
        object.insert(
            "lastTransitionTime".to_owned(),
            JsonValue::Text(self.last_transition.clone()),
        );
        match &self.reason {
            Some(reason) => object.insert("reason".to_owned(), JsonValue::Text(reason.clone())),
            None => {},
        }
        match &self.message {
            Some(message) => object.insert("message".to_owned(), JsonValue::Text(message.clone())),
            None => {},
        }
        JsonValue::Object(object)
    }
}

impl WardenSecretStatus {
    /// The JSON document of the status.
    pub fn to_json(&self) -> (document: JsonValue)
        ensures
            document@ == status_json(self@),
    {
        let mut object: JsonObject = JsonObject::new();
        let start_time: JsonValue = match &self.start_time {
            Some(start_time) => JsonValue::Text(start_time.clone()),
            None => JsonValue::Null,
        };
        object.insert("startTime".to_owned(), start_time);
        let observed_generation: JsonValue = match self.observed_generation {
            Some(generation) => JsonValue::integer(generation),
            None => JsonValue::Null,
        };
        object.insert("observedGeneration".to_owned(), observed_generation);
        let ghost conditions = condition_views(self.conditions@);
        let mut written: Vec<JsonValue> = Vec::new();
        let mut i: usize = 0;
        proof {
            reveal(Seq::filter);
            assert(conditions.take(0) =~= Seq::empty());
            assert(json_items(written@) =~= written_conditions(conditions.take(0)));
        }
        while i < self.conditions.len()
            invariant
                i <= self.conditions@.len(),
                conditions == condition_views(self.conditions@),
                json_items(written@) == written_conditions(conditions.take(i as int)),
            decreases self.conditions@.len() - i,
        {
            proof {
                let longer = conditions.take(i + 1);
                reveal(Seq::filter);
                assert(longer.drop_last() =~= conditions.take(i as int));
                assert(longer.last() == self.conditions@[i as int]@);
                assert(written_conditions(longer) =~= if of_type_ready()(longer.last()) {
                    written_conditions(conditions.take(i as int)).push(
                        condition_json(longer.last()),
                    )
                } else {
                    written_conditions(conditions.take(i as int))
                });
            }
            if self.conditions[i].type_ == ConditionType::Ready {
                let ghost before = written@;
                written.push(self.conditions[i].to_json());
                proof {
                    assert(written@.drop_last() =~= before);
                }
            }
            i = i + 1;
        }
        proof {
            assert(conditions.take(i as int) =~= conditions);
            lemma_json_items(written@);
        }
        if written.len() > 0 {
            object.insert("conditions".to_owned(), JsonValue::Array(written));
        }
        JsonValue::Object(object)
    }
}

/// Only the names `True` and `False`, and the truth values, tell a condition
/// status; all else is `Unknown`.
pub proof fn law_condition_status_of(text: Seq<char>, document: Json)
    ensures
        ConditionStatus::True.text() == "True"@,
        ConditionStatus::False.text() == "False"@,
        ConditionStatus::Unknown.text() == "Unknown"@,
        ConditionStatus::of_text(text) == ConditionStatus::True <==> text == "True"@,
        ConditionStatus::of_text(text) == ConditionStatus::False <==> text == "False"@,
        ConditionStatus::of_bool(true) == ConditionStatus::True,
        ConditionStatus::of_bool(false) == ConditionStatus::False,
        ConditionStatus::of_json(document) == ConditionStatus::True <==> document == Json::Bool(
            true,
        ) || document == Json::Text("True"@),
        ConditionStatus::of_json(document) == ConditionStatus::False <==> document == Json::Bool(
            false,
        ) || document == Json::Text("False"@),
{
    reveal_strlit("True");
    reveal_strlit("False");
    assert("True"@.len() == 4 && "False"@.len() == 5);
}

/// The first `Ready` condition decides whether a resource is ready: it is
/// exactly if that condition is true. Without one it is not.
pub proof fn law_first_ready_condition_decides(status: WardenSecretStatus, i: int)
    requires
        0 <= i <= status.conditions@.len(),
        i < status.conditions@.len() ==> status.conditions@[i].type_ == ConditionType::Ready,
        forall|j: int|
            0 <= j < i ==> (#[trigger] status.conditions@[j]).type_ != ConditionType::Ready,
    ensures
        status@.ready_position() == i,
        status@.is_ready() <==> i < status.conditions@.len() && status.conditions@[i].status
            == ConditionStatus::True,
{
    let conditions = status@.conditions;
    assert forall|j: int| 0 <= j < i implies !of_type_ready()(#[trigger] conditions[j]) by {
        assert(status.conditions@[j].type_ != ConditionType::Ready);
    }
    lemma_first_where_unique(conditions, of_type_ready(), i);
}

/// The observed generation is that of the status, and none without a status.
pub proof fn law_observed_generation(resource: WardenSecret)
    ensures
        resource.status is None ==> resource@.observed_generation() is None,
        resource.status matches Some(status) ==> resource@.observed_generation()
            == status.observed_generation,
{
}

/// The document of a condition has its status, its type and the time of its
/// last transition, the reason and the message if there are any, and nothing else.
pub proof fn law_condition_document(condition: ConditionView)
    ensures
        member(condition_json(condition), "status"@) == Json::Text(condition.status.text()),
        member(condition_json(condition), "type"@) == Json::Text("Ready"@),
        member(condition_json(condition), "lastTransitionTime"@) == Json::Text(
            condition.last_transition,
        ),
        condition.reason is None <==> !members(condition_json(condition)).contains_key("reason"@),
        condition.reason matches Some(reason) ==> member(condition_json(condition), "reason"@)
            == Json::Text(reason),
        condition.message is None <==> !members(condition_json(condition)).contains_key(
            "message"@,
        ),
        condition.message matches Some(message) ==> member(condition_json(condition), "message"@)
            == Json::Text(message),
        forall|key: Seq<char>| #[trigger]
            members(condition_json(condition)).contains_key(key) ==> key == "status"@ || key
                == "type"@ || key == "lastTransitionTime"@ || key == "reason"@ || key
                == "message"@,
{
    reveal_strlit("status");
    reveal_strlit("type");
    reveal_strlit("lastTransitionTime");
    reveal_strlit("reason");
    reveal_strlit("message");
    assert("status"@.len() == 6 && "type"@.len() == 4 && "lastTransitionTime"@.len() == 18
        && "reason"@.len() == 6 && "message"@.len() == 7);
    assert("status"@[0] != "reason"@[0]);
}

/// Conditions are written in their order, each `Ready` one, and none of
/// another type.
pub proof fn law_written_conditions(conditions: Seq<ConditionView>, last: ConditionView)
    ensures
        written_conditions(Seq::empty()) == Seq::<Json>::empty(),
        last.type_ == ConditionType::Ready ==> written_conditions(conditions.push(last))
            == written_conditions(conditions).push(condition_json(last)),
        last.type_ != ConditionType::Ready ==> written_conditions(conditions.push(last))
            == written_conditions(conditions),
{
    reveal(Seq::filter);
    assert(conditions.push(last).drop_last() =~= conditions);
    assert(written_conditions(Seq::empty()) =~= Seq::<Json>::empty());
    assert(written_conditions(conditions.push(last)) =~= if last.type_ == ConditionType::Ready {
        written_conditions(conditions).push(condition_json(last))
    } else {
        written_conditions(conditions)
    });
}

/// The document of a status has its start time and its observed generation,
/// `null` where there is none, its written conditions if there are any, and
/// nothing else.
pub proof fn law_status_document(status: StatusView)
    ensures
        member(status_json(status), "startTime"@) == match status.start_time {
            Some(start_time) => Json::Text(start_time),
            None => Json::Null,
        },
        members(status_json(status)).contains_key("startTime"@),
        member(status_json(status), "observedGeneration"@) == match status.observed_generation {
            Some(generation) => json_integer(generation as int),
            None => Json::Null,
        },
        members(status_json(status)).contains_key("observedGeneration"@),
        members(status_json(status)).contains_key("conditions"@) <==> written_conditions(
            status.conditions,
        ).len() > 0,
        written_conditions(status.conditions).len() > 0 ==> member(
            status_json(status),
            "conditions"@,
        ) == Json::Array(written_conditions(status.conditions)),
        forall|key: Seq<char>| #[trigger]
            members(status_json(status)).contains_key(key) ==> key == "startTime"@ || key
                == "observedGeneration"@ || key == "conditions"@,
{
    reveal_strlit("startTime");
    reveal_strlit("observedGeneration");
    reveal_strlit("conditions");
    assert("startTime"@.len() == 9 && "observedGeneration"@.len() == 18 && "conditions"@.len()
        == 10);
}

/// A status is its conditions, each in its place and as it is, its start time
/// and its observed generation.
pub proof fn law_status(status: WardenSecretStatus)
    ensures
        status@.conditions.len() == status.conditions@.len(),
        forall|i: int|
            0 <= i < status.conditions@.len() ==> {
                let condition = #[trigger] status.conditions@[i];
                let view = status@.conditions[i];
                &&& view.status == condition.status
                &&& view.type_ == condition.type_
                &&& view.last_transition == condition.last_transition@
                &&& view.reason is None <==> condition.reason is None
                &&& condition.reason matches Some(reason) ==> view.reason == Some(reason@)
                &&& view.message is None <==> condition.message is None
                &&& condition.message matches Some(message) ==> view.message == Some(message@)
            },
        status@.start_time is None <==> status.start_time is None,
        status.start_time matches Some(start_time) ==> status@.start_time == Some(start_time@),
        status@.observed_generation == status.observed_generation,
{
}

} // verus!

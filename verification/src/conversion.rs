//! The conversion webhook of the custom resource: it rewrites resources
//! between the API versions `tomjo.net/v1` and `tomjo.net/v2`.

use vstd::prelude::*;
use crate::clock::{is_utc_timestamp, now_rfc3339};
use crate::json::{
    json_items, lemma_json_items, member, members, Json, JsonNumber, JsonObject, JsonValue,
};
use crate::search::{first_where, lemma_first_where, lemma_first_where_unique};
use crate::text::same_text;

verus! {

/// Overall outcome of a conversion.
#[derive(Clone, Copy, Debug, PartialEq, Eq, Structural)]
pub enum StatusSummary {
    Success,
    Failure,
}

/// A Kubernetes status object.
#[derive(Debug, PartialEq, Eq)]
pub struct Status {
    pub status: Option<StatusSummary>,
    pub code: u16,
    pub message: String,
    pub reason: String,
}

/// What a status object says.
pub struct StatusView {
    pub status: Option<StatusSummary>,
    pub code: u16,
    pub message: Seq<char>,
    pub reason: Seq<char>,
}

impl View for Status {
    type V = StatusView;

    open spec fn view(&self) -> StatusView {
        StatusView {
            status: self.status,
            code: self.code,
            message: self.message@,
            reason: self.reason@,
        }
    }
}

/// The status of a failed operation.
pub open spec fn failed(message: Seq<char>, reason: Seq<char>) -> StatusView {
    StatusView { status: Some(StatusSummary::Failure), code: 0, message, reason }
}

/// The status of a successful operation.
pub open spec fn succeeded() -> StatusView {
    StatusView {
        status: Some(StatusSummary::Success),
        code: 0,
        message: Seq::empty(),
        reason: Seq::empty(),
    }
}

impl Status {
    /// The status of a failed operation.
    pub fn failure(message: String, reason: &str) -> (status: Status)
        ensures
            status@ == failed(message@, reason@),
    {
        Status {
            status: Some(StatusSummary::Failure),
            code: 0,
            message,
            reason: reason.to_owned(),
        }
    }

    /// The status of a successful operation.
    pub fn success() -> (status: Status)
        ensures
            status@ == succeeded(),
    {
        Status {
            status: Some(StatusSummary::Success),
            code: 0,
            message: String::new(),
            reason: String::new(),
        }
    }
}

/// A condition of a resource whose type is `Ready`.
pub open spec fn is_ready_condition(condition: Json) -> bool {
    member(condition, "type"@) == Json::Text("Ready"@)
}

pub open spec fn ready_condition() -> spec_fn(Json) -> bool {
    |condition: Json| is_ready_condition(condition)
}

/// What the status of a `Ready` condition of `tomjo.net/v2` is in
/// `tomjo.net/v1`, which knows only true and false: everything but `False` is true.
pub open spec fn downgraded_ready(status: Json) -> Json {
    Json::Bool(status != Json::Text("False"@))
}

/// What the status of a `Ready` condition of `tomjo.net/v1` is in `tomjo.net/v2`.
pub open spec fn upgraded_ready(status: Json) -> Json {
    if status == Json::Bool(true) {
        Json::Text("True"@)
    } else if status == Json::Bool(false) {
        Json::Text("False"@)
    } else {
        Json::Text("Unknown"@)
    }
}

/// A `Ready` condition with its status rewritten.
pub open spec fn converted_condition(condition: Json, upgrade: bool) -> Json {
    let status = member(condition, "status"@);
    Json::Object(
        members(condition).insert(
            "status"@,
            if upgrade {
                upgraded_ready(status)
            } else {
                downgraded_ready(status)
            },
        ),
    )
}

/// The conditions with the first `Ready` condition rewritten, and it alone.
pub open spec fn converted_conditions(conditions: Json, upgrade: bool) -> Json {
    match conditions {
        Json::Array(items) => {
            let first = first_where(items, ready_condition());
            if first < items.len() {
                Json::Array(items.update(first, converted_condition(items[first], upgrade)))
            } else {
                conditions
            }
        },
        _ => conditions,
    }
}

/// A status of `tomjo.net/v2` as `tomjo.net/v1` has it.
pub open spec fn downgraded_status(status: Json) -> Json {
    let start_time = member(status, "startTime"@);
    let renamed = members(status).insert("start_time"@, start_time).insert(
        "phase"@,
        Json::Text("Succeeded"@),
    ).remove("observedGeneration"@).remove("startTime"@);
    let conditions = member(Json::Object(renamed), "conditions"@);
    Json::Object(renamed.insert("conditions"@, converted_conditions(conditions, false)))
}

/// A status of `tomjo.net/v1` as `tomjo.net/v2` has it; a start time is
/// replaced by the time of the conversion.
pub open spec fn upgraded_status(status: Json, now: Seq<char>) -> Json {
    let start_time = if member(status, "start_time"@) == Json::Null {
        Json::Null
    } else {
        Json::Text(now)
    };
    let renamed = members(status).insert("startTime"@, start_time).remove("phase"@).remove(
        "start_time"@,
    ).insert("observedGeneration"@, Json::Number(JsonNumber::PosInt(0)));
    let conditions = member(Json::Object(renamed), "conditions"@);
    Json::Object(renamed.insert("conditions"@, converted_conditions(conditions, true)))
}

/// The resource in the desired API version.
pub open spec fn converted(object: Json, desired: Seq<char>, now: Seq<char>) -> Json {
    let status = member(object, "status"@);
    Json::Object(
        members(object).insert("apiVersion"@, Json::Text(desired)).insert(
            "status"@,
            if desired == "tomjo.net/v1"@ {
                downgraded_status(status)
            } else {
                upgraded_status(status, now)
            },
        ),
    )
}

/// Why a resource cannot be converted, if it cannot.
pub open spec fn refusal(object: Json, desired: Seq<char>) -> Option<StatusView> {
    match member(object, "apiVersion"@) {
        Json::Text(current) => {
            if current == desired {
                Some(
                    failed(
                        "Already at desired API version "@ + desired,
                        "AlreadyAtDesiredAPIVersion"@,
                    ),
                )
            } else if desired != "tomjo.net/v1"@ && desired != "tomjo.net/v2"@ {
                Some(failed("Unsupported API version "@ + desired, "UnsupportedAPIVersion"@))
            } else if current != "tomjo.net/v1"@ && current != "tomjo.net/v2"@ {
                Some(
                    failed(
                        "Unsupported API conversion from "@ + current + " to "@ + desired,
                        "UnsupportedAPIConversion"@,
                    ),
                )
            } else {
                None
            }
        },
        _ => Some(failed("No apiVersion in request"@, "ConversionRequestInvalid"@)),
    }
}

/// A resource status whose members can be rewritten: an object, or absent.
pub open spec fn rewritable(object: Json) -> bool {
    member(object, "status"@) is Object || member(object, "status"@) is Null
}

/// Whether the condition is of type `Ready`.
fn check_ready_condition(condition: &JsonValue) -> (r: bool)
    ensures
        r == is_ready_condition(condition@),
{
    match condition.get("type") {
        Some(kind) => kind.is_text("Ready"),
        None => false,
    }
}

/// Rewrites the status of a `Ready` condition.
fn convert_condition(condition: JsonValue, upgrade: bool) -> (r: JsonValue)
    ensures
        r@ == converted_condition(condition@, upgrade),
{
    let mut object: JsonObject = match condition {
        JsonValue::Object(object) => object,
        _ => JsonObject::new(),
    };
    let status: JsonValue = match object.remove("status") {
        Some(status) => status,
        None => JsonValue::Null,
    };
    let rewritten: JsonValue = if upgrade {
        match status {
            JsonValue::Bool(true) => JsonValue::Text("True".to_owned()),
            JsonValue::Bool(false) => JsonValue::Text("False".to_owned()),
            _ => JsonValue::Text("Unknown".to_owned()),
        }
    } else {
        JsonValue::Bool(!status.is_text("False"))
    };
    object.insert("status".to_owned(), rewritten);
    assert(object@ =~= members(condition@).insert("status"@, rewritten@));
    JsonValue::Object(object)
}

/// Rewrites the first `Ready` condition.
fn convert_conditions(conditions: JsonValue, upgrade: bool) -> (r: JsonValue)
    ensures
        r@ == converted_conditions(conditions@, upgrade),
{
    match conditions {
        JsonValue::Array(list) => {
            let mut items: Vec<JsonValue> = list;
            let ghost before = json_items(items@);
            proof {
                lemma_json_items(items@);
            }
            let mut i: usize = 0;
            while i < items.len()
                invariant
                    i <= items@.len(),
                    before == json_items(items@),
                    before == Seq::new(items@.len(), |k: int| items@[k].view()),
                    before == json_items(list@),
                    conditions == JsonValue::Array(list),
                    forall|j: int| 0 <= j < i ==> !is_ready_condition(#[trigger] before[j]),
                decreases items@.len() - i,
            {
                if check_ready_condition(&items[i]) {
                    proof {
                        lemma_first_where_unique(before, ready_condition(), i as int);
                    }
                    let condition: JsonValue = items.remove(i);
                    items.insert(i, convert_condition(condition, upgrade));
                    proof {
                        lemma_json_items(items@);
                        assert(json_items(items@) =~= before.update(
                            i as int,
                            converted_condition(before[i as int], upgrade),
                        ));
                    }
                    return JsonValue::Array(items);
                }
                i = i + 1;
            }
            proof {
                lemma_first_where_unique(before, ready_condition(), i as int);
            }
            JsonValue::Array(items)
        },
        other => other,
    }
}

/// Rewrites a status of `tomjo.net/v2`.
fn downgrade_status(status: JsonValue) -> (r: JsonValue)
    ensures
        r@ == downgraded_status(status@),
{
    let mut object: JsonObject = match status {
        JsonValue::Object(object) => object,
        _ => JsonObject::new(),
    };
    let start_time: JsonValue = match object.remove("startTime") {
        Some(start_time) => start_time,
        None => JsonValue::Null,
    };
    object.insert("start_time".to_owned(), start_time);
    object.insert("phase".to_owned(), JsonValue::Text("Succeeded".to_owned()));
    let _ = object.remove("observedGeneration");
    let conditions: JsonValue = match object.remove("conditions") {
        Some(conditions) => conditions,
        None => JsonValue::Null,
    };
    let rewritten: JsonValue = convert_conditions(conditions, false);
    object.insert("conditions".to_owned(), rewritten);
    proof {
        lemma_status_keys();
        assert(object@ =~= members(downgraded_status(status@)));
    }
    JsonValue::Object(object)
}

/// Rewrites a status of `tomjo.net/v1`.
fn upgrade_status(status: JsonValue, now: &str) -> (r: JsonValue)
    ensures
        r@ == upgraded_status(status@, now@),
{
    let mut object: JsonObject = match status {
        JsonValue::Object(object) => object,
        _ => JsonObject::new(),
    };
    let start_time: JsonValue = match object.remove("start_time") {
        Some(JsonValue::Null) => JsonValue::Null,
        Some(_) => JsonValue::Text(now.to_owned()),
        None => JsonValue::Null,
    };
    object.insert("startTime".to_owned(), start_time);
    let _ = object.remove("phase");
    object.insert("observedGeneration".to_owned(), JsonValue::Number(JsonNumber::PosInt(0)));
    let conditions: JsonValue = match object.remove("conditions") {
        Some(conditions) => conditions,
        None => JsonValue::Null,
    };
    let rewritten: JsonValue = convert_conditions(conditions, true);
    object.insert("conditions".to_owned(), rewritten);
    proof {
        lemma_status_keys();
        assert(object@ =~= members(upgraded_status(status@, now@)));
    }
    JsonValue::Object(object)
}

/// The keys that a status conversion touches are all different.
proof fn lemma_status_keys()
    ensures
        "startTime"@ != "start_time"@,
        "startTime"@ != "phase"@,
        "startTime"@ != "observedGeneration"@,
        "startTime"@ != "conditions"@,
        "start_time"@ != "phase"@,
        "start_time"@ != "observedGeneration"@,
        "start_time"@ != "conditions"@,
        "phase"@ != "observedGeneration"@,
        "phase"@ != "conditions"@,
        "observedGeneration"@ != "conditions"@,
{
    reveal_strlit("startTime");
    reveal_strlit("start_time");
    reveal_strlit("phase");
    reveal_strlit("observedGeneration");
    reveal_strlit("conditions");
    assert("startTime"@.len() == 9 && "start_time"@.len() == 10 && "phase"@.len() == 5);
    assert("observedGeneration"@.len() == 18);
    assert("start_time"@[0] == 's' && "conditions"@[0] == 'c');
}

/// Converts one resource to the desired API version, taking `now` for the current time.
pub fn convert_at(object: JsonValue, desired_api_version: &str, now: &str) -> (r: Result<
    JsonValue,
    Status,
>)
    requires
        refusal(object@, desired_api_version@) is None ==> rewritable(object@),
    ensures
        match r {
            Ok(document) => refusal(object@, desired_api_version@) is None && document@
                == converted(object@, desired_api_version@, now@),
            Err(status) => refusal(object@, desired_api_version@) == Some(status@),
        },
{
    let current: String = match object.get("apiVersion") {
        Some(JsonValue::Text(current)) => current.clone(),
        _ => {
            return Err(
                Status::failure("No apiVersion in request".to_owned(), "ConversionRequestInvalid"),
            );
        },
    };
    if same_text(current.as_str(), desired_api_version) {
        let message: String = "Already at desired API version ".to_owned().concat(
            desired_api_version,
        );
        return Err(Status::failure(message, "AlreadyAtDesiredAPIVersion"));
    }
    let to_v1: bool = same_text(desired_api_version, "tomjo.net/v1");
    let to_v2: bool = same_text(desired_api_version, "tomjo.net/v2");
    if !to_v1 && !to_v2 {
        let message: String = "Unsupported API version ".to_owned().concat(desired_api_version);
        return Err(Status::failure(message, "UnsupportedAPIVersion"));
    }
    if !same_text(current.as_str(), "tomjo.net/v1") && !same_text(
        current.as_str(),
        "tomjo.net/v2",
    ) {
        let message: String = "Unsupported API conversion from ".to_owned().concat(
            current.as_str(),
        ).concat(" to ").concat(desired_api_version);
        return Err(Status::failure(message, "UnsupportedAPIConversion"));
    }
    let mut members: JsonObject = match object {
        JsonValue::Object(members) => members,
        _ => JsonObject::new(),
    };
    members.insert("apiVersion".to_owned(), JsonValue::Text(desired_api_version.to_owned()));
    proof {
        reveal_strlit("apiVersion");
        reveal_strlit("status");
        assert("apiVersion"@.len() != "status"@.len());
    }
    let status: JsonValue = match members.remove("status") {
        Some(status) => status,
        None => JsonValue::Null,
    };
    let rewritten: JsonValue = if to_v1 {
        downgrade_status(status)
    } else {
        upgrade_status(status, now)
    };
    members.insert("status".to_owned(), rewritten);
    assert(members@ =~= crate::json::members(converted(object@, desired_api_version@, now@)));
    Ok(JsonValue::Object(members))
}

/// Converts one resource to the desired API version.
pub fn convert(object: JsonValue, desired_api_version: &str) -> (r: Result<JsonValue, Status>)
    requires
        refusal(object@, desired_api_version@) is None ==> rewritable(object@),
    ensures
        match r {
            Ok(document) => refusal(object@, desired_api_version@) is None && exists|
                now: Seq<char>,
            | #[trigger]
                is_utc_timestamp(now) && document@ == converted(
                    object@,
                    desired_api_version@,
                    now,
                ),
            Err(status) => refusal(object@, desired_api_version@) == Some(status@),
        },
{
    let now: String = now_rfc3339();
    convert_at(object, desired_api_version, now.as_str())
}

/// The API version and kind of an object.
#[derive(Debug, PartialEq, Eq)]
pub struct TypeMeta {
    pub api_version: String,
    pub kind: String,
}

/// What the API version and kind of an object are.
pub struct TypeMetaView {
    pub api_version: Seq<char>,
    pub kind: Seq<char>,
}

impl View for TypeMeta {
    type V = TypeMetaView;

    open spec fn view(&self) -> TypeMetaView {
        TypeMetaView { api_version: self.api_version@, kind: self.kind@ }
    }
}

/// A request to convert a list of resources.
pub struct ConversionRequest {
    pub types: Option<TypeMeta>,
    pub uid: String,
    pub desired_api_version: String,
    pub objects: Vec<JsonValue>,
}

/// What a request asks for.
pub struct RequestView {
    pub types: Option<TypeMetaView>,
    pub uid: Seq<char>,
    pub desired_api_version: Seq<char>,
    pub objects: Seq<Json>,
}

/// What an optional API version and kind are.
pub open spec fn types_view(types: Option<TypeMeta>) -> Option<TypeMetaView> {
    match types {
        Some(types) => Some(types@),
        None => None,
    }
}

impl ConversionRequest {
    pub open spec fn view(&self) -> RequestView {
        RequestView {
            types: types_view(self.types),
            uid: self.uid@,
            desired_api_version: self.desired_api_version@,
            objects: json_items(self.objects@),
        }
    }
}

/// The answer to a request.
pub struct ConversionResponse {
    pub types: Option<TypeMeta>,
    pub uid: String,
    pub result: Status,
    pub converted_objects: Vec<JsonValue>,
}

/// What an answer says.
pub struct ResponseView {
    pub types: Option<TypeMetaView>,
    pub uid: Seq<char>,
    pub result: StatusView,
    pub converted_objects: Seq<Json>,
}

impl ConversionResponse {
    pub open spec fn view(&self) -> ResponseView {
        ResponseView {
            types: types_view(self.types),
            uid: self.uid@,
            result: self.result@,
            converted_objects: json_items(self.converted_objects@),
        }
    }
}

/// What the API server posts to the webhook and gets back from it.
pub struct ConversionReview {
    pub types: TypeMeta,
    pub request: Option<ConversionRequest>,
    pub response: Option<ConversionResponse>,
}

/// What a review holds.
pub struct ReviewView {
    pub types: TypeMetaView,
    pub request: Option<RequestView>,
    pub response: Option<ResponseView>,
}

impl ConversionReview {
    pub open spec fn view(&self) -> ReviewView {
        ReviewView {
            types: self.types@,
            request: match self.request {
                Some(request) => Some(request.view()),
                None => None,
            },
            response: match self.response {
                Some(response) => Some(response.view()),
                None => None,
            },
        }
    }
}

pub open spec fn refused(desired: Seq<char>) -> spec_fn(Json) -> bool {
    |object: Json| refusal(object, desired) is Some
}

/// The position of the first resource that cannot be converted.
pub open spec fn first_refused(request: RequestView) -> int {
    first_where(request.objects, refused(request.desired_api_version))
}

/// Every resource that the webhook gets to convert has a status that it can rewrite.
pub open spec fn answerable(request: RequestView) -> bool {
    forall|i: int|
        0 <= i < first_refused(request) ==> rewritable(#[trigger] request.objects[i])
}

/// The answer to a request: all resources converted in their order, each at
/// its own time, or none of them if one cannot be.
pub open spec fn answer(request: RequestView, times: Seq<Seq<char>>) -> ResponseView {
    let first = first_refused(request);
    let desired = request.desired_api_version;
    if first < request.objects.len() {
        ResponseView {
            types: request.types,
            uid: request.uid,
            result: failed(
                refusal(request.objects[first], desired)->0.message,
                "ConversionFailure"@,
            ),
            converted_objects: Seq::empty(),
        }
    } else {
        ResponseView {
            types: request.types,
            uid: request.uid,
            result: succeeded(),
            converted_objects: Seq::new(
                request.objects.len(),
                |i: int| converted(request.objects[i], desired, times[i]),
            ),
        }
    }
}

/// Each text of a list.
pub open spec fn times_view(times: Seq<String>) -> Seq<Seq<char>> {
    times.map_values(|t: String| t@)
}

/// Converts all resources of a request, taking `times[i]` for the time at
/// which the resource at position `i` is converted.
pub fn convert_all_at(request: ConversionRequest, times: &Vec<String>) -> (r: ConversionResponse)
    requires
        answerable(request@),
        times@.len() >= request.objects@.len(),
    ensures
        r@ == answer(request@, times_view(times@)),
{
    let ghost asked = request@;
    let ghost desired = request.desired_api_version@;
    let ConversionRequest { types, uid, desired_api_version, objects } = request;
    let mut rest: Vec<JsonValue> = objects;
    let mut done: Vec<JsonValue> = Vec::new();
    let total: usize = times.len();
    let mut i: usize = 0;
    proof {
        lemma_json_items(rest@);
        lemma_first_where(asked.objects, refused(desired));
        assert(asked.objects.skip(0) == asked.objects);
    }
    while rest.len() > 0
        invariant
            asked == request@,
            answerable(asked),
            desired == asked.desired_api_version,
            desired == desired_api_version@,
            0 <= i <= asked.objects.len(),
            asked.objects.len() <= times@.len(),
            times@.len() == total,
            done@.len() == i,
            json_items(rest@) == asked.objects.skip(i as int),
            json_items(done@) == Seq::new(
                i as nat,
                |k: int| converted(asked.objects[k], desired, times_view(times@)[k]),
            ),
            i <= first_refused(asked) <= asked.objects.len(),
            asked.types == types_view(types),
            asked.uid == uid@,
        decreases rest@.len(),
    {
        let ghost before = rest@;
        let object: JsonValue = rest.remove(0);
        proof {
            lemma_json_items(before);
            lemma_json_items(rest@);
            assert(json_items(before).len() == before.len());
            assert(i < asked.objects.len());
            assert(asked.objects.skip(i as int)[0] == asked.objects[i as int]);
            assert(object@ == asked.objects[i as int]);
            lemma_first_where(asked.objects, refused(desired));
            if refusal(object@, desired) is None {
                assert(!refused(desired)(asked.objects[i as int]));
                assert(i < first_refused(asked));
                assert(rewritable(asked.objects[i as int]));
            } else {
                lemma_first_where_unique(asked.objects, refused(desired), i as int);
            }
        }
        match convert_at(object, desired_api_version.as_str(), times[i].as_str()) {
            Ok(document) => {
                let ghost earlier = done@;
                done.push(document);
                proof {
                    lemma_json_items(earlier);
                    lemma_json_items(done@);
                    assert(json_items(done@) =~= Seq::new(
                        (i + 1) as nat,
                        |k: int| converted(asked.objects[k], desired, times_view(times@)[k]),
                    )) by {
                        assert forall|k: int| 0 <= k < i + 1 implies json_items(done@)[k]
                            == converted(asked.objects[k], desired, times_view(times@)[k]) by {
                            if k < i {
                                assert(json_items(earlier)[k] == earlier[k].view());
                            }
                        }
                    }
                    assert(json_items(rest@) =~= json_items(before).skip(1));
                    assert(asked.objects.skip(i as int).skip(1) =~= asked.objects.skip(i + 1));
                }
            },
            Err(status) => {
                return ConversionResponse {
                    types,
                    uid,
                    result: Status::failure(status.message, "ConversionFailure"),
                    converted_objects: Vec::new(),
                };
            },
        }
        i = i + 1;
    }
    proof {
        lemma_json_items(rest@);
        assert(json_items(rest@).len() == 0);
    }
    ConversionResponse { types, uid, result: Status::success(), converted_objects: done }
}

/// A list of times, one for each of `count` resources.
fn conversion_times(count: usize) -> (times: Vec<String>)
    ensures
        times@.len() == count,
        forall|i: int| 0 <= i < count ==> is_utc_timestamp((#[trigger] times@[i])@),
{
    let mut times: Vec<String> = Vec::new();
    while times.len() < count
        invariant
            times@.len() <= count,
            forall|i: int| 0 <= i < times@.len() ==> is_utc_timestamp((#[trigger] times@[i])@),
        decreases count - times@.len(),
    {
        times.push(now_rfc3339());
    }
    times
}

/// One timestamp for each resource of a request.
pub open spec fn are_times_for(times: Seq<Seq<char>>, request: RequestView) -> bool {
    &&& times.len() == request.objects.len()
    &&& forall|i: int| 0 <= i < times.len() ==> is_utc_timestamp(#[trigger] times[i])
}

/// Converts all resources of a request.
pub fn convert_all(request: ConversionRequest) -> (r: ConversionResponse)
    requires
        answerable(request@),
    ensures
        exists|times: Seq<Seq<char>>| #[trigger]
            are_times_for(times, request@) && r@ == answer(request@, times),
{
    let times: Vec<String> = conversion_times(request.objects.len());
    proof {
        lemma_json_items(request.objects@);
        assert(are_times_for(times_view(times@), request@));
    }
    convert_all_at(request, &times)
}

/// The review that carries an answer back.
pub open spec fn answered(response: ResponseView) -> ReviewView {
    ReviewView {
        types: match response.types {
            Some(types) => types,
            None => TypeMetaView {
                api_version: "apiextensions.k8s.io/v1"@,
                kind: "ConversionReview"@,
            },
        },
        request: None,
        response: Some(ResponseView { types: None, ..response }),
    }
}

/// The request of a review, which remembers the type of the review.
pub open spec fn request_of(review: ReviewView) -> Option<RequestView> {
    match review.request {
        Some(request) => Some(RequestView { types: Some(review.types), ..request }),
        None => None,
    }
}

/// The answer to a review without a request.
pub open spec fn invalid_response() -> ResponseView {
    ResponseView {
        types: None,
        uid: Seq::empty(),
        result: failed("request missing in ConversionReview"@, "ConversionRequestInvalid"@),
        converted_objects: Seq::empty(),
    }
}

/// What the webhook replies to a review.
pub open spec fn reply(review: ReviewView, times: Seq<Seq<char>>) -> ReviewView {
    match request_of(review) {
        Some(request) => answered(answer(request, times)),
        None => answered(invalid_response()),
    }
}

/// The review that carries an answer back.
fn into_review(response: ConversionResponse) -> (review: ConversionReview)
    ensures
        review@ == answered(response@),
{
    let ConversionResponse { types, uid, result, converted_objects } = response;
    let types: TypeMeta = match types {
        Some(types) => types,
        None => TypeMeta {
            api_version: "apiextensions.k8s.io/v1".to_owned(),
            kind: "ConversionReview".to_owned(),
        },
    };
    ConversionReview {
        types,
        request: None,
        response: Some(ConversionResponse { types: None, uid, result, converted_objects }),
    }
}

/// Whether every resource that the webhook gets to convert has a status that it can rewrite.
pub fn check_answerable(request: &ConversionRequest) -> (r: bool)
    ensures
        r == answerable(request@),
{
    let ghost asked = request@;
    let ghost desired = request.desired_api_version@;
    let mut i: usize = 0;
    proof {
        lemma_json_items(request.objects@);
        lemma_first_where(asked.objects, refused(desired));
    }
    while i < request.objects.len()
        invariant
            asked == request@,
            desired == request.desired_api_version@,
            asked.objects == Seq::new(
                request.objects@.len(),
                |k: int| request.objects@[k].view(),
            ),
            i <= first_refused(asked) <= asked.objects.len(),
            forall|k: int| 0 <= k < i ==> rewritable(#[trigger] asked.objects[k]),
        decreases request.objects@.len() - i,
    {
        let object: &JsonValue = &request.objects[i];
        assert(object@ == asked.objects[i as int]);
        if is_refused(object, request.desired_api_version.as_str()) {
            proof {
                lemma_first_where(asked.objects, refused(desired));
                lemma_first_where_unique(asked.objects, refused(desired), i as int);
            }
            return true;
        }
        proof {
            lemma_first_where(asked.objects, refused(desired));
            assert(!refused(desired)(asked.objects[i as int]));
        }
        let fits: bool = match object.get("status") {
            Some(JsonValue::Object(_)) => true,
            Some(JsonValue::Null) => true,
            Some(_) => false,
            None => true,
        };
        if !fits {
            assert(!rewritable(asked.objects[i as int]));
            return false;
        }
        i = i + 1;
    }
    true
}

/// Whether the resource cannot be converted.
fn is_refused(object: &JsonValue, desired_api_version: &str) -> (r: bool)
    ensures
        r == (refusal(object@, desired_api_version@) is Some),
{
    match object.get("apiVersion") {
        Some(JsonValue::Text(current)) => {
            let v1: &str = "tomjo.net/v1";
            let v2: &str = "tomjo.net/v2";
            let desired_known: bool = same_text(desired_api_version, v1) || same_text(
                desired_api_version,
                v2,
            );
            let current_known: bool = same_text(current.as_str(), v1) || same_text(
                current.as_str(),
                v2,
            );
            same_text(current.as_str(), desired_api_version) || !desired_known || !current_known
        },
        _ => true,
    }
}

/// Replies to a review, taking `times[i]` for the time at which the resource
/// at position `i` is converted.
pub fn crdconvert_handler_at(body: ConversionReview, times: &Vec<String>) -> (r: ConversionReview)
    requires
        body.request matches Some(request) ==> answerable(request@) && times@.len()
            >= request.objects@.len(),
    ensures
        r@ == reply(body@, times_view(times@)),
{
    let ConversionReview { types, request, response: _ } = body;
    match request {
        Some(request) => {
            let ConversionRequest { types: _, uid, desired_api_version, objects } = request;
            let request = ConversionRequest {
                types: Some(types),
                uid,
                desired_api_version,
                objects,
            };
            into_review(convert_all_at(request, times))
        },
        None => {
            let result = Status::failure(
                "request missing in ConversionReview".to_owned(),
                "ConversionRequestInvalid",
            );
            let converted_objects: Vec<JsonValue> = Vec::new();
            into_review(
                ConversionResponse { types: None, uid: String::new(), result, converted_objects },
            )
        },
    }
}

/// Replies to a review that the API server posts.
pub fn crdconvert_handler(body: ConversionReview) -> (r: ConversionReview)
    requires
        body.request matches Some(request) ==> answerable(request@),
    ensures
        exists|times: Seq<Seq<char>>|
            (body@.request is Some ==> are_times_for(times, body@.request->0)) && r@
                == #[trigger] reply(body@, times),
{
    let count: usize = match &body.request {
        Some(request) => request.objects.len(),
        None => 0,
    };
    let times: Vec<String> = conversion_times(count);
    proof {
        if body.request is Some {
            lemma_json_items(body.request->0.objects@);
            assert(are_times_for(times_view(times@), body.request->0.view()));
        }
    }
    crdconvert_handler_at(body, &times)
}

/// A conversion sets the API version and rewrites the status; every other
/// member of the resource stays as it was.
pub proof fn law_conversion_keeps_the_rest(object: Json, desired: Seq<char>, now: Seq<char>)
    ensures
        member(converted(object, desired, now), "apiVersion"@) == Json::Text(desired),
        forall|key: Seq<char>|
            key != "apiVersion"@ && key != "status"@ ==> {
                &&& (#[trigger] members(converted(object, desired, now)).contains_key(key)
                    <==> members(object).contains_key(key))
                &&& member(converted(object, desired, now), key) == member(object, key)
            },
{
    reveal_strlit("apiVersion");
    reveal_strlit("status");
    assert("apiVersion"@.len() != "status"@.len());
}

/// What has been converted to an API version is not converted to it again.
pub proof fn law_converted_is_at_desired_version(object: Json, desired: Seq<char>, now: Seq<char>)
    ensures
        refusal(converted(object, desired, now), desired) == Some(
            failed("Already at desired API version "@ + desired, "AlreadyAtDesiredAPIVersion"@),
        ),
{
    law_conversion_keeps_the_rest(object, desired, now);
}

/// The list of conditions keeps its length, and every condition but the first
/// of type `Ready` stays as it was.
pub proof fn law_conversion_rewrites_first_ready_only(items: Seq<Json>, upgrade: bool)
    ensures
        converted_conditions(Json::Array(items), upgrade) is Array,
        converted_conditions(Json::Array(items), upgrade)->Array_0.len() == items.len(),
        forall|i: int|
            0 <= i < items.len() && i != first_where(items, ready_condition())
                ==> #[trigger] converted_conditions(Json::Array(items), upgrade)->Array_0[i]
                == items[i],
{
    lemma_first_where(items, ready_condition());
}

/// The first `Ready` condition, if any, has the status true or false, as the
/// API version that `v2` names writes it.
pub open spec fn ready_is_definite(conditions: Json, v2: bool) -> bool {
    match conditions {
        Json::Array(items) => {
            let first = first_where(items, ready_condition());
            first < items.len() ==> {
                let status = member(items[first], "status"@);
                if v2 {
                    status == Json::Text("True"@) || status == Json::Text("False"@)
                } else {
                    status is Bool
                }
            }
        },
        _ => true,
    }
}

/// Conditions whose `Ready` status is true or false come back from a
/// conversion to the other API version and back.
pub proof fn law_conditions_round_trip(conditions: Json, v2: bool)
    requires
        ready_is_definite(conditions, v2),
    ensures
        converted_conditions(converted_conditions(conditions, !v2), v2) == conditions,
{
    if conditions is Array {
        let items = conditions->Array_0;
        let first = first_where(items, ready_condition());
        lemma_first_where(items, ready_condition());
        if first < items.len() {
            let there = converted_condition(items[first], !v2);
            let away = items.update(first, there);
            reveal_strlit("type");
            reveal_strlit("status");
            reveal_strlit("True");
            reveal_strlit("False");
            assert("type"@.len() != "status"@.len());
            assert("True"@.len() != "False"@.len());
            assert(is_ready_condition(items[first]));
            assert(members(there).contains_key("type"@));
            assert(is_ready_condition(there));
            assert forall|j: int| 0 <= j < first implies !ready_condition()(#[trigger] away[j]) by {
                assert(!ready_condition()(items[j]));
            }
            lemma_first_where_unique(away, ready_condition(), first);
            assert(items[first] is Object);
            assert(members(converted_condition(there, v2)) =~= members(items[first]));
            assert(converted_condition(there, v2) == items[first]);
            assert(away.update(first, items[first]) =~= items);
        }
    }
}

/// The members of a status that a conversion rewrites.
pub open spec fn is_rewritten_key(key: Seq<char>) -> bool {
    ||| key == "startTime"@
    ||| key == "start_time"@
    ||| key == "phase"@
    ||| key == "observedGeneration"@
    ||| key == "conditions"@
}

/// The name of one of the two API versions.
pub open spec fn version_text(v2: bool) -> Seq<char> {
    if v2 {
        "tomjo.net/v2"@
    } else {
        "tomjo.net/v1"@
    }
}

/// The member of a status that holds the start time.
pub open spec fn start_key(v2: bool) -> Seq<char> {
    if v2 {
        "startTime"@
    } else {
        "start_time"@
    }
}

/// A resource of either API version that is converted to the other and back
/// has its API version again, keeps everything outside its status and, in its
/// status, every member that no conversion rewrites. Its conditions come back
/// if its `Ready` status is true or false, and it has a start time exactly if
/// it had one.
pub proof fn law_round_trip(object: Json, v2: bool, then: Seq<char>, now: Seq<char>)
    requires
        object is Object,
        member(object, "apiVersion"@) == Json::Text(version_text(v2)),
        rewritable(object),
    ensures
        ({
            let here = version_text(v2);
            let there = version_text(!v2);
            let away = converted(object, there, then);
            let back = converted(away, here, now);
            let start = start_key(v2);
            let before = member(object, "status"@);
            let after = member(back, "status"@);
            &&& refusal(object, there) is None
            &&& refusal(away, here) is None
            &&& rewritable(away)
            &&& member(back, "apiVersion"@) == member(object, "apiVersion"@)
            &&& forall|key: Seq<char>|
                key != "status"@ ==> (#[trigger] members(back).contains_key(key) <==> members(
                    object,
                ).contains_key(key)) && member(back, key) == member(object, key)
            &&& forall|key: Seq<char>|
                !is_rewritten_key(key) ==> (#[trigger] members(after).contains_key(key)
                    <==> members(before).contains_key(key)) && member(after, key) == member(
                    before,
                    key,
                )
            &&& (member(after, start) is Null <==> member(before, start) is Null)
            &&& ready_is_definite(member(before, "conditions"@), v2) ==> member(
                after,
                "conditions"@,
            ) == member(before, "conditions"@)
        }),
{
    let here = version_text(v2);
    let there = version_text(!v2);
    reveal_strlit("apiVersion");
    reveal_strlit("status");
    assert("apiVersion"@.len() != "status"@.len());
    reveal_strlit("tomjo.net/v1");
    reveal_strlit("tomjo.net/v2");
    assert("tomjo.net/v1"@[11] != "tomjo.net/v2"@[11]);
    lemma_status_keys();
    let away = converted(object, there, then);
    let back = converted(away, here, now);
    law_conversion_keeps_the_rest(object, there, then);
    law_conversion_keeps_the_rest(away, here, now);
    assert forall|key: Seq<char>| key != "status"@ implies (#[trigger] members(back).contains_key(
        key,
    ) <==> members(object).contains_key(key)) && member(back, key) == member(object, key) by {
        if key != "apiVersion"@ {
            assert(members(away).contains_key(key) <==> members(object).contains_key(key));
            assert(members(back).contains_key(key) <==> members(away).contains_key(key));
        }
    }
    let before = member(object, "status"@);
    let conditions = member(before, "conditions"@);
    if ready_is_definite(conditions, v2) {
        law_conditions_round_trip(conditions, v2);
    }
}

/// The reply to a review is a review of the same type without a request. Its
/// answer has the `uid` of the request; it is a success with as many
/// resources as were asked for if each of them can be converted, and
/// otherwise a failure without any.
pub proof fn law_reply_matches_request(review: ReviewView, times: Seq<Seq<char>>)
    requires
        review.request is Some,
    ensures
        reply(review, times).types == review.types,
        reply(review, times).request is None,
        reply(review, times).response is Some,
        ({
            let request = review.request->0;
            let response = reply(review, times).response->0;
            let all = forall|i: int|
                0 <= i < request.objects.len() ==> refusal(
                    #[trigger] request.objects[i],
                    request.desired_api_version,
                ) is None;
            &&& response.uid == request.uid
            &&& all ==> response.result == succeeded() && response.converted_objects.len()
                == request.objects.len()
            &&& !all ==> response.result.status == Some(StatusSummary::Failure)
                && response.converted_objects.len() == 0
        }),
{
    let request = request_of(review)->0;
    let desired = request.desired_api_version;
    lemma_first_where(request.objects, refused(desired));
    let first = first_refused(request);
    if first < request.objects.len() {
        assert(refused(desired)(request.objects[first]));
    } else {
        assert forall|i: int| 0 <= i < request.objects.len() implies refusal(
            #[trigger] request.objects[i],
            desired,
        ) is None by {
            assert(!refused(desired)(request.objects[i]));
        }
    }
}

/// A condition that says of itself that its type is `Ready`.
pub open spec fn says_ready(condition: Json) -> bool {
    condition matches Json::Object(all) && all.contains_key("type"@) && all["type"@] == Json::Text(
        "Ready"@,
    )
}

/// What becomes of a list of conditions: the first one of type `Ready` keeps
/// all its other members, whatever they are, and its status becomes, for
/// `tomjo.net/v1`, false exactly if it was the text `False`, and, for
/// `tomjo.net/v2`, the text `True` or `False` if it was true or false and
/// `Unknown` otherwise. All other conditions stay as they were, and so does
/// what is no list.
pub proof fn law_first_ready_condition_is_rewritten(items: Seq<Json>, i: int, other: Json)
    requires
        0 <= i <= items.len(),
        i < items.len() ==> says_ready(items[i]),
        forall|j: int| 0 <= j < i ==> !says_ready(#[trigger] items[j]),
        !(other is Array),
    ensures
        forall|upgrade: bool|
            #![trigger converted_conditions(Json::Array(items), upgrade)]
            {
                &&& converted_conditions(Json::Array(items), upgrade) is Array
                &&& converted_conditions(Json::Array(items), upgrade)->Array_0.len() == items.len()
                &&& forall|j: int|
                    0 <= j < items.len() && j != i ==> #[trigger] converted_conditions(
                        Json::Array(items),
                        upgrade,
                    )->Array_0[j] == items[j]
                &&& i < items.len() ==> forall|key: Seq<char>|
                    key != "status"@ ==> (#[trigger] members(
                        converted_conditions(Json::Array(items), upgrade)->Array_0[i],
                    ).contains_key(key) <==> members(items[i]).contains_key(key)) && member(
                        converted_conditions(Json::Array(items), upgrade)->Array_0[i],
                        key,
                    ) == member(items[i], key)
            },
        i < items.len() ==> {
            let before = member(items[i], "status"@);
            let v1 = member(converted_conditions(Json::Array(items), false)->Array_0[i], "status"@);
            let v2 = member(converted_conditions(Json::Array(items), true)->Array_0[i], "status"@);
            &&& before == Json::Text("False"@) ==> v1 == Json::Bool(false)
            &&& before != Json::Text("False"@) ==> v1 == Json::Bool(true)
            &&& before == Json::Bool(true) ==> v2 == Json::Text("True"@)
            &&& before == Json::Bool(false) ==> v2 == Json::Text("False"@)
            &&& !(before is Bool) ==> v2 == Json::Text("Unknown"@)
        },
        converted_conditions(other, false) == other,
        converted_conditions(other, true) == other,
{
    assert forall|j: int| 0 <= j < i implies !ready_condition()(#[trigger] items[j]) by {
        assert(!says_ready(items[j]));
    }
    if i < items.len() {
        assert(says_ready(items[i]));
        assert(ready_condition()(items[i]));
    }
    lemma_first_where_unique(items, ready_condition(), i);
}

/// What becomes of the status of a resource in `tomjo.net/v1`: the start time
/// changes its key, the phase is `Succeeded`, the observed generation goes,
/// the conditions are rewritten, and everything else stays.
pub proof fn law_status_in_v1(object: Json, now: Seq<char>)
    ensures
        ({
            let before = member(object, "status"@);
            let after = member(converted(object, "tomjo.net/v1"@, now), "status"@);
            &&& after is Object
            &&& members(after).contains_key("start_time"@)
            &&& member(after, "start_time"@) == member(before, "startTime"@)
            &&& member(after, "phase"@) == Json::Text("Succeeded"@)
            &&& !members(after).contains_key("startTime"@)
            &&& !members(after).contains_key("observedGeneration"@)
            &&& members(after).contains_key("conditions"@)
            &&& member(after, "conditions"@) == converted_conditions(
                member(before, "conditions"@),
                false,
            )
            &&& forall|key: Seq<char>|
                key != "start_time"@ && key != "phase"@ && key != "startTime"@ && key
                    != "observedGeneration"@ && key != "conditions"@ ==> (#[trigger] members(
                    after,
                ).contains_key(key) <==> members(before).contains_key(key)) && member(after, key)
                    == member(before, key)
        }),
{
    lemma_status_keys();
    reveal_strlit("apiVersion");
    reveal_strlit("status");
    assert("apiVersion"@.len() != "status"@.len());
}

/// What becomes of the status of a resource in `tomjo.net/v2`: a start time
/// becomes the time of the conversion under its new key, the observed
/// generation is 0, the phase goes, the conditions are rewritten, and
/// everything else stays.
pub proof fn law_status_in_v2(object: Json, now: Seq<char>)
    ensures
        ({
            let before = member(object, "status"@);
            let after = member(converted(object, "tomjo.net/v2"@, now), "status"@);
            &&& after is Object
            &&& members(after).contains_key("startTime"@)
            &&& member(before, "start_time"@) is Null ==> member(after, "startTime"@) == Json::Null
            &&& !(member(before, "start_time"@) is Null) ==> member(after, "startTime"@)
                == Json::Text(now)
            &&& member(after, "observedGeneration"@) == Json::Number(JsonNumber::PosInt(0))
            &&& !members(after).contains_key("start_time"@)
            &&& !members(after).contains_key("phase"@)
            &&& members(after).contains_key("conditions"@)
            &&& member(after, "conditions"@) == converted_conditions(
                member(before, "conditions"@),
                true,
            )
            &&& forall|key: Seq<char>|
                key != "start_time"@ && key != "phase"@ && key != "startTime"@ && key
                    != "observedGeneration"@ && key != "conditions"@ ==> (#[trigger] members(
                    after,
                ).contains_key(key) <==> members(before).contains_key(key)) && member(after, key)
                    == member(before, key)
        }),
{
    lemma_status_keys();
    reveal_strlit("apiVersion");
    reveal_strlit("status");
    assert("apiVersion"@.len() != "status"@.len());
    reveal_strlit("tomjo.net/v1");
    reveal_strlit("tomjo.net/v2");
    assert("tomjo.net/v1"@[11] != "tomjo.net/v2"@[11]);
}

/// Which resources are converted, and why the others are not: one without an
/// API version, one that has the desired version already, any to a version
/// that is not known, and any from a version that is not known.
pub proof fn law_refusals(object: Json, current: Seq<char>, desired: Seq<char>)
    ensures
        !(member(object, "apiVersion"@) is Text) ==> refusal(object, desired) == Some(
            StatusView {
                status: Some(StatusSummary::Failure),
                code: 0,
                message: "No apiVersion in request"@,
                reason: "ConversionRequestInvalid"@,
            },
        ),
        member(object, "apiVersion"@) == Json::Text(current) ==> {
            let known = set!["tomjo.net/v1"@, "tomjo.net/v2"@];
            &&& current == desired ==> refusal(object, desired) == Some(
                StatusView {
                    status: Some(StatusSummary::Failure),
                    code: 0,
                    message: "Already at desired API version "@ + desired,
                    reason: "AlreadyAtDesiredAPIVersion"@,
                },
            )
            &&& current != desired && !known.contains(desired) ==> refusal(object, desired) == Some(
                StatusView {
                    status: Some(StatusSummary::Failure),
                    code: 0,
                    message: "Unsupported API version "@ + desired,
                    reason: "UnsupportedAPIVersion"@,
                },
            )
            &&& current != desired && known.contains(desired) && !known.contains(current)
                ==> refusal(object, desired) == Some(
                StatusView {
                    status: Some(StatusSummary::Failure),
                    code: 0,
                    message: "Unsupported API conversion from "@ + current + " to "@ + desired,
                    reason: "UnsupportedAPIConversion"@,
                },
            )
            &&& current != desired && known.contains(desired) && known.contains(current)
                ==> refusal(object, desired) is None
        },
{
}

/// A status can be rewritten if it is absent, `null` or an object, and only then.
pub proof fn law_rewritable(object: Json)
    ensures
        rewritable(object) <==> !members(object).contains_key("status"@) || members(
            object,
        )["status"@] is Null || members(object)["status"@] is Object,
{
}

/// The reply to a review holds each resource of the request converted, in its
/// place, at its time; or, if one cannot be converted, the message of the
/// first such one. It has the type of the review and the `uid` of the request.
pub proof fn law_reply_holds_the_conversions(
    body: ConversionReview,
    request: ConversionRequest,
    times: Seq<Seq<char>>,
    i: int,
)
    requires
        body.request == Some(request),
        0 <= i <= request.objects@.len(),
        i < request.objects@.len() ==> refusal(
            request.objects@[i].view(),
            request.desired_api_version@,
        ) is Some,
        forall|j: int|
            0 <= j < i ==> refusal(
                (#[trigger] request.objects@[j]).view(),
                request.desired_api_version@,
            ) is None,
    ensures
        reply(body.view(), times).types.api_version == body.types.api_version@,
        reply(body.view(), times).types.kind == body.types.kind@,
        reply(body.view(), times).request is None,
        reply(body.view(), times).response is Some,
        ({
            let response = reply(body.view(), times).response->0;
            let desired = request.desired_api_version@;
            &&& response.types is None
            &&& response.uid == request.uid@
            &&& response.result.code == 0
            &&& i == request.objects@.len() ==> {
                &&& response.result.status == Some(StatusSummary::Success)
                &&& response.result.message.len() == 0
                &&& response.result.reason.len() == 0
                &&& response.converted_objects.len() == request.objects@.len()
                &&& forall|j: int|
                    0 <= j < request.objects@.len() ==> #[trigger] response.converted_objects[j]
                        == converted(request.objects@[j].view(), desired, times[j])
            }
            &&& i < request.objects@.len() ==> {
                &&& response.result.status == Some(StatusSummary::Failure)
                &&& response.result.reason == "ConversionFailure"@
                &&& response.result.message == refusal(
                    request.objects@[i].view(),
                    desired,
                )->0.message
                &&& response.converted_objects.len() == 0
            }
        }),
{
    lemma_json_items(request.objects@);
    let asked = request_of(body.view())->0;
    let desired = request.desired_api_version@;
    assert forall|j: int| 0 <= j < i implies !refused(desired)(#[trigger] asked.objects[j]) by {
        assert(asked.objects[j] == request.objects@[j].view());
        assert(refusal(request.objects@[j].view(), desired) is None);
    }
    lemma_first_where_unique(asked.objects, refused(desired), i);
}

/// The reply to a review without a request says so.
pub proof fn law_reply_without_request(body: ConversionReview, times: Seq<Seq<char>>)
    requires
        body.request is None,
    ensures
        reply(body.view(), times) == (ReviewView {
            types: TypeMetaView {
                api_version: "apiextensions.k8s.io/v1"@,
                kind: "ConversionReview"@,
            },
            request: None,
            response: Some(
                ResponseView {
                    types: None,
                    uid: Seq::empty(),
                    result: StatusView {
                        status: Some(StatusSummary::Failure),
                        code: 0,
                        message: "request missing in ConversionReview"@,
                        reason: "ConversionRequestInvalid"@,
                    },
                    converted_objects: Seq::empty(),
                },
            ),
        }),
{
}

/// A request can be answered if every resource before the first one that is
/// refused has a status that can be rewritten.
pub proof fn law_answerable(request: ConversionRequest, i: int)
    requires
        0 <= i <= request.objects@.len(),
        i < request.objects@.len() ==> refusal(
            request.objects@[i].view(),
            request.desired_api_version@,
        ) is Some,
        forall|j: int|
            0 <= j < i ==> refusal(
                (#[trigger] request.objects@[j]).view(),
                request.desired_api_version@,
            ) is None,
    ensures
        answerable(request.view()) <==> forall|j: int|
            0 <= j < i ==> rewritable((#[trigger] request.objects@[j]).view()),
{
    lemma_json_items(request.objects@);
    let asked = request.view();
    let desired = request.desired_api_version@;
    assert forall|j: int| 0 <= j < i implies !refused(desired)(#[trigger] asked.objects[j]) by {
        assert(asked.objects[j] == request.objects@[j].view());
        assert(refusal(request.objects@[j].view(), desired) is None);
    }
    lemma_first_where_unique(asked.objects, refused(desired), i);
    if answerable(asked) {
        assert forall|j: int| 0 <= j < i implies rewritable(
            (#[trigger] request.objects@[j]).view(),
        ) by {
            assert(rewritable(asked.objects[j]));
        }
    }
    if forall|j: int| 0 <= j < i ==> rewritable((#[trigger] request.objects@[j]).view()) {
        assert forall|j: int| 0 <= j < i implies rewritable(#[trigger] asked.objects[j]) by {
            assert(rewritable(request.objects@[j].view()));
        }
    }
}

/// A response is what its parts say, each resource in its place, and a status
/// is its parts.
pub proof fn law_response(response: ConversionResponse, times: Seq<String>)
    ensures
        response.view().uid == response.uid@,
        response.view().result.status == response.result.status,
        response.view().result.code == response.result.code,
        response.view().result.message == response.result.message@,
        response.view().result.reason == response.result.reason@,
        response.view().converted_objects.len() == response.converted_objects@.len(),
        forall|i: int|
            0 <= i < response.converted_objects@.len()
                ==> #[trigger] response.view().converted_objects[i]
                == response.converted_objects@[i].view(),
        times_view(times).len() == times.len(),
        forall|i: int| 0 <= i < times.len() ==> #[trigger] times_view(times)[i] == times[i]@,
{
    lemma_json_items(response.converted_objects@);
}

/// A review is its type, its request and its response.
pub proof fn law_review(review: ConversionReview)
    ensures
        review.view().types.api_version == review.types.api_version@,
        review.view().types.kind == review.types.kind@,
        review.view().request is None <==> review.request is None,
        review.request matches Some(request) ==> review.view().request == Some(request.view()),
        review.view().response is None <==> review.response is None,
        review.response matches Some(response) ==> review.view().response == Some(
            response.view(),
        ),
{
}

/// The times of a request are one timestamp for each of its resources.
pub proof fn law_times(times: Seq<Seq<char>>, request: RequestView)
    ensures
        are_times_for(times, request) <==> times.len() == request.objects.len() && forall|i: int|
            0 <= i < times.len() ==> is_utc_timestamp(#[trigger] times[i]),
{
}

/// The answer to a request has its `uid` and remembers the type of its review.
pub proof fn law_answer_remembers_the_request(request: ConversionRequest, times: Seq<Seq<char>>)
    ensures
        answer(request.view(), times).uid == request.uid@,
        request.types is None <==> answer(request.view(), times).types is None,
        request.types matches Some(types) ==> answer(request.view(), times).types == Some(
            TypeMetaView { api_version: types.api_version@, kind: types.kind@ },
        ),
{
}

} // verus!

//! How a resource is reconciled with its secret: one request to the cluster
//! or to the vault after the other, each chosen by what came of those before it.

pub mod laws;

use vstd::pervasive::unreached;
use vstd::prelude::*;
use crate::bw::{CommandErrorView, WardenCommandError};
use crate::clock::{is_utc_timestamp, now_rfc3339};
use crate::crd::v2::{condition_views, ConditionView, SecretView, StatusView};
use crate::crd::{
    ApplyCondition, ConditionStatus, ConditionType, WardenSecret, WardenSecretStatus,
};
use crate::error::{Error, ErrorView};
use crate::json::{Json, JsonValue};
use crate::owner::{
    add_or_update_owner_ref, create_owner_ref_for, nameless, owner_of, owner_views, with_owner,
    OwnerReference, OwnerView,
};
use crate::secrets::{
    create_secret, merge_secret, secret_patch, ManifestView, SecretManifest,
};
use crate::settings::{noop_delay, noop_requeue_delay};
use crate::status::{
    add_finalizer, delete_finalizer, finalizers_patch, own_finalizer, patch_status, status_patch,
    update_ready_condition, update_status_at, updated_status, with_ready_condition,
};
use crate::text::optional;
use crate::text_map::TextMap;

verus! {

/// What is to be done about a resource.
#[derive(Clone, Copy, Debug, PartialEq, Eq, Structural)]
pub enum BitwardenSecretAction {
    Create,
    Update,
    Delete,
    NoOp,
}

impl SecretView {
    /// What is to be done about a resource: one that is being deleted is
    /// cleaned up after, one without finalizers is new, and one whose status
    /// was written for another generation has changed.
    pub open spec fn action(self) -> BitwardenSecretAction {
        if self.metadata.deletion_timestamp is Some {
            BitwardenSecretAction::Delete
        } else if self.metadata.finalizers is None || self.metadata.finalizers->0.len() == 0 {
            BitwardenSecretAction::Create
        } else if self.metadata.generation != self.observed_generation() {
            BitwardenSecretAction::Update
        } else {
            BitwardenSecretAction::NoOp
        }
    }

    /// The name of a resource, or the prefix of the name that it is to get, or nothing.
    pub open spec fn any_name(self) -> Seq<char> {
        match self.metadata.name {
            Some(name) => name,
            None => match self.metadata.generate_name {
                Some(name) => name,
                None => Seq::empty(),
            },
        }
    }

    /// The namespace of a resource.
    pub open spec fn any_namespace(self) -> Seq<char> {
        match self.metadata.namespace {
            Some(namespace) => namespace,
            None => "default"@,
        }
    }

    /// The labels of a resource.
    pub open spec fn labels(self) -> Map<Seq<char>, Seq<char>> {
        match self.metadata.labels {
            Some(labels) => labels,
            None => Map::empty(),
        }
    }

    /// The annotations of a resource.
    pub open spec fn annotations(self) -> Map<Seq<char>, Seq<char>> {
        match self.metadata.annotations {
            Some(annotations) => annotations,
            None => Map::empty(),
        }
    }
}

/// What is to be done about a resource.
pub fn determine_action(resource: &WardenSecret) -> (action: BitwardenSecretAction)
    ensures
        action == resource@.action(),
{
    let has_finalizers: bool = match &resource.metadata.finalizers {
        Some(finalizers) => {
            assert(crate::text::views(finalizers@).len() == finalizers@.len());
            finalizers.len() > 0
        },
        None => false,
    };
    if resource.metadata.deletion_timestamp.is_some() {
        BitwardenSecretAction::Delete
    } else if !has_finalizers {
        BitwardenSecretAction::Create
    } else if resource.metadata.generation != resource.get_observed_generation() {
        BitwardenSecretAction::Update
    } else {
        BitwardenSecretAction::NoOp
    }
}

/// The name of a resource, or the prefix of the name that it is to get, or nothing.
pub fn name_any(resource: &WardenSecret) -> (name: String)
    ensures
        name@ == resource@.any_name(),
{
    match &resource.metadata.name {
        Some(name) => name.clone(),
        None => match &resource.metadata.generate_name {
            Some(name) => name.clone(),
            None => String::new(),
        },
    }
}

/// The namespace of a resource.
pub fn namespace_any(resource: &WardenSecret) -> (namespace: String)
    ensures
        namespace@ == resource@.any_namespace(),
{
    match &resource.metadata.namespace {
        Some(namespace) => namespace.clone(),
        None => "default".to_owned(),
    }
}

/// When to look at a resource again.
#[derive(Clone, Copy, Debug, PartialEq, Eq, Structural)]
pub enum Action {
    /// After the given number of seconds.
    Requeue(u64),
    /// When the resource changes.
    AwaitChange,
}

/// When to look at a resource again after a failed reconciliation.
pub fn on_error() -> (action: Action)
    ensures
        action == Action::Requeue(5),
{
    Action::Requeue(5)
}

/// A call of the Kubernetes API.
pub enum KubeCall {
    /// Apply a patch to the status of the resource.
    PatchStatus(JsonValue),
    /// Read the status of the resource.
    GetStatus,
    /// Merge a patch into the resource.
    MergeResource(JsonValue),
    /// Look whether the resource exists.
    GetResource,
    /// Read the owners of the secret, if it exists.
    GetSecret,
    /// Create the secret.
    CreateSecret(SecretManifest),
    /// Merge a patch into the secret.
    MergeSecret(JsonValue),
    /// Delete the secret.
    DeleteSecret,
}

pub enum CallView {
    PatchStatus(Json),
    GetStatus,
    MergeResource(Json),
    GetResource,
    GetSecret,
    CreateSecret(ManifestView),
    MergeSecret(Json),
    DeleteSecret,
}

impl View for KubeCall {
    type V = CallView;

    open spec fn view(&self) -> CallView {
        match self {
            KubeCall::PatchStatus(patch) => CallView::PatchStatus(patch.view()),
            KubeCall::GetStatus => CallView::GetStatus,
            KubeCall::MergeResource(patch) => CallView::MergeResource(patch.view()),
            KubeCall::GetResource => CallView::GetResource,
            KubeCall::GetSecret => CallView::GetSecret,
            KubeCall::CreateSecret(manifest) => CallView::CreateSecret(manifest@),
            KubeCall::MergeSecret(patch) => CallView::MergeSecret(patch.view()),
            KubeCall::DeleteSecret => CallView::DeleteSecret,
        }
    }
}

/// What a reconciliation asks its caller to do.
pub enum Request {
    /// Call the Kubernetes API for the resource, or the secret, with the given name.
    Kube { name: String, namespace: String, call: KubeCall },
    /// Fetch the fields of a vault item.
    FetchFields(String),
    /// Fetch the attachments of a vault item.
    FetchAttachments(String),
    /// Give up the session of the vault.
    ResetVault,
}

pub enum RequestView {
    Kube { name: Seq<char>, namespace: Seq<char>, call: CallView },
    FetchFields(Seq<char>),
    FetchAttachments(Seq<char>),
    ResetVault,
}

impl View for Request {
    type V = RequestView;

    open spec fn view(&self) -> RequestView {
        match self {
            Request::Kube { name, namespace, call } => RequestView::Kube {
                name: name@,
                namespace: namespace@,
                call: call@,
            },
            Request::FetchFields(item) => RequestView::FetchFields(item@),
            Request::FetchAttachments(item) => RequestView::FetchAttachments(item@),
            Request::ResetVault => RequestView::ResetVault,
        }
    }
}

/// An existing secret, as far as it is read: its owners.
pub struct ExistingSecret {
    pub owner_references: Option<Vec<OwnerReference>>,
}

/// The owners of an existing secret.
pub open spec fn existing_owners(secret: ExistingSecret) -> Seq<OwnerView> {
    match secret.owner_references {
        Some(owners) => owner_views(owners@),
        None => Seq::empty(),
    }
}

/// The result of fetching the fields of an item.
pub type FieldsResult = Result<TextMap<String>, WardenCommandError>;

/// The result of fetching the attachments of an item.
pub type AttachmentsResult = Result<TextMap<Vec<u8>>, WardenCommandError>;

pub open spec fn fields_view(result: FieldsResult) -> Result<
    Map<Seq<char>, Seq<char>>,
    CommandErrorView,
> {
    match result {
        Ok(fields) => Ok(fields@),
        Err(error) => Err(error@),
    }
}

pub open spec fn attachments_view(result: AttachmentsResult) -> Result<
    Map<Seq<char>, Seq<u8>>,
    CommandErrorView,
> {
    match result {
        Ok(attachments) => Ok(attachments@),
        Err(error) => Err(error@),
    }
}

/// What came of a request; a failed call of the Kubernetes API comes with its message.
pub enum Reply {
    /// A patch, a creation or a deletion.
    Done(Result<(), String>),
    /// The status of the resource, if it has one.
    Status(Result<Option<WardenSecretStatus>, String>),
    /// Whether the resource exists.
    Resource(Result<bool, String>),
    /// The secret, if it exists.
    Secret(Result<Option<ExistingSecret>, String>),
    Fields(FieldsResult),
    Attachments(AttachmentsResult),
    /// The session has been given up.
    VaultReset,
}

pub enum ReplyView {
    Done(Result<(), Seq<char>>),
    Status(Result<Option<StatusView>, Seq<char>>),
    Resource(Result<bool, Seq<char>>),
    Secret(Result<Option<Seq<OwnerView>>, Seq<char>>),
    Fields(Result<Map<Seq<char>, Seq<char>>, CommandErrorView>),
    Attachments(Result<Map<Seq<char>, Seq<u8>>, CommandErrorView>),
    VaultReset,
}

impl View for Reply {
    type V = ReplyView;

    open spec fn view(&self) -> ReplyView {
        match self {
            Reply::Done(Ok(())) => ReplyView::Done(Ok(())),
            Reply::Done(Err(message)) => ReplyView::Done(Err(message@)),
            Reply::Status(Ok(Some(status))) => ReplyView::Status(Ok(Some(status@))),
            Reply::Status(Ok(None)) => ReplyView::Status(Ok(None)),
            Reply::Status(Err(message)) => ReplyView::Status(Err(message@)),
            Reply::Resource(Ok(exists)) => ReplyView::Resource(Ok(*exists)),
            Reply::Resource(Err(message)) => ReplyView::Resource(Err(message@)),
            Reply::Secret(Ok(Some(secret))) => ReplyView::Secret(
                Ok(Some(existing_owners(*secret))),
            ),
            Reply::Secret(Ok(None)) => ReplyView::Secret(Ok(None)),
            Reply::Secret(Err(message)) => ReplyView::Secret(Err(message@)),
            Reply::Fields(result) => ReplyView::Fields(fields_view(*result)),
            Reply::Attachments(result) => ReplyView::Attachments(attachments_view(*result)),
            Reply::VaultReset => ReplyView::VaultReset,
        }
    }
}

/// What a reconciliation waits for.
pub enum Stage {
    /// The first status of a new resource.
    WritingInitialStatus { status: WardenSecretStatus },
    /// The finalizer of a new resource.
    AddingFinalizer { status: WardenSecretStatus },
    /// The status of a new resource that is taken care of.
    WritingReadyStatus { status: WardenSecretStatus },
    /// The status of a resource that has changed.
    ReadingStatus,
    /// The fields of the vault item.
    FetchingFields { status: WardenSecretStatus },
    /// The attachments of the vault item.
    FetchingAttachments { status: WardenSecretStatus, fields_result: FieldsResult },
    /// The secret, which may exist already.
    ReadingSecret {
        status: WardenSecretStatus,
        owner: OwnerReference,
        fields: TextMap<String>,
        attachments: TextMap<Vec<u8>>,
    },
    /// The secret with the fields and attachments.
    WritingSecret { status: WardenSecretStatus },
    /// The status after the secret has been written.
    WritingSuccess,
    /// The status after the vault item could not be fetched.
    WritingFailure { status: WardenSecretStatus, error: WardenCommandError },
    /// The status that says why the vault item could not be fetched.
    WritingReason,
    /// The vault without a session.
    ResettingVault,
    /// The secret of a deleted resource, which may be gone already.
    ReadingOldSecret,
    /// The deletion of the secret.
    DeletingSecret,
    /// The deleted resource, which may be gone already.
    ReadingResource,
    /// The deleted resource without finalizers.
    RemovingFinalizers,
}

pub enum StageView {
    WritingInitialStatus { status: StatusView },
    AddingFinalizer { status: StatusView },
    WritingReadyStatus { status: StatusView },
    ReadingStatus,
    FetchingFields { status: StatusView },
    FetchingAttachments {
        status: StatusView,
        fields_result: Result<Map<Seq<char>, Seq<char>>, CommandErrorView>,
    },
    ReadingSecret {
        status: StatusView,
        owner: OwnerView,
        fields: Map<Seq<char>, Seq<char>>,
        attachments: Map<Seq<char>, Seq<u8>>,
    },
    WritingSecret { status: StatusView },
    WritingSuccess,
    WritingFailure { status: StatusView, error: CommandErrorView },
    WritingReason,
    ResettingVault,
    ReadingOldSecret,
    DeletingSecret,
    ReadingResource,
    RemovingFinalizers,
}

impl View for Stage {
    type V = StageView;

    open spec fn view(&self) -> StageView {
        match self {
            Stage::WritingInitialStatus { status } => StageView::WritingInitialStatus {
                status: status@,
            },
            Stage::AddingFinalizer { status } => StageView::AddingFinalizer { status: status@ },
            Stage::WritingReadyStatus { status } => StageView::WritingReadyStatus {
                status: status@,
            },
            Stage::ReadingStatus => StageView::ReadingStatus,
            Stage::FetchingFields { status } => StageView::FetchingFields { status: status@ },
            Stage::FetchingAttachments { status, fields_result } => StageView::FetchingAttachments {
                status: status@,
                fields_result: fields_view(*fields_result),
            },
            Stage::ReadingSecret { status, owner, fields, attachments } => {
                StageView::ReadingSecret {
                    status: status@,
                    owner: owner@,
                    fields: fields@,
                    attachments: attachments@,
                }
            },
            Stage::WritingSecret { status } => StageView::WritingSecret { status: status@ },
            Stage::WritingSuccess => StageView::WritingSuccess,
            Stage::WritingFailure { status, error } => StageView::WritingFailure {
                status: status@,
                error: error@,
            },
            Stage::WritingReason => StageView::WritingReason,
            Stage::ResettingVault => StageView::ResettingVault,
            Stage::ReadingOldSecret => StageView::ReadingOldSecret,
            Stage::DeletingSecret => StageView::DeletingSecret,
            Stage::ReadingResource => StageView::ReadingResource,
            Stage::RemovingFinalizers => StageView::RemovingFinalizers,
        }
    }
}

/// How a reconciliation goes on.
pub enum Progress {
    /// With a request; its reply is handed to `advance` together with the stage.
    Perform(Request, Stage),
    /// Not at all: the reconciliation has ended.
    Finished(Result<Action, Error>),
}

pub enum ProgressView {
    Perform(RequestView, StageView),
    Finished(Result<Action, ErrorView>),
}

impl View for Progress {
    type V = ProgressView;

    open spec fn view(&self) -> ProgressView {
        match self {
            Progress::Perform(request, stage) => ProgressView::Perform(request@, stage@),
            Progress::Finished(Ok(action)) => ProgressView::Finished(Ok(*action)),
            Progress::Finished(Err(error)) => ProgressView::Finished(Err(error@)),
        }
    }
}

/// A reply of the kind that the stage waits for.
pub open spec fn is_awaited(stage: StageView, reply: ReplyView) -> bool {
    match stage {
        StageView::ReadingStatus => reply is Status,
        StageView::FetchingFields { .. } => reply is Fields,
        StageView::FetchingAttachments { .. } => reply is Attachments,
        StageView::ReadingSecret { .. } => reply is Secret,
        StageView::ReadingOldSecret => reply is Secret,
        StageView::ReadingResource => reply is Resource,
        StageView::ResettingVault => reply is VaultReset,
        _ => reply is Done,
    }
}

/// A reply of the kind that answers the request.
pub open spec fn is_answer(request: RequestView, reply: ReplyView) -> bool {
    match request {
        RequestView::FetchFields(_) => reply is Fields,
        RequestView::FetchAttachments(_) => reply is Attachments,
        RequestView::ResetVault => reply is VaultReset,
        RequestView::Kube { call: CallView::GetStatus, .. } => reply is Status,
        RequestView::Kube { call: CallView::GetResource, .. } => reply is Resource,
        RequestView::Kube { call: CallView::GetSecret, .. } => reply is Secret,
        RequestView::Kube { .. } => reply is Done,
    }
}

/// Whether the next step needs the `uid` of the resource: it does once both
/// the fields and the attachments are there.
pub open spec fn needs_uid(stage: StageView, reply: ReplyView) -> bool {
    stage matches StageView::FetchingAttachments { fields_result: Ok(_), .. } && reply
        matches ReplyView::Attachments(Ok(_))
}

/// The message of a failed call of the Kubernetes API.
pub open spec fn kube_failure(reply: ReplyView) -> Option<Seq<char>> {
    match reply {
        ReplyView::Done(Err(message)) => Some(message),
        ReplyView::Status(Err(message)) => Some(message),
        ReplyView::Resource(Err(message)) => Some(message),
        ReplyView::Secret(Err(message)) => Some(message),
        _ => None,
    }
}

/// A call of the Kubernetes API for a resource.
pub open spec fn kube(resource: SecretView, call: CallView, stage: StageView) -> ProgressView {
    ProgressView::Perform(
        RequestView::Kube {
            name: resource.any_name(),
            namespace: resource.any_namespace(),
            call,
        },
        stage,
    )
}

/// The reconciliation has ended well.
pub open spec fn end(action: Action) -> ProgressView {
    ProgressView::Finished(Ok(action))
}

/// A `Ready` condition without a message.
pub open spec fn ready_condition(status: ConditionStatus, now: Seq<char>) -> ConditionView {
    ConditionView {
        status,
        reason: None,
        message: None,
        type_: ConditionType::Ready,
        last_transition: now,
    }
}

/// The `Ready` condition of a resource whose vault item could not be fetched.
pub open spec fn failed_condition(now: Seq<char>) -> ConditionView {
    ConditionView {
        status: ConditionStatus::False,
        reason: Some("ObtainingSecretsFailed"@),
        message: Some("Failed to fetch Bitwarden item fields or attachments"@),
        type_: ConditionType::Ready,
        last_transition: now,
    }
}

/// The first status of a resource: it is not known whether it is ready.
pub open spec fn initial_status(
    resource: SecretView,
    now: Seq<char>,
    start: Seq<char>,
) -> StatusView {
    StatusView {
        conditions: seq![ready_condition(ConditionStatus::Unknown, now)],
        start_time: Some(start),
        observed_generation: resource.metadata.generation,
    }
}

/// The first step of a reconciliation.
pub open spec fn begun(
    resource: SecretView,
    delay: Option<Seq<char>>,
    now: Seq<char>,
    start: Seq<char>,
) -> ProgressView {
    match resource.action() {
        BitwardenSecretAction::Create => {
            let status = initial_status(resource, now, start);
            kube(
                resource,
                CallView::PatchStatus(status_patch(status)),
                StageView::WritingInitialStatus { status },
            )
        },
        BitwardenSecretAction::Update => kube(
            resource,
            CallView::GetStatus,
            StageView::ReadingStatus,
        ),
        BitwardenSecretAction::Delete => kube(
            resource,
            CallView::GetSecret,
            StageView::ReadingOldSecret,
        ),
        BitwardenSecretAction::NoOp => end(Action::Requeue(noop_delay(delay)->0 as u64)),
    }
}

/// The fields of the vault item are fetched.
pub open spec fn fetch_fields(resource: SecretView, status: StatusView) -> ProgressView {
    ProgressView::Perform(
        RequestView::FetchFields(resource.spec.item),
        StageView::FetchingFields { status },
    )
}

/// The step after the fields and the attachments have been asked for.
pub open spec fn fetched(
    resource: SecretView,
    status: StatusView,
    fields: Result<Map<Seq<char>, Seq<char>>, CommandErrorView>,
    attachments: Result<Map<Seq<char>, Seq<u8>>, CommandErrorView>,
    now: Seq<char>,
) -> ProgressView {
    match (fields, attachments) {
        (Ok(fields), Ok(attachments)) => if resource.metadata.name is None {
            ProgressView::Finished(Err(nameless(resource)))
        } else {
            kube(
                resource,
                CallView::GetSecret,
                StageView::ReadingSecret { status, owner: owner_of(resource), fields, attachments },
            )
        },
        _ => {
            let failed = with_ready_condition(status, failed_condition(now));
            kube(
                resource,
                CallView::PatchStatus(status_patch(failed)),
                StageView::WritingFailure {
                    status: failed,
                    error: if fields is Err {
                        fields->Err_0
                    } else {
                        attachments->Err_0
                    },
                },
            )
        },
    }
}

/// The secret to create for a resource.
pub open spec fn new_secret(
    resource: SecretView,
    owner: OwnerView,
    fields: Map<Seq<char>, Seq<char>>,
    attachments: Map<Seq<char>, Seq<u8>>,
) -> ManifestView {
    ManifestView {
        name: resource.any_name(),
        namespace: resource.any_namespace(),
        labels: resource.labels(),
        annotations: resource.annotations(),
        owner_references: seq![owner],
        string_data: fields,
        data: attachments,
        type_: resource.spec.type_,
    }
}

/// The call that writes the secret: it is created, or merged into the existing one.
pub open spec fn write_call(
    resource: SecretView,
    existing: Option<Seq<OwnerView>>,
    owner: OwnerView,
    fields: Map<Seq<char>, Seq<char>>,
    attachments: Map<Seq<char>, Seq<u8>>,
) -> CallView {
    match existing {
        Some(owners) => CallView::MergeSecret(
            secret_patch(with_owner(owners, owner), resource.spec.type_, fields, attachments),
        ),
        None => CallView::CreateSecret(new_secret(resource, owner, fields, attachments)),
    }
}

/// The step that follows a reply, unless it tells of a failed call of the
/// Kubernetes API.
pub open spec fn after_success(
    resource: SecretView,
    stage: StageView,
    reply: ReplyView,
    now: Seq<char>,
    start: Seq<char>,
) -> ProgressView {
    match (stage, reply) {
        (StageView::WritingInitialStatus { status }, _) => kube(
            resource,
            CallView::MergeResource(finalizers_patch(own_finalizer())),
            StageView::AddingFinalizer { status },
        ),
        (StageView::AddingFinalizer { status }, _) => {
            let ready = with_ready_condition(status, ready_condition(ConditionStatus::True, now));
            kube(
                resource,
                CallView::PatchStatus(status_patch(ready)),
                StageView::WritingReadyStatus { status: ready },
            )
        },
        (StageView::WritingReadyStatus { status }, _) => fetch_fields(resource, status),
        (StageView::ReadingStatus, ReplyView::Status(Ok(Some(status)))) => fetch_fields(
            resource,
            StatusView { observed_generation: resource.metadata.generation, ..status },
        ),
        (StageView::ReadingStatus, _) => fetch_fields(
            resource,
            initial_status(resource, now, start),
        ),
        (StageView::FetchingFields { status }, ReplyView::Fields(fields)) => ProgressView::Perform(
            RequestView::FetchAttachments(resource.spec.item),
            StageView::FetchingAttachments { status, fields_result: fields },
        ),
        (
            StageView::FetchingAttachments { status, fields_result },
            ReplyView::Attachments(attachments),
        ) => fetched(resource, status, fields_result, attachments, now),
        (
            StageView::ReadingSecret { status, owner, fields, attachments },
            ReplyView::Secret(Ok(existing)),
        ) => kube(
            resource,
            write_call(resource, existing, owner, fields, attachments),
            StageView::WritingSecret { status },
        ),
        (StageView::WritingSecret { status }, _) => kube(
            resource,
            CallView::PatchStatus(status_patch(updated_status(status, None, now))),
            StageView::WritingSuccess,
        ),
        (StageView::WritingSuccess, _) => end(Action::Requeue(10)),
        (StageView::WritingFailure { status, error }, _) => kube(
            resource,
            CallView::PatchStatus(status_patch(updated_status(status, Some(error), now))),
            StageView::WritingReason,
        ),
        (StageView::WritingReason, _) => ProgressView::Perform(
            RequestView::ResetVault,
            StageView::ResettingVault,
        ),
        (StageView::ResettingVault, _) => end(Action::Requeue(10)),
        (StageView::ReadingOldSecret, ReplyView::Secret(Ok(Some(_)))) => kube(
            resource,
            CallView::DeleteSecret,
            StageView::DeletingSecret,
        ),
        (StageView::ReadingOldSecret, _) => kube(
            resource,
            CallView::GetResource,
            StageView::ReadingResource,
        ),
        (StageView::DeletingSecret, _) => kube(
            resource,
            CallView::GetResource,
            StageView::ReadingResource,
        ),
        (StageView::ReadingResource, ReplyView::Resource(Ok(true))) => kube(
            resource,
            CallView::MergeResource(finalizers_patch(Json::Null)),
            StageView::RemovingFinalizers,
        ),
        (StageView::ReadingResource, _) => end(Action::AwaitChange),
        (StageView::RemovingFinalizers, _) => end(Action::AwaitChange),
        _ => arbitrary(),
    }
}

/// The step that follows a reply. A failed call of the Kubernetes API ends
/// the reconciliation.
pub open spec fn advanced(
    resource: SecretView,
    stage: StageView,
    reply: ReplyView,
    now: Seq<char>,
    start: Seq<char>,
) -> ProgressView {
    match kube_failure(reply) {
        Some(message) => ProgressView::Finished(Err(ErrorView::KubeError { source: message })),
        None => after_success(resource, stage, reply, now, start),
    }
}

/// A call of the Kubernetes API for a resource.
fn kube_request(resource: &WardenSecret, call: KubeCall, stage: Stage) -> (progress: Progress)
    ensures
        progress@ == kube(resource@, call@, stage@),
{
    Progress::Perform(
        Request::Kube { name: name_any(resource), namespace: namespace_any(resource), call },
        stage,
    )
}

/// A `Ready` condition without a message.
fn ready(status: ConditionStatus, now: String) -> (condition: ApplyCondition)
    ensures
        condition@ == ready_condition(status, now@),
        condition.type_ == ConditionType::Ready,
{
    ApplyCondition {
        status,
        reason: None,
        message: None,
        type_: ConditionType::Ready,
        last_transition: now,
    }
}

/// The first status of a resource.
fn first_status(resource: &WardenSecret, now: String, start: String) -> (status: WardenSecretStatus)
    ensures
        status@ == initial_status(resource@, now@, start@),
{
    let mut conditions: Vec<ApplyCondition> = Vec::new();
    conditions.push(ready(ConditionStatus::Unknown, now));
    assert(condition_views(conditions@) =~= seq![ready_condition(ConditionStatus::Unknown, now@)]);
    WardenSecretStatus {
        conditions,
        start_time: Some(start),
        observed_generation: resource.metadata.generation,
    }
}

/// A copy of optional texts, empty if there are none.
fn texts_or_none(texts: &Option<TextMap<String>>) -> (copy: TextMap<String>)
    ensures
        copy@ == match *texts {
            Some(texts) => texts@,
            None => Map::empty(),
        },
{
    match texts {
        Some(texts) => texts.copy(),
        None => TextMap::new(),
    }
}

/// Starts to reconcile a resource, taking `now` and `start` for the current
/// time. The value of the environment variable for the delay, if it is set,
/// matters only if there is nothing to do; it has to be a number then.
pub fn reconcile_at(
    resource: &WardenSecret,
    delay: &Option<String>,
    now: String,
    start: String,
) -> (progress: Progress)
    requires
        resource@.action() == BitwardenSecretAction::NoOp ==> noop_delay(optional(*delay)) is Some,
    ensures
        progress@ == begun(resource@, optional(*delay), now@, start@),
{
    match determine_action(resource) {
        BitwardenSecretAction::Create => {
            let status: WardenSecretStatus = first_status(resource, now, start);
            kube_request(
                resource,
                KubeCall::PatchStatus(patch_status(&status)),
                Stage::WritingInitialStatus { status },
            )
        },
        BitwardenSecretAction::Update => kube_request(
            resource,
            KubeCall::GetStatus,
            Stage::ReadingStatus,
        ),
        BitwardenSecretAction::Delete => kube_request(
            resource,
            KubeCall::GetSecret,
            Stage::ReadingOldSecret,
        ),
        BitwardenSecretAction::NoOp => match noop_requeue_delay(delay) {
            Some(seconds) => Progress::Finished(Ok(Action::Requeue(seconds))),
            None => unreached(),
        },
    }
}

/// Starts to reconcile a resource.
pub fn reconcile(resource: &WardenSecret, delay: &Option<String>) -> (progress: Progress)
    requires
        resource@.action() == BitwardenSecretAction::NoOp ==> noop_delay(optional(*delay)) is Some,
    ensures
        exists|now: Seq<char>, start: Seq<char>| #[trigger]
            is_utc_timestamp(now) && #[trigger] is_utc_timestamp(start) && progress@ == begun(
                resource@,
                optional(*delay),
                now,
                start,
            ),
{
    let start: String = now_rfc3339();
    let now: String = now_rfc3339();
    reconcile_at(resource, delay, now, start)
}

/// Whether a reconciliation of the resource can start: it cannot if there is
/// nothing to do and the delay is not a number.
pub fn can_reconcile(resource: &WardenSecret, delay: &Option<String>) -> (r: bool)
    ensures
        r == (resource@.action() == BitwardenSecretAction::NoOp ==> noop_delay(
            optional(*delay),
        ) is Some),
{
    determine_action(resource) != BitwardenSecretAction::NoOp || noop_requeue_delay(delay).is_some()
}

/// Whether a reply is of the kind that the stage waits for.
fn fits(stage: &Stage, reply: &Reply) -> (r: bool)
    ensures
        r == is_awaited(stage@, reply@),
{
    match (stage, reply) {
        (Stage::ReadingStatus, Reply::Status(_)) => true,
        (Stage::ReadingStatus, _) => false,
        (Stage::FetchingFields { .. }, Reply::Fields(_)) => true,
        (Stage::FetchingFields { .. }, _) => false,
        (Stage::FetchingAttachments { .. }, Reply::Attachments(_)) => true,
        (Stage::FetchingAttachments { .. }, _) => false,
        (Stage::ReadingSecret { .. }, Reply::Secret(_)) => true,
        (Stage::ReadingSecret { .. }, _) => false,
        (Stage::ReadingOldSecret, Reply::Secret(_)) => true,
        (Stage::ReadingOldSecret, _) => false,
        (Stage::ReadingResource, Reply::Resource(_)) => true,
        (Stage::ReadingResource, _) => false,
        (Stage::ResettingVault, Reply::VaultReset) => true,
        (Stage::ResettingVault, _) => false,
        (_, Reply::Done(_)) => true,
        _ => false,
    }
}

/// Whether a reconciliation can go on from the stage with the reply: it has to
/// be a reply that the stage waits for, and once both the fields and the
/// attachments are there the resource needs a `uid`.
pub fn can_advance(resource: &WardenSecret, stage: &Stage, reply: &Reply) -> (r: bool)
    ensures
        r == (is_awaited(stage@, reply@) && (needs_uid(stage@, reply@)
            ==> resource@.metadata.uid is Some)),
{
    let needs: bool = match (stage, reply) {
        (
            Stage::FetchingAttachments { fields_result: Ok(_), .. },
            Reply::Attachments(Ok(_)),
        ) => true,
        _ => false,
    };
    fits(stage, reply) && (!needs || resource.metadata.uid.is_some())
}

/// The call that deletes the secret of a resource, if the secret still exists.
pub fn delete_secret(has_secret: bool) -> (call: Option<KubeCall>)
    ensures
        call is Some <==> has_secret,
        call matches Some(call) ==> call@ == CallView::DeleteSecret,
{
    if has_secret {
        Some(KubeCall::DeleteSecret)
    } else {
        None
    }
}

/// The step after the fields and the attachments have been asked for.
fn after_fetch(
    resource: &WardenSecret,
    status: WardenSecretStatus,
    fields: FieldsResult,
    attachments: AttachmentsResult,
    now: String,
) -> (progress: Progress)
    requires
        fields is Ok && attachments is Ok ==> resource@.metadata.uid is Some,
    ensures
        progress@ == fetched(
            resource@,
            status@,
            fields_view(fields),
            attachments_view(attachments),
            now@,
        ),
{
    let error: WardenCommandError = match (fields, attachments) {
        (Ok(fields), Ok(attachments)) => {
            return match create_owner_ref_for(resource) {
                Ok(owner) => kube_request(
                    resource,
                    KubeCall::GetSecret,
                    Stage::ReadingSecret { status, owner, fields, attachments },
                ),
                Err(error) => Progress::Finished(Err(error)),
            };
        },
        (Err(error), _) => error,
        (Ok(_), Err(error)) => error,
    };
    let condition: ApplyCondition = ApplyCondition {
        status: ConditionStatus::False,
        reason: Some("ObtainingSecretsFailed".to_owned()),
        message: Some("Failed to fetch Bitwarden item fields or attachments".to_owned()),
        type_: ConditionType::Ready,
        last_transition: now,
    };
    let status: WardenSecretStatus = update_ready_condition(status, condition);
    kube_request(
        resource,
        KubeCall::PatchStatus(patch_status(&status)),
        Stage::WritingFailure { status, error },
    )
}

/// The step that writes the secret: it is created, or merged into the existing one.
fn write_secret(
    resource: &WardenSecret,
    existing: Option<ExistingSecret>,
    status: WardenSecretStatus,
    owner: OwnerReference,
    fields: TextMap<String>,
    attachments: TextMap<Vec<u8>>,
) -> (progress: Progress)
    ensures
        progress@ == kube(
            resource@,
            write_call(
                resource@,
                match existing {
                    Some(secret) => Some(existing_owners(secret)),
                    None => None,
                },
                owner@,
                fields@,
                attachments@,
            ),
            (StageView::WritingSecret { status: status@ }),
        ),
{
    let write: KubeCall = match existing {
        Some(secret) => {
            let mut owners: Vec<OwnerReference> = match secret.owner_references {
                Some(owners) => owners,
                None => Vec::new(),
            };
            assert(owner_views(owners@) =~= existing_owners(secret));
            add_or_update_owner_ref(&mut owners, owner);
            KubeCall::MergeSecret(
                merge_secret(owners, resource.spec.type_.as_str(), fields, attachments),
            )
        },
        None => KubeCall::CreateSecret(
            create_secret(
                owner,
                name_any(resource).as_str(),
                namespace_any(resource).as_str(),
                resource.spec.type_.as_str(),
                fields,
                attachments,
                texts_or_none(&resource.metadata.labels),
                texts_or_none(&resource.metadata.annotations),
            ),
        ),
    };
    kube_request(resource, write, Stage::WritingSecret { status })
}

/// Goes on after a patch, a creation or a deletion.
fn after_write(resource: &WardenSecret, stage: Stage, now: String) -> (progress: Progress)
    requires
        is_awaited(stage@, ReplyView::Done(Ok(()))),
    ensures
        forall|start: Seq<char>|
            progress@ == #[trigger] after_success(
                resource@,
                stage@,
                ReplyView::Done(Ok(())),
                now@,
                start,
            ),
{
    match stage {
        Stage::WritingInitialStatus { status } => kube_request(
            resource,
            KubeCall::MergeResource(add_finalizer()),
            Stage::AddingFinalizer { status },
        ),
        Stage::AddingFinalizer { status } => {
            let status: WardenSecretStatus = update_ready_condition(
                status,
                ready(ConditionStatus::True, now),
            );
            kube_request(
                resource,
                KubeCall::PatchStatus(patch_status(&status)),
                Stage::WritingReadyStatus { status },
            )
        },
        Stage::WritingReadyStatus { status } => ask_for_fields(resource, status),
        Stage::WritingSecret { status } => {
            let status: WardenSecretStatus = update_status_at(status, None, now);
            kube_request(
                resource,
                KubeCall::PatchStatus(patch_status(&status)),
                Stage::WritingSuccess,
            )
        },
        Stage::WritingSuccess => Progress::Finished(Ok(Action::Requeue(10))),
        Stage::WritingFailure { status, error } => {
            let status: WardenSecretStatus = update_status_at(status, Some(error), now);
            kube_request(
                resource,
                KubeCall::PatchStatus(patch_status(&status)),
                Stage::WritingReason,
            )
        },
        Stage::WritingReason => Progress::Perform(Request::ResetVault, Stage::ResettingVault),
        Stage::DeletingSecret => kube_request(
            resource,
            KubeCall::GetResource,
            Stage::ReadingResource,
        ),
        Stage::RemovingFinalizers => Progress::Finished(Ok(Action::AwaitChange)),
        _ => unreached(),
    }
}

/// Asks for the fields of the vault item.
fn ask_for_fields(resource: &WardenSecret, status: WardenSecretStatus) -> (progress: Progress)
    ensures
        progress@ == fetch_fields(resource@, status@),
{
    Progress::Perform(
        Request::FetchFields(resource.spec.item.clone()),
        Stage::FetchingFields { status },
    )
}

/// Goes on with a reconciliation after the reply to its last request, taking
/// `now` and `start` for the current time.
pub fn advance_at(
    resource: &WardenSecret,
    stage: Stage,
    reply: Reply,
    now: String,
    start: String,
) -> (progress: Progress)
    requires
        is_awaited(stage@, reply@),
        needs_uid(stage@, reply@) ==> resource@.metadata.uid is Some,
    ensures
        progress@ == advanced(resource@, stage@, reply@, now@, start@),
{
    match reply {
        Reply::Done(Ok(())) => after_write(resource, stage, now),
        Reply::Status(Ok(Some(status))) => {
            let WardenSecretStatus { conditions, start_time, observed_generation: _ } = status;
            ask_for_fields(
                resource,
                WardenSecretStatus {
                    conditions,
                    start_time,
                    observed_generation: resource.metadata.generation,
                },
            )
        },
        Reply::Status(Ok(None)) => ask_for_fields(resource, first_status(resource, now, start)),
        Reply::Resource(Ok(exists)) => match delete_finalizer(exists) {
            Some(patch) => kube_request(
                resource,
                KubeCall::MergeResource(patch),
                Stage::RemovingFinalizers,
            ),
            None => Progress::Finished(Ok(Action::AwaitChange)),
        },
        Reply::Secret(Ok(existing)) => match stage {
            Stage::ReadingSecret { status, owner, fields, attachments } => write_secret(
                resource,
                existing,
                status,
                owner,
                fields,
                attachments,
            ),
            _ => match delete_secret(existing.is_some()) {
                Some(call) => kube_request(resource, call, Stage::DeletingSecret),
                None => kube_request(resource, KubeCall::GetResource, Stage::ReadingResource),
            },
        },
        Reply::Fields(fields) => match stage {
            Stage::FetchingFields { status } => Progress::Perform(
                Request::FetchAttachments(resource.spec.item.clone()),
                Stage::FetchingAttachments { status, fields_result: fields },
            ),
            _ => unreached(),
        },
        Reply::Attachments(attachments) => match stage {
            Stage::FetchingAttachments { status, fields_result } => after_fetch(
                resource,
                status,
                fields_result,
                attachments,
                now,
            ),
            _ => unreached(),
        },
        Reply::VaultReset => Progress::Finished(Ok(Action::Requeue(10))),
        Reply::Done(Err(source)) => Progress::Finished(Err(Error::KubeError { source })),
        Reply::Status(Err(source)) => Progress::Finished(Err(Error::KubeError { source })),
        Reply::Resource(Err(source)) => Progress::Finished(Err(Error::KubeError { source })),
        Reply::Secret(Err(source)) => Progress::Finished(Err(Error::KubeError { source })),
    }
}

/// Goes on with a reconciliation after the reply to its last request.
pub fn advance(resource: &WardenSecret, stage: Stage, reply: Reply) -> (progress: Progress)
    requires
        is_awaited(stage@, reply@),
        needs_uid(stage@, reply@) ==> resource@.metadata.uid is Some,
    ensures
        exists|now: Seq<char>, start: Seq<char>| #[trigger]
            is_utc_timestamp(now) && #[trigger] is_utc_timestamp(start) && progress@ == advanced(
                resource@,
                stage@,
                reply@,
                now,
                start,
            ),
{
    let now: String = now_rfc3339();
    let start: String = now_rfc3339();
    advance_at(resource, stage, reply, now, start)
}

} // verus!

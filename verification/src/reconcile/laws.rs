//! What holds of every reconciliation.

use vstd::prelude::*;
use super::{
    advanced, begun, end, failed_condition, initial_status, is_answer, is_awaited, kube_failure,
    needs_uid, ready_condition, write_call, Action, BitwardenSecretAction, CallView, KubeCall,
    Progress, ProgressView, Reply, ReplyView, Request, RequestView, Stage, StageView,
};
use crate::bw::laws::attachment_pairs;
use crate::bw::session::{field_pairs, AttachmentView, FieldView};
use crate::bw::CommandErrorView;
use crate::crd::v2::{ConditionStatus, ConditionType, ConditionView, SecretView, StatusView};
use crate::crd::WardenSecret;
use crate::error::ErrorView;
use crate::json::Json;
use crate::owner::{law_with_owner, nameless, owner_of, with_owner, OwnerView};
use crate::secrets::secret_patch;
use crate::settings::{law_noop_delay, noop_delay};
use crate::status::{
    finalizers_patch, law_ready_condition_is_set, law_status_tells_the_outcome, own_finalizer,
    status_patch, updated_status, with_ready_condition,
};
use crate::text::law_unsigned_number;
use crate::text_map::{lemma_pairs_map_last, lemma_pairs_map_origin, pairs_map};

verus! {

/// A step whose stage waits for exactly the replies that answer its request.
pub open spec fn is_sound(progress: ProgressView) -> bool {
    progress matches ProgressView::Perform(request, stage) ==> forall|reply: ReplyView| #[trigger]
        is_answer(request, reply) <==> is_awaited(stage, reply)
}

/// At every step the reply to the request is what the stage waits for.
pub proof fn law_steps_are_sound(
    resource: SecretView,
    delay: Option<Seq<char>>,
    stage: StageView,
    reply: ReplyView,
    now: Seq<char>,
    start: Seq<char>,
)
    requires
        is_awaited(stage, reply),
    ensures
        is_sound(begun(resource, delay, now, start)),
        is_sound(advanced(resource, stage, reply, now, start)),
{
}

/// How far a stage is from the end.
pub open spec fn rank(stage: StageView) -> nat {
    match stage {
        StageView::WritingInitialStatus { .. } => 8,
        StageView::AddingFinalizer { .. } => 7,
        StageView::WritingReadyStatus { .. } => 6,
        StageView::ReadingStatus => 6,
        StageView::FetchingFields { .. } => 5,
        StageView::FetchingAttachments { .. } => 4,
        StageView::ReadingSecret { .. } => 3,
        StageView::ReadingOldSecret => 3,
        StageView::WritingSecret { .. } => 2,
        StageView::WritingFailure { .. } => 2,
        StageView::DeletingSecret => 2,
        StageView::WritingReason => 1,
        StageView::ReadingResource => 1,
        _ => 0,
    }
}

/// Every reconciliation comes to an end: each step is nearer to it than the one before.
pub proof fn law_reconciliations_end(
    resource: SecretView,
    stage: StageView,
    reply: ReplyView,
    now: Seq<char>,
    start: Seq<char>,
)
    requires
        is_awaited(stage, reply),
    ensures
        advanced(resource, stage, reply, now, start) matches ProgressView::Perform(_, next)
            ==> rank(next) < rank(stage),
{
}

/// A failed call of the Kubernetes API ends the reconciliation with the
/// message of the failure. The only other failure is that of a resource
/// without a name, whose vault item could be fetched.
pub proof fn law_reconciliations_fail_with_the_cluster(
    resource: SecretView,
    stage: StageView,
    reply: ReplyView,
    now: Seq<char>,
    start: Seq<char>,
)
    requires
        is_awaited(stage, reply),
    ensures
        kube_failure(reply) matches Some(message) ==> advanced(resource, stage, reply, now, start)
            == ProgressView::Finished(Err(ErrorView::KubeError { source: message })),
        advanced(resource, stage, reply, now, start) matches ProgressView::Finished(Err(_))
            ==> kube_failure(reply) is Some || needs_uid(stage, reply)
            && resource.metadata.name is None,
{
}

/// Every request goes to the resource that is reconciled, or to the secret of
/// the same name and namespace, or asks for the vault item of the resource.
pub open spec fn is_about(request: RequestView, resource: SecretView) -> bool {
    match request {
        RequestView::Kube { name, namespace, call } => name == resource.any_name() && namespace
            == resource.any_namespace(),
        RequestView::FetchFields(item) => item == resource.spec.item,
        RequestView::FetchAttachments(item) => item == resource.spec.item,
        RequestView::ResetVault => true,
    }
}

/// A reconciliation touches nothing but its own resource and secret.
pub proof fn law_requests_are_about_the_resource(
    resource: SecretView,
    delay: Option<Seq<char>>,
    stage: StageView,
    reply: ReplyView,
    now: Seq<char>,
    start: Seq<char>,
)
    requires
        is_awaited(stage, reply),
    ensures
        begun(resource, delay, now, start) matches ProgressView::Perform(request, _) ==> is_about(
            request,
            resource,
        ),
        advanced(resource, stage, reply, now, start) matches ProgressView::Perform(request, _)
            ==> is_about(request, resource),
{
}

/// A resource that is being deleted is cleaned up after, whatever else holds of it.
pub proof fn law_deletion_comes_first(resource: SecretView)
    ensures
        resource.action() == BitwardenSecretAction::Delete <==> resource.metadata.deletion_timestamp
            is Some,
{
}

/// A resource that has the finalizer of the operator, and whose status was
/// written for its generation, is left alone until the delay is over.
pub proof fn law_settled_resource_is_left_alone(
    resource: SecretView,
    now: Seq<char>,
    start: Seq<char>,
)
    requires
        resource.metadata.deletion_timestamp is None,
        resource.metadata.finalizers is Some,
        resource.metadata.finalizers->0.len() > 0,
        resource.observed_generation() == resource.metadata.generation,
    ensures
        resource.action() == BitwardenSecretAction::NoOp,
        begun(resource, None, now, start) == end(Action::Requeue(300)),
{
}

/// The status that a stage carries along.
pub open spec fn carried_status(stage: StageView) -> Option<StatusView> {
    match stage {
        StageView::WritingInitialStatus { status } => Some(status),
        StageView::AddingFinalizer { status } => Some(status),
        StageView::WritingReadyStatus { status } => Some(status),
        StageView::FetchingFields { status } => Some(status),
        StageView::FetchingAttachments { status, .. } => Some(status),
        StageView::ReadingSecret { status, .. } => Some(status),
        StageView::WritingSecret { status } => Some(status),
        StageView::WritingFailure { status, .. } => Some(status),
        _ => None,
    }
}

/// A stage whose status, if it carries one, is for the generation of the resource.
pub open spec fn is_current(resource: SecretView, stage: StageView) -> bool {
    carried_status(stage) matches Some(status) ==> status.observed_generation
        == resource.metadata.generation
}

/// A status patch for the generation of the resource.
pub open spec fn is_current_patch(resource: SecretView, patch: Json) -> bool {
    exists|status: StatusView|
        patch == #[trigger] status_patch(status) && status.observed_generation
            == resource.metadata.generation
}

/// A step that carries along, and writes, a status for the generation of the
/// resource only.
pub open spec fn keeps_generation(resource: SecretView, progress: ProgressView) -> bool {
    match progress {
        ProgressView::Perform(request, stage) => {
            &&& is_current(resource, stage)
            &&& request matches RequestView::Kube { call: CallView::PatchStatus(patch), .. }
                ==> is_current_patch(resource, patch)
        },
        ProgressView::Finished(_) => true,
    }
}

/// Every status that is written says that it is for the generation of the
/// resource as it was read.
pub proof fn law_status_is_for_the_generation(
    resource: SecretView,
    delay: Option<Seq<char>>,
    stage: StageView,
    reply: ReplyView,
    now: Seq<char>,
    start: Seq<char>,
)
    requires
        is_awaited(stage, reply),
        is_current(resource, stage),
    ensures
        keeps_generation(resource, begun(resource, delay, now, start)),
        keeps_generation(resource, advanced(resource, stage, reply, now, start)),
{
    match stage {
        StageView::AddingFinalizer { status } => {
            let ready = with_ready_condition(status, ready_condition(ConditionStatus::True, now));
            assert(is_current_patch(resource, status_patch(ready)));
        },
        StageView::FetchingAttachments { status, .. } => {
            let failed = with_ready_condition(status, failed_condition(now));
            assert(is_current_patch(resource, status_patch(failed)));
        },
        StageView::WritingSecret { status } => {
            assert(is_current_patch(resource, status_patch(updated_status(status, None, now))));
        },
        StageView::WritingFailure { status, error } => {
            let after = updated_status(status, Some(error), now);
            assert(is_current_patch(resource, status_patch(after)));
        },
        _ => {},
    }
    assert(is_current_patch(resource, status_patch(initial_status(resource, now, start))));
}

/// The call that writes the secret, if a step makes one.
pub open spec fn writes(progress: ProgressView) -> Option<CallView> {
    match progress {
        ProgressView::Perform(RequestView::Kube { call, .. }, _) => if call is CreateSecret
            || call is MergeSecret {
            Some(call)
        } else {
            None
        },
        _ => None,
    }
}

/// The secret is written only with what has been fetched: the stage before
/// holds exactly the fields and attachments that the vault gave, both of them,
/// and the resource becomes an owner of the secret.
pub proof fn law_only_fetched_data_is_written(
    resource: SecretView,
    stage: StageView,
    reply: ReplyView,
    now: Seq<char>,
    start: Seq<char>,
)
    requires
        is_awaited(stage, reply),
    ensures
        writes(advanced(resource, stage, reply, now, start)) matches Some(call) ==> {
            &&& stage matches StageView::ReadingSecret { status, owner, fields, attachments }
            &&& reply matches ReplyView::Secret(Ok(existing))
            &&& call == write_call(resource, existing, owner, fields, attachments)
        },
        advanced(resource, stage, reply, now, start) matches ProgressView::Perform(
            _,
            StageView::ReadingSecret { status, owner, fields, attachments },
        ) ==> {
            &&& stage matches StageView::FetchingAttachments { fields_result: Ok(f), .. }
            &&& f == fields
            &&& reply == ReplyView::Attachments(Ok(attachments))
            &&& owner == owner_of(resource)
        },
{
}

/// A created secret has the type of the specification, the labels and
/// annotations of the resource, and every field and every attachment of the
/// vault item; the resource is its only owner.
pub proof fn law_created_secret_holds_the_item(
    resource: SecretView,
    owner: OwnerView,
    fields: Map<Seq<char>, Seq<char>>,
    attachments: Map<Seq<char>, Seq<u8>>,
)
    ensures
        write_call(resource, None, owner, fields, attachments) matches CallView::CreateSecret(
            secret,
        ) && {
            &&& secret.name == resource.any_name()
            &&& secret.namespace == resource.any_namespace()
            &&& secret.type_ == resource.spec.type_
            &&& secret.labels == resource.labels()
            &&& secret.annotations == resource.annotations()
            &&& secret.string_data == fields
            &&& secret.data == attachments
            &&& secret.owner_references == seq![owner]
        },
{
}

/// Every field and every attachment of a vault item is mapped to the secret,
/// whether it is created or merged into, and nothing else is: each name is a
/// key, and each key has the value of a field, or the contents of an
/// attachment, of that name.
pub proof fn law_whole_item_is_mapped(
    resource: SecretView,
    existing: Option<Seq<OwnerView>>,
    fields: Seq<FieldView>,
    attachments: Seq<AttachmentView>,
    files: Seq<Seq<u8>>,
)
    requires
        files.len() == attachments.len(),
    ensures
        ({
            let texts = pairs_map(field_pairs(fields));
            let values = pairs_map(attachment_pairs(attachments, files));
            let call = write_call(resource, existing, owner_of(resource), texts, values);
            &&& match existing {
                Some(owners) => call == CallView::MergeSecret(
                    secret_patch(
                        with_owner(owners, owner_of(resource)),
                        resource.spec.type_,
                        texts,
                        values,
                    ),
                ),
                None => call is CreateSecret && call->CreateSecret_0.string_data == texts
                    && call->CreateSecret_0.data == values,
            }
            &&& forall|i: int|
                0 <= i < fields.len() ==> texts.contains_key((#[trigger] fields[i]).name)
            &&& forall|i: int|
                0 <= i < attachments.len() ==> values.contains_key(
                    (#[trigger] attachments[i]).file_name,
                )
            &&& forall|name: Seq<char>| #[trigger]
                texts.contains_key(name) ==> exists|i: int|
                    0 <= i < fields.len() && (#[trigger] fields[i]).name == name && fields[i].value
                        == texts[name]
            &&& forall|name: Seq<char>| #[trigger]
                values.contains_key(name) ==> exists|i: int|
                    0 <= i < attachments.len() && (#[trigger] attachments[i]).file_name == name
                        && files[i] == values[name]
        }),
{
    let text_pairs = field_pairs(fields);
    let texts = pairs_map(text_pairs);
    let value_pairs = attachment_pairs(attachments, files);
    let values = pairs_map(value_pairs);
    assert forall|i: int| 0 <= i < fields.len() implies texts.contains_key(
        (#[trigger] fields[i]).name,
    ) by {
        lemma_pairs_map_last(text_pairs, i);
        assert(text_pairs[i].0 == fields[i].name);
    }
    assert forall|i: int| 0 <= i < attachments.len() implies values.contains_key(
        (#[trigger] attachments[i]).file_name,
    ) by {
        lemma_pairs_map_last(value_pairs, i);
        assert(value_pairs[i].0 == attachments[i].file_name);
    }
    assert forall|name: Seq<char>| #[trigger] texts.contains_key(name) implies exists|i: int|
        0 <= i < fields.len() && (#[trigger] fields[i]).name == name && fields[i].value
            == texts[name] by {
        let i = lemma_pairs_map_origin(text_pairs, name);
        assert(text_pairs[i] == (fields[i].name, fields[i].value));
    }
    assert forall|name: Seq<char>| #[trigger] values.contains_key(name) implies exists|i: int|
        0 <= i < attachments.len() && (#[trigger] attachments[i]).file_name == name && files[i]
            == values[name] by {
        let i = lemma_pairs_map_origin(value_pairs, name);
        assert(value_pairs[i] == (attachments[i].file_name, files[i]));
    }
}

/// An existing secret keeps its owners and gets the resource among them,
/// together with the type, every field and every attachment.
pub proof fn law_existing_secret_keeps_its_owners(
    resource: SecretView,
    owners: Seq<OwnerView>,
    owner: OwnerView,
    fields: Map<Seq<char>, Seq<char>>,
    attachments: Map<Seq<char>, Seq<u8>>,
)
    ensures
        write_call(resource, Some(owners), owner, fields, attachments) == CallView::MergeSecret(
            secret_patch(with_owner(owners, owner), resource.spec.type_, fields, attachments),
        ),
        with_owner(owners, owner).contains(owner),
        forall|i: int|
            0 <= i < owners.len() && owners[i].uid != owner.uid
                ==> #[trigger] with_owner(owners, owner)[i] == owners[i],
{
    law_with_owner(owners, owner);
}

/// The requests of a reconciliation that gets the given replies, each at the
/// given time, one after the other.
pub open spec fn requests(
    resource: SecretView,
    progress: ProgressView,
    replies: Seq<ReplyView>,
    times: Seq<(Seq<char>, Seq<char>)>,
) -> Seq<RequestView>
    decreases replies.len(),
{
    match progress {
        ProgressView::Perform(request, stage) => if replies.len() > 0 {
            seq![request] + requests(
                resource,
                advanced(resource, stage, replies[0], times[0].0, times[0].1),
                replies.skip(1),
                times.skip(1),
            )
        } else {
            seq![request]
        },
        ProgressView::Finished(_) => Seq::empty(),
    }
}

/// How a reconciliation stands after the given replies, each at the given time.
pub open spec fn played(
    resource: SecretView,
    progress: ProgressView,
    replies: Seq<ReplyView>,
    times: Seq<(Seq<char>, Seq<char>)>,
) -> ProgressView
    decreases replies.len(),
{
    match progress {
        ProgressView::Perform(_, stage) => if replies.len() > 0 {
            played(
                resource,
                advanced(resource, stage, replies[0], times[0].0, times[0].1),
                replies.skip(1),
                times.skip(1),
            )
        } else {
            progress
        },
        ProgressView::Finished(_) => progress,
    }
}

/// A call of the Kubernetes API for a resource.
pub open spec fn kube_call(resource: SecretView, call: CallView) -> RequestView {
    RequestView::Kube { name: resource.any_name(), namespace: resource.any_namespace(), call }
}

/// The reply to a write that went well.
pub open spec fn done() -> ReplyView {
    ReplyView::Done(Ok(()))
}

/// The status of a new resource once its finalizer is in place.
pub open spec fn accepted_status(
    resource: SecretView,
    now: Seq<char>,
    start: Seq<char>,
    later: Seq<char>,
) -> StatusView {
    with_ready_condition(
        initial_status(resource, now, start),
        ready_condition(ConditionStatus::True, later),
    )
}

/// The step that asks for the fields.
pub open spec fn asking(resource: SecretView, status: StatusView) -> ProgressView {
    ProgressView::Perform(
        RequestView::FetchFields(resource.spec.item),
        StageView::FetchingFields { status },
    )
}

/// The first requests for a new resource.
pub open spec fn new_requests(
    resource: SecretView,
    now: Seq<char>,
    start: Seq<char>,
    later: Seq<char>,
) -> Seq<RequestView> {
    seq![
        kube_call(
            resource,
            CallView::PatchStatus(status_patch(initial_status(resource, now, start))),
        ),
        kube_call(resource, CallView::MergeResource(finalizers_patch(own_finalizer()))),
        kube_call(
            resource,
            CallView::PatchStatus(status_patch(accepted_status(resource, now, start, later))),
        ),
    ]
}

/// The requests that write the secret once the vault item can be fetched.
pub open spec fn writing_requests(
    resource: SecretView,
    status: StatusView,
    existing: Option<Seq<OwnerView>>,
    fields: Map<Seq<char>, Seq<char>>,
    attachments: Map<Seq<char>, Seq<u8>>,
    later: Seq<char>,
) -> Seq<RequestView> {
    seq![
        RequestView::FetchFields(resource.spec.item),
        RequestView::FetchAttachments(resource.spec.item),
        kube_call(resource, CallView::GetSecret),
        kube_call(
            resource,
            write_call(resource, existing, owner_of(resource), fields, attachments),
        ),
        kube_call(
            resource,
            CallView::PatchStatus(status_patch(updated_status(status, None, later))),
        ),
    ]
}

/// The replies that a vault and a cluster give that work well.
pub open spec fn good_replies(
    existing: Option<Seq<OwnerView>>,
    fields: Map<Seq<char>, Seq<char>>,
    attachments: Map<Seq<char>, Seq<u8>>,
) -> Seq<ReplyView> {
    seq![
        ReplyView::Fields(Ok(fields)),
        ReplyView::Attachments(Ok(attachments)),
        ReplyView::Secret(Ok(existing)),
        done(),
        done(),
    ]
}

/// The requests that tell why the vault item could not be fetched, the last of
/// which gives up the session of the vault.
pub open spec fn failing_requests(
    resource: SecretView,
    status: StatusView,
    error: CommandErrorView,
    later: Seq<char>,
    last: Seq<char>,
) -> Seq<RequestView> {
    let failed = with_ready_condition(status, failed_condition(later));
    seq![
        RequestView::FetchFields(resource.spec.item),
        RequestView::FetchAttachments(resource.spec.item),
        kube_call(resource, CallView::PatchStatus(status_patch(failed))),
        kube_call(
            resource,
            CallView::PatchStatus(status_patch(updated_status(failed, Some(error), last))),
        ),
        RequestView::ResetVault,
    ]
}

/// The replies of a vault that does not give the item.
pub open spec fn bad_replies(
    fields: Result<Map<Seq<char>, Seq<char>>, CommandErrorView>,
    attachments: Result<Map<Seq<char>, Seq<u8>>, CommandErrorView>,
) -> Seq<ReplyView> {
    seq![
        ReplyView::Fields(fields),
        ReplyView::Attachments(attachments),
        done(),
        done(),
        ReplyView::VaultReset,
    ]
}

/// The error that is told of: that of the fields, if there is one.
pub open spec fn told_error(
    fields: Result<Map<Seq<char>, Seq<char>>, CommandErrorView>,
    attachments: Result<Map<Seq<char>, Seq<u8>>, CommandErrorView>,
) -> CommandErrorView {
    if fields is Err {
        fields->Err_0
    } else {
        attachments->Err_0
    }
}

/// The first requests for a new resource lead to the vault.
proof fn lemma_new_resource(
    resource: SecretView,
    delay: Option<Seq<char>>,
    rest: Seq<ReplyView>,
    times: Seq<(Seq<char>, Seq<char>)>,
    now: Seq<char>,
    start: Seq<char>,
)
    requires
        resource.action() == BitwardenSecretAction::Create,
        times.len() == 3 + rest.len(),
    ensures
        requests(
            resource,
            begun(resource, delay, now, start),
            seq![done(), done(), done()] + rest,
            times,
        ) == new_requests(resource, now, start, times[1].0) + requests(
            resource,
            asking(resource, accepted_status(resource, now, start, times[1].0)),
            rest,
            times.skip(3),
        ),
        played(
            resource,
            begun(resource, delay, now, start),
            seq![done(), done(), done()] + rest,
            times,
        ) == played(
            resource,
            asking(resource, accepted_status(resource, now, start, times[1].0)),
            rest,
            times.skip(3),
        ),
{
    let replies = seq![done(), done(), done()] + rest;
    reveal_with_fuel(requests, 4);
    reveal_with_fuel(played, 4);
    assert(replies.skip(1).skip(1).skip(1) =~= rest);
    assert(times.skip(1).skip(1).skip(1) =~= times.skip(3));
    assert(times.skip(1)[0] == times[1]);
    assert(requests(resource, begun(resource, delay, now, start), replies, times)
        =~= new_requests(resource, now, start, times[1].0) + requests(
        resource,
        asking(resource, accepted_status(resource, now, start, times[1].0)),
        rest,
        times.skip(3),
    ));
}

/// With the fields and the attachments the secret is written.
proof fn lemma_secret_is_written(
    resource: SecretView,
    status: StatusView,
    existing: Option<Seq<OwnerView>>,
    fields: Map<Seq<char>, Seq<char>>,
    attachments: Map<Seq<char>, Seq<u8>>,
    times: Seq<(Seq<char>, Seq<char>)>,
)
    requires
        resource.metadata.name is Some,
        times.len() == 5,
    ensures
        requests(
            resource,
            asking(resource, status),
            good_replies(existing, fields, attachments),
            times,
        ) == writing_requests(resource, status, existing, fields, attachments, times[3].0),
        played(
            resource,
            asking(resource, status),
            good_replies(existing, fields, attachments),
            times,
        ) == end(Action::Requeue(10)),
{
    let replies = good_replies(existing, fields, attachments);
    reveal_with_fuel(requests, 6);
    reveal_with_fuel(played, 6);
    assert(times.skip(1).skip(1).skip(1)[0] == times[3]);
    assert(replies.skip(1)[0] == replies[1]);
    assert(replies.skip(1).skip(1)[0] == replies[2]);
    assert(replies.skip(1).skip(1).skip(1)[0] == replies[3]);
    assert(replies.skip(1).skip(1).skip(1).skip(1)[0] == replies[4]);
    assert(requests(resource, asking(resource, status), replies, times) =~= writing_requests(
        resource,
        status,
        existing,
        fields,
        attachments,
        times[3].0,
    ));
}

/// Without the fields or the attachments the failure is told of.
proof fn lemma_failure_is_told(
    resource: SecretView,
    status: StatusView,
    fields: Result<Map<Seq<char>, Seq<char>>, CommandErrorView>,
    attachments: Result<Map<Seq<char>, Seq<u8>>, CommandErrorView>,
    times: Seq<(Seq<char>, Seq<char>)>,
)
    requires
        fields is Err || attachments is Err,
        times.len() == 5,
    ensures
        requests(resource, asking(resource, status), bad_replies(fields, attachments), times)
            == failing_requests(
            resource,
            status,
            told_error(fields, attachments),
            times[1].0,
            times[2].0,
        ),
        played(resource, asking(resource, status), bad_replies(fields, attachments), times) == end(
            Action::Requeue(10),
        ),
{
    let replies = bad_replies(fields, attachments);
    reveal_with_fuel(requests, 6);
    reveal_with_fuel(played, 6);
    assert(times.skip(1)[0] == times[1]);
    assert(times.skip(1).skip(1)[0] == times[2]);
    assert(replies.skip(1)[0] == replies[1]);
    assert(replies.skip(1).skip(1)[0] == replies[2]);
    assert(replies.skip(1).skip(1).skip(1)[0] == replies[3]);
    assert(replies.skip(1).skip(1).skip(1).skip(1)[0] == replies[4]);
    assert(requests(resource, asking(resource, status), replies, times) =~= failing_requests(
        resource,
        status,
        told_error(fields, attachments),
        times[1].0,
        times[2].0,
    ));
}

/// A new resource gets its status, the finalizer of the operator and its
/// secret, in this order; in the end its status is ready, and it is looked at
/// again after ten seconds.
pub proof fn law_new_resource_gets_its_secret(
    resource: SecretView,
    delay: Option<Seq<char>>,
    existing: Option<Seq<OwnerView>>,
    fields: Map<Seq<char>, Seq<char>>,
    attachments: Map<Seq<char>, Seq<u8>>,
    times: Seq<(Seq<char>, Seq<char>)>,
    now: Seq<char>,
    start: Seq<char>,
)
    requires
        resource.action() == BitwardenSecretAction::Create,
        resource.metadata.name is Some,
        times.len() == 8,
    ensures
        requests(
            resource,
            begun(resource, delay, now, start),
            seq![done(), done(), done()] + good_replies(existing, fields, attachments),
            times,
        ) == new_requests(resource, now, start, times[1].0) + writing_requests(
            resource,
            accepted_status(resource, now, start, times[1].0),
            existing,
            fields,
            attachments,
            times[6].0,
        ),
        played(
            resource,
            begun(resource, delay, now, start),
            seq![done(), done(), done()] + good_replies(existing, fields, attachments),
            times,
        ) == end(Action::Requeue(10)),
        updated_status(
            accepted_status(resource, now, start, times[1].0),
            None,
            times[6].0,
        ).is_ready(),
{
    let status = accepted_status(resource, now, start, times[1].0);
    lemma_new_resource(
        resource,
        delay,
        good_replies(existing, fields, attachments),
        times,
        now,
        start,
    );
    lemma_secret_is_written(resource, status, existing, fields, attachments, times.skip(3));
    law_status_tells_the_outcome(status, None, times[6].0, times[6].0);
}

/// A new resource whose vault item cannot be fetched gets no secret: its
/// status is not ready and tells why, the session of the vault is given up,
/// and the resource is looked at again after ten seconds.
pub proof fn law_new_resource_without_item(
    resource: SecretView,
    delay: Option<Seq<char>>,
    fields: Result<Map<Seq<char>, Seq<char>>, CommandErrorView>,
    attachments: Result<Map<Seq<char>, Seq<u8>>, CommandErrorView>,
    times: Seq<(Seq<char>, Seq<char>)>,
    now: Seq<char>,
    start: Seq<char>,
)
    requires
        resource.action() == BitwardenSecretAction::Create,
        fields is Err || attachments is Err,
        times.len() == 8,
    ensures
        requests(
            resource,
            begun(resource, delay, now, start),
            seq![done(), done(), done()] + bad_replies(fields, attachments),
            times,
        ) == new_requests(resource, now, start, times[1].0) + failing_requests(
            resource,
            accepted_status(resource, now, start, times[1].0),
            told_error(fields, attachments),
            times[4].0,
            times[5].0,
        ),
        played(
            resource,
            begun(resource, delay, now, start),
            seq![done(), done(), done()] + bad_replies(fields, attachments),
            times,
        ) == end(Action::Requeue(10)),
{
    let status = accepted_status(resource, now, start, times[1].0);
    lemma_new_resource(resource, delay, bad_replies(fields, attachments), times, now, start);
    lemma_failure_is_told(resource, status, fields, attachments, times.skip(3));
}

/// The status of a changed resource: what was written before, for the new
/// generation, or a first status.
pub open spec fn revised_status(
    resource: SecretView,
    before: Option<StatusView>,
    now: Seq<char>,
    start: Seq<char>,
) -> StatusView {
    match before {
        Some(status) => StatusView {
            observed_generation: resource.metadata.generation,
            ..status
        },
        None => initial_status(resource, now, start),
    }
}

/// The first request for a changed resource leads to the vault.
proof fn lemma_changed_resource(
    resource: SecretView,
    delay: Option<Seq<char>>,
    before: Option<StatusView>,
    rest: Seq<ReplyView>,
    times: Seq<(Seq<char>, Seq<char>)>,
    now: Seq<char>,
    start: Seq<char>,
)
    requires
        resource.action() == BitwardenSecretAction::Update,
        times.len() == 1 + rest.len(),
    ensures
        requests(
            resource,
            begun(resource, delay, now, start),
            seq![ReplyView::Status(Ok(before))] + rest,
            times,
        ) == seq![kube_call(resource, CallView::GetStatus)] + requests(
            resource,
            asking(resource, revised_status(resource, before, times[0].0, times[0].1)),
            rest,
            times.skip(1),
        ),
        played(
            resource,
            begun(resource, delay, now, start),
            seq![ReplyView::Status(Ok(before))] + rest,
            times,
        ) == played(
            resource,
            asking(resource, revised_status(resource, before, times[0].0, times[0].1)),
            rest,
            times.skip(1),
        ),
{
    let replies = seq![ReplyView::Status(Ok(before))] + rest;
    assert(replies.skip(1) =~= rest);
}

/// A changed resource gets its secret written anew; in the end its status is
/// ready, and it is looked at again after ten seconds.
pub proof fn law_changed_resource_gets_its_secret(
    resource: SecretView,
    delay: Option<Seq<char>>,
    before: Option<StatusView>,
    existing: Option<Seq<OwnerView>>,
    fields: Map<Seq<char>, Seq<char>>,
    attachments: Map<Seq<char>, Seq<u8>>,
    times: Seq<(Seq<char>, Seq<char>)>,
    now: Seq<char>,
    start: Seq<char>,
)
    requires
        resource.action() == BitwardenSecretAction::Update,
        resource.metadata.name is Some,
        times.len() == 6,
    ensures
        requests(
            resource,
            begun(resource, delay, now, start),
            seq![ReplyView::Status(Ok(before))] + good_replies(existing, fields, attachments),
            times,
        ) == seq![kube_call(resource, CallView::GetStatus)] + writing_requests(
            resource,
            revised_status(resource, before, times[0].0, times[0].1),
            existing,
            fields,
            attachments,
            times[4].0,
        ),
        played(
            resource,
            begun(resource, delay, now, start),
            seq![ReplyView::Status(Ok(before))] + good_replies(existing, fields, attachments),
            times,
        ) == end(Action::Requeue(10)),
        updated_status(
            revised_status(resource, before, times[0].0, times[0].1),
            None,
            times[4].0,
        ).is_ready(),
{
    let status = revised_status(resource, before, times[0].0, times[0].1);
    lemma_changed_resource(
        resource,
        delay,
        before,
        good_replies(existing, fields, attachments),
        times,
        now,
        start,
    );
    lemma_secret_is_written(resource, status, existing, fields, attachments, times.skip(1));
    law_status_tells_the_outcome(status, None, times[4].0, times[4].0);
}

/// A changed resource whose vault item cannot be fetched keeps its secret as
/// it is: its status is not ready and tells why, the session of the vault is
/// given up, and the resource is looked at again after ten seconds.
pub proof fn law_changed_resource_without_item(
    resource: SecretView,
    delay: Option<Seq<char>>,
    before: Option<StatusView>,
    fields: Result<Map<Seq<char>, Seq<char>>, CommandErrorView>,
    attachments: Result<Map<Seq<char>, Seq<u8>>, CommandErrorView>,
    times: Seq<(Seq<char>, Seq<char>)>,
    now: Seq<char>,
    start: Seq<char>,
)
    requires
        resource.action() == BitwardenSecretAction::Update,
        fields is Err || attachments is Err,
        times.len() == 6,
    ensures
        requests(
            resource,
            begun(resource, delay, now, start),
            seq![ReplyView::Status(Ok(before))] + bad_replies(fields, attachments),
            times,
        ) == seq![kube_call(resource, CallView::GetStatus)] + failing_requests(
            resource,
            revised_status(resource, before, times[0].0, times[0].1),
            told_error(fields, attachments),
            times[2].0,
            times[3].0,
        ),
        played(
            resource,
            begun(resource, delay, now, start),
            seq![ReplyView::Status(Ok(before))] + bad_replies(fields, attachments),
            times,
        ) == end(Action::Requeue(10)),
{
    let status = revised_status(resource, before, times[0].0, times[0].1);
    lemma_changed_resource(
        resource,
        delay,
        before,
        bad_replies(fields, attachments),
        times,
        now,
        start,
    );
    lemma_failure_is_told(resource, status, fields, attachments, times.skip(1));
}

/// After a failure the status is not ready, and its reason is the message of the error.
pub proof fn law_failure_is_not_ready(
    status: StatusView,
    error: CommandErrorView,
    later: Seq<char>,
    last: Seq<char>,
)
    ensures
        !with_ready_condition(status, failed_condition(later)).is_ready(),
        !updated_status(
            with_ready_condition(status, failed_condition(later)),
            Some(error),
            last,
        ).is_ready(),
        updated_status(
            with_ready_condition(status, failed_condition(later)),
            Some(error),
            last,
        ).ready_reason() == Some(error.text()),
{
    law_ready_condition_is_set(status, failed_condition(later), failed_condition(later));
    law_status_tells_the_outcome(
        with_ready_condition(status, failed_condition(later)),
        Some(error),
        last,
        last,
    );
}

/// The requests of a deletion: what still exists is removed, the secret first.
pub open spec fn deleting_requests(
    resource: SecretView,
    has_secret: bool,
    has_resource: bool,
) -> Seq<RequestView> {
    seq![kube_call(resource, CallView::GetSecret)] + (if has_secret {
        seq![kube_call(resource, CallView::DeleteSecret)]
    } else {
        Seq::empty()
    }) + seq![kube_call(resource, CallView::GetResource)] + (if has_resource {
        seq![kube_call(resource, CallView::MergeResource(finalizers_patch(Json::Null)))]
    } else {
        Seq::empty()
    })
}

/// The replies of a deletion that goes well.
pub open spec fn deleting_replies(
    existing: Option<Seq<OwnerView>>,
    has_resource: bool,
) -> Seq<ReplyView> {
    seq![ReplyView::Secret(Ok(existing))] + (if existing is Some {
        seq![done()]
    } else {
        Seq::empty()
    }) + seq![ReplyView::Resource(Ok(has_resource))] + (if has_resource {
        seq![done()]
    } else {
        Seq::empty()
    })
}

/// The secret of a deleted resource is deleted, if it still exists, before the
/// finalizers of the resource are removed, if that still exists; after that
/// there is nothing to do until something changes.
pub proof fn law_deleted_resource_is_cleaned_up(
    resource: SecretView,
    delay: Option<Seq<char>>,
    existing: Option<Seq<OwnerView>>,
    has_resource: bool,
    times: Seq<(Seq<char>, Seq<char>)>,
    now: Seq<char>,
    start: Seq<char>,
)
    requires
        resource.action() == BitwardenSecretAction::Delete,
    ensures
        requests(
            resource,
            begun(resource, delay, now, start),
            deleting_replies(existing, has_resource),
            times,
        ) == deleting_requests(resource, existing is Some, has_resource),
        played(
            resource,
            begun(resource, delay, now, start),
            deleting_replies(existing, has_resource),
            times,
        ) == end(Action::AwaitChange),
{
    let replies = deleting_replies(existing, has_resource);
    reveal_with_fuel(requests, 5);
    reveal_with_fuel(played, 5);
    assert(requests(resource, begun(resource, delay, now, start), replies, times)
        =~= deleting_requests(resource, existing is Some, has_resource));
}

/// What is to be done about a resource follows from its metadata and from the
/// generation of its status, whatever its conditions say: one with a deletion
/// timestamp is deleted; of the others, one without finalizers is created; of
/// the rest, one whose generation differs from the observed one, which is none
/// without a status, is updated, and one whose generation has been observed is
/// left alone.
pub proof fn law_action(resource: WardenSecret)
    ensures
        ({
            let deleted = resource.metadata.deletion_timestamp is Some;
            let finalized = resource.metadata.finalizers is Some
                && resource.metadata.finalizers->0@.len() > 0;
            let observed = if resource.status is Some {
                resource.status->0.observed_generation
            } else {
                None
            };
            let current = resource.metadata.generation == observed;
            &&& deleted ==> resource@.action() == BitwardenSecretAction::Delete
            &&& !deleted && !finalized ==> resource@.action() == BitwardenSecretAction::Create
            &&& !deleted && finalized && !current ==> resource@.action()
                == BitwardenSecretAction::Update
            &&& !deleted && finalized && current ==> resource@.action()
                == BitwardenSecretAction::NoOp
        }),
{
    if resource.metadata.finalizers is Some {
        let finalizers = resource.metadata.finalizers->0;
        assert(crate::text::views(finalizers@).len() == finalizers@.len());
    }
}

/// Changing anything but the deletion timestamp, the finalizers, the
/// generation and the observed generation of a resource does not change what
/// is to be done about it.
pub proof fn law_action_depends_on_nothing_else(a: WardenSecret, b: WardenSecret)
    requires
        a.metadata.deletion_timestamp is Some <==> b.metadata.deletion_timestamp is Some,
        a.metadata.finalizers == b.metadata.finalizers,
        a.metadata.generation == b.metadata.generation,
        (if a.status is Some {
            a.status->0.observed_generation
        } else {
            None
        }) == (if b.status is Some {
            b.status->0.observed_generation
        } else {
            None
        }),
    ensures
        a@.action() == b@.action(),
{
    law_action(a);
    law_action(b);
}

/// A resource goes by its name, or by the prefix of the name that it is to
/// get, or by none, in its namespace, or in `default`.
pub proof fn law_name_and_namespace(resource: WardenSecret)
    ensures
        resource.metadata.name is Some ==> resource@.any_name() == resource.metadata.name->0@,
        resource.metadata.name is None && resource.metadata.generate_name is Some
            ==> resource@.any_name() == resource.metadata.generate_name->0@,
        resource.metadata.name is None && resource.metadata.generate_name is None
            ==> resource@.any_name().len() == 0,
        resource.metadata.namespace is Some ==> resource@.any_namespace()
            == resource.metadata.namespace->0@,
        resource.metadata.namespace is None ==> resource@.any_namespace() == "default"@,
{
}

/// A secret that does not exist yet is created with exactly the labels and the
/// annotations of the resource, each with its value, with the type of its
/// specification, with the fields as texts and the attachments as bytes, under
/// its name and namespace, and with the resource as its only owner.
pub proof fn law_created_secret_is_labelled(
    resource: WardenSecret,
    owner: OwnerView,
    fields: Map<Seq<char>, Seq<char>>,
    attachments: Map<Seq<char>, Seq<u8>>,
)
    ensures
        ({
            let call = write_call(resource@, None, owner, fields, attachments);
            let secret = call->CreateSecret_0;
            &&& call is CreateSecret
            &&& resource.metadata.labels is None ==> secret.labels.dom() =~= Set::<
                Seq<char>,
            >::empty()
            &&& resource.metadata.labels matches Some(labels) ==> secret.labels.dom()
                == labels@.dom() && forall|key: Seq<char>|
                labels@.contains_key(key) ==> #[trigger] secret.labels[key] == labels@[key]
            &&& resource.metadata.annotations is None ==> secret.annotations.dom() =~= Set::<
                Seq<char>,
            >::empty()
            &&& resource.metadata.annotations matches Some(annotations) ==> secret.annotations.dom()
                == annotations@.dom() && forall|key: Seq<char>|
                annotations@.contains_key(key) ==> #[trigger] secret.annotations[key]
                    == annotations@[key]
            &&& secret.type_ == resource.spec.type_@
            &&& secret.name == resource@.any_name()
            &&& secret.namespace == resource@.any_namespace()
            &&& secret.string_data == fields
            &&& secret.data == attachments
            &&& secret.owner_references == seq![owner]
        }),
{
}

/// A secret that exists is patched with its owners, the resource among them,
/// with the type of the specification, the fields and the attachments.
pub proof fn law_existing_secret_is_patched(
    resource: WardenSecret,
    owners: Seq<OwnerView>,
    owner: OwnerView,
    fields: Map<Seq<char>, Seq<char>>,
    attachments: Map<Seq<char>, Seq<u8>>,
)
    ensures
        write_call(resource@, Some(owners), owner, fields, attachments) == CallView::MergeSecret(
            secret_patch(with_owner(owners, owner), resource.spec.type_@, fields, attachments),
        ),
{
}

/// How a reconciliation begins: a new resource gets a status that says that it
/// is not known whether it is ready; of a changed one the status is read; of a
/// deleted one the secret is looked for; with nothing to do it ends, to be
/// taken up again after the delay.
pub proof fn law_first_steps(
    resource: WardenSecret,
    delay: Option<Seq<char>>,
    now: Seq<char>,
    start: Seq<char>,
)
    ensures
        ({
            let status = StatusView {
                conditions: seq![
                    ConditionView {
                        status: ConditionStatus::Unknown,
                        reason: None,
                        message: None,
                        type_: ConditionType::Ready,
                        last_transition: now,
                    },
                ],
                start_time: Some(start),
                observed_generation: resource.metadata.generation,
            };
            let first = begun(resource@, delay, now, start);
            &&& resource@.action() == BitwardenSecretAction::Create ==> first
                == ProgressView::Perform(
                kube_call(resource@, CallView::PatchStatus(status_patch(status))),
                StageView::WritingInitialStatus { status },
            )
            &&& resource@.action() == BitwardenSecretAction::Update ==> first
                == ProgressView::Perform(
                kube_call(resource@, CallView::GetStatus),
                StageView::ReadingStatus,
            )
            &&& resource@.action() == BitwardenSecretAction::Delete ==> first
                == ProgressView::Perform(
                kube_call(resource@, CallView::GetSecret),
                StageView::ReadingOldSecret,
            )
            &&& resource@.action() == BitwardenSecretAction::NoOp && delay is None ==> first
                == ProgressView::Finished(Ok(Action::Requeue(300)))
            &&& resource@.action() == BitwardenSecretAction::NoOp && noop_delay(delay) is Some
                ==> (first matches ProgressView::Finished(Ok(Action::Requeue(seconds)))
                && seconds == noop_delay(delay)->0)
        }),
{
    if delay is Some {
        law_noop_delay(delay->0);
        law_unsigned_number(delay->0, '0', 0xffff_ffff_ffff_ffff);
    }
}

/// How a new resource is taken care of, and how a changed one is read: after
/// the first status comes the finalizer, after the finalizer the status is
/// ready at that time, after that the fields of the item are asked for. The
/// status of a changed resource is kept for the new generation; without one it
/// gets a first status.
pub proof fn law_preparations(
    resource: WardenSecret,
    status: StatusView,
    now: Seq<char>,
    start: Seq<char>,
)
    ensures
        advanced(
            resource@,
            StageView::WritingInitialStatus { status },
            ReplyView::Done(Ok(())),
            now,
            start,
        ) == ProgressView::Perform(
            kube_call(resource@, CallView::MergeResource(finalizers_patch(own_finalizer()))),
            StageView::AddingFinalizer { status },
        ),
        ({
            let ready = with_ready_condition(
                status,
                ConditionView {
                    status: ConditionStatus::True,
                    reason: None,
                    message: None,
                    type_: ConditionType::Ready,
                    last_transition: now,
                },
            );
            advanced(
                resource@,
                StageView::AddingFinalizer { status },
                ReplyView::Done(Ok(())),
                now,
                start,
            ) == ProgressView::Perform(
                kube_call(resource@, CallView::PatchStatus(status_patch(ready))),
                StageView::WritingReadyStatus { status: ready },
            )
        }),
        advanced(
            resource@,
            StageView::WritingReadyStatus { status },
            ReplyView::Done(Ok(())),
            now,
            start,
        ) == ProgressView::Perform(
            RequestView::FetchFields(resource.spec.item@),
            StageView::FetchingFields { status },
        ),
        advanced(
            resource@,
            StageView::ReadingStatus,
            ReplyView::Status(Ok(Some(status))),
            now,
            start,
        ) == ProgressView::Perform(
            RequestView::FetchFields(resource.spec.item@),
            StageView::FetchingFields {
                status: StatusView {
                    conditions: status.conditions,
                    start_time: status.start_time,
                    observed_generation: resource.metadata.generation,
                },
            },
        ),
        advanced(resource@, StageView::ReadingStatus, ReplyView::Status(Ok(None)), now, start)
            == ProgressView::Perform(
            RequestView::FetchFields(resource.spec.item@),
            StageView::FetchingFields {
                status: StatusView {
                    conditions: seq![
                        ConditionView {
                            status: ConditionStatus::Unknown,
                            reason: None,
                            message: None,
                            type_: ConditionType::Ready,
                            last_transition: now,
                        },
                    ],
                    start_time: Some(start),
                    observed_generation: resource.metadata.generation,
                },
            },
        ),
{
}

/// How an item is fetched and written: whatever came of the fields, the
/// attachments are asked for; with both of them, the secret is looked up for a
/// resource with a name, and one without is refused; then the secret is
/// written, and the status tells of the success, to be looked at again after
/// ten seconds.
pub proof fn law_item_is_written(
    resource: WardenSecret,
    status: StatusView,
    fields_result: Result<Map<Seq<char>, Seq<char>>, CommandErrorView>,
    fields: Map<Seq<char>, Seq<char>>,
    attachments: Map<Seq<char>, Seq<u8>>,
    owner: OwnerView,
    existing: Option<Seq<OwnerView>>,
    now: Seq<char>,
    start: Seq<char>,
)
    ensures
        advanced(
            resource@,
            StageView::FetchingFields { status },
            ReplyView::Fields(fields_result),
            now,
            start,
        ) == ProgressView::Perform(
            RequestView::FetchAttachments(resource.spec.item@),
            StageView::FetchingAttachments { status, fields_result },
        ),
        ({
            let next = advanced(
                resource@,
                StageView::FetchingAttachments { status, fields_result: Ok(fields) },
                ReplyView::Attachments(Ok(attachments)),
                now,
                start,
            );
            &&& resource.metadata.name is Some ==> next == ProgressView::Perform(
                kube_call(resource@, CallView::GetSecret),
                StageView::ReadingSecret {
                    status,
                    owner: owner_of(resource@),
                    fields,
                    attachments,
                },
            )
            &&& resource.metadata.name is None ==> next == ProgressView::Finished(
                Err(nameless(resource@)),
            )
        }),
        advanced(
            resource@,
            StageView::ReadingSecret { status, owner, fields, attachments },
            ReplyView::Secret(Ok(existing)),
            now,
            start,
        ) == ProgressView::Perform(
            kube_call(resource@, write_call(resource@, existing, owner, fields, attachments)),
            StageView::WritingSecret { status },
        ),
        advanced(
            resource@,
            StageView::WritingSecret { status },
            ReplyView::Done(Ok(())),
            now,
            start,
        ) == ProgressView::Perform(
            kube_call(
                resource@,
                CallView::PatchStatus(status_patch(updated_status(status, None, now))),
            ),
            StageView::WritingSuccess,
        ),
        advanced(resource@, StageView::WritingSuccess, ReplyView::Done(Ok(())), now, start)
            == ProgressView::Finished(Ok(Action::Requeue(10))),
{
}

/// How the failure to fetch an item is told: the status is not ready, first in
/// general and then with the error, that of the fields before that of the
/// attachments; then the session of the vault is given up, to be looked at
/// again after ten seconds.
pub proof fn law_failure_is_told(
    resource: WardenSecret,
    status: StatusView,
    fields: Result<Map<Seq<char>, Seq<char>>, CommandErrorView>,
    attachments: Result<Map<Seq<char>, Seq<u8>>, CommandErrorView>,
    error: CommandErrorView,
    now: Seq<char>,
    start: Seq<char>,
)
    requires
        fields is Err || attachments is Err,
    ensures
        ({
            let failed = with_ready_condition(
                status,
                ConditionView {
                    status: ConditionStatus::False,
                    reason: Some("ObtainingSecretsFailed"@),
                    message: Some("Failed to fetch Bitwarden item fields or attachments"@),
                    type_: ConditionType::Ready,
                    last_transition: now,
                },
            );
            advanced(
                resource@,
                StageView::FetchingAttachments { status, fields_result: fields },
                ReplyView::Attachments(attachments),
                now,
                start,
            ) == ProgressView::Perform(
                kube_call(resource@, CallView::PatchStatus(status_patch(failed))),
                StageView::WritingFailure {
                    status: failed,
                    error: match fields {
                        Err(e) => e,
                        Ok(_) => attachments->Err_0,
                    },
                },
            )
        }),
        advanced(
            resource@,
            StageView::WritingFailure { status, error },
            ReplyView::Done(Ok(())),
            now,
            start,
        ) == ProgressView::Perform(
            kube_call(
                resource@,
                CallView::PatchStatus(status_patch(updated_status(status, Some(error), now))),
            ),
            StageView::WritingReason,
        ),
        advanced(resource@, StageView::WritingReason, ReplyView::Done(Ok(())), now, start)
            == ProgressView::Perform(RequestView::ResetVault, StageView::ResettingVault),
        advanced(resource@, StageView::ResettingVault, ReplyView::VaultReset, now, start)
            == ProgressView::Finished(Ok(Action::Requeue(10))),
{
}

/// How a deleted resource is cleaned up after: its secret is deleted if it
/// exists, then its finalizers are removed if it exists itself, and then
/// nothing is to be done until something changes.
pub proof fn law_cleaning_up(
    resource: WardenSecret,
    owners: Seq<OwnerView>,
    now: Seq<char>,
    start: Seq<char>,
)
    ensures
        advanced(
            resource@,
            StageView::ReadingOldSecret,
            ReplyView::Secret(Ok(Some(owners))),
            now,
            start,
        ) == ProgressView::Perform(
            kube_call(resource@, CallView::DeleteSecret),
            StageView::DeletingSecret,
        ),
        advanced(resource@, StageView::ReadingOldSecret, ReplyView::Secret(Ok(None)), now, start)
            == ProgressView::Perform(
            kube_call(resource@, CallView::GetResource),
            StageView::ReadingResource,
        ),
        advanced(resource@, StageView::DeletingSecret, ReplyView::Done(Ok(())), now, start)
            == ProgressView::Perform(
            kube_call(resource@, CallView::GetResource),
            StageView::ReadingResource,
        ),
        advanced(resource@, StageView::ReadingResource, ReplyView::Resource(Ok(true)), now, start)
            == ProgressView::Perform(
            kube_call(resource@, CallView::MergeResource(finalizers_patch(Json::Null))),
            StageView::RemovingFinalizers,
        ),
        advanced(resource@, StageView::ReadingResource, ReplyView::Resource(Ok(false)), now, start)
            == ProgressView::Finished(Ok(Action::AwaitChange)),
        advanced(resource@, StageView::RemovingFinalizers, ReplyView::Done(Ok(())), now, start)
            == ProgressView::Finished(Ok(Action::AwaitChange)),
{
}

/// Any failed call of the Kubernetes API, at any stage, ends the
/// reconciliation with its message.
pub proof fn law_failed_calls(
    resource: WardenSecret,
    stage: StageView,
    message: Seq<char>,
    now: Seq<char>,
    start: Seq<char>,
)
    ensures
        ({
            let failed = ProgressView::Finished(Err(ErrorView::KubeError { source: message }));
            &&& advanced(resource@, stage, ReplyView::Done(Err(message)), now, start) == failed
            &&& advanced(resource@, stage, ReplyView::Status(Err(message)), now, start) == failed
            &&& advanced(resource@, stage, ReplyView::Resource(Err(message)), now, start) == failed
            &&& advanced(resource@, stage, ReplyView::Secret(Err(message)), now, start) == failed
        }),
{
}

/// The `uid` of a resource is needed exactly when both the fields and the
/// attachments have come.
pub proof fn law_needs_uid(stage: StageView, reply: ReplyView)
    ensures
        needs_uid(stage, reply) <==> stage is FetchingAttachments && stage->fields_result is Ok
            && reply is Attachments && reply->Attachments_0 is Ok,
{
}

/// What is handed to a reconciliation is kept: the status, whether the resource
/// exists, every owner of the secret in its place, every field and attachment,
/// and every message.
pub proof fn law_replies(reply: Reply)
    ensures
        reply matches Reply::Done(Ok(())) ==> reply@ == ReplyView::Done(Ok(())),
        reply matches Reply::Done(Err(m)) ==> reply@ == ReplyView::Done(Err(m@)),
        reply matches Reply::Status(Ok(None)) ==> reply@ == ReplyView::Status(Ok(None)),
        reply matches Reply::Status(Ok(Some(status))) ==> reply@ == ReplyView::Status(
            Ok(Some(status@)),
        ),
        reply matches Reply::Status(Err(m)) ==> reply@ == ReplyView::Status(Err(m@)),
        reply matches Reply::Resource(Ok(exists)) ==> reply@ == ReplyView::Resource(Ok(exists)),
        reply matches Reply::Resource(Err(m)) ==> reply@ == ReplyView::Resource(Err(m@)),
        reply matches Reply::Secret(Ok(None)) ==> reply@ == ReplyView::Secret(Ok(None)),
        reply matches Reply::Secret(Ok(Some(secret))) ==> {
            &&& reply@ is Secret && reply@->Secret_0 is Ok && reply@->Secret_0->Ok_0 is Some
            &&& secret.owner_references is None ==> reply@->Secret_0->Ok_0->0.len() == 0
            &&& secret.owner_references matches Some(owners) ==> reply@->Secret_0->Ok_0->0.len()
                == owners@.len() && forall|i: int|
                0 <= i < owners@.len() ==> #[trigger] reply@->Secret_0->Ok_0->0[i] == owners@[i]@
        },
        reply matches Reply::Secret(Err(m)) ==> reply@ == ReplyView::Secret(Err(m@)),
        reply matches Reply::Fields(Ok(fields)) ==> reply@ == ReplyView::Fields(Ok(fields@)),
        reply matches Reply::Fields(Err(error)) ==> reply@ == ReplyView::Fields(Err(error@)),
        reply matches Reply::Attachments(Ok(attachments)) ==> reply@ == ReplyView::Attachments(
            Ok(attachments@),
        ),
        reply matches Reply::Attachments(Err(error)) ==> reply@ == ReplyView::Attachments(
            Err(error@),
        ),
        reply is VaultReset ==> reply@ == ReplyView::VaultReset,
{
}

/// What a reconciliation hands out is what it decided: every request with its
/// name, its namespace and what it carries, and in the end the action or the error.
pub proof fn law_requests(progress: Progress)
    ensures
        progress matches Progress::Perform(request, stage) ==> progress@ == ProgressView::Perform(
            request@,
            stage@,
        ),
        progress matches Progress::Perform(Request::FetchFields(item), _) ==> progress@->Perform_0
            == RequestView::FetchFields(item@),
        progress matches Progress::Perform(Request::FetchAttachments(item), _)
            ==> progress@->Perform_0 == RequestView::FetchAttachments(item@),
        progress matches Progress::Perform(Request::ResetVault, _) ==> progress@->Perform_0
            == RequestView::ResetVault,
        progress matches Progress::Perform(Request::Kube { name, namespace, call }, _)
            ==> progress@->Perform_0 == (RequestView::Kube {
            name: name@,
            namespace: namespace@,
            call: call@,
        }),
        progress matches Progress::Finished(Ok(action)) ==> progress@ == ProgressView::Finished(
            Ok(action),
        ),
        progress matches Progress::Finished(Err(error)) ==> progress@ == ProgressView::Finished(
            Err(error@),
        ),
{
}

/// A call of the Kubernetes API carries its patch or its secret.
pub proof fn law_calls(call: KubeCall)
    ensures
        call matches KubeCall::PatchStatus(patch) ==> call@ == CallView::PatchStatus(patch.view()),
        call matches KubeCall::MergeResource(patch) ==> call@ == CallView::MergeResource(
            patch.view(),
        ),
        call matches KubeCall::MergeSecret(patch) ==> call@ == CallView::MergeSecret(patch.view()),
        call matches KubeCall::CreateSecret(secret) ==> call@ == CallView::CreateSecret(secret@),
        call is GetStatus ==> call@ == CallView::GetStatus,
        call is GetResource ==> call@ == CallView::GetResource,
        call is GetSecret ==> call@ == CallView::GetSecret,
        call is DeleteSecret ==> call@ == CallView::DeleteSecret,
{
}

/// A stage remembers what it was made with: the status, what came of the
/// fields, the owner, the fields and the attachments, and the error.
pub proof fn law_stages(stage: Stage)
    ensures
        stage matches Stage::WritingInitialStatus { status } ==> stage@ == (
        StageView::WritingInitialStatus { status: status@ }),
        stage matches Stage::AddingFinalizer { status } ==> stage@ == (StageView::AddingFinalizer {
            status: status@,
        }),
        stage matches Stage::WritingReadyStatus { status } ==> stage@ == (
        StageView::WritingReadyStatus { status: status@ }),
        stage is ReadingStatus ==> stage@ == StageView::ReadingStatus,
        stage matches Stage::FetchingFields { status } ==> stage@ == (StageView::FetchingFields {
            status: status@,
        }),
        stage matches Stage::FetchingAttachments { status, fields_result: Ok(fields) } ==> stage@
            == (StageView::FetchingAttachments { status: status@, fields_result: Ok(fields@) }),
        stage matches Stage::FetchingAttachments { status, fields_result: Err(error) } ==> stage@
            == (StageView::FetchingAttachments { status: status@, fields_result: Err(error@) }),
        stage matches Stage::ReadingSecret { status, owner, fields, attachments } ==> stage@ == (
        StageView::ReadingSecret {
            status: status@,
            owner: owner@,
            fields: fields@,
            attachments: attachments@,
        }),
        stage matches Stage::WritingSecret { status } ==> stage@ == (StageView::WritingSecret {
            status: status@,
        }),
        stage is WritingSuccess ==> stage@ == StageView::WritingSuccess,
        stage matches Stage::WritingFailure { status, error } ==> stage@ == (
        StageView::WritingFailure { status: status@, error: error@ }),
        stage is WritingReason ==> stage@ == StageView::WritingReason,
        stage is ResettingVault ==> stage@ == StageView::ResettingVault,
        stage is ReadingOldSecret ==> stage@ == StageView::ReadingOldSecret,
        stage is DeletingSecret ==> stage@ == StageView::DeletingSecret,
        stage is ReadingResource ==> stage@ == StageView::ReadingResource,
        stage is RemovingFinalizers ==> stage@ == StageView::RemovingFinalizers,
{
}

} // verus!

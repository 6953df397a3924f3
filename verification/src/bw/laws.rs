//! What holds of every task of the client of the vault.

use vstd::prelude::*;
use super::client::{item_parts, law_item_name_has_slash, law_item_parts_with_rest, ClientView};
use super::command::{outcome, CommandView, ReportView};
use super::error::CommandErrorView;
use super::session::{
    after_command, client_after, field_pairs, is_answer, is_awaited, is_feasible, is_possible,
    is_stuck, login_error, next_download, resumed, started, AttachmentView, Download, DownloadView,
    FieldView, OutcomeView, ProgressView, ReplyView, RequestView, StageView, TaskView, VaultOutcome,
    VaultProgress, VaultReply, VaultRequest, VaultStage, VaultTask, Wanted,
};
use crate::text_map::{lemma_pairs_map_last, lemma_pairs_map_origin, pairs_map};

verus! {

/// A step that fits its client: the stage is possible, and it waits for
/// exactly the replies that answer the request.
pub open spec fn is_sound(client: ClientView, progress: ProgressView) -> bool {
    match progress {
        ProgressView::Perform(request, stage) => {
            &&& is_possible(client, stage)
            &&& forall|reply: ReplyView| #[trigger]
                is_answer(request, reply) <==> is_awaited(stage, reply)
        },
        ProgressView::Finished(_) => true,
    }
}

/// Every step of a task fits its client: whoever answers each request may
/// always go on, as long as the item to fetch has a proper name.
pub proof fn law_steps_are_sound(
    client: ClientView,
    task: TaskView,
    stage: StageView,
    reply: ReplyView,
)
    ensures
        client.session_token is None || is_feasible(task) ==> is_sound(
            client,
            started(client, task),
        ),
        is_possible(client, stage) && is_awaited(stage, reply) && !is_stuck(stage, reply)
            ==> is_sound(client_after(client, stage, reply), resumed(client, stage, reply)),
{
}

/// What a task is after.
pub enum Goal {
    Sync,
    Fields,
    Attachments,
}

pub open spec fn wanted_goal(wanted: Wanted) -> Goal {
    match wanted {
        Wanted::Fields => Goal::Fields,
        Wanted::Attachments => Goal::Attachments,
    }
}

pub open spec fn task_goal(task: TaskView) -> Goal {
    match task {
        TaskView::Sync => Goal::Sync,
        TaskView::Fetch { wanted, item } => wanted_goal(wanted),
    }
}

pub open spec fn stage_goal(stage: StageView) -> Goal {
    match stage {
        StageView::LoggingIn { task } => task_goal(task),
        StageView::FirstSync { task } => task_goal(task),
        StageView::Syncing => Goal::Sync,
        StageView::FindingCollection { wanted, item } => wanted_goal(wanted),
        StageView::FindingItem { wanted } => wanted_goal(wanted),
        StageView::ReadingFields => Goal::Fields,
        StageView::ParsingFields => Goal::Fields,
        _ => Goal::Attachments,
    }
}

/// A step towards the goal: either the next stage still has it, or the task
/// has failed, or its outcome is what the goal asks for.
pub open spec fn serves(progress: ProgressView, goal: Goal) -> bool {
    match progress {
        ProgressView::Perform(_, stage) => stage_goal(stage) == goal,
        ProgressView::Finished(Err(_)) => true,
        ProgressView::Finished(Ok(OutcomeView::Synced)) => goal == Goal::Sync,
        ProgressView::Finished(Ok(OutcomeView::Fields(_))) => goal == Goal::Fields,
        ProgressView::Finished(Ok(OutcomeView::Attachments(_))) => goal == Goal::Attachments,
    }
}

/// A task keeps its goal from the first step to the outcome.
pub proof fn law_goal_is_kept(
    client: ClientView,
    task: TaskView,
    stage: StageView,
    reply: ReplyView,
)
    requires
        is_awaited(stage, reply),
    ensures
        serves(started(client, task), task_goal(task)),
        serves(resumed(client, stage, reply), stage_goal(stage)),
{
}

/// How far a stage is from the end, but for attachments that are still to be fetched.
pub open spec fn rank(stage: StageView) -> nat {
    match stage {
        StageView::LoggingIn { .. } => 6,
        StageView::FirstSync { .. } => 5,
        StageView::FindingCollection { .. } => 4,
        StageView::FindingItem { .. } => 3,
        StageView::ReadingFields => 2,
        StageView::ReadingAttachments { .. } => 2,
        StageView::ParsingFields => 1,
        StageView::ParsingAttachments { .. } => 1,
        _ => 0,
    }
}

/// The requests that are still to be made for attachments.
pub open spec fn pending(stage: StageView) -> nat {
    match stage {
        StageView::CreatingFile { download } => 3 * download.remaining.len() + 3,
        StageView::Downloading { download } => 3 * download.remaining.len() + 2,
        StageView::ReadingFile { download } => 3 * download.remaining.len() + 1,
        _ => 0,
    }
}

/// Every task comes to an end: each step either is nearer to it, or leaves
/// fewer requests to be made.
pub proof fn law_tasks_end(client: ClientView, stage: StageView, reply: ReplyView)
    requires
        is_awaited(stage, reply),
    ensures
        resumed(client, stage, reply) matches ProgressView::Perform(_, next) ==> {
            ||| rank(next) < rank(stage)
            ||| rank(next) == rank(stage) && pending(next) < pending(stage)
        },
{
}

/// A client that has lost its session logs in before it does anything else,
/// and what login prints is the token of its new session.
pub proof fn law_reset_leads_to_login(client: ClientView, task: TaskView, report: ReportView)
    ensures
        started(client.without_session(), task) == ProgressView::Perform(
            RequestView::Run(client.login_command()),
            StageView::LoggingIn { task },
        ),
        outcome(report) matches Ok(token) ==> client_after(
            client.without_session(),
            StageView::LoggingIn { task },
            ReplyView::Ran(report),
        ) == client.with_session(token),
        outcome(report) is Err ==> client_after(
            client.without_session(),
            StageView::LoggingIn { task },
            ReplyView::Ran(report),
        ) == client.without_session(),
{
}

/// No reply but that to a login changes what the client knows.
pub proof fn law_only_login_changes_the_client(
    client: ClientView,
    stage: StageView,
    reply: ReplyView,
)
    ensures
        !(stage is LoggingIn) ==> client_after(client, stage, reply) == client,
        client_after(client, stage, reply).without_session() == client.without_session(),
{
}

/// The environment of a command that may be run at a stage: the credentials
/// for the login, the session for all else.
pub open spec fn stage_env(client: ClientView, stage: StageView) -> Map<Seq<char>, Seq<char>> {
    if stage is LoggingIn {
        client.login_command().env
    } else {
        client.session_env()
    }
}

/// The credentials go to the login alone, and the session token goes to every other command.
pub proof fn law_commands_get_their_environment(
    client: ClientView,
    task: TaskView,
    stage: StageView,
    reply: ReplyView,
)
    requires
        is_awaited(stage, reply),
    ensures
        started(client, task) matches ProgressView::Perform(RequestView::Run(command), first)
            ==> command.env == stage_env(client, first),
        resumed(client, stage, reply) matches ProgressView::Perform(RequestView::Run(command), next)
            ==> command.env == stage_env(client_after(client, stage, reply), next),
{
}

/// The text of the command that a step runs.
pub open spec fn run_text(progress: ProgressView) -> Option<Seq<char>> {
    match progress {
        ProgressView::Perform(RequestView::Run(command), _) => Some(command.text),
        _ => None,
    }
}

/// Every command runs the executable that `bw_path` names: its text starts
/// with that path, at every step of a task and around the tasks.
pub proof fn law_commands_run_the_configured_executable(
    client: ClientView,
    task: TaskView,
    stage: StageView,
    reply: ReplyView,
)
    requires
        is_awaited(stage, reply),
    ensures
        client.bw_path.is_prefix_of(client.configure_command().text),
        client.bw_path.is_prefix_of(client.login_command().text),
        client.bw_path.is_prefix_of(client.logout_command().text),
        run_text(started(client, task)) matches Some(text) ==> client.bw_path.is_prefix_of(text),
        run_text(resumed(client, stage, reply)) matches Some(text)
            ==> client.bw_path.is_prefix_of(text),
{
}

/// Clients that differ in their secrets only.
pub open spec fn differ_in_secrets(a: ClientView, b: ClientView) -> bool {
    &&& a.bw_path == b.bw_path
    &&& a.url == b.url
    &&& a.organization == b.organization
    &&& a.session_token is Some <==> b.session_token is Some
}

/// No secret is part of the text of a command: clients that differ in their
/// secrets only run the same texts at every step.
pub proof fn law_texts_keep_secrets_out(
    a: ClientView,
    b: ClientView,
    task: TaskView,
    stage: StageView,
    reply: ReplyView,
)
    requires
        differ_in_secrets(a, b),
        is_awaited(stage, reply),
    ensures
        run_text(started(a, task)) == run_text(started(b, task)),
        run_text(resumed(a, stage, reply)) == run_text(resumed(b, stage, reply)),
        differ_in_secrets(client_after(a, stage, reply), client_after(b, stage, reply)),
{
}

/// A failed login is reported as an error of the kind `Other`, with the whole
/// message of what went wrong.
pub proof fn law_login_errors_are_other(error: CommandErrorView)
    ensures
        login_error(error) == CommandErrorView::Other(error.text()),
{
    reveal_strlit("Email address is invalid.");
    reveal_strlit("Username or password is incorrect. Try again");
    reveal_strlit("Bitwarden CLI error ");
    reveal_strlit("Session expired: ");
    reveal_strlit("Locked: ");
    reveal_strlit("InvalidCredentials: ");
    reveal_strlit("IO error: ");
    reveal_strlit("Other error: ");
    assert("Email address is invalid."@[0] == 'E');
    assert("Username or password is incorrect. Try again"@[0] == 'U');
    let first = error.text()[0];
    assert(first == 'B' || first == 'S' || first == 'L' || first == 'I' || first == 'O');
}

/// Whether a step ends the task with a failure.
pub open spec fn is_failure(progress: ProgressView) -> bool {
    progress matches ProgressView::Finished(Err(_))
}

/// A reply that tells of a failure.
pub open spec fn tells_failure(reply: ReplyView) -> bool {
    match reply {
        ReplyView::Ran(report) => outcome(report) is Err,
        ReplyView::Fields(result) => result is Err,
        ReplyView::Attachments(result) => result is Err,
        ReplyView::File(result) => result is Err,
        ReplyView::Contents(result) => result is Err,
    }
}

/// A task fails as soon as one of its requests does, and for no other reason.
pub proof fn law_tasks_fail_with_their_requests(
    client: ClientView,
    stage: StageView,
    reply: ReplyView,
)
    requires
        is_awaited(stage, reply),
    ensures
        is_failure(resumed(client, stage, reply)) <==> tells_failure(reply),
{
}

/// A task that goes on with the given replies, one after the other.
pub open spec fn played(
    client: ClientView,
    progress: ProgressView,
    replies: Seq<ReplyView>,
) -> ProgressView
    decreases replies.len(),
{
    match progress {
        ProgressView::Perform(_, stage) => if replies.len() > 0 {
            played(
                client_after(client, stage, replies[0]),
                resumed(client, stage, replies[0]),
                replies.skip(1),
            )
        } else {
            progress
        },
        ProgressView::Finished(_) => progress,
    }
}

/// A client without a session fetches what one with a session does: it logs
/// in, synchronises, and goes on with the token that the login printed.
pub proof fn law_login_comes_first(
    client: ClientView,
    task: TaskView,
    login_report: ReportView,
    sync_report: ReportView,
    rest: Seq<ReplyView>,
)
    requires
        client.session_token is None,
        outcome(login_report) is Ok,
        outcome(sync_report) is Ok,
    ensures
        played(
            client,
            started(client, task),
            seq![ReplyView::Ran(login_report), ReplyView::Ran(sync_report)] + rest,
        ) == played(
            client.with_session(outcome(login_report)->Ok_0),
            started(client.with_session(outcome(login_report)->Ok_0), task),
            rest,
        ),
{
    let replies = seq![ReplyView::Ran(login_report), ReplyView::Ran(sync_report)] + rest;
    reveal_with_fuel(played, 3);
    assert(replies.skip(1)[0] == replies[1]);
    assert(replies.skip(1).skip(1) =~= rest);
}

/// The replies with which the identifier of an item is found: that of its
/// collection comes first, if its name has one.
pub open spec fn finding_replies(
    item: Seq<char>,
    collection_report: ReportView,
    item_report: ReportView,
) -> Seq<ReplyView> {
    if item_parts(item).0.len() > 0 {
        seq![ReplyView::Ran(collection_report), ReplyView::Ran(item_report)]
    } else {
        seq![ReplyView::Ran(item_report)]
    }
}

/// The step after the identifier of an item has been found.
proof fn lemma_item_found(
    client: ClientView,
    wanted: Wanted,
    item: Seq<char>,
    collection_report: ReportView,
    item_report: ReportView,
    rest: Seq<ReplyView>,
)
    requires
        client.session_token is Some,
        outcome(collection_report) is Ok,
        outcome(item_report) is Ok,
    ensures
        played(
            client,
            started(client, TaskView::Fetch { wanted, item }),
            finding_replies(item, collection_report, item_report) + rest,
        ) == played(
            client,
            after_command(client, StageView::FindingItem { wanted }, outcome(item_report)),
            rest,
        ),
{
    let replies = finding_replies(item, collection_report, item_report) + rest;
    reveal_with_fuel(played, 3);
    if item_parts(item).0.len() > 0 {
        assert(replies.skip(1).skip(1) =~= rest);
    } else {
        assert(replies.skip(1) =~= rest);
    }
}

/// Every field of a vault item is fetched: once the item has been found, its
/// fields have been printed and read, the outcome holds the value of each
/// field under its name; of two fields with one name the later counts.
pub proof fn law_fields_are_fetched(
    client: ClientView,
    item: Seq<char>,
    collection_report: ReportView,
    item_report: ReportView,
    fields_report: ReportView,
    fields: Seq<FieldView>,
)
    requires
        client.session_token is Some,
        outcome(collection_report) is Ok,
        outcome(item_report) is Ok,
        outcome(fields_report) is Ok,
    ensures
        played(
            client,
            started(client, TaskView::Fetch { wanted: Wanted::Fields, item }),
            finding_replies(item, collection_report, item_report) + seq![
                ReplyView::Ran(fields_report),
                ReplyView::Fields(Ok(fields)),
            ],
        ) == ProgressView::Finished(Ok(OutcomeView::Fields(pairs_map(field_pairs(fields))))),
        forall|i: int|
            0 <= i < fields.len() ==> pairs_map(field_pairs(fields)).contains_key(
                (#[trigger] fields[i]).name,
            ),
        forall|i: int|
            0 <= i < fields.len() && (forall|j: int| i < j < fields.len() ==> (
            #[trigger] fields[j]).name != fields[i].name) ==> pairs_map(field_pairs(fields))[(
            #[trigger] fields[i]).name] == fields[i].value,
{
    let rest = seq![ReplyView::Ran(fields_report), ReplyView::Fields(Ok(fields))];
    lemma_item_found(client, Wanted::Fields, item, collection_report, item_report, rest);
    reveal_with_fuel(played, 3);
    assert(rest.skip(1)[0] == rest[1]);
    let pairs = field_pairs(fields);
    assert forall|i: int| 0 <= i < fields.len() implies pairs_map(pairs).contains_key(
        (#[trigger] fields[i]).name,
    ) by {
        lemma_pairs_map_last(pairs, i);
        assert(pairs[i].0 == fields[i].name);
    }
    assert forall|i: int|
        0 <= i < fields.len() && (forall|j: int|
            i < j < fields.len() ==> (#[trigger] fields[j]).name
                != fields[i].name) implies pairs_map(pairs)[(#[trigger] fields[i]).name]
        == fields[i].value by {
        assert forall|j: int| i < j < pairs.len() implies (#[trigger] pairs[j]).0 != pairs[i].0 by {
            assert(fields[j].name != fields[i].name);
        }
        lemma_pairs_map_last(pairs, i);
        assert(pairs[i] == (fields[i].name, fields[i].value));
    }
}

/// The contents of files under the names of the attachments.
pub open spec fn attachment_pairs(
    attachments: Seq<AttachmentView>,
    files: Seq<Seq<u8>>,
) -> Seq<(Seq<char>, Seq<u8>)> {
    Seq::new(attachments.len(), |i: int| (attachments[i].file_name, files[i]))
}

/// The replies with which attachments are fetched: for each of them a file is
/// created, filled and read.
pub open spec fn download_replies(
    paths: Seq<Seq<char>>,
    reports: Seq<ReportView>,
    files: Seq<Seq<u8>>,
) -> Seq<ReplyView> {
    Seq::new(
        3 * files.len(),
        |i: int|
            if i % 3 == 0 {
                ReplyView::File(Ok(paths[i / 3]))
            } else if i % 3 == 1 {
                ReplyView::Ran(reports[i / 3])
            } else {
                ReplyView::Contents(Ok(files[i / 3]))
            },
    )
}

/// Entries added to a map one after the other.
pub open spec fn with_pairs(
    map: Map<Seq<char>, Seq<u8>>,
    pairs: Seq<(Seq<char>, Seq<u8>)>,
) -> Map<Seq<char>, Seq<u8>>
    decreases pairs.len(),
{
    if pairs.len() == 0 {
        map
    } else {
        with_pairs(map.insert(pairs[0].0, pairs[0].1), pairs.skip(1))
    }
}

/// The entries of two lists, one after the other, are those of the first list
/// with those of the second added.
proof fn lemma_with_pairs(
    first: Seq<(Seq<char>, Seq<u8>)>,
    second: Seq<(Seq<char>, Seq<u8>)>,
)
    ensures
        with_pairs(pairs_map(first), second) == pairs_map(first + second),
    decreases second.len(),
{
    if second.len() == 0 {
        assert(first + second =~= first);
    } else {
        let longer = first.push(second[0]);
        assert(longer.drop_last() =~= first);
        lemma_with_pairs(longer, second.skip(1));
        assert(longer + second.skip(1) =~= first + second);
    }
}

/// Attachments are fetched one after the other.
proof fn lemma_downloads(
    client: ClientView,
    item_id: Seq<char>,
    attachments: Seq<AttachmentView>,
    collected: Map<Seq<char>, Seq<u8>>,
    paths: Seq<Seq<char>>,
    reports: Seq<ReportView>,
    files: Seq<Seq<u8>>,
)
    requires
        paths.len() == attachments.len(),
        reports.len() == attachments.len(),
        files.len() == attachments.len(),
        forall|i: int| 0 <= i < reports.len() ==> outcome(#[trigger] reports[i]) is Ok,
    ensures
        played(
            client,
            next_download(item_id, attachments, collected),
            download_replies(paths, reports, files),
        ) == ProgressView::Finished(
            Ok(
                OutcomeView::Attachments(
                    with_pairs(collected, attachment_pairs(attachments, files)),
                ),
            ),
        ),
    decreases attachments.len(),
{
    if attachments.len() > 0 {
        let replies = download_replies(paths, reports, files);
        let pairs = attachment_pairs(attachments, files);
        reveal_with_fuel(played, 4);
        assert(replies[0] == ReplyView::File(Ok(paths[0])));
        assert(replies[1] == ReplyView::Ran(reports[0]));
        assert(replies[2] == ReplyView::Contents(Ok(files[0])));
        assert(outcome(reports[0]) is Ok);
        assert(replies.skip(1).skip(1).skip(1) =~= download_replies(
            paths.skip(1),
            reports.skip(1),
            files.skip(1),
        ));
        assert(pairs.skip(1) =~= attachment_pairs(attachments.skip(1), files.skip(1)));
        lemma_downloads(
            client,
            item_id,
            attachments.skip(1),
            collected.insert(attachments[0].file_name, files[0]),
            paths.skip(1),
            reports.skip(1),
            files.skip(1),
        );
    }
}

/// Every attachment of a vault item is fetched: once the item has been found,
/// its attachments have been listed and each of them has been written to a
/// file and read, the outcome holds the contents of each under its name.
pub proof fn law_attachments_are_fetched(
    client: ClientView,
    item: Seq<char>,
    collection_report: ReportView,
    item_report: ReportView,
    list_report: ReportView,
    attachments: Seq<AttachmentView>,
    paths: Seq<Seq<char>>,
    reports: Seq<ReportView>,
    files: Seq<Seq<u8>>,
)
    requires
        client.session_token is Some,
        outcome(collection_report) is Ok,
        outcome(item_report) is Ok,
        outcome(list_report) is Ok,
        paths.len() == attachments.len(),
        reports.len() == attachments.len(),
        files.len() == attachments.len(),
        forall|i: int| 0 <= i < reports.len() ==> outcome(#[trigger] reports[i]) is Ok,
    ensures
        played(
            client,
            started(client, TaskView::Fetch { wanted: Wanted::Attachments, item }),
            finding_replies(item, collection_report, item_report) + (seq![
                ReplyView::Ran(list_report),
                ReplyView::Attachments(Ok(attachments)),
            ] + download_replies(paths, reports, files)),
        ) == ProgressView::Finished(
            Ok(OutcomeView::Attachments(pairs_map(attachment_pairs(attachments, files)))),
        ),
        forall|i: int|
            0 <= i < attachments.len() ==> pairs_map(
                attachment_pairs(attachments, files),
            ).contains_key((#[trigger] attachments[i]).file_name),
        forall|i: int|
            0 <= i < attachments.len() && (forall|j: int|
                i < j < attachments.len() ==> (#[trigger] attachments[j]).file_name
                    != attachments[i].file_name) ==> pairs_map(
                attachment_pairs(attachments, files),
            )[(#[trigger] attachments[i]).file_name] == files[i],
{
    let downloads = download_replies(paths, reports, files);
    let rest = seq![ReplyView::Ran(list_report), ReplyView::Attachments(Ok(attachments))]
        + downloads;
    lemma_item_found(client, Wanted::Attachments, item, collection_report, item_report, rest);
    let item_id = outcome(item_report)->Ok_0;
    reveal_with_fuel(played, 3);
    assert(rest.skip(1)[0] == rest[1]);
    assert(rest.skip(1).skip(1) =~= downloads);
    lemma_downloads(client, item_id, attachments, Map::empty(), paths, reports, files);
    let pairs = attachment_pairs(attachments, files);
    let none = Seq::<(Seq<char>, Seq<u8>)>::empty();
    lemma_with_pairs(none, pairs);
    assert(none + pairs =~= pairs);
    assert forall|i: int| 0 <= i < attachments.len() implies pairs_map(pairs).contains_key(
        (#[trigger] attachments[i]).file_name,
    ) by {
        lemma_pairs_map_last(pairs, i);
        assert(pairs[i].0 == attachments[i].file_name);
    }
    assert forall|i: int|
        0 <= i < attachments.len() && (forall|j: int|
            i < j < attachments.len() ==> (#[trigger] attachments[j]).file_name
                != attachments[i].file_name) implies pairs_map(pairs)[(
    #[trigger] attachments[i]).file_name] == files[i] by {
        assert forall|j: int| i < j < pairs.len() implies (#[trigger] pairs[j]).0 != pairs[i].0 by {
            assert(attachments[j].file_name != attachments[i].file_name);
        }
        lemma_pairs_map_last(pairs, i);
        assert(pairs[i] == (attachments[i].file_name, files[i]));
    }
}

/// A command of the session of a client, with the token in its environment.
pub open spec fn in_session(client: ClientView, text: Seq<char>) -> RequestView {
    RequestView::Run(
        CommandView {
            text,
            env: Map::<Seq<char>, Seq<char>>::empty().insert("BW_SESSION"@, client.session_token->0),
        },
    )
}

/// How an item is looked for in a session: with a collection in its name, the
/// collection is looked for first, among those of the organization if there is
/// one; without, the item is looked for by its name alone.
pub proof fn law_item_is_looked_for(
    client: ClientView,
    wanted: Wanted,
    collection: Seq<char>,
    secret: Seq<char>,
    rest: Seq<char>,
)
    requires
        client.session_token is Some,
        !collection.contains('/'),
        !secret.contains('/'),
        rest.len() == 0 || rest[0] == '/',
    ensures
        ({
            let item = collection.push('/') + secret + rest;
            let first = started(client, TaskView::Fetch { wanted, item });
            &&& collection.len() == 0 ==> first == ProgressView::Perform(
                in_session(
                    client,
                    client.bw_path + " list items --search '"@ + secret
                        + "' | jq -r -c '.[] | select( .name == \""@ + secret + "\") | .id'"@,
                ),
                StageView::FindingItem { wanted },
            )
            &&& collection.len() > 0 && client.organization is None ==> first
                == ProgressView::Perform(
                in_session(
                    client,
                    client.bw_path + " list collections --search \""@ + collection
                        + "\" | jq -r -c '.[] | select( .name == \""@ + collection
                        + "\") | .id'"@,
                ),
                StageView::FindingCollection { wanted, item },
            )
            &&& collection.len() > 0 && client.organization is Some ==> first
                == ProgressView::Perform(
                in_session(
                    client,
                    client.bw_path + " list org-collections --organizationid '"@
                        + client.organization->0 + "' --search \""@ + collection
                        + "\"  | jq -r -c '.[] | select( .name == \""@ + collection
                        + "\") | .id'"@,
                ),
                StageView::FindingCollection { wanted, item },
            )
        }),
{
    law_item_parts_with_rest(collection, secret, rest);
}

/// An item in a collection is looked for in that collection: whatever is
/// wanted of it, the command after the collection has been found searches for
/// the name of the secret in the collection with exactly the identifier that
/// was printed.
pub proof fn law_item_is_looked_for_in_its_collection(
    client: ClientView,
    wanted: Wanted,
    collection: Seq<char>,
    secret: Seq<char>,
    rest: Seq<char>,
    report: ReportView,
    collection_id: Seq<char>,
)
    requires
        !collection.contains('/'),
        !secret.contains('/'),
        rest.len() == 0 || rest[0] == '/',
        outcome(report) == Ok::<Seq<char>, CommandErrorView>(collection_id),
    ensures
        resumed(
            client,
            StageView::FindingCollection { wanted, item: collection.push('/') + secret + rest },
            ReplyView::Ran(report),
        ) == ProgressView::Perform(
            in_session(
                client,
                client.bw_path + " list items --search '"@ + secret + "' --collectionid '"@
                    + collection_id + "' | jq -r -c '.[] | select( .name == \""@ + secret
                    + "\") | .id'"@,
            ),
            StageView::FindingItem { wanted },
        ),
{
    law_item_parts_with_rest(collection, secret, rest);
}

/// What is asked of an item that has been found: the fields or the
/// attachments, as was wanted, of the item with exactly the identifier that
/// was printed.
pub proof fn law_found_item_is_read(client: ClientView, report: ReportView, item_id: Seq<char>)
    requires
        outcome(report) == Ok::<Seq<char>, CommandErrorView>(item_id),
    ensures
        resumed(
            client,
            StageView::FindingItem { wanted: Wanted::Fields },
            ReplyView::Ran(report),
        ) == ProgressView::Perform(
            in_session(
                client,
                client.bw_path + " get item '"@ + item_id
                    + "' | jq '[select(.fields != null) | .fields[]]'"@,
            ),
            StageView::ReadingFields,
        ),
        resumed(
            client,
            StageView::FindingItem { wanted: Wanted::Attachments },
            ReplyView::Ran(report),
        ) == ProgressView::Perform(
            in_session(
                client,
                client.bw_path + " get item '"@ + item_id
                    + "' | jq '[select(.attachments != null) | .attachments[] | {fileName: .fileName, id: .id}]'"@,
            ),
            StageView::ReadingAttachments { item_id },
        ),
{
}

/// What a successful command leads to at the other stages: after the login the
/// vault is synchronised in the new session, and then the task is started;
/// a synchronisation is done with that; what was printed of fields or
/// attachments is read whole; a file that has been filled is read.
pub proof fn law_commands_lead_on(
    client: ClientView,
    task: TaskView,
    item_id: Seq<char>,
    download: DownloadView,
    report: ReportView,
    text: Seq<char>,
)
    requires
        outcome(report) == Ok::<Seq<char>, CommandErrorView>(text),
    ensures
        resumed(client, StageView::LoggingIn { task }, ReplyView::Ran(report))
            == ProgressView::Perform(
            in_session(client.with_session(text), client.bw_path + " sync"@),
            StageView::FirstSync { task },
        ),
        client_after(client, StageView::LoggingIn { task }, ReplyView::Ran(report))
            == client.with_session(text),
        client.session_token is Some ==> resumed(
            client,
            StageView::FirstSync { task },
            ReplyView::Ran(report),
        ) == started(client, task),
        client.session_token is Some ==> started(client, TaskView::Sync) == ProgressView::Perform(
            in_session(client, client.bw_path + " sync"@),
            StageView::Syncing,
        ),
        resumed(client, StageView::Syncing, ReplyView::Ran(report)) == ProgressView::Finished(
            Ok(OutcomeView::Synced),
        ),
        resumed(client, StageView::ReadingFields, ReplyView::Ran(report)) == ProgressView::Perform(
            RequestView::ParseFields(text),
            StageView::ParsingFields,
        ),
        resumed(client, StageView::ReadingAttachments { item_id }, ReplyView::Ran(report))
            == ProgressView::Perform(
            RequestView::ParseAttachments(text),
            StageView::ParsingAttachments { item_id },
        ),
        resumed(client, StageView::Downloading { download }, ReplyView::Ran(report))
            == ProgressView::Perform(
            RequestView::ReadFile,
            StageView::ReadingFile { download },
        ),
{
}

/// How attachments are fetched: in the order of their list, each into a file
/// of its own, by the identifiers of the attachment and of its item; what has
/// been read is kept under the name of the attachment, with all that was read
/// before. When none is left the task is done with all of them.
pub proof fn law_attachments_are_downloaded(
    client: ClientView,
    item_id: Seq<char>,
    first: AttachmentView,
    others: Seq<AttachmentView>,
    download: DownloadView,
    path: Seq<char>,
    bytes: Seq<u8>,
)
    ensures
        resumed(
            client,
            StageView::ParsingAttachments { item_id },
            ReplyView::Attachments(Ok(Seq::empty())),
        ) == ProgressView::Finished(Ok(OutcomeView::Attachments(Map::empty()))),
        resumed(
            client,
            StageView::ParsingAttachments { item_id },
            ReplyView::Attachments(Ok(seq![first] + others)),
        ) == ProgressView::Perform(
            RequestView::CreateFile,
            StageView::CreatingFile {
                download: DownloadView {
                    item_id,
                    current: first,
                    remaining: others,
                    collected: Map::empty(),
                },
            },
        ),
        resumed(client, StageView::CreatingFile { download }, ReplyView::File(Ok(path)))
            == ProgressView::Perform(
            in_session(
                client,
                client.bw_path + " get attachment '"@ + download.current.id + "' --itemid '"@
                    + download.item_id + "' --output "@ + path + " --quiet"@,
            ),
            StageView::Downloading { download },
        ),
        ({
            let collected = download.collected.insert(download.current.file_name, bytes);
            &&& download.remaining.len() == 0 ==> resumed(
                client,
                StageView::ReadingFile { download },
                ReplyView::Contents(Ok(bytes)),
            ) == ProgressView::Finished(Ok(OutcomeView::Attachments(collected)))
            &&& download.remaining == seq![first] + others ==> resumed(
                client,
                StageView::ReadingFile { download },
                ReplyView::Contents(Ok(bytes)),
            ) == ProgressView::Perform(
                RequestView::CreateFile,
                StageView::CreatingFile {
                    download: DownloadView {
                        item_id: download.item_id,
                        current: first,
                        remaining: others,
                        collected,
                    },
                },
            )
        }),
{
    assert((seq![first] + others).skip(1) =~= others);
}

/// The fields that have been read are the outcome: each name has the value of
/// the last field of that name, and there are no other names.
pub proof fn law_fields_are_the_outcome(client: ClientView, fields: Seq<FieldView>)
    ensures
        ({
            let last = resumed(client, StageView::ParsingFields, ReplyView::Fields(Ok(fields)));
            &&& last matches ProgressView::Finished(Ok(OutcomeView::Fields(_)))
            &&& forall|i: int|
                0 <= i < fields.len() ==> last->Finished_0->Ok_0->Fields_0.contains_key(
                    (#[trigger] fields[i]).name,
                )
            &&& forall|i: int|
                0 <= i < fields.len() && (forall|j: int|
                    i < j < fields.len() ==> (#[trigger] fields[j]).name != fields[i].name)
                    ==> last->Finished_0->Ok_0->Fields_0[(#[trigger] fields[i]).name]
                    == fields[i].value
            &&& forall|name: Seq<char>| #[trigger]
                last->Finished_0->Ok_0->Fields_0.contains_key(name) ==> exists|i: int|
                    0 <= i < fields.len() && (#[trigger] fields[i]).name == name
        }),
{
    let pairs = field_pairs(fields);
    assert forall|i: int| 0 <= i < fields.len() implies pairs_map(pairs).contains_key(
        (#[trigger] fields[i]).name,
    ) by {
        lemma_pairs_map_last(pairs, i);
        assert(pairs[i].0 == fields[i].name);
    }
    assert forall|i: int|
        0 <= i < fields.len() && (forall|j: int|
            i < j < fields.len() ==> (#[trigger] fields[j]).name
                != fields[i].name) implies pairs_map(pairs)[(#[trigger] fields[i]).name]
        == fields[i].value by {
        assert forall|j: int| i < j < pairs.len() implies (#[trigger] pairs[j]).0 != pairs[i].0 by {
            assert(fields[j].name != fields[i].name);
        }
        lemma_pairs_map_last(pairs, i);
        assert(pairs[i] == (fields[i].name, fields[i].value));
    }
    assert forall|name: Seq<char>| #[trigger]
        pairs_map(pairs).contains_key(name) implies exists|i: int|
        0 <= i < fields.len() && (#[trigger] fields[i]).name == name by {
        let i = lemma_pairs_map_origin(pairs, name);
        assert(fields[i].name == name);
    }
}

/// What a failure is reported as: the failure of a command as it is, that of
/// the login as another error with its whole message, and all else with its
/// message as an error of input or output. A failed command leaves the client
/// as it was.
pub proof fn law_failures_are_reported(
    client: ClientView,
    stage: StageView,
    report: ReportView,
    message: Seq<char>,
)
    ensures
        outcome(report) matches Err(error) ==> resumed(client, stage, ReplyView::Ran(report))
            == ProgressView::Finished(
            Err(
                if stage is LoggingIn {
                    CommandErrorView::Other(error.text())
                } else {
                    error
                },
            ),
        ),
        outcome(report) is Err ==> client_after(client, stage, ReplyView::Ran(report)) == client,
        resumed(client, stage, ReplyView::Fields(Err(message))) == ProgressView::Finished(
            Err(CommandErrorView::IO(message)),
        ),
        resumed(client, stage, ReplyView::Attachments(Err(message))) == ProgressView::Finished(
            Err(CommandErrorView::IO(message)),
        ),
        resumed(client, stage, ReplyView::File(Err(message))) == ProgressView::Finished(
            Err(CommandErrorView::IO(message)),
        ),
        resumed(client, stage, ReplyView::Contents(Err(message))) == ProgressView::Finished(
            Err(CommandErrorView::IO(message)),
        ),
{
    if outcome(report) is Err {
        law_login_errors_are_other(outcome(report)->Err_0);
    }
}

/// Which stages a client can be in, and when a task is stuck.
pub proof fn law_possible_stages(client: ClientView, stage: StageView, reply: ReplyView)
    ensures
        is_possible(client, stage) <==> stage is LoggingIn || client.session_token is Some && (stage
            matches StageView::FindingCollection { item, .. } ==> item.contains('/')),
        is_stuck(stage, reply) <==> (stage matches StageView::FirstSync {
            task: TaskView::Fetch { item, .. },
        } && !item.contains('/')) && (reply matches ReplyView::Ran(report) && outcome(
            report,
        ) is Ok),
{
    match stage {
        StageView::FindingCollection { item, .. } => {
            law_item_name_has_slash(item);
        },
        StageView::FirstSync { task: TaskView::Fetch { item, .. } } => {
            law_item_name_has_slash(item);
        },
        _ => {},
    }
}

/// What is handed to the client is kept: every field and every attachment of a
/// list, in its place and as it is, every path, every content and every message.
pub proof fn law_replies(reply: VaultReply)
    ensures
        reply matches VaultReply::Ran(report) ==> reply@ == ReplyView::Ran(report@),
        reply matches VaultReply::Fields(Ok(fields)) ==> reply@ is Fields && reply@->Fields_0 is Ok
            && reply@->Fields_0->Ok_0.len() == fields@.len() && forall|i: int|
            0 <= i < fields@.len() ==> {
                let field = #[trigger] fields@[i];
                let view = reply@->Fields_0->Ok_0[i];
                view.name == field.name@ && view.value == field.value@ && view.type_ == field.type_
            },
        reply matches VaultReply::Attachments(Ok(attachments)) ==> reply@ is Attachments
            && reply@->Attachments_0 is Ok && reply@->Attachments_0->Ok_0.len()
            == attachments@.len() && forall|i: int|
            0 <= i < attachments@.len() ==> {
                let attachment = #[trigger] attachments@[i];
                let view = reply@->Attachments_0->Ok_0[i];
                view.file_name == attachment.file_name@ && view.id == attachment.id@
            },
        reply matches VaultReply::File(Ok(path)) ==> reply@ == ReplyView::File(Ok(path@)),
        reply matches VaultReply::Contents(Ok(bytes)) ==> reply@ == ReplyView::Contents(Ok(bytes@)),
        reply matches VaultReply::Fields(Err(m)) ==> reply@ == ReplyView::Fields(Err(m@)),
        reply matches VaultReply::Attachments(Err(m)) ==> reply@ == ReplyView::Attachments(Err(m@)),
        reply matches VaultReply::File(Err(m)) ==> reply@ == ReplyView::File(Err(m@)),
        reply matches VaultReply::Contents(Err(m)) ==> reply@ == ReplyView::Contents(Err(m@)),
{
}

/// What the client hands out is what it decided: every command, every text to
/// read, and in the end every field and every attachment, or the error.
pub proof fn law_requests_and_outcomes(progress: VaultProgress)
    ensures
        progress matches VaultProgress::Perform(request, stage) ==> progress@
            == ProgressView::Perform(request@, stage@),
        progress matches VaultProgress::Perform(VaultRequest::Run(command), _) ==> progress@->Perform_0
            == RequestView::Run(command@),
        progress matches VaultProgress::Perform(VaultRequest::ParseFields(text), _)
            ==> progress@->Perform_0 == RequestView::ParseFields(text@),
        progress matches VaultProgress::Perform(VaultRequest::ParseAttachments(text), _)
            ==> progress@->Perform_0 == RequestView::ParseAttachments(text@),
        progress matches VaultProgress::Perform(VaultRequest::CreateFile, _)
            ==> progress@->Perform_0 == RequestView::CreateFile,
        progress matches VaultProgress::Perform(VaultRequest::ReadFile, _) ==> progress@->Perform_0
            == RequestView::ReadFile,
        progress matches VaultProgress::Finished(Ok(VaultOutcome::Synced)) ==> progress@
            == ProgressView::Finished(Ok(OutcomeView::Synced)),
        progress matches VaultProgress::Finished(Ok(VaultOutcome::Fields(fields))) ==> progress@
            == ProgressView::Finished(Ok(OutcomeView::Fields(fields@))),
        progress matches VaultProgress::Finished(Ok(VaultOutcome::Attachments(attachments)))
            ==> progress@ == ProgressView::Finished(Ok(OutcomeView::Attachments(attachments@))),
        progress matches VaultProgress::Finished(Err(error)) ==> progress@
            == ProgressView::Finished(Err(error@)),
{
}

/// A stage remembers what it was made with: the task, what is wanted of which
/// item, and of a download the item, the attachment at hand, every attachment
/// that is left, in its place, and all that has been collected.
pub proof fn law_stages(stage: VaultStage, task: VaultTask)
    ensures
        task is Sync ==> task@ == TaskView::Sync,
        task matches VaultTask::Fetch { wanted, item } ==> task@ == (TaskView::Fetch {
            wanted,
            item: item@,
        }),
        stage matches VaultStage::LoggingIn { task: t } ==> stage@ == (StageView::LoggingIn {
            task: t@,
        }),
        stage matches VaultStage::FirstSync { task: t } ==> stage@ == (StageView::FirstSync {
            task: t@,
        }),
        stage is Syncing ==> stage@ == StageView::Syncing,
        stage matches VaultStage::FindingCollection { wanted, item } ==> stage@ == (
        StageView::FindingCollection { wanted, item: item@ }),
        stage matches VaultStage::FindingItem { wanted } ==> stage@ == (StageView::FindingItem {
            wanted,
        }),
        stage is ReadingFields ==> stage@ == StageView::ReadingFields,
        stage is ParsingFields ==> stage@ == StageView::ParsingFields,
        stage matches VaultStage::ReadingAttachments { item_id } ==> stage@ == (
        StageView::ReadingAttachments { item_id: item_id@ }),
        stage matches VaultStage::ParsingAttachments { item_id } ==> stage@ == (
        StageView::ParsingAttachments { item_id: item_id@ }),
        stage matches VaultStage::CreatingFile { download } ==> stage@ == (
        StageView::CreatingFile { download: download@ }),
        stage matches VaultStage::Downloading { download } ==> stage@ == (StageView::Downloading {
            download: download@,
        }),
        stage matches VaultStage::ReadingFile { download } ==> stage@ == (StageView::ReadingFile {
            download: download@,
        }),
{
}

/// A download is its item, the attachment at hand, every attachment that is
/// left, in its place, and all that has been collected.
pub proof fn law_download(download: Download)
    ensures
        download@.item_id == download.item_id@,
        download@.current.file_name == download.current.file_name@,
        download@.current.id == download.current.id@,
        download@.remaining.len() == download.remaining@.len(),
        forall|i: int|
            0 <= i < download.remaining@.len() ==> {
                let attachment = #[trigger] download.remaining@[i];
                download@.remaining[i].file_name == attachment.file_name@
                    && download@.remaining[i].id == attachment.id@
            },
        download@.collected == download.collected@,
{
}

} // verus!

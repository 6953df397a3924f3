//! How the client of the vault works: one command after the other, each
//! chosen by what came of those before it.

use vstd::pervasive::unreached;
use vstd::prelude::*;
use super::client::{
    attachment_text, find_collection_text, find_item_text, is_item_name, item_attachments_text,
    item_fields_text, item_parts, names_vault_item, split_item, sync_text, ClientView,
    WardenClientWrapper,
};
use super::command::{
    command_outcome, outcome, succeeded, CommandReport, CommandView, ReportView, ShellCommand,
};
use super::error::{CommandErrorView, WardenCommandError};
use crate::text::same_text;
use crate::text_map::{pairs_map, TextMap};

verus! {

/// An attachment of a vault item.
#[derive(Debug, PartialEq, Eq)]
pub struct Attachment {
    pub file_name: String,
    pub id: String,
}

/// What an attachment is.
pub struct AttachmentView {
    pub file_name: Seq<char>,
    pub id: Seq<char>,
}

impl View for Attachment {
    type V = AttachmentView;

    open spec fn view(&self) -> AttachmentView {
        AttachmentView { file_name: self.file_name@, id: self.id@ }
    }
}

/// A field of a vault item.
#[derive(Debug, PartialEq, Eq)]
pub struct ItemField {
    pub name: String,
    pub value: String,
    pub type_: u64,
}

/// What a field is.
pub struct FieldView {
    pub name: Seq<char>,
    pub value: Seq<char>,
    pub type_: u64,
}

impl View for ItemField {
    type V = FieldView;

    open spec fn view(&self) -> FieldView {
        FieldView { name: self.name@, value: self.value@, type_: self.type_ }
    }
}

pub open spec fn attachment_views(attachments: Seq<Attachment>) -> Seq<AttachmentView> {
    attachments.map_values(|attachment: Attachment| attachment@)
}

pub open spec fn field_views(fields: Seq<ItemField>) -> Seq<FieldView> {
    fields.map_values(|field: ItemField| field@)
}

/// What to fetch of a vault item.
#[derive(Clone, Copy, Debug, PartialEq, Eq, Structural)]
pub enum Wanted {
    Fields,
    Attachments,
}

/// What the client is to do.
pub enum VaultTask {
    /// Fetch the current state of the vault.
    Sync,
    /// Fetch something of a vault item.
    Fetch { wanted: Wanted, item: String },
}

pub enum TaskView {
    Sync,
    Fetch { wanted: Wanted, item: Seq<char> },
}

impl View for VaultTask {
    type V = TaskView;

    open spec fn view(&self) -> TaskView {
        match self {
            VaultTask::Sync => TaskView::Sync,
            VaultTask::Fetch { wanted, item } => TaskView::Fetch { wanted: *wanted, item: item@ },
        }
    }
}

/// Attachments on their way: the one that is being fetched, those to be
/// fetched after it, and the contents of those that have been.
pub struct Download {
    pub item_id: String,
    pub current: Attachment,
    pub remaining: Vec<Attachment>,
    pub collected: TextMap<Vec<u8>>,
}

pub struct DownloadView {
    pub item_id: Seq<char>,
    pub current: AttachmentView,
    pub remaining: Seq<AttachmentView>,
    pub collected: Map<Seq<char>, Seq<u8>>,
}

impl View for Download {
    type V = DownloadView;

    open spec fn view(&self) -> DownloadView {
        DownloadView {
            item_id: self.item_id@,
            current: self.current@,
            remaining: attachment_views(self.remaining@),
            collected: self.collected@,
        }
    }
}

/// What the client waits for.
pub enum VaultStage {
    /// The login, before the task.
    LoggingIn { task: VaultTask },
    /// The first synchronisation of a session, before the task.
    FirstSync { task: VaultTask },
    /// The synchronisation that is the task.
    Syncing,
    /// The identifier of the collection of the item.
    FindingCollection { wanted: Wanted, item: String },
    /// The identifier of the item.
    FindingItem { wanted: Wanted },
    /// The fields of the item, as a JSON text.
    ReadingFields,
    /// The fields of the item.
    ParsingFields,
    /// The list of attachments of the item, as a JSON text.
    ReadingAttachments { item_id: String },
    /// The list of attachments of the item.
    ParsingAttachments { item_id: String },
    /// A temporary file for an attachment.
    CreatingFile { download: Download },
    /// An attachment in its temporary file.
    Downloading { download: Download },
    /// The contents of the temporary file.
    ReadingFile { download: Download },
}

pub enum StageView {
    LoggingIn { task: TaskView },
    FirstSync { task: TaskView },
    Syncing,
    FindingCollection { wanted: Wanted, item: Seq<char> },
    FindingItem { wanted: Wanted },
    ReadingFields,
    ParsingFields,
    ReadingAttachments { item_id: Seq<char> },
    ParsingAttachments { item_id: Seq<char> },
    CreatingFile { download: DownloadView },
    Downloading { download: DownloadView },
    ReadingFile { download: DownloadView },
}

impl View for VaultStage {
    type V = StageView;

    open spec fn view(&self) -> StageView {
        match self {
            VaultStage::LoggingIn { task } => StageView::LoggingIn { task: task@ },
            VaultStage::FirstSync { task } => StageView::FirstSync { task: task@ },
            VaultStage::Syncing => StageView::Syncing,
            VaultStage::FindingCollection { wanted, item } => StageView::FindingCollection {
                wanted: *wanted,
                item: item@,
            },
            VaultStage::FindingItem { wanted } => StageView::FindingItem { wanted: *wanted },
            VaultStage::ReadingFields => StageView::ReadingFields,
            VaultStage::ParsingFields => StageView::ParsingFields,
            VaultStage::ReadingAttachments { item_id } => StageView::ReadingAttachments {
                item_id: item_id@,
            },
            VaultStage::ParsingAttachments { item_id } => StageView::ParsingAttachments {
                item_id: item_id@,
            },
            VaultStage::CreatingFile { download } => StageView::CreatingFile {
                download: download@,
            },
            VaultStage::Downloading { download } => StageView::Downloading { download: download@ },
            VaultStage::ReadingFile { download } => StageView::ReadingFile { download: download@ },
        }
    }
}

/// What the client asks its caller to do.
pub enum VaultRequest {
    /// Run a command.
    Run(ShellCommand),
    /// Read a JSON text as a list of fields.
    ParseFields(String),
    /// Read a JSON text as a list of attachments.
    ParseAttachments(String),
    /// Create a temporary file.
    CreateFile,
    /// Read the temporary file, which is not needed any more after that.
    ReadFile,
}

pub enum RequestView {
    Run(CommandView),
    ParseFields(Seq<char>),
    ParseAttachments(Seq<char>),
    CreateFile,
    ReadFile,
}

impl View for VaultRequest {
    type V = RequestView;

    open spec fn view(&self) -> RequestView {
        match self {
            VaultRequest::Run(command) => RequestView::Run(command@),
            VaultRequest::ParseFields(text) => RequestView::ParseFields(text@),
            VaultRequest::ParseAttachments(text) => RequestView::ParseAttachments(text@),
            VaultRequest::CreateFile => RequestView::CreateFile,
            VaultRequest::ReadFile => RequestView::ReadFile,
        }
    }
}

/// What came of a request; a failure comes with its message.
pub enum VaultReply {
    Ran(CommandReport),
    Fields(Result<Vec<ItemField>, String>),
    Attachments(Result<Vec<Attachment>, String>),
    /// The path of the temporary file.
    File(Result<String, String>),
    Contents(Result<Vec<u8>, String>),
}

pub enum ReplyView {
    Ran(ReportView),
    Fields(Result<Seq<FieldView>, Seq<char>>),
    Attachments(Result<Seq<AttachmentView>, Seq<char>>),
    File(Result<Seq<char>, Seq<char>>),
    Contents(Result<Seq<u8>, Seq<char>>),
}

impl View for VaultReply {
    type V = ReplyView;

    open spec fn view(&self) -> ReplyView {
        match self {
            VaultReply::Ran(report) => ReplyView::Ran(report@),
            VaultReply::Fields(Ok(fields)) => ReplyView::Fields(Ok(field_views(fields@))),
            VaultReply::Fields(Err(message)) => ReplyView::Fields(Err(message@)),
            VaultReply::Attachments(Ok(attachments)) => ReplyView::Attachments(
                Ok(attachment_views(attachments@)),
            ),
            VaultReply::Attachments(Err(message)) => ReplyView::Attachments(Err(message@)),
            VaultReply::File(Ok(path)) => ReplyView::File(Ok(path@)),
            VaultReply::File(Err(message)) => ReplyView::File(Err(message@)),
            VaultReply::Contents(Ok(bytes)) => ReplyView::Contents(Ok(bytes@)),
            VaultReply::Contents(Err(message)) => ReplyView::Contents(Err(message@)),
        }
    }
}

/// What a task gives in the end.
pub enum VaultOutcome {
    Synced,
    Fields(TextMap<String>),
    Attachments(TextMap<Vec<u8>>),
}

pub enum OutcomeView {
    Synced,
    Fields(Map<Seq<char>, Seq<char>>),
    Attachments(Map<Seq<char>, Seq<u8>>),
}

impl View for VaultOutcome {
    type V = OutcomeView;

    open spec fn view(&self) -> OutcomeView {
        match self {
            VaultOutcome::Synced => OutcomeView::Synced,
            VaultOutcome::Fields(fields) => OutcomeView::Fields(fields@),
            VaultOutcome::Attachments(attachments) => OutcomeView::Attachments(attachments@),
        }
    }
}

/// How a task goes on.
pub enum VaultProgress {
    /// With a request; its reply is handed to `resume` together with the stage.
    Perform(VaultRequest, VaultStage),
    /// Not at all: the task has ended.
    Finished(Result<VaultOutcome, WardenCommandError>),
}

pub enum ProgressView {
    Perform(RequestView, StageView),
    Finished(Result<OutcomeView, CommandErrorView>),
}

impl View for VaultProgress {
    type V = ProgressView;

    open spec fn view(&self) -> ProgressView {
        match self {
            VaultProgress::Perform(request, stage) => ProgressView::Perform(request@, stage@),
            VaultProgress::Finished(Ok(outcome)) => ProgressView::Finished(Ok(outcome@)),
            VaultProgress::Finished(Err(error)) => ProgressView::Finished(Err(error@)),
        }
    }
}

/// A task that can be carried out: an item to fetch has a proper name.
pub open spec fn is_feasible(task: TaskView) -> bool {
    match task {
        TaskView::Sync => true,
        TaskView::Fetch { wanted, item } => is_item_name(item),
    }
}

/// A stage that a client can be in: it has a session unless it is still
/// logging in, and an item whose collection is looked for has a proper name.
pub open spec fn is_possible(client: ClientView, stage: StageView) -> bool {
    match stage {
        StageView::LoggingIn { .. } => true,
        StageView::FindingCollection { wanted, item } => client.session_token is Some
            && is_item_name(item),
        _ => client.session_token is Some,
    }
}

/// Whether a task cannot go on for want of a proper name: its session is open
/// and synchronised, and the item is to be looked for next.
pub open spec fn is_stuck(stage: StageView, reply: ReplyView) -> bool {
    match (stage, reply) {
        (StageView::FirstSync { task }, ReplyView::Ran(report)) => outcome(report) is Ok
            && !is_feasible(task),
        _ => false,
    }
}

/// A reply of the kind that the stage waits for.
pub open spec fn is_awaited(stage: StageView, reply: ReplyView) -> bool {
    match stage {
        StageView::ParsingFields => reply is Fields,
        StageView::ParsingAttachments { .. } => reply is Attachments,
        StageView::CreatingFile { .. } => reply is File,
        StageView::ReadingFile { .. } => reply is Contents,
        _ => reply is Ran,
    }
}

/// A reply of the kind that answers the request.
pub open spec fn is_answer(request: RequestView, reply: ReplyView) -> bool {
    match request {
        RequestView::Run(_) => reply is Ran,
        RequestView::ParseFields(_) => reply is Fields,
        RequestView::ParseAttachments(_) => reply is Attachments,
        RequestView::CreateFile => reply is File,
        RequestView::ReadFile => reply is Contents,
    }
}

/// The task goes on with a command that needs the session.
pub open spec fn run(client: ClientView, text: Seq<char>, stage: StageView) -> ProgressView {
    ProgressView::Perform(RequestView::Run(client.session_command(text)), stage)
}

/// The task has failed.
pub open spec fn fail(error: CommandErrorView) -> ProgressView {
    ProgressView::Finished(Err(error))
}

/// The first step of a task of a client that has a session.
pub open spec fn begun(client: ClientView, task: TaskView) -> ProgressView {
    match task {
        TaskView::Sync => run(client, sync_text(client.bw_path), StageView::Syncing),
        TaskView::Fetch { wanted, item } => {
            let (collection, name) = item_parts(item);
            if collection.len() > 0 {
                run(
                    client,
                    find_collection_text(client.bw_path, client.organization, collection),
                    StageView::FindingCollection { wanted, item },
                )
            } else {
                run(
                    client,
                    find_item_text(client.bw_path, name, None),
                    StageView::FindingItem { wanted },
                )
            }
        },
    }
}

/// The first step of a task: a client without a session logs in before it.
pub open spec fn started(client: ClientView, task: TaskView) -> ProgressView {
    if client.session_token is None {
        ProgressView::Perform(
            RequestView::Run(client.login_command()),
            StageView::LoggingIn { task },
        )
    } else {
        begun(client, task)
    }
}

/// What a failed login is reported as.
pub open spec fn login_error(error: CommandErrorView) -> CommandErrorView {
    if error.text() == "Email address is invalid."@ || error.text()
        == "Username or password is incorrect. Try again"@ {
        CommandErrorView::InvalidCredentials(error.text())
    } else {
        CommandErrorView::Other(error.text())
    }
}

/// The values of the fields of an item under their names; of two fields with
/// one name the later counts.
pub open spec fn field_pairs(fields: Seq<FieldView>) -> Seq<(Seq<char>, Seq<char>)> {
    fields.map_values(|field: FieldView| (field.name, field.value))
}

/// The task goes on with the first of the remaining attachments, or ends if there is none.
pub open spec fn next_download(
    item_id: Seq<char>,
    remaining: Seq<AttachmentView>,
    collected: Map<Seq<char>, Seq<u8>>,
) -> ProgressView {
    if remaining.len() == 0 {
        ProgressView::Finished(Ok(OutcomeView::Attachments(collected)))
    } else {
        ProgressView::Perform(
            RequestView::CreateFile,
            StageView::CreatingFile {
                download: DownloadView {
                    item_id,
                    current: remaining[0],
                    remaining: remaining.skip(1),
                    collected,
                },
            },
        )
    }
}

/// The step after a command that the client waited for.
pub open spec fn after_command(
    client: ClientView,
    stage: StageView,
    result: Result<Seq<char>, CommandErrorView>,
) -> ProgressView {
    match result {
        Err(error) => fail(
            if stage is LoggingIn {
                login_error(error)
            } else {
                error
            },
        ),
        Ok(text) => match stage {
            StageView::LoggingIn { task } => run(
                client.with_session(text),
                sync_text(client.bw_path),
                StageView::FirstSync { task },
            ),
            StageView::FirstSync { task } => begun(client, task),
            StageView::Syncing => ProgressView::Finished(Ok(OutcomeView::Synced)),
            StageView::FindingCollection { wanted, item } => run(
                client,
                find_item_text(client.bw_path, item_parts(item).1, Some(text)),
                StageView::FindingItem { wanted },
            ),
            StageView::FindingItem { wanted: Wanted::Fields } => run(
                client,
                item_fields_text(client.bw_path, text),
                StageView::ReadingFields,
            ),
            StageView::FindingItem { wanted: Wanted::Attachments } => run(
                client,
                item_attachments_text(client.bw_path, text),
                StageView::ReadingAttachments { item_id: text },
            ),
            StageView::ReadingFields => ProgressView::Perform(
                RequestView::ParseFields(text),
                StageView::ParsingFields,
            ),
            StageView::ReadingAttachments { item_id } => ProgressView::Perform(
                RequestView::ParseAttachments(text),
                StageView::ParsingAttachments { item_id },
            ),
            StageView::Downloading { download } => ProgressView::Perform(
                RequestView::ReadFile,
                StageView::ReadingFile { download },
            ),
            _ => arbitrary(),
        },
    }
}

/// The step that follows a reply.
pub open spec fn resumed(client: ClientView, stage: StageView, reply: ReplyView) -> ProgressView {
    match (stage, reply) {
        (_, ReplyView::Ran(report)) => after_command(client, stage, outcome(report)),
        (_, ReplyView::Fields(Err(message))) => fail(CommandErrorView::IO(message)),
        (_, ReplyView::Attachments(Err(message))) => fail(CommandErrorView::IO(message)),
        (_, ReplyView::File(Err(message))) => fail(CommandErrorView::IO(message)),
        (_, ReplyView::Contents(Err(message))) => fail(CommandErrorView::IO(message)),
        (_, ReplyView::Fields(Ok(fields))) => ProgressView::Finished(
            Ok(OutcomeView::Fields(pairs_map(field_pairs(fields)))),
        ),
        (
            StageView::ParsingAttachments { item_id },
            ReplyView::Attachments(Ok(attachments)),
        ) => next_download(item_id, attachments, Map::empty()),
        (StageView::CreatingFile { download }, ReplyView::File(Ok(path))) => run(
            client,
            attachment_text(client.bw_path, download.current.id, download.item_id, path),
            StageView::Downloading { download },
        ),
        (StageView::ReadingFile { download }, ReplyView::Contents(Ok(bytes))) => next_download(
            download.item_id,
            download.remaining,
            download.collected.insert(download.current.file_name, bytes),
        ),
        _ => arbitrary(),
    }
}

/// The client after a reply: a successful login gives it a session.
pub open spec fn client_after(
    client: ClientView,
    stage: StageView,
    reply: ReplyView,
) -> ClientView {
    match (stage, reply) {
        (StageView::LoggingIn { .. }, ReplyView::Ran(report)) => match outcome(report) {
            Ok(token) => client.with_session(token),
            Err(_) => client,
        },
        _ => client,
    }
}

/// What a failed login is reported as.
fn classify_login_error(error: WardenCommandError) -> (r: WardenCommandError)
    ensures
        r@ == login_error(error@),
{
    let text: String = error.to_text();
    if same_text(text.as_str(), "Email address is invalid.") || same_text(
        text.as_str(),
        "Username or password is incorrect. Try again",
    ) {
        WardenCommandError::InvalidCredentials(text)
    } else {
        WardenCommandError::Other(text)
    }
}

/// The values of the fields of an item under their names.
fn collect_fields(fields: Vec<ItemField>) -> (map: TextMap<String>)
    ensures
        map@ == pairs_map(field_pairs(field_views(fields@))),
{
    let ghost pairs = field_pairs(field_views(fields@));
    let mut map: TextMap<String> = TextMap::new();
    let mut rest: Vec<ItemField> = fields;
    let ghost mut done: int = 0;
    proof {
        assert(pairs.take(0) =~= Seq::empty());
        assert(pairs.skip(0) =~= pairs);
    }
    while rest.len() > 0
        invariant
            0 <= done <= pairs.len(),
            field_pairs(field_views(rest@)) == pairs.skip(done),
            map@ == pairs_map(pairs.take(done)),
        decreases rest@.len(),
    {
        let ghost before = rest@;
        let field: ItemField = rest.remove(0);
        proof {
            assert(field_pairs(field_views(before)).len() == before.len());
            assert(pairs.skip(done)[0] == pairs[done]);
            assert(field_pairs(field_views(before))[0] == pairs[done]);
            assert(pairs.take(done + 1).drop_last() =~= pairs.take(done));
            assert(field_pairs(field_views(rest@)) =~= field_pairs(field_views(before)).skip(1));
            assert(pairs.skip(done).skip(1) =~= pairs.skip(done + 1));
            done = done + 1;
        }
        map.insert(field.name, field.value);
    }
    proof {
        assert(field_pairs(field_views(rest@)).len() == 0);
        assert(pairs.take(done) =~= pairs);
    }
    map
}

/// Goes on with the first of the remaining attachments, or ends if there is none.
fn download_next(
    item_id: String,
    remaining: Vec<Attachment>,
    collected: TextMap<Vec<u8>>,
) -> (progress: VaultProgress)
    ensures
        progress@ == next_download(item_id@, attachment_views(remaining@), collected@),
{
    let ghost before = remaining@;
    let mut remaining: Vec<Attachment> = remaining;
    if remaining.len() == 0 {
        return VaultProgress::Finished(Ok(VaultOutcome::Attachments(collected)));
    }
    let current: Attachment = remaining.remove(0);
    assert(attachment_views(remaining@) =~= attachment_views(before).skip(1));
    VaultProgress::Perform(
        VaultRequest::CreateFile,
        VaultStage::CreatingFile { download: Download { item_id, current, remaining, collected } },
    )
}

/// Whether a reply is of the kind that the stage waits for.
fn fits(stage: &VaultStage, reply: &VaultReply) -> (r: bool)
    ensures
        r == is_awaited(stage@, reply@),
{
    match (stage, reply) {
        (VaultStage::ParsingFields, VaultReply::Fields(_)) => true,
        (VaultStage::ParsingFields, _) => false,
        (VaultStage::ParsingAttachments { .. }, VaultReply::Attachments(_)) => true,
        (VaultStage::ParsingAttachments { .. }, _) => false,
        (VaultStage::CreatingFile { .. }, VaultReply::File(_)) => true,
        (VaultStage::CreatingFile { .. }, _) => false,
        (VaultStage::ReadingFile { .. }, VaultReply::Contents(_)) => true,
        (VaultStage::ReadingFile { .. }, _) => false,
        (_, VaultReply::Ran(_)) => true,
        _ => false,
    }
}

/// Whether a task cannot go on for want of a proper name of its item.
fn lacks_item_name(stage: &VaultStage, reply: &VaultReply) -> (r: bool)
    ensures
        r == is_stuck(stage@, reply@),
{
    match (stage, reply) {
        (
            VaultStage::FirstSync { task: VaultTask::Fetch { wanted: _, item } },
            VaultReply::Ran(report),
        ) => !names_vault_item(item.as_str()) && succeeded(report),
        _ => false,
    }
}

impl WardenClientWrapper {
    /// Starts to fetch the fields of a vault item.
    pub fn fetch_item_fields(&self, item: String) -> (progress: VaultProgress)
        requires
            self@.session_token is Some ==> is_item_name(item@),
        ensures
            progress@ == started(
                self@,
                TaskView::Fetch { wanted: Wanted::Fields, item: item@ },
            ),
    {
        self.start(VaultTask::Fetch { wanted: Wanted::Fields, item })
    }

    /// Starts to fetch the attachments of a vault item.
    pub fn fetch_item_attachments(&self, item: String) -> (progress: VaultProgress)
        requires
            self@.session_token is Some ==> is_item_name(item@),
        ensures
            progress@ == started(
                self@,
                TaskView::Fetch { wanted: Wanted::Attachments, item: item@ },
            ),
    {
        self.start(VaultTask::Fetch { wanted: Wanted::Attachments, item })
    }

    /// Starts to fetch the current state of the vault.
    pub fn sync(&self) -> (progress: VaultProgress)
        ensures
            progress@ == started(self@, TaskView::Sync),
    {
        self.start(VaultTask::Sync)
    }

    /// What follows a periodic synchronisation: after a failed one the session
    /// is given up, with the command that closes it.
    pub fn after_periodic_sync(&mut self, failed: bool) -> (logout: Option<ShellCommand>)
        ensures
            final(self)@ == if failed {
                old(self)@.without_session()
            } else {
                old(self)@
            },
            logout is Some <==> failed,
            logout matches Some(command) ==> command@ == old(self)@.logout_command(),
    {
        if failed {
            Some(self.reset())
        } else {
            None
        }
    }

    /// Starts a task, with the login if there is no session.
    fn start(&self, task: VaultTask) -> (progress: VaultProgress)
        requires
            self@.session_token is Some ==> is_feasible(task@),
        ensures
            progress@ == started(self@, task@),
    {
        if !self.has_session() {
            VaultProgress::Perform(VaultRequest::Run(self.login()), VaultStage::LoggingIn { task })
        } else {
            self.begin(task)
        }
    }

    /// Starts a task in a session.
    fn begin(&self, task: VaultTask) -> (progress: VaultProgress)
        requires
            self@.session_token is Some,
            is_feasible(task@),
        ensures
            progress@ == begun(self@, task@),
    {
        match task {
            VaultTask::Sync => VaultProgress::Perform(
                VaultRequest::Run(self.sync_command()),
                VaultStage::Syncing,
            ),
            VaultTask::Fetch { wanted, item } => {
                let (collection, name) = split_item(item.as_str());
                if !collection.as_str().is_empty() {
                    VaultProgress::Perform(
                        VaultRequest::Run(self.find_collection_id(collection.as_str())),
                        VaultStage::FindingCollection { wanted, item },
                    )
                } else {
                    VaultProgress::Perform(
                        VaultRequest::Run(self.find_item_id(name.as_str(), None)),
                        VaultStage::FindingItem { wanted },
                    )
                }
            },
        }
    }

    /// Whether a task can go on from the stage with the reply.
    pub fn can_resume(&self, stage: &VaultStage, reply: &VaultReply) -> (r: bool)
        ensures
            r == (is_possible(self@, stage@) && is_awaited(stage@, reply@) && !is_stuck(
                stage@,
                reply@,
            )),
    {
        let possible: bool = match stage {
            VaultStage::LoggingIn { .. } => true,
            VaultStage::FindingCollection { wanted: _, item } => self.has_session()
                && names_vault_item(item.as_str()),
            _ => self.has_session(),
        };
        possible && fits(stage, reply) && !lacks_item_name(stage, reply)
    }

    /// Goes on with a task after the reply to its last request.
    pub fn resume(&mut self, stage: VaultStage, reply: VaultReply) -> (progress: VaultProgress)
        requires
            is_possible(old(self)@, stage@),
            is_awaited(stage@, reply@),
            !is_stuck(stage@, reply@),
        ensures
            progress@ == resumed(old(self)@, stage@, reply@),
            final(self)@ == client_after(old(self)@, stage@, reply@),
    {
        match reply {
            VaultReply::Ran(report) => match command_outcome(report) {
                Ok(text) => self.resume_after(stage, text),
                Err(error) => {
                    let error: WardenCommandError = match stage {
                        VaultStage::LoggingIn { .. } => classify_login_error(error),
                        _ => error,
                    };
                    VaultProgress::Finished(Err(error))
                },
            },
            VaultReply::Fields(Err(message)) => VaultProgress::Finished(
                Err(WardenCommandError::IO(message)),
            ),
            VaultReply::Attachments(Err(message)) => VaultProgress::Finished(
                Err(WardenCommandError::IO(message)),
            ),
            VaultReply::File(Err(message)) => VaultProgress::Finished(
                Err(WardenCommandError::IO(message)),
            ),
            VaultReply::Contents(Err(message)) => VaultProgress::Finished(
                Err(WardenCommandError::IO(message)),
            ),
            VaultReply::Fields(Ok(fields)) => VaultProgress::Finished(
                Ok(VaultOutcome::Fields(collect_fields(fields))),
            ),
            VaultReply::Attachments(Ok(attachments)) => match stage {
                VaultStage::ParsingAttachments { item_id } => download_next(
                    item_id,
                    attachments,
                    TextMap::new(),
                ),
                _ => unreached(),
            },
            VaultReply::File(Ok(path)) => match stage {
                VaultStage::CreatingFile { download } => {
                    let command: ShellCommand = self.get_attachment(
                        download.current.id.as_str(),
                        download.item_id.as_str(),
                        path.as_str(),
                    );
                    VaultProgress::Perform(
                        VaultRequest::Run(command),
                        VaultStage::Downloading { download },
                    )
                },
                _ => unreached(),
            },
            VaultReply::Contents(Ok(bytes)) => match stage {
                VaultStage::ReadingFile { download } => {
                    let Download { item_id, current, remaining, collected } = download;
                    let mut collected: TextMap<Vec<u8>> = collected;
                    collected.insert(current.file_name, bytes);
                    download_next(item_id, remaining, collected)
                },
                _ => unreached(),
            },
        }
    }

    /// Goes on with a task after a successful command that printed `text`.
    fn resume_after(&mut self, stage: VaultStage, text: String) -> (progress: VaultProgress)
        requires
            is_possible(old(self)@, stage@),
            stage@ matches StageView::FirstSync { task } ==> is_feasible(task),
            !(stage is ParsingFields),
            !(stage is ParsingAttachments),
            !(stage is CreatingFile),
            !(stage is ReadingFile),
        ensures
            progress@ == after_command(old(self)@, stage@, Ok(text@)),
            final(self)@ == if stage is LoggingIn {
                old(self)@.with_session(text@)
            } else {
                old(self)@
            },
    {
        match stage {
            VaultStage::LoggingIn { task } => {
                self.open_session(text.as_str());
                VaultProgress::Perform(
                    VaultRequest::Run(self.sync_command()),
                    VaultStage::FirstSync { task },
                )
            },
            VaultStage::FirstSync { task } => self.begin(task),
            VaultStage::Syncing => VaultProgress::Finished(Ok(VaultOutcome::Synced)),
            VaultStage::FindingCollection { wanted, item } => {
                let (_, name) = split_item(item.as_str());
                VaultProgress::Perform(
                    VaultRequest::Run(self.find_item_id(name.as_str(), Some(text.as_str()))),
                    VaultStage::FindingItem { wanted },
                )
            },
            VaultStage::FindingItem { wanted } => match wanted {
                Wanted::Fields => VaultProgress::Perform(
                    VaultRequest::Run(self.get_item_fields(text.as_str())),
                    VaultStage::ReadingFields,
                ),
                Wanted::Attachments => VaultProgress::Perform(
                    VaultRequest::Run(self.get_item_attachments(text.as_str())),
                    VaultStage::ReadingAttachments { item_id: text },
                ),
            },
            VaultStage::ReadingFields => VaultProgress::Perform(
                VaultRequest::ParseFields(text),
                VaultStage::ParsingFields,
            ),
            VaultStage::ReadingAttachments { item_id } => VaultProgress::Perform(
                VaultRequest::ParseAttachments(text),
                VaultStage::ParsingAttachments { item_id },
            ),
            VaultStage::Downloading { download } => VaultProgress::Perform(
                VaultRequest::ReadFile,
                VaultStage::ReadingFile { download },
            ),
            _ => unreached(),
        }
    }
}

} // verus!

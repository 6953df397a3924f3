use config::Config;
use warden_secret_operator::bw::{
    command_outcome, names_vault_item, succeeded, Attachment, CommandReport, ItemField, ShellCommand,
    VaultOutcome, VaultProgress, VaultReply, VaultRequest, VaultStage, WardenClientWrapper,
    WardenCommandError,
};

fn configured(settings: &[(&str, &str)]) -> Config {
    let mut builder = Config::builder();
    for (key, value) in settings {
        builder = builder.set_override(key, *value).unwrap();
    }
    builder.build().unwrap()
}

fn client() -> WardenClientWrapper {
    WardenClientWrapper::new(&configured(&[("user", "me@example.com"), ("pass", "hunter2 å")]))
}

fn printed(text: &str) -> VaultReply {
    VaultReply::Ran(CommandReport::Exited {
        success: true,
        stdout: text.as_bytes().to_vec(),
        stderr: vec![],
    })
}

fn complained(text: &str) -> VaultReply {
    VaultReply::Ran(CommandReport::Exited {
        success: false,
        stdout: vec![],
        stderr: text.as_bytes().to_vec(),
    })
}

fn asked(progress: VaultProgress) -> (VaultRequest, VaultStage) {
    match progress {
        VaultProgress::Perform(request, stage) => (request, stage),
        VaultProgress::Finished(_) => panic!("finished"),
    }
}

fn run(progress: VaultProgress) -> (ShellCommand, VaultStage) {
    match asked(progress) {
        (VaultRequest::Run(command), stage) => (command, stage),
        _ => panic!("another request"),
    }
}

fn finished(progress: VaultProgress) -> Result<VaultOutcome, WardenCommandError> {
    match progress {
        VaultProgress::Finished(result) => result,
        VaultProgress::Perform(_, _) => panic!("not finished"),
    }
}

fn failure(progress: VaultProgress) -> WardenCommandError {
    match finished(progress) {
        Err(error) => error,
        Ok(_) => panic!("no failure"),
    }
}

fn env_of(command: ShellCommand) -> Vec<(String, String)> {
    let mut entries = command.env.into_entries();
    entries.sort();
    entries
}

fn session_env() -> Vec<(String, String)> {
    vec![("BW_SESSION".to_owned(), "t0ken".to_owned())]
}

/// A client with the session `t0ken`.
fn logged_in() -> WardenClientWrapper {
    logged_in_with(&[])
}

fn logged_in_with(settings: &[(&str, &str)]) -> WardenClientWrapper {
    let mut all = vec![("user", "me"), ("pass", "pw")];
    all.extend_from_slice(settings);
    let mut client = WardenClientWrapper::new(&configured(&all));
    let (_, stage) = run(client.sync());
    let (_, stage) = run(client.resume(stage, printed("t0ken\n")));
    let (_, stage) = run(client.resume(stage, printed("")));
    assert!(finished(client.resume(stage, printed(""))).is_ok());
    assert!(client.has_session());
    client
}

#[test]
fn client_needs_credentials() {
    assert!(WardenClientWrapper::from_config(&configured(&[])).is_none());
    assert!(WardenClientWrapper::from_config(&configured(&[("user", "u")])).is_none());
    assert!(WardenClientWrapper::from_config(&configured(&[("pass", "p")])).is_none());
    let client = WardenClientWrapper::from_config(&configured(&[("user", "u"), ("pass", "p")]));
    assert!(!client.unwrap().has_session());
}

#[test]
fn server_is_configured_first() {
    let command = client().configure_server();
    assert_eq!(command.text, "/usr/bin/bw config server https://vault.bitwarden.com");
    assert!(env_of(command).is_empty());
    let config = configured(&[
        ("user", "u"),
        ("pass", "p"),
        ("bw_path", "/opt/bw"),
        ("url", "https://vault.example.com"),
    ]);
    let command = WardenClientWrapper::new(&config).configure_server();
    assert_eq!(command.text, "/opt/bw config server https://vault.example.com");
}

#[test]
fn login_keeps_the_credentials_in_the_environment() {
    let (command, _) = run(client().sync());
    assert_eq!(command.text, "/usr/bin/bw login $BW_USER $BW_PASS --raw");
    assert_eq!(
        env_of(command),
        vec![
            ("BW_PASS".to_owned(), "hunter2 å".to_owned()),
            ("BW_USER".to_owned(), "me@example.com".to_owned()),
        ]
    );
}

#[test]
fn login_opens_a_session() {
    let mut client = client();
    let (_, stage) = run(client.sync());
    assert!(!client.has_session());
    let (command, stage) = run(client.resume(stage, printed("t0ken\r\n")));
    assert!(client.has_session());
    assert_eq!(command.text, "/usr/bin/bw sync");
    assert_eq!(env_of(command), session_env());
    let (command, stage) = run(client.resume(stage, printed("Syncing complete.\n")));
    assert_eq!(command.text, "/usr/bin/bw sync");
    assert!(matches!(
        finished(client.resume(stage, printed("Syncing complete.\n"))),
        Ok(VaultOutcome::Synced)
    ));
}

#[test]
fn failed_login_is_another_error() {
    let mut client = client();
    let (_, stage) = run(client.sync());
    let error = failure(client.resume(stage, complained("Username or password is incorrect. Try again\n")));
    assert_eq!(
        error,
        WardenCommandError::Other(
            "Bitwarden CLI error Username or password is incorrect. Try again".to_owned()
        )
    );
    assert_eq!(
        error.to_text(),
        "Other error: Bitwarden CLI error Username or password is incorrect. Try again"
    );
    assert!(!client.has_session());
    let (_, stage) = run(client.sync());
    let error = failure(client.resume(stage, complained("Email address is invalid.")));
    assert_eq!(
        error,
        WardenCommandError::Other("Bitwarden CLI error Email address is invalid.".to_owned())
    );
}

#[test]
fn failed_first_sync_keeps_the_session() {
    let mut client = client();
    let (_, stage) = run(client.fetch_item_fields("/x".to_owned()));
    let (_, stage) = run(client.resume(stage, printed("t0ken")));
    let error = failure(client.resume(stage, complained("offline")));
    assert_eq!(error, WardenCommandError::WardenCommandError("offline".to_owned()));
    assert!(client.has_session());
}

#[test]
fn reset_gives_up_the_session() {
    let mut client = logged_in();
    let command = client.reset();
    assert_eq!(command.text, "/usr/bin/bw logout");
    assert!(env_of(command).is_empty());
    assert!(!client.has_session());
    let (command, _) = run(client.sync());
    assert_eq!(command.text, "/usr/bin/bw login $BW_USER $BW_PASS --raw");
}

#[test]
fn only_a_failed_periodic_sync_gives_up_the_session() {
    let mut client = logged_in();
    assert!(client.after_periodic_sync(false).is_none());
    assert!(client.has_session());
    assert_eq!(client.after_periodic_sync(true).unwrap().text, "/usr/bin/bw logout");
    assert!(!client.has_session());
}

#[test]
fn session_is_used_while_it_lasts() {
    let (command, stage) = run(logged_in().sync());
    assert_eq!(command.text, "/usr/bin/bw sync");
    assert_eq!(env_of(command), session_env());
    assert!(matches!(stage, VaultStage::Syncing));
}

#[test]
fn item_in_a_collection() {
    let mut client = logged_in();
    let (command, stage) = run(client.fetch_item_fields("col/sec".to_owned()));
    assert_eq!(
        command.text,
        "/usr/bin/bw list collections --search \"col\" | jq -r -c '.[] | select( .name == \"col\") | .id'"
    );
    assert_eq!(env_of(command), session_env());
    let (command, _) = run(client.resume(stage, printed("c-1\n")));
    assert_eq!(
        command.text,
        "/usr/bin/bw list items --search 'sec' --collectionid 'c-1' \
         | jq -r -c '.[] | select( .name == \"sec\") | .id'"
    );
    assert_eq!(env_of(command), session_env());
}

#[test]
fn item_in_a_collection_of_an_organization() {
    let client = logged_in_with(&[("organization", "org-1")]);
    let (command, _) = run(client.fetch_item_attachments("col/sec".to_owned()));
    assert_eq!(
        command.text,
        "/usr/bin/bw list org-collections --organizationid 'org-1' --search \"col\"  \
         | jq -r -c '.[] | select( .name == \"col\") | .id'"
    );
}

#[test]
fn item_in_no_collection() {
    let (command, _) = run(logged_in().fetch_item_fields("/sec".to_owned()));
    assert_eq!(
        command.text,
        "/usr/bin/bw list items --search 'sec' | jq -r -c '.[] | select( .name == \"sec\") | .id'"
    );
}

#[test]
fn names_of_vault_items_have_a_slash() {
    assert!(names_vault_item("col/sec"));
    assert!(names_vault_item("/sec"));
    assert!(names_vault_item("a/b/c"));
    assert!(!names_vault_item("sec"));
    assert!(!names_vault_item(""));
}

fn field(name: &str, value: &str) -> ItemField {
    ItemField { name: name.to_owned(), value: value.to_owned(), type_: 0 }
}

#[test]
fn fields_are_fetched() {
    let mut client = logged_in();
    let (_, stage) = run(client.fetch_item_fields("/sec".to_owned()));
    let (command, stage) = run(client.resume(stage, printed("i-1\n")));
    assert_eq!(command.text, "/usr/bin/bw get item 'i-1' | jq '[select(.fields != null) | .fields[]]'");
    assert_eq!(env_of(command), session_env());
    let (request, stage) = asked(client.resume(stage, printed("[1]\n")));
    assert!(matches!(request, VaultRequest::ParseFields(text) if text == "[1]"));
    let fields = vec![field("user", "me"), field("pw", "old"), field("pw", "new")];
    let outcome = finished(client.resume(stage, VaultReply::Fields(Ok(fields))));
    match outcome {
        Ok(VaultOutcome::Fields(fields)) => {
            let mut entries = fields.into_entries();
            entries.sort();
            assert_eq!(
                entries,
                vec![
                    ("pw".to_owned(), "new".to_owned()),
                    ("user".to_owned(), "me".to_owned()),
                ]
            );
        }
        _ => panic!("no fields"),
    }
}

#[test]
fn fields_that_cannot_be_read() {
    let mut client = logged_in();
    let (_, stage) = run(client.fetch_item_fields("/sec".to_owned()));
    let (_, stage) = run(client.resume(stage, printed("i-1")));
    let (_, stage) = asked(client.resume(stage, printed("nonsense")));
    let reply = VaultReply::Fields(Err("expected value at line 1 column 1".to_owned()));
    assert_eq!(
        failure(client.resume(stage, reply)),
        WardenCommandError::IO("expected value at line 1 column 1".to_owned())
    );
}

fn attachment(name: &str, id: &str) -> Attachment {
    Attachment { file_name: name.to_owned(), id: id.to_owned() }
}

#[test]
fn attachments_are_fetched() {
    let mut client = logged_in();
    let (_, stage) = run(client.fetch_item_attachments("/sec".to_owned()));
    let (command, stage) = run(client.resume(stage, printed("i-1\n")));
    assert_eq!(
        command.text,
        "/usr/bin/bw get item 'i-1' | jq '[select(.attachments != null) | .attachments[] \
         | {fileName: .fileName, id: .id}]'"
    );
    let (request, mut stage) = asked(client.resume(stage, printed("[]\n")));
    assert!(matches!(request, VaultRequest::ParseAttachments(text) if text == "[]"));
    let list = vec![attachment("a.pem", "1"), attachment("b.pem", "2"), attachment("a.pem", "3")];
    let mut progress = client.resume(stage, VaultReply::Attachments(Ok(list)));
    for (id, contents) in [("1", "one"), ("2", "two"), ("3", "three")] {
        let (request, next) = asked(progress);
        assert!(matches!(request, VaultRequest::CreateFile));
        let path = format!("/tmp/{id}");
        let (command, next) = run(client.resume(next, VaultReply::File(Ok(path.clone()))));
        assert_eq!(
            command.text,
            format!("/usr/bin/bw get attachment '{id}' --itemid 'i-1' --output {path} --quiet")
        );
        assert_eq!(env_of(command), session_env());
        let (request, next) = asked(client.resume(next, printed("")));
        assert!(matches!(request, VaultRequest::ReadFile));
        stage = next;
        progress = client.resume(stage, VaultReply::Contents(Ok(contents.as_bytes().to_vec())));
    }
    match finished(progress) {
        Ok(VaultOutcome::Attachments(attachments)) => {
            let mut entries = attachments.into_entries();
            entries.sort();
            assert_eq!(
                entries,
                vec![
                    ("a.pem".to_owned(), b"three".to_vec()),
                    ("b.pem".to_owned(), b"two".to_vec()),
                ]
            );
        }
        _ => panic!("no attachments"),
    }
}

#[test]
fn item_without_attachments() {
    let mut client = logged_in();
    let (_, stage) = run(client.fetch_item_attachments("/sec".to_owned()));
    let (_, stage) = run(client.resume(stage, printed("i-1")));
    let (_, stage) = asked(client.resume(stage, printed("[]")));
    match finished(client.resume(stage, VaultReply::Attachments(Ok(vec![])))) {
        Ok(VaultOutcome::Attachments(attachments)) => {
            assert!(attachments.into_entries().is_empty());
        }
        _ => panic!("no attachments"),
    }
}

/// The stage at which a temporary file has been asked for.
fn creating_file(client: &mut WardenClientWrapper) -> VaultStage {
    let (_, stage) = run(client.fetch_item_attachments("/sec".to_owned()));
    let (_, stage) = run(client.resume(stage, printed("i-1")));
    let (_, stage) = asked(client.resume(stage, printed("[]")));
    asked(client.resume(stage, VaultReply::Attachments(Ok(vec![attachment("a", "1")])))).1
}

#[test]
fn attachments_fail_with_their_requests() {
    let mut client = logged_in();
    let io = |text: &str| WardenCommandError::IO(text.to_owned());
    let stage = creating_file(&mut client);
    assert_eq!(
        failure(client.resume(stage, VaultReply::File(Err("disk full".to_owned())))),
        io("disk full")
    );
    let stage = creating_file(&mut client);
    let (_, stage) = run(client.resume(stage, VaultReply::File(Ok("/tmp/x".to_owned()))));
    let (_, stage) = asked(client.resume(stage, printed("")));
    assert_eq!(
        failure(client.resume(stage, VaultReply::Contents(Err("gone".to_owned())))),
        io("gone")
    );
    let stage = creating_file(&mut client);
    let (_, stage) = run(client.resume(stage, VaultReply::File(Ok("/tmp/x".to_owned()))));
    assert_eq!(
        failure(client.resume(stage, complained("Attachment not found.\n"))),
        WardenCommandError::WardenCommandError("Attachment not found.".to_owned())
    );
    let (_, stage) = run(client.fetch_item_attachments("/sec".to_owned()));
    let (_, stage) = run(client.resume(stage, printed("i-1")));
    let (_, stage) = asked(client.resume(stage, printed("?")));
    assert_eq!(
        failure(client.resume(stage, VaultReply::Attachments(Err("bad".to_owned())))),
        io("bad")
    );
}

#[test]
fn outcome_of_a_command() {
    let exited = |success: bool, stdout: &[u8], stderr: &[u8]| {
        command_outcome(CommandReport::Exited {
            success,
            stdout: stdout.to_vec(),
            stderr: stderr.to_vec(),
        })
    };
    assert_eq!(exited(true, b"out\n", b"warning\n"), Ok("out".to_owned()));
    assert_eq!(
        exited(false, b"out\n", b"Not found.\r\n"),
        Err(WardenCommandError::WardenCommandError("Not found.".to_owned()))
    );
    assert_eq!(
        command_outcome(CommandReport::NotRun("No such file or directory".to_owned())),
        Err(WardenCommandError::IO("No such file or directory".to_owned()))
    );
}

#[test]
fn output_that_is_not_text_is_an_error() {
    let message = |bytes: &[u8]| String::from_utf8(bytes.to_vec()).unwrap_err().to_string();
    let report = CommandReport::Exited {
        success: true,
        stdout: b"a\xff".to_vec(),
        stderr: b"\xc3".to_vec(),
    };
    assert_eq!(command_outcome(report), Err(WardenCommandError::IO(message(b"a\xff"))));
    let report =
        CommandReport::Exited { success: true, stdout: b"a".to_vec(), stderr: b"\xc3".to_vec() };
    assert_eq!(command_outcome(report), Err(WardenCommandError::IO(message(b"\xc3"))));
    assert_eq!(message(b"\xc3"), "incomplete utf-8 byte sequence from index 0");
}

#[test]
fn messages_of_vault_errors() {
    let text = || "m".to_owned();
    assert_eq!(WardenCommandError::WardenCommandError(text()).to_text(), "Bitwarden CLI error m");
    assert_eq!(WardenCommandError::SessionExpired(text()).to_text(), "Session expired: m");
    assert_eq!(WardenCommandError::Locked(text()).to_text(), "Locked: m");
    assert_eq!(WardenCommandError::InvalidCredentials(text()).to_text(), "InvalidCredentials: m");
    assert_eq!(WardenCommandError::IO(text()).to_text(), "IO error: m");
    assert_eq!(WardenCommandError::Other(text()).to_text(), "Other error: m");
}

#[test]
fn texts_of_commands_hold_no_secret() {
    let other = [("user", "someone"), ("pass", "else")];
    let mut a = client();
    let mut b = WardenClientWrapper::new(&configured(&other));
    let (command_a, stage_a) = run(a.fetch_item_fields("col/sec".to_owned()));
    let (command_b, stage_b) = run(b.fetch_item_fields("col/sec".to_owned()));
    assert_eq!(command_a.text, command_b.text);
    let (command_a, stage_a) = run(a.resume(stage_a, printed("first token")));
    let (command_b, stage_b) = run(b.resume(stage_b, printed("second token")));
    assert_eq!(command_a.text, command_b.text);
    assert_ne!(env_of(command_a), env_of(command_b));
    let (command_a, _) = run(a.resume(stage_a, printed("")));
    let (command_b, _) = run(b.resume(stage_b, printed("")));
    assert_eq!(command_a.text, command_b.text);
    assert_eq!(a.reset().text, b.reset().text);
    assert_eq!(a.configure_server().text, b.configure_server().text);
}

#[test]
fn fetch_without_a_session_logs_in_first() {
    let mut client = client();
    let (command, stage) = run(client.fetch_item_attachments("/sec".to_owned()));
    assert!(command.text.contains(" login "));
    let (command, stage) = run(client.resume(stage, printed("t0ken\n")));
    assert_eq!(command.text, "/usr/bin/bw sync");
    let (command, stage) = run(client.resume(stage, printed("")));
    assert_eq!(
        command.text,
        "/usr/bin/bw list items --search 'sec' | jq -r -c '.[] | select( .name == \"sec\") | .id'"
    );
    assert_eq!(env_of(command), session_env());
    let (command, _) = run(client.resume(stage, printed("i-1")));
    assert!(command.text.contains(".attachments[]"));
}

#[test]
fn commands_that_cannot_be_run_fail_the_task() {
    let mut client = logged_in();
    let (_, stage) = run(client.sync());
    let report = CommandReport::NotRun("No such file or directory".to_owned());
    assert_eq!(
        failure(client.resume(stage, VaultReply::Ran(report))),
        WardenCommandError::IO("No such file or directory".to_owned())
    );
}

#[test]
fn item_without_a_slash_fails_with_the_login() {
    let mut client = client();
    let (_, stage) = run(client.fetch_item_fields("nameless".to_owned()));
    assert!(client.can_resume(&stage, &printed("t0ken")));
    let error = failure(client.resume(stage, complained("offline")));
    assert_eq!(error, WardenCommandError::Other("Bitwarden CLI error offline".to_owned()));
    let (_, stage) = run(client.fetch_item_fields("nameless".to_owned()));
    let (_, stage) = run(client.resume(stage, printed("t0ken")));
    assert!(!client.can_resume(&stage, &printed("")));
    assert!(client.can_resume(&stage, &complained("offline")));
    assert_eq!(
        failure(client.resume(stage, complained("offline"))),
        WardenCommandError::WardenCommandError("offline".to_owned())
    );
}

#[test]
fn success_of_a_command() {
    let report = |success: bool, stdout: &[u8], stderr: &[u8]| CommandReport::Exited {
        success,
        stdout: stdout.to_vec(),
        stderr: stderr.to_vec(),
    };
    assert!(succeeded(&report(true, b"out", b"warning")));
    assert!(!succeeded(&report(false, b"out", b"")));
    assert!(!succeeded(&report(true, b"\xff", b"")));
    assert!(!succeeded(&report(true, b"", b"\xff")));
    assert!(!succeeded(&CommandReport::NotRun("no shell".to_owned())));
}

#[test]
fn stages_need_their_session_and_reply() {
    let mut client = logged_in();
    let (_, stage) = run(client.fetch_item_fields("col/sec".to_owned()));
    assert!(client.can_resume(&stage, &printed("c-1")));
    assert!(!client.can_resume(&stage, &VaultReply::Fields(Ok(vec![]))));
    assert!(!client.can_resume(&stage, &VaultReply::File(Ok("/tmp/x".to_owned()))));
    client.reset();
    assert!(!client.can_resume(&stage, &printed("c-1")));
    let mut client = logged_in();
    let stage = creating_file(&mut client);
    assert!(client.can_resume(&stage, &VaultReply::File(Err("full".to_owned()))));
    assert!(!client.can_resume(&stage, &printed("")));
}

#[test]
fn every_command_runs_the_configured_executable() {
    let mut client = logged_in_with(&[("bw_path", "/opt/bw")]);
    let (command, _) = run(client.sync());
    assert_eq!(command.text, "/opt/bw sync");
    let (command, stage) = run(client.fetch_item_attachments("col/sec".to_owned()));
    assert!(command.text.starts_with("/opt/bw list collections "));
    let (command, stage) = run(client.resume(stage, printed("c-1")));
    assert!(command.text.starts_with("/opt/bw list items "));
    let (command, stage) = run(client.resume(stage, printed("i-1")));
    assert!(command.text.starts_with("/opt/bw get item 'i-1' "));
    let (_, stage) = asked(client.resume(stage, printed("[]")));
    let list = VaultReply::Attachments(Ok(vec![attachment("a", "1")]));
    let (_, stage) = asked(client.resume(stage, list));
    let (command, _) = run(client.resume(stage, VaultReply::File(Ok("/tmp/x".to_owned()))));
    assert_eq!(
        command.text,
        "/opt/bw get attachment '1' --itemid 'i-1' --output /tmp/x --quiet"
    );
    assert_eq!(client.configure_server().text, "/opt/bw config server https://vault.bitwarden.com");
    assert_eq!(client.reset().text, "/opt/bw logout");
    let (command, _) = run(client.sync());
    assert_eq!(command.text, "/opt/bw login $BW_USER $BW_PASS --raw");
}

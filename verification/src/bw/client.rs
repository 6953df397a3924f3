//! What the client of the vault knows, and the commands that it runs.

use config::Config;
use secstr::SecStr;
use vstd::prelude::*;
use vstd::slice::slice_to_vec;
use vstd::utf8::{decode_utf8, encode_utf8_decode_utf8, encode_utf8_valid_utf8, valid_utf8};
use super::command::{CommandView, ShellCommand};
use super::sealed::{seal, secret_bytes, unseal};
use crate::settings::{text_or, text_setting, text_setting_or, text_settings};
use crate::text::{
    join_texts, joined, law_joined, lemma_segments_concat, lemma_segments_join,
    lemma_segments_nonempty, lemma_segments_single,
    optional, same_text, segments, split_text, text_from_utf8, views,
};
use crate::text_map::TextMap;

verus! {

/// A client of the vault.
pub struct WardenClientWrapper {
    bw_path: String,
    url: String,
    user: SecStr,
    password: SecStr,
    organization: Option<String>,
    session_token: Option<SecStr>,
}

/// What a client knows.
pub struct ClientView {
    pub bw_path: Seq<char>,
    pub url: Seq<char>,
    pub user: Seq<char>,
    pub password: Seq<char>,
    pub organization: Option<Seq<char>>,
    pub session_token: Option<Seq<char>>,
}

/// The text that a secret holds.
pub open spec fn secret_text(secret: SecStr) -> Seq<char> {
    decode_utf8(secret_bytes(secret))
}

impl View for WardenClientWrapper {
    type V = ClientView;

    closed spec fn view(&self) -> ClientView {
        ClientView {
            bw_path: self.bw_path@,
            url: self.url@,
            user: secret_text(self.user),
            password: secret_text(self.password),
            organization: optional(self.organization),
            session_token: match self.session_token {
                Some(token) => Some(secret_text(token)),
                None => None,
            },
        }
    }
}

/// The client that a configuration describes, before it has a session.
pub open spec fn configured_client(config: Config) -> ClientView {
    ClientView {
        bw_path: text_or(config, "bw_path"@, "/usr/bin/bw"@),
        url: text_or(config, "url"@, "https://vault.bitwarden.com"@),
        user: text_settings(config)["user"@],
        password: text_settings(config)["pass"@],
        organization: if text_settings(config).contains_key("organization"@) {
            Some(text_settings(config)["organization"@])
        } else {
            None
        },
        session_token: None,
    }
}

/// A command without additions to its environment.
pub open spec fn plain_command(text: Seq<char>) -> CommandView {
    CommandView { text, env: Map::empty() }
}

/// The arguments of the Bitwarden command line, after its path.
pub open spec fn bw_text(bw_path: Seq<char>, args: Seq<Seq<char>>) -> Seq<char> {
    bw_path + " "@ + joined(args, " "@)
}

/// The command that fetches the current state of the vault.
pub open spec fn sync_text(bw_path: Seq<char>) -> Seq<char> {
    bw_path + " sync"@
}

/// The command that finds the identifier of a collection.
pub open spec fn find_collection_text(
    bw_path: Seq<char>,
    organization: Option<Seq<char>>,
    collection: Seq<char>,
) -> Seq<char> {
    match organization {
        Some(organization) => bw_path + " list org-collections --organizationid '"@ + organization
            + "' --search \""@ + collection
            + "\"  | jq -r -c '.[] | select( .name == \""@ + collection + "\") | .id'"@,
        None => bw_path + " list collections --search \""@ + collection
            + "\" | jq -r -c '.[] | select( .name == \""@ + collection + "\") | .id'"@,
    }
}

/// The command that finds the identifier of an item, in a collection if one is given.
pub open spec fn find_item_text(
    bw_path: Seq<char>,
    name: Seq<char>,
    collection_id: Option<Seq<char>>,
) -> Seq<char> {
    match collection_id {
        Some(collection_id) => bw_path + " list items --search '"@ + name + "' --collectionid '"@
            + collection_id + "' | jq -r -c '.[] | select( .name == \""@ + name + "\") | .id'"@,
        None => bw_path + " list items --search '"@ + name
            + "' | jq -r -c '.[] | select( .name == \""@ + name + "\") | .id'"@,
    }
}

/// The command that prints the fields of an item.
pub open spec fn item_fields_text(bw_path: Seq<char>, item_id: Seq<char>) -> Seq<char> {
    bw_path + " get item '"@ + item_id + "' | jq '[select(.fields != null) | .fields[]]'"@
}

/// The command that prints the names and identifiers of the attachments of an item.
pub open spec fn item_attachments_text(bw_path: Seq<char>, item_id: Seq<char>) -> Seq<char> {
    bw_path + " get item '"@ + item_id
        + "' | jq '[select(.attachments != null) | .attachments[] | {fileName: .fileName, id: .id}]'"@
}

/// The command that writes an attachment to a file.
pub open spec fn attachment_text(
    bw_path: Seq<char>,
    attachment_id: Seq<char>,
    item_id: Seq<char>,
    path: Seq<char>,
) -> Seq<char> {
    bw_path + " get attachment '"@ + attachment_id + "' --itemid '"@ + item_id + "' --output "@
        + path + " --quiet"@
}

impl ClientView {
    /// The environment of a command that needs the session.
    pub open spec fn session_env(self) -> Map<Seq<char>, Seq<char>> {
        Map::<Seq<char>, Seq<char>>::empty().insert("BW_SESSION"@, self.session_token->0)
    }

    /// A command that needs the session.
    pub open spec fn session_command(self, text: Seq<char>) -> CommandView {
        CommandView { text, env: self.session_env() }
    }

    /// The command that selects the server of the vault.
    pub open spec fn configure_command(self) -> CommandView {
        plain_command(bw_text(self.bw_path, seq!["config"@, "server"@, self.url]))
    }

    /// The command that opens a session and prints its token. The credentials
    /// are in its environment, not in its text.
    pub open spec fn login_command(self) -> CommandView {
        CommandView {
            text: bw_text(self.bw_path, seq!["login"@, "$BW_USER"@, "$BW_PASS"@, "--raw"@]),
            env: Map::<Seq<char>, Seq<char>>::empty().insert("BW_USER"@, self.user).insert(
                "BW_PASS"@,
                self.password,
            ),
        }
    }

    /// The command that closes the session.
    pub open spec fn logout_command(self) -> CommandView {
        plain_command(bw_text(self.bw_path, seq!["logout"@]))
    }

    /// The command that fetches the current state of the vault.
    pub open spec fn sync_command(self) -> CommandView {
        self.session_command(sync_text(self.bw_path))
    }

    /// The client without a session.
    pub open spec fn without_session(self) -> ClientView {
        ClientView { session_token: None, ..self }
    }

    /// The client with a session.
    pub open spec fn with_session(self, token: Seq<char>) -> ClientView {
        ClientView { session_token: Some(token), ..self }
    }
}

/// The parts of the name of a vault item, `[collection]/secret`: the
/// collection, which may be empty, and the secret.
pub open spec fn item_parts(item: Seq<char>) -> (Seq<char>, Seq<char>) {
    (segments(item, '/')[0], segments(item, '/')[1])
}

/// A text that can name a vault item: it has a slash.
pub open spec fn is_item_name(item: Seq<char>) -> bool {
    segments(item, '/').len() >= 2
}

/// Whether a text can name a vault item, that is, whether it has a slash.
pub fn names_vault_item(item: &str) -> (r: bool)
    ensures
        r == is_item_name(item@),
{
    let parts: Vec<String> = split_text(item, '/');
    assert(views(parts@).len() == parts@.len());
    parts.len() >= 2
}

/// The parts of the name of a vault item.
pub(super) fn split_item(item: &str) -> (parts: (String, String))
    requires
        is_item_name(item@),
    ensures
        (parts.0@, parts.1@) == item_parts(item@),
{
    let mut parts: Vec<String> = split_text(item, '/');
    assert(views(parts@).len() == parts@.len());
    let ghost before = parts@;
    assert(views(before)[0] == before[0]@ && views(before)[1] == before[1]@);
    let collection: String = parts.remove(0);
    let name: String = parts.remove(0);
    (collection, name)
}

/// The arguments of the Bitwarden command line as a list of texts.
fn three(a: &str, b: &str, c: &str) -> (texts: Vec<String>)
    ensures
        views(texts@) == seq![a@, b@, c@],
{
    let mut texts: Vec<String> = Vec::new();
    texts.push(a.to_owned());
    texts.push(b.to_owned());
    texts.push(c.to_owned());
    assert(views(texts@) =~= seq![a@, b@, c@]);
    texts
}

impl WardenClientWrapper {
    #[verifier::type_invariant]
    spec fn secrets_are_text(self) -> bool {
        &&& valid_utf8(secret_bytes(self.user))
        &&& valid_utf8(secret_bytes(self.password))
        &&& self.session_token matches Some(token) ==> valid_utf8(secret_bytes(token))
    }

    /// The client that a configuration describes, which has to name the user
    /// and the password. Its first command is that of `configure_server`.
    pub fn new(config: &Config) -> (client: Self)
        requires
            text_settings(*config).contains_key("user"@),
            text_settings(*config).contains_key("pass"@),
        ensures
            client@ == configured_client(*config),
    {
        proof {
            reveal_strlit("bw_path");
            reveal_strlit("url");
            reveal_strlit("user");
            reveal_strlit("pass");
            reveal_strlit("organization");
        }
        let user: String = text_setting(config, "user").unwrap();
        let pass: String = text_setting(config, "pass").unwrap();
        proof {
            encode_utf8_valid_utf8(user@);
            encode_utf8_valid_utf8(pass@);
            encode_utf8_decode_utf8(user@);
            encode_utf8_decode_utf8(pass@);
        }
        WardenClientWrapper {
            bw_path: text_setting_or(config, "bw_path", "/usr/bin/bw"),
            url: text_setting_or(config, "url", "https://vault.bitwarden.com"),
            user: seal(user.as_str()),
            password: seal(pass.as_str()),
            organization: text_setting(config, "organization"),
            session_token: None,
        }
    }

    /// The client that a configuration describes, or nothing if the user or
    /// the password is not configured.
    pub fn from_config(config: &Config) -> (client: Option<Self>)
        ensures
            client is Some <==> text_settings(*config).contains_key("user"@) && text_settings(
                *config,
            ).contains_key("pass"@),
            client matches Some(client) ==> client@ == configured_client(*config),
    {
        proof {
            reveal_strlit("user");
            reveal_strlit("pass");
        }
        if text_setting(config, "user").is_some() && text_setting(config, "pass").is_some() {
            Some(Self::new(config))
        } else {
            None
        }
    }

    /// Whether the client has a session.
    pub fn has_session(&self) -> (r: bool)
        ensures
            r == (self@.session_token is Some),
    {
        self.session_token.is_some()
    }

    /// Gives the client a session.
    pub(super) fn open_session(&mut self, token: &str)
        ensures
            final(self)@ == old(self)@.with_session(token@),
    {
        proof {
            use_type_invariant(&*self);
            encode_utf8_valid_utf8(token@);
            encode_utf8_decode_utf8(token@);
        }
        self.session_token = Some(seal(token));
    }

    /// Forgets the session and gives the command that closes it, whose result
    /// does not matter.
    pub fn reset(&mut self) -> (logout: ShellCommand)
        ensures
            final(self)@ == old(self)@.without_session(),
            logout@ == old(self)@.logout_command(),
    {
        let mut args: Vec<String> = Vec::new();
        args.push("logout".to_owned());
        proof {
            use_type_invariant(&*self);
            assert(views(args@) =~= seq!["logout"@]);
        }
        let logout: ShellCommand = self.bw_command(args);
        self.session_token = None;
        logout
    }

    /// The command that selects the server of the vault.
    pub fn configure_server(&self) -> (command: ShellCommand)
        ensures
            command@ == self@.configure_command(),
    {
        let args: Vec<String> = three("config", "server", self.url.as_str());
        self.bw_command_with_env(args, TextMap::new())
    }

    /// A command of the Bitwarden command line. Logging in and out needs no
    /// session, all else does.
    fn bw_command(&self, args: Vec<String>) -> (command: ShellCommand)
        requires
            args@.len() > 0,
            args@[0]@ == "login"@ || args@[0]@ == "logout"@ || self@.session_token is Some,
        ensures
            command@ == (CommandView {
                text: bw_text(self@.bw_path, views(args@)),
                env: if args@[0]@ == "login"@ || args@[0]@ == "logout"@ {
                    Map::empty()
                } else {
                    self@.session_env()
                },
            }),
    {
        if same_text(args[0].as_str(), "login") || same_text(args[0].as_str(), "logout") {
            return self.bw_command_with_env(args, TextMap::new());
        }
        let env: TextMap<String> = self.create_session_env();
        self.bw_command_with_env(args, env)
    }

    /// A command of the Bitwarden command line with the given environment.
    fn bw_command_with_env(&self, args: Vec<String>, env: TextMap<String>) -> (command:
        ShellCommand)
        ensures
            command@ == (CommandView { text: bw_text(self@.bw_path, views(args@)), env: env@ }),
    {
        let text: String = self.bw_path.clone().concat(" ").concat(
            join_texts(&args, " ").as_str(),
        );
        ShellCommand { text, env }
    }

    /// The environment of a command that needs the session.
    fn create_session_env(&self) -> (env: TextMap<String>)
        requires
            self@.session_token is Some,
        ensures
            env@ == self@.session_env(),
    {
        proof {
            use_type_invariant(self);
        }
        let mut env: TextMap<String> = TextMap::new();
        match &self.session_token {
            Some(token) => {
                env.insert("BW_SESSION".to_owned(), secret_string(token));
            },
            None => {},
        }
        env
    }

    /// A command that needs the session.
    fn session_command(&self, text: String) -> (command: ShellCommand)
        requires
            self@.session_token is Some,
        ensures
            command@ == self@.session_command(text@),
    {
        ShellCommand { text, env: self.create_session_env() }
    }

    /// The command that opens a session and prints its token.
    pub(super) fn login(&self) -> (command: ShellCommand)
        ensures
            command@ == self@.login_command(),
    {
        proof {
            use_type_invariant(self);
        }
        let mut env: TextMap<String> = TextMap::new();
        env.insert("BW_USER".to_owned(), secret_string(&self.user));
        env.insert("BW_PASS".to_owned(), secret_string(&self.password));
        let mut args: Vec<String> = three("login", "$BW_USER", "$BW_PASS");
        let ghost before = views(args@);
        args.push("--raw".to_owned());
        proof {
            assert(views(args@) =~= before.push("--raw"@));
            assert(views(args@) =~= seq!["login"@, "$BW_USER"@, "$BW_PASS"@, "--raw"@]);
        }
        self.bw_command_with_env(args, env)
    }

    /// The command that fetches the current state of the vault.
    pub(super) fn sync_command(&self) -> (command: ShellCommand)
        requires
            self@.session_token is Some,
        ensures
            command@ == self@.sync_command(),
    {
        self.session_command(self.bw_path.clone().concat(" sync"))
    }

    /// The command that finds the identifier of a collection.
    pub(super) fn find_collection_id(&self, collection: &str) -> (command: ShellCommand)
        requires
            self@.session_token is Some,
        ensures
            command@ == self@.session_command(
                find_collection_text(self@.bw_path, self@.organization, collection@),
            ),
    {
        let text: String = match &self.organization {
            Some(organization) => self.bw_path.clone().concat(
                " list org-collections --organizationid '",
            ).concat(
                organization.as_str(),
            ).concat("' --search \"").concat(collection).concat(
                "\"  | jq -r -c '.[] | select( .name == \"",
            ).concat(collection).concat("\") | .id'"),
            None => self.bw_path.clone().concat(" list collections --search \"").concat(collection).concat(
                "\" | jq -r -c '.[] | select( .name == \"",
            ).concat(collection).concat("\") | .id'"),
        };
        self.session_command(text)
    }

    /// The command that finds the identifier of an item, in a collection if one is given.
    pub(super) fn find_item_id(&self, name: &str, collection_id: Option<&str>) -> (command:
        ShellCommand)
        requires
            self@.session_token is Some,
        ensures
            command@ == self@.session_command(
                find_item_text(
                    self@.bw_path,
                    name@,
                    match collection_id {
                        Some(collection_id) => Some(collection_id@),
                        None => None,
                    },
                ),
            ),
    {
        let text: String = match collection_id {
            Some(collection_id) => self.bw_path.clone().concat(" list items --search '").concat(name).concat(
                "' --collectionid '",
            ).concat(collection_id).concat("' | jq -r -c '.[] | select( .name == \"").concat(
                name,
            ).concat("\") | .id'"),
            None => self.bw_path.clone().concat(" list items --search '").concat(name).concat(
                "' | jq -r -c '.[] | select( .name == \"",
            ).concat(name).concat("\") | .id'"),
        };
        self.session_command(text)
    }

    /// The command that prints the fields of an item.
    pub(super) fn get_item_fields(&self, item_id: &str) -> (command: ShellCommand)
        requires
            self@.session_token is Some,
        ensures
            command@ == self@.session_command(item_fields_text(self@.bw_path, item_id@)),
    {
        self.session_command(
            self.bw_path.clone().concat(" get item '").concat(item_id).concat(
                "' | jq '[select(.fields != null) | .fields[]]'",
            ),
        )
    }

    /// The command that prints the names and identifiers of the attachments of an item.
    pub(super) fn get_item_attachments(&self, item_id: &str) -> (command: ShellCommand)
        requires
            self@.session_token is Some,
        ensures
            command@ == self@.session_command(item_attachments_text(self@.bw_path, item_id@)),
    {
        self.session_command(
            self.bw_path.clone().concat(" get item '").concat(item_id).concat(
                "' | jq '[select(.attachments != null) | .attachments[] | {fileName: .fileName, id: .id}]'",
            ),
        )
    }

    /// The command that writes an attachment to a file.
    pub(super) fn get_attachment(&self, attachment_id: &str, item_id: &str, path: &str) -> (command:
        ShellCommand)
        requires
            self@.session_token is Some,
        ensures
            command@ == self@.session_command(
                attachment_text(self@.bw_path, attachment_id@, item_id@, path@),
            ),
    {
        self.session_command(
            self.bw_path.clone().concat(" get attachment '").concat(attachment_id).concat("' --itemid '").concat(
                item_id,
            ).concat("' --output ").concat(path).concat(" --quiet"),
        )
    }
}

/// The text that a secret holds.
fn secret_string(secret: &SecStr) -> (text: String)
    requires
        valid_utf8(secret_bytes(*secret)),
    ensures
        text@ == secret_text(*secret),
{
    match text_from_utf8(slice_to_vec(unseal(secret))) {
        Ok(text) => text,
        Err(message) => message,
    }
}

/// The name `collection/secret` names the secret in the collection, and
/// `/secret` names it in no collection.
pub proof fn law_item_parts(collection: Seq<char>, secret: Seq<char>)
    requires
        !collection.contains('/'),
        !secret.contains('/'),
    ensures
        is_item_name(collection.push('/') + secret),
        item_parts(collection.push('/') + secret) == (collection, secret),
        item_parts(seq!['/'] + secret) == (Seq::<char>::empty(), secret),
{
    lemma_segments_single(collection, '/');
    lemma_segments_join(collection, secret, '/');
    let none = Seq::<char>::empty();
    lemma_segments_single(none, '/');
    lemma_segments_join(none, secret, '/');
    assert(none.push('/') =~= seq!['/']);
}

/// A text can name a vault item exactly if it has a slash.
pub proof fn law_item_name_has_slash(item: Seq<char>)
    ensures
        is_item_name(item) <==> item.contains('/'),
    decreases item.len(),
{
    if item.contains('/') {
        let i = item.index_of('/');
        lemma_segments_count(item, i);
    } else {
        lemma_segments_single(item, '/');
    }
}

/// A slash anywhere in a text makes for at least two pieces.
proof fn lemma_segments_count(text: Seq<char>, i: int)
    requires
        0 <= i < text.len(),
        text[i] == '/',
    ensures
        segments(text, '/').len() >= 2,
    decreases text.len(),
{
    lemma_segments_nonempty(text.drop_last(), '/');
    if i < text.len() - 1 {
        assert(text.drop_last()[i] == '/');
        lemma_segments_count(text.drop_last(), i);
    }
}

/// No command names a secret: clients that differ in their credentials and in
/// their session only run commands with the same text.
pub proof fn law_commands_keep_secrets_out(a: ClientView, b: ClientView)
    requires
        a.bw_path == b.bw_path,
        a.url == b.url,
    ensures
        a.login_command().text == b.login_command().text,
        a.logout_command() == b.logout_command(),
        a.configure_command() == b.configure_command(),
        forall|text: Seq<char>| #[trigger]
            a.session_command(text).text == b.session_command(text).text,
{
}

/// A client has what is configured: the path of the command line and the
/// server, each with its default, the credentials, the organization if there
/// is one, and no session.
pub proof fn law_configured_client(config: Config)
    ensures
        text_settings(config).contains_key("bw_path"@) ==> configured_client(config).bw_path
            == text_settings(config)["bw_path"@],
        !text_settings(config).contains_key("bw_path"@) ==> configured_client(config).bw_path
            == "/usr/bin/bw"@,
        text_settings(config).contains_key("url"@) ==> configured_client(config).url
            == text_settings(config)["url"@],
        !text_settings(config).contains_key("url"@) ==> configured_client(config).url
            == "https://vault.bitwarden.com"@,
        configured_client(config).user == text_settings(config)["user"@],
        configured_client(config).password == text_settings(config)["pass"@],
        text_settings(config).contains_key("organization"@) ==> configured_client(
            config,
        ).organization == Some(text_settings(config)["organization"@]),
        !text_settings(config).contains_key("organization"@) ==> configured_client(
            config,
        ).organization is None,
        configured_client(config).session_token is None,
{
}

/// The commands around a task: selecting the server, logging in, with the
/// credentials in the environment and nothing else there, and logging out.
pub proof fn law_commands_around_tasks(client: ClientView)
    ensures
        client.configure_command().text == client.bw_path + " config server "@ + client.url,
        client.configure_command().env.dom() == Set::<Seq<char>>::empty(),
        client.login_command().text == client.bw_path + " login $BW_USER $BW_PASS --raw"@,
        client.login_command().env.dom() == set!["BW_USER"@, "BW_PASS"@],
        client.login_command().env["BW_USER"@] == client.user,
        client.login_command().env["BW_PASS"@] == client.password,
        client.logout_command().text == client.bw_path + " logout"@,
        client.logout_command().env.dom() == Set::<Seq<char>>::empty(),
{
    let space = " "@;
    reveal_strlit(" ");
    reveal_strlit("config");
    reveal_strlit("server");
    reveal_strlit(" config server ");
    reveal_strlit("login");
    reveal_strlit("$BW_USER");
    reveal_strlit("$BW_PASS");
    reveal_strlit("--raw");
    reveal_strlit(" login $BW_USER $BW_PASS --raw");
    reveal_strlit("logout");
    reveal_strlit(" logout");
    reveal_strlit("BW_USER");
    reveal_strlit("BW_PASS");
    assert("BW_USER"@[3] != "BW_PASS"@[3]);
    let two = seq!["config"@, "server"@];
    law_joined(seq!["config"@], "server"@, space);
    law_joined(two, client.url, space);
    law_joined(Seq::empty(), "config"@, space);
    assert(seq!["config"@].push("server"@) =~= two);
    assert(two.push(client.url) =~= seq!["config"@, "server"@, client.url]);
    assert(client.configure_command().text =~= client.bw_path + " config server "@ + client.url);
    let user = seq!["login"@, "$BW_USER"@];
    let pass = seq!["login"@, "$BW_USER"@, "$BW_PASS"@];
    law_joined(Seq::empty(), "login"@, space);
    law_joined(seq!["login"@], "$BW_USER"@, space);
    law_joined(user, "$BW_PASS"@, space);
    law_joined(pass, "--raw"@, space);
    assert(seq!["login"@].push("$BW_USER"@) =~= user);
    assert(user.push("$BW_PASS"@) =~= pass);
    assert(pass.push("--raw"@) =~= seq!["login"@, "$BW_USER"@, "$BW_PASS"@, "--raw"@]);
    assert(client.login_command().text =~= client.bw_path + " login $BW_USER $BW_PASS --raw"@);
    assert(client.login_command().env.dom() =~= set!["BW_USER"@, "BW_PASS"@]);
    law_joined(Seq::empty(), "logout"@, space);
    assert(client.logout_command().text =~= client.bw_path + " logout"@);
}

/// A session is its token, which every command in it has in its environment,
/// and nothing else there; opening and closing a session changes nothing else.
pub proof fn law_session(client: ClientView, token: Seq<char>, text: Seq<char>)
    ensures
        client.with_session(token).session_command(text).text == text,
        client.with_session(token).session_command(text).env.dom() == set!["BW_SESSION"@],
        client.with_session(token).session_command(text).env["BW_SESSION"@] == token,
        client.with_session(token).session_token == Some(token),
        client.without_session().session_token is None,
        client.with_session(token).bw_path == client.bw_path,
        client.with_session(token).url == client.url,
        client.with_session(token).user == client.user,
        client.with_session(token).password == client.password,
        client.with_session(token).organization == client.organization,
        client.with_session(token).without_session() == client.without_session(),
        client.without_session().with_session(token) == client.with_session(token),
{
    assert(client.with_session(token).session_command(text).env.dom() =~= set!["BW_SESSION"@]);
}

/// The name of an item is what stands before its first slash, the collection,
/// and what stands between that and the next slash, if there is one.
pub proof fn law_item_parts_with_rest(
    collection: Seq<char>,
    secret: Seq<char>,
    rest: Seq<char>,
)
    requires
        !collection.contains('/'),
        !secret.contains('/'),
        rest.len() == 0 || rest[0] == '/',
    ensures
        is_item_name(collection.push('/') + secret + rest),
        item_parts(collection.push('/') + secret + rest) == (collection, secret),
{
    let named = collection.push('/') + secret;
    law_item_parts(collection, secret);
    lemma_segments_single(collection, '/');
    lemma_segments_join(collection, secret, '/');
    if rest.len() == 0 {
        assert(named + rest =~= named);
    } else {
        let more = rest.skip(1);
        assert(named + rest =~= named.push('/') + more);
        lemma_segments_concat(named, more, '/');
    }
}

} // verus!

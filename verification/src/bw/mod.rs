//! The client of the vault, which works through the Bitwarden command line.

mod client;
mod command;
mod error;
pub mod laws;
mod sealed;
pub mod session;

pub use self::client::{
    attachment_text, bw_text, configured_client, find_collection_text, find_item_text,
    is_item_name, item_attachments_text, item_fields_text, item_parts,
    law_commands_around_tasks, law_commands_keep_secrets_out, law_configured_client,
    law_item_name_has_slash, law_item_parts, law_item_parts_with_rest, law_session,
    names_vault_item, plain_command, secret_text, sync_text, ClientView, WardenClientWrapper,
};
pub use self::command::{
    command_outcome, is_line_of, law_broken_commands, law_command, law_line_is_unique,
    law_output_is_kept, law_result, outcome, outcome_view, succeeded, CommandReport, CommandView,
    ReportView, ShellCommand,
};
pub use self::error::{law_error, law_error_messages, CommandErrorView, WardenCommandError};
pub use self::sealed::secret_bytes;
pub use self::session::{
    Attachment, ItemField, VaultOutcome, VaultProgress, VaultReply, VaultRequest, VaultStage,
};

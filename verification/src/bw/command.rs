//! Shell commands and what running them gives.

use vstd::prelude::*;
use vstd::utf8::{
    decode_utf8, encode_utf8, encode_utf8_decode_utf8, encode_utf8_valid_utf8, valid_utf8,
};
use super::error::{CommandErrorView, WardenCommandError};
use crate::text::{text_from_utf8, trim_newline, trimmed, utf8_error_text};
use crate::text_map::TextMap;

verus! {

/// A command line for the shell and the variables to add to its environment.
pub struct ShellCommand {
    pub text: String,
    pub env: TextMap<String>,
}

/// What a command is.
pub struct CommandView {
    pub text: Seq<char>,
    pub env: Map<Seq<char>, Seq<char>>,
}

impl View for ShellCommand {
    type V = CommandView;

    open spec fn view(&self) -> CommandView {
        CommandView { text: self.text@, env: self.env@ }
    }
}

/// What came of running a command.
pub enum CommandReport {
    /// The command ended.
    Exited { success: bool, stdout: Vec<u8>, stderr: Vec<u8> },
    /// The command could not be run, for the given reason.
    NotRun(String),
}

/// What a report says.
pub enum ReportView {
    Exited { success: bool, stdout: Seq<u8>, stderr: Seq<u8> },
    NotRun(Seq<char>),
}

impl View for CommandReport {
    type V = ReportView;

    open spec fn view(&self) -> ReportView {
        match self {
            CommandReport::Exited { success, stdout, stderr } => ReportView::Exited {
                success: *success,
                stdout: stdout@,
                stderr: stderr@,
            },
            CommandReport::NotRun(reason) => ReportView::NotRun(reason@),
        }
    }
}

/// The result of a command: what it printed, or what it complained of, each
/// without the line break at its end. Output that is not text is an error,
/// whether or not the command succeeded.
pub open spec fn outcome(report: ReportView) -> Result<Seq<char>, CommandErrorView> {
    match report {
        ReportView::NotRun(reason) => Err(CommandErrorView::IO(reason)),
        ReportView::Exited { success, stdout, stderr } => {
            if !valid_utf8(stdout) {
                Err(CommandErrorView::IO(utf8_error_text(stdout)))
            } else if !valid_utf8(stderr) {
                Err(CommandErrorView::IO(utf8_error_text(stderr)))
            } else if success {
                Ok(trimmed(decode_utf8(stdout)))
            } else {
                Err(CommandErrorView::WardenCommandError(trimmed(decode_utf8(stderr))))
            }
        },
    }
}

/// What the result of a command says.
pub open spec fn outcome_view(r: Result<String, WardenCommandError>) -> Result<
    Seq<char>,
    CommandErrorView,
> {
    match r {
        Ok(text) => Ok(text@),
        Err(error) => Err(error@),
    }
}

/// Whether a command succeeded and printed nothing but text.
pub fn succeeded(report: &CommandReport) -> (r: bool)
    ensures
        r == (outcome(report@) is Ok),
{
    match report {
        CommandReport::Exited { success, stdout, stderr } => *success && is_text(stdout) && is_text(
            stderr,
        ),
        CommandReport::NotRun(_) => false,
    }
}

/// Whether bytes are the UTF-8 form of a text.
fn is_text(bytes: &Vec<u8>) -> (r: bool)
    ensures
        r == valid_utf8(bytes@),
{
    let copy: Vec<u8> = bytes.clone();
    assert(copy@ =~= bytes@);
    text_from_utf8(copy).is_ok()
}

/// The result of a command.
pub fn command_outcome(report: CommandReport) -> (r: Result<String, WardenCommandError>)
    ensures
        outcome_view(r) == outcome(report@),
{
    let (success, stdout, stderr) = match report {
        CommandReport::Exited { success, stdout, stderr } => (success, stdout, stderr),
        CommandReport::NotRun(reason) => {
            return Err(WardenCommandError::IO(reason));
        },
    };
    let mut out: String = match text_from_utf8(stdout) {
        Ok(out) => out,
        Err(message) => {
            return Err(WardenCommandError::IO(message));
        },
    };
    let mut err: String = match text_from_utf8(stderr) {
        Ok(err) => err,
        Err(message) => {
            return Err(WardenCommandError::IO(message));
        },
    };
    trim_newline(&mut out);
    trim_newline(&mut err);
    if success {
        Ok(out)
    } else {
        Err(WardenCommandError::WardenCommandError(err))
    }
}

/// Whether `line` is what was printed but for one line break at the end: what
/// was printed is `line`, without a line feed at its end, or `line` and `\n`, or
/// `line` and `\r\n`.
pub open spec fn is_line_of(line: Seq<char>, printed: Seq<char>) -> bool {
    ||| printed == line && (line.len() == 0 || line.last() != '\n')
    ||| printed == line.push('\n') && (line.len() == 0 || line.last() != '\r')
    ||| printed == line.push('\r').push('\n')
}

/// The result of a command that printed text is the whole text, however many
/// lines it has, but for one line break at its end: what it printed on its
/// standard output if it succeeded, and what it complained of if not.
pub proof fn law_output_is_kept(report: CommandReport, out: Seq<char>, err: Seq<char>)
    requires
        report is Exited,
        report->stdout@ == encode_utf8(out),
        report->stderr@ == encode_utf8(err),
    ensures
        report->success ==> (outcome(report@) matches Ok(text) && is_line_of(text, out)),
        !report->success ==> (outcome(report@) matches Err(
            CommandErrorView::WardenCommandError(text),
        ) && is_line_of(text, err)),
{
    encode_utf8_valid_utf8(out);
    encode_utf8_valid_utf8(err);
    encode_utf8_decode_utf8(out);
    encode_utf8_decode_utf8(err);
    lemma_is_line_of(out);
    lemma_is_line_of(err);
}

proof fn lemma_is_line_of(printed: Seq<char>)
    ensures
        is_line_of(trimmed(printed), printed),
{
    if printed.len() > 0 && printed.last() == '\n' {
        let line = printed.drop_last();
        assert(printed =~= line.push('\n'));
        if line.len() > 0 && line.last() == '\r' {
            assert(line =~= line.drop_last().push('\r'));
        }
    }
}

/// What was printed leaves one line only.
pub proof fn law_line_is_unique(a: Seq<char>, b: Seq<char>, printed: Seq<char>)
    requires
        is_line_of(a, printed),
        is_line_of(b, printed),
    ensures
        a == b,
{
    assert(a.push('\n').drop_last() =~= a && b.push('\n').drop_last() =~= b);
    assert(a.push('\r').drop_last() =~= a && b.push('\r').drop_last() =~= b);
    assert(a.push('\r').push('\n').drop_last() =~= a.push('\r'));
    assert(b.push('\r').push('\n').drop_last() =~= b.push('\r'));
}

/// A command that could not be run, and one that printed what is not text, on
/// either output and whether or not it succeeded, is an error with the reason.
pub proof fn law_broken_commands(report: CommandReport)
    ensures
        report matches CommandReport::NotRun(reason) ==> outcome(report@) == Err::<
            Seq<char>,
            CommandErrorView,
        >(CommandErrorView::IO(reason@)),
        report is Exited && !valid_utf8(report->stdout@) ==> outcome(report@) == Err::<
            Seq<char>,
            CommandErrorView,
        >(CommandErrorView::IO(utf8_error_text(report->stdout@))),
        report is Exited && valid_utf8(report->stdout@) && !valid_utf8(report->stderr@) ==> outcome(
            report@,
        ) == Err::<Seq<char>, CommandErrorView>(
            CommandErrorView::IO(utf8_error_text(report->stderr@)),
        ),
{
}

/// A command is its text and its environment.
pub proof fn law_command(command: ShellCommand)
    ensures
        command@.text == command.text@,
        command@.env == command.env@,
{
}

/// The result of a command is its text or its error.
pub proof fn law_result(result: Result<String, WardenCommandError>)
    ensures
        result matches Ok(text) ==> outcome_view(result) == Ok::<Seq<char>, CommandErrorView>(
            text@,
        ),
        result matches Err(error) ==> outcome_view(result) == Err::<Seq<char>, CommandErrorView>(
            error@,
        ),
{
}

} // verus!

//! One-shot commands and the interactive shell.

use crate::exec::ExecOutput;
use crate::kernel::{exec_answer, exec_json};
use crate::printing::{
    enveloped, print_json, CommandOutput, CommandOutputView, Printout, PrintoutView,
};
use crate::session::ChannelEvent;
use crate::text::{join, joined, texts};
use vstd::prelude::*;
use vstd::string::*;

verus! {

/// The line that the remote shell is given: the words of the command, with
/// spaces between them.
pub open spec fn line_of(words: Seq<Seq<char>>) -> Seq<char> {
    joined(words, " "@)
}

/// The line that the remote shell is given.
pub fn command_line(command: &Vec<String>) -> (r: String)
    ensures
        r@ == line_of(texts(command@)),
{
    join(command, " ")
}

/// What is printed of a command that has run. In JSON the exit code is part of
/// the answer, and the program succeeds; in text the program ends as the command
/// did.
pub open spec fn exec_printed(
    stdout: Seq<char>,
    stderr: Seq<char>,
    exit_code: i32,
    json: bool,
) -> CommandOutputView {
    if json {
        CommandOutputView::of(
            PrintoutView::Pretty(enveloped(exec_answer(stdout, stderr, exit_code))),
        )
    } else {
        CommandOutputView {
            stdout: if stdout.len() == 0 {
                Seq::empty()
            } else {
                seq![PrintoutView::Raw(stdout)]
            },
            stderr,
            exit_code,
        }
    }
}

/// What is printed of a command that has run.
pub fn run_exec(output: ExecOutput, json_output: bool) -> (r: CommandOutput)
    ensures
        r@ == exec_printed(output.stdout@, output.stderr@, output.exit_code, json_output),
{
    if json_output {
        return CommandOutput::of(print_json(exec_json(&output)));
    }
    let mut r = if output.stdout.as_str().is_empty() {
        CommandOutput::silent()
    } else {
        CommandOutput::of(Printout::Raw(output.stdout))
    };
    r.stderr = output.stderr;
    r.exit_code = output.exit_code;
    r
}

/// What an interactive shell does next.
#[derive(Debug)]
pub enum ShellStep {
    /// Print on standard output, at once.
    Stdout(Vec<u8>),
    /// Print on standard error.
    Stderr(Vec<u8>),
    /// Send what was typed.
    Send(Vec<u8>),
    /// Nothing.
    Nothing,
    /// Tell the remote side that nothing more comes, and stop.
    Eof,
    /// Stop.
    Stop,
}

/// What an interactive shell does when something arrives on its channel.
pub open spec fn shown_by_shell(event: ChannelEvent) -> ShellStep {
    match event {
        ChannelEvent::Data(data) => ShellStep::Stdout(data),
        ChannelEvent::ExtendedData { ext, data } => if ext == 1 {
            ShellStep::Stderr(data)
        } else {
            ShellStep::Nothing
        },
        ChannelEvent::ExitStatus(_) | ChannelEvent::Eof | ChannelEvent::Ended => ShellStep::Stop,
        _ => ShellStep::Nothing,
    }
}

/// What an interactive shell does when something arrives on its channel.
pub fn shell_on_channel(event: ChannelEvent) -> (r: ShellStep)
    ensures
        r == shown_by_shell(event),
{
    match event {
        ChannelEvent::Data(data) => ShellStep::Stdout(data),
        ChannelEvent::ExtendedData { ext, data } => if ext == 1 {
            ShellStep::Stderr(data)
        } else {
            ShellStep::Nothing
        },
        ChannelEvent::ExitStatus(_) | ChannelEvent::Eof | ChannelEvent::Ended => ShellStep::Stop,
        _ => ShellStep::Nothing,
    }
}

/// What an interactive shell does with what was typed: with nothing, where the
/// input has ended; with an input that cannot be read, it stops.
pub open spec fn sent_by_shell(read: Option<Vec<u8>>) -> ShellStep {
    match read {
        Some(data) => if data@.len() == 0 {
            ShellStep::Eof
        } else {
            ShellStep::Send(data)
        },
        None => ShellStep::Stop,
    }
}

/// What an interactive shell does with what was typed.
pub fn shell_on_input(read: Option<Vec<u8>>) -> (r: ShellStep)
    ensures
        r == sent_by_shell(read),
{
    match read {
        Some(data) => if data.len() == 0 {
            ShellStep::Eof
        } else {
            ShellStep::Send(data)
        },
        None => ShellStep::Stop,
    }
}

// ---------------------------------------------------------------------------
// Laws
// ---------------------------------------------------------------------------

/// What a command prints is what it put out, on the channel on which it put it
/// out, and the program ends with the command's exit code; in JSON, all of that
/// is in the answer, and the program succeeds.
pub proof fn commands_print_what_they_put_out(
    stdout: Seq<char>,
    stderr: Seq<char>,
    exit_code: i32,
)
    ensures
        ({
            let plain = exec_printed(stdout, stderr, exit_code, false);
            let json = exec_printed(stdout, stderr, exit_code, true);
            &&& stdout.len() > 0 ==> plain.stdout == seq![PrintoutView::Raw(stdout)]
            &&& stdout.len() == 0 ==> plain.stdout.len() == 0
            &&& plain.stderr == stderr
            &&& plain.exit_code == exit_code
            &&& json.stdout == seq![
                PrintoutView::Pretty(enveloped(exec_answer(stdout, stderr, exit_code))),
            ]
            &&& json.exit_code == 0
            &&& json.stderr.len() == 0
        }),
{
}

/// A shell shows what arrives, on the channel that it is for, and ends with the
/// remote one; it sends what is typed, and nothing more when that has ended.
pub proof fn shells_pass_everything_on(event: ChannelEvent, typed: Vec<u8>)
    ensures
        event is Data ==> shown_by_shell(event) == ShellStep::Stdout(event->Data_0),
        event matches ChannelEvent::ExtendedData { ext, data } ==> ext == 1 ==> shown_by_shell(event)
            == ShellStep::Stderr(data),
        shown_by_shell(event) == ShellStep::Stop <==> event is ExitStatus || event is Eof
            || event is Ended,
        typed@.len() > 0 ==> sent_by_shell(Some(typed)) == ShellStep::Send(typed),
        typed@.len() == 0 ==> sent_by_shell(Some(typed)) == ShellStep::Eof,
        sent_by_shell(None) == ShellStep::Stop,
{
}

/// The remote shell is given the words of a command as they are, in order, with
/// one space between each two.
pub proof fn words_are_joined_by_spaces(words: Seq<Seq<char>>, word: Seq<char>)
    ensures
        line_of(seq![word]) == word,
        words.len() > 0 ==> line_of(words.push(word)) == line_of(words) + seq![' '] + word,
        line_of(Seq::empty()).len() == 0,
{
    reveal_strlit(" ");
    assert(" "@ =~= seq![' ']);
    if words.len() > 0 {
        crate::text::joining_joins(words, seq![word], " "@);
        assert(words + seq![word] =~= words.push(word));
        crate::text::joining_joins(seq![word], words, " "@);
    }
}

} // verus!

//! Running one command on a channel.

use crate::error::Error;
use crate::session::{exit_code_of, signed_code, ChannelEvent};
use crate::text::{from_utf8_lossy, lossy_text};
use vstd::prelude::*;

verus! {

/// What is known of a command that runs on a channel.
pub struct ExecView {
    pub stdout: Seq<u8>,
    pub stderr: Seq<u8>,
    /// The exit code, or -1 while there is none.
    pub exit_code: i32,
    /// Whether the remote side has said that no more output comes.
    pub saw_eof: bool,
}

impl ExecView {
    /// A command that has just been started.
    pub open spec fn started() -> ExecView {
        ExecView { stdout: Seq::empty(), stderr: Seq::empty(), exit_code: -1i32, saw_eof: false }
    }

    /// What is known after `event`.
    pub open spec fn after(self, event: ChannelEvent) -> ExecView {
        match event {
            ChannelEvent::Data(data) => ExecView { stdout: self.stdout + data@, ..self },
            ChannelEvent::ExtendedData { ext, data } => if ext == 1 {
                ExecView { stderr: self.stderr + data@, ..self }
            } else {
                self
            },
            ChannelEvent::ExitStatus(code) => ExecView { exit_code: signed_code(code), ..self },
            ChannelEvent::Eof => ExecView { saw_eof: true, ..self },
            _ => self,
        }
    }

    /// Whether more is to come after `event`: it is over when both the exit
    /// code and the end of the output have arrived, in either order, or when
    /// nothing more can arrive.
    pub open spec fn goes_on(self, event: ChannelEvent) -> bool {
        match event {
            ChannelEvent::ExitStatus(_) => !self.saw_eof,
            ChannelEvent::Eof => self.exit_code == -1,
            ChannelEvent::Ended => false,
            _ => true,
        }
    }
}

/// Takes in what arrived on the channel of a command. Says whether more is to
/// come.
pub fn handle_exec_msg(
    msg: ChannelEvent,
    stdout: &mut Vec<u8>,
    stderr: &mut Vec<u8>,
    exit_code: &mut i32,
    saw_eof: &mut bool,
) -> (goes_on: bool)
    ensures
        ({
            let before = ExecView {
                stdout: old(stdout)@,
                stderr: old(stderr)@,
                exit_code: *old(exit_code),
                saw_eof: *old(saw_eof),
            };
            let after = ExecView {
                stdout: final(stdout)@,
                stderr: final(stderr)@,
                exit_code: *final(exit_code),
                saw_eof: *final(saw_eof),
            };
            after == before.after(msg) && goes_on == before.goes_on(msg)
        }),
{
    match msg {
        ChannelEvent::Data(data) => {
            stdout.extend_from_slice(data.as_slice());
            assert(stdout@ =~= old(stdout)@ + data@);
            true
        },
        ChannelEvent::ExtendedData { ext, data } => {
            if ext == 1 {
                stderr.extend_from_slice(data.as_slice());
                assert(stderr@ =~= old(stderr)@ + data@);
            }
            true
        },
        ChannelEvent::ExitStatus(code) => {
            *exit_code = exit_code_of(code);
            !*saw_eof
        },
        ChannelEvent::Eof => {
            *saw_eof = true;
            *exit_code == -1
        },
        ChannelEvent::Ended => false,
        _ => true,
    }
}

/// What a command has put out, and how it ended.
#[derive(Debug)]
pub struct ExecOutput {
    pub stdout: String,
    pub stderr: String,
    pub exit_code: i32,
}

/// How long to wait for the next message.
#[derive(Debug, Clone, Copy, PartialEq, Eq, Structural)]
pub enum Patience {
    /// As long as it takes.
    Forever,
    /// So many milliseconds.
    AtMost(u64),
}

/// For how many milliseconds a command may run, where so many are given; 0 for
/// any time.
pub open spec fn time_given(timeout_ms: Option<u64>) -> u64 {
    match timeout_ms {
        Some(ms) => ms,
        None => 0,
    }
}

/// A command that runs on a channel, with all its output kept.
#[derive(Debug)]
pub struct ExecRun {
    pub stdout: Vec<u8>,
    pub stderr: Vec<u8>,
    pub exit_code: i32,
    pub saw_eof: bool,
    /// After how many milliseconds the command is given up; 0 for never.
    pub timeout_ms: u64,
}

impl ExecRun {
    /// What is known of the command.
    pub open spec fn view(&self) -> ExecView {
        ExecView {
            stdout: self.stdout@,
            stderr: self.stderr@,
            exit_code: self.exit_code,
            saw_eof: self.saw_eof,
        }
    }

    /// A command that has just been started.
    pub fn start(timeout_ms: Option<u64>) -> (r: Self)
        ensures
            r@ == ExecView::started(),
            r.timeout_ms == time_given(timeout_ms),
    {
        let timeout_ms: u64 = match timeout_ms {
            Some(ms) => ms,
            None => 0,
        };
        ExecRun { stdout: Vec::new(), stderr: Vec::new(), exit_code: -1, saw_eof: false, timeout_ms }
    }

    /// How long to wait for the next message, when the command has run for
    /// `elapsed_ms`. A command that has run for its time is given up.
    pub fn patience(&self, elapsed_ms: u64) -> (r: Result<Patience, Error>)
        ensures
            r == waiting(self.timeout_ms, elapsed_ms),
    {
        if self.timeout_ms == 0 {
            Ok(Patience::Forever)
        } else if elapsed_ms >= self.timeout_ms {
            Err(Error::CommandTimedOut(self.timeout_ms))
        } else {
            Ok(Patience::AtMost(self.timeout_ms - elapsed_ms))
        }
    }

    /// Takes in what arrived on the channel. Says whether more is to come.
    pub fn on_event(&mut self, event: ChannelEvent) -> (goes_on: bool)
        ensures
            final(self)@ == old(self)@.after(event),
            goes_on == old(self)@.goes_on(event),
            final(self).timeout_ms == old(self).timeout_ms,
    {
        handle_exec_msg(
            event,
            &mut self.stdout,
            &mut self.stderr,
            &mut self.exit_code,
            &mut self.saw_eof,
        )
    }

    /// What the command has put out, and how it ended.
    pub fn finish(self) -> (r: ExecOutput)
        ensures
            comes_to(self@, r),
    {
        ExecOutput {
            stdout: from_utf8_lossy(self.stdout.as_slice()),
            stderr: from_utf8_lossy(self.stderr.as_slice()),
            exit_code: self.exit_code,
        }
    }
}

/// Whether this is what a command comes to of which so much is known.
pub open spec fn comes_to(known: ExecView, r: ExecOutput) -> bool {
    &&& r.stdout@ == lossy_text(known.stdout)
    &&& r.stderr@ == lossy_text(known.stderr)
    &&& r.exit_code == known.exit_code
}

/// How long to wait for the next message of a command that may run for
/// `timeout_ms`, 0 for any time, and has run for `elapsed_ms`.
pub open spec fn waiting(timeout_ms: u64, elapsed_ms: u64) -> Result<Patience, Error> {
    if timeout_ms == 0 {
        Ok(Patience::Forever)
    } else if elapsed_ms >= timeout_ms {
        Err(Error::CommandTimedOut(timeout_ms))
    } else {
        Ok(Patience::AtMost((timeout_ms - elapsed_ms) as u64))
    }
}

/// What is passed on of a message when output is not kept.
#[derive(Debug)]
pub enum Passed {
    Stdout(Vec<u8>),
    Stderr(Vec<u8>),
    Nothing,
}

/// A command that runs on a channel, with its output passed on as it comes.
#[derive(Debug)]
pub struct ExecStream {
    pub exit_code: i32,
    pub saw_eof: bool,
    /// After how many milliseconds the command is given up; 0 for never.
    pub timeout_ms: u64,
}

/// The bytes of `passed` for stdout.
pub open spec fn passed_stdout(passed: Passed) -> Seq<u8> {
    match passed {
        Passed::Stdout(data) => data@,
        _ => Seq::empty(),
    }
}

/// The bytes of `passed` for stderr.
pub open spec fn passed_stderr(passed: Passed) -> Seq<u8> {
    match passed {
        Passed::Stderr(data) => data@,
        _ => Seq::empty(),
    }
}

impl ExecStream {
    /// What is known of the command, when so much output has been passed on.
    pub open spec fn state(&self, stdout: Seq<u8>, stderr: Seq<u8>) -> ExecView {
        ExecView { stdout, stderr, exit_code: self.exit_code, saw_eof: self.saw_eof }
    }

    /// A command that has just been started.
    pub fn start(timeout_ms: Option<u64>) -> (r: Self)
        ensures
            r.state(Seq::empty(), Seq::empty()) == ExecView::started(),
            r.timeout_ms == time_given(timeout_ms),
    {
        let timeout_ms: u64 = match timeout_ms {
            Some(ms) => ms,
            None => 0,
        };
        ExecStream { exit_code: -1, saw_eof: false, timeout_ms }
    }

    /// How long to wait for the next message, when the command has run for
    /// `elapsed_ms`. A command that has run for its time is given up.
    pub fn patience(&self, elapsed_ms: u64) -> (r: Result<Patience, Error>)
        ensures
            r == waiting(self.timeout_ms, elapsed_ms),
    {
        if self.timeout_ms == 0 {
            Ok(Patience::Forever)
        } else if elapsed_ms >= self.timeout_ms {
            Err(Error::CommandTimedOut(self.timeout_ms))
        } else {
            Ok(Patience::AtMost(self.timeout_ms - elapsed_ms))
        }
    }

    /// Takes in what arrived on the channel. Says what to pass on, and whether
    /// more is to come. Together, what is passed on is what a command whose
    /// output is kept would have kept.
    pub fn on_event(&mut self, event: ChannelEvent) -> (r: (Passed, bool))
        ensures
            forall|stdout: Seq<u8>, stderr: Seq<u8>|
                {
                    &&& #[trigger] old(self).state(stdout, stderr).after(event)
                        == final(self).state(stdout + passed_stdout(r.0), stderr + passed_stderr(r.0))
                    &&& r.1 == old(self).state(stdout, stderr).goes_on(event)
                },
            final(self).timeout_ms == old(self).timeout_ms,
    {
        let ghost before = *self;
        let r = match event {
            ChannelEvent::Data(data) => (Passed::Stdout(data), true),
            ChannelEvent::ExtendedData { ext, data } => if ext == 1 {
                (Passed::Stderr(data), true)
            } else {
                (Passed::Nothing, true)
            },
            ChannelEvent::ExitStatus(code) => {
                self.exit_code = exit_code_of(code);
                (Passed::Nothing, !self.saw_eof)
            },
            ChannelEvent::Eof => {
                self.saw_eof = true;
                (Passed::Nothing, self.exit_code == -1)
            },
            ChannelEvent::Ended => (Passed::Nothing, false),
            _ => (Passed::Nothing, true),
        };
        proof {
            assert forall|stdout: Seq<u8>, stderr: Seq<u8>|
                {
                    &&& #[trigger] before.state(stdout, stderr).after(event) == self.state(
                        stdout + passed_stdout(r.0),
                        stderr + passed_stderr(r.0),
                    )
                    &&& r.1 == before.state(stdout, stderr).goes_on(event)
                } by {
                assert(stdout + Seq::<u8>::empty() =~= stdout);
                assert(stderr + Seq::<u8>::empty() =~= stderr);
            }
        }
        r
    }
}

// ---------------------------------------------------------------------------
// Laws
// ---------------------------------------------------------------------------

/// What is known of a command after all of `events`.
pub open spec fn after_all(start: ExecView, events: Seq<ChannelEvent>) -> ExecView
    decreases events.len(),
{
    if events.len() == 0 {
        start
    } else {
        after_all(start, events.drop_last()).after(events.last())
    }
}

/// The output for stdout among `events`, in order.
pub open spec fn stdout_of(events: Seq<ChannelEvent>) -> Seq<u8>
    decreases events.len(),
{
    if events.len() == 0 {
        Seq::empty()
    } else {
        match events.last() {
            ChannelEvent::Data(data) => stdout_of(events.drop_last()) + data@,
            _ => stdout_of(events.drop_last()),
        }
    }
}

/// The output for stderr among `events`, in order.
pub open spec fn stderr_of(events: Seq<ChannelEvent>) -> Seq<u8>
    decreases events.len(),
{
    if events.len() == 0 {
        Seq::empty()
    } else {
        match events.last() {
            ChannelEvent::ExtendedData { ext, data } => if ext == 1 {
                stderr_of(events.drop_last()) + data@
            } else {
                stderr_of(events.drop_last())
            },
            _ => stderr_of(events.drop_last()),
        }
    }
}

/// What a command puts out is kept whole and in order, stdout and stderr apart
/// from each other; nothing else is mixed in.
pub proof fn output_is_kept_whole(events: Seq<ChannelEvent>)
    ensures
        after_all(ExecView::started(), events).stdout == stdout_of(events),
        after_all(ExecView::started(), events).stderr == stderr_of(events),
    decreases events.len(),
{
    if events.len() > 0 {
        output_is_kept_whole(events.drop_last());
    }
}

/// The last exit code among `events`, or -1 where there is none.
pub open spec fn last_code(events: Seq<ChannelEvent>) -> i32
    decreases events.len(),
{
    if events.len() == 0 {
        -1i32
    } else {
        match events.last() {
            ChannelEvent::ExitStatus(code) => signed_code(code),
            _ => last_code(events.drop_last()),
        }
    }
}

/// The exit code is the last one that was sent, and -1 where none was.
pub proof fn exit_code_is_the_last(events: Seq<ChannelEvent>)
    ensures
        after_all(ExecView::started(), events).exit_code == last_code(events),
    decreases events.len(),
{
    if events.len() > 0 {
        exit_code_is_the_last(events.drop_last());
    }
}

/// A command is not over before both its exit code and the end of its output
/// have arrived, unless the channel ends; the order in which they arrive does
/// not matter.
pub proof fn both_ends_are_awaited(before: ExecView, event: ChannelEvent)
    requires
        !(event is Ended),
        !before.goes_on(event),
    ensures
        before.after(event).saw_eof,
        event is Eof ==> before.exit_code != -1,
        event is ExitStatus || event is Eof,
{
}

/// A command with a time to run is given up exactly when it has run for it, and
/// a command without one never is.
pub proof fn commands_are_given_up_in_time(timeout_ms: u64, elapsed_ms: u64)
    ensures
        waiting(timeout_ms, elapsed_ms) is Err <==> timeout_ms > 0 && elapsed_ms >= timeout_ms,
{
}

/// The exit code of a command is the number that the remote side sent, and
/// different numbers are reported as different codes.
pub proof fn exit_codes_are_reported(before: ExecView, code: u32, other: u32)
    ensures
        code <= 0x7fff_ffff ==> before.after(ChannelEvent::ExitStatus(code)).exit_code as int
            == code as int,
        code != other ==> before.after(ChannelEvent::ExitStatus(code)).exit_code != before.after(
            ChannelEvent::ExitStatus(other),
        ).exit_code,
{
}

/// What arrives on the channel of a command: output for stdout and for stderr,
/// an exit code, the end of the output. Each changes only what it is about, and
/// all else changes nothing.
pub proof fn each_message_has_its_effect(before: ExecView, event: ChannelEvent)
    ensures
        ({
            let after = before.after(event);
            &&& !(event is Data) ==> after.stdout == before.stdout
            &&& event is Data ==> after.stdout == before.stdout + event->Data_0@
            &&& !(event is ExtendedData) ==> after.stderr == before.stderr
            &&& event matches ChannelEvent::ExtendedData { ext, data } ==> after.stderr == if ext
                == 1 {
                before.stderr + data@
            } else {
                before.stderr
            }
            &&& !(event is ExitStatus) ==> after.exit_code == before.exit_code
            &&& after.saw_eof == (before.saw_eof || event is Eof)
        }),
{
}

/// A command is over as soon as both its exit code and the end of its output
/// have arrived, and when the channel ends.
pub proof fn commands_end(before: ExecView, code: u32)
    ensures
        before.saw_eof <==> !before.goes_on(ChannelEvent::ExitStatus(code)),
        before.exit_code != -1 <==> !before.goes_on(ChannelEvent::Eof),
        !before.goes_on(ChannelEvent::Ended),
        ExecView::started().exit_code == -1,
        !ExecView::started().saw_eof,
        ExecView::started().stdout.len() == 0,
        ExecView::started().stderr.len() == 0,
{
}

/// While a command has time, it is waited for as long as its time lasts, and no
/// longer; then it is given up, with its time in the message.
pub proof fn time_runs_out(timeout_ms: u64, elapsed_ms: u64)
    ensures
        timeout_ms == 0 ==> waiting(timeout_ms, elapsed_ms) == Ok::<Patience, Error>(
            Patience::Forever,
        ),
        0 < timeout_ms && elapsed_ms < timeout_ms ==> waiting(timeout_ms, elapsed_ms) == Ok::<
            Patience,
            Error,
        >(Patience::AtMost((timeout_ms - elapsed_ms) as u64)),
        0 < timeout_ms <= elapsed_ms ==> waiting(timeout_ms, elapsed_ms) is Err && waiting(
            timeout_ms,
            elapsed_ms,
        )->Err_0.text() == "command timed out after "@ + crate::number::decimal(timeout_ms as nat)
            + "ms"@,
{
}

/// What a command comes to is its output on both channels, each as text, and its
/// exit code: after output, an exit code and the end of the output, exactly
/// these.
pub proof fn commands_come_to_their_output(
    stdout: Vec<u8>,
    stderr: Vec<u8>,
    code: u32,
    r: ExecOutput,
)
    requires
        code <= 0x7fff_ffff,
        ({
            let a = ExecView::started().after(ChannelEvent::Data(stdout));
            let b = a.after(ChannelEvent::ExtendedData { ext: 1, data: stderr });
            let c = b.after(ChannelEvent::ExitStatus(code)).after(ChannelEvent::Eof);
            comes_to(c, r)
        }),
    ensures
        r.stdout@ == lossy_text(stdout@),
        r.stderr@ == lossy_text(stderr@),
        r.exit_code as int == code as int,
{
    let none = Seq::<u8>::empty();
    assert(none + stdout@ =~= stdout@);
    assert(none + stderr@ =~= stderr@);
}

/// A command has the time that it was given, and any time where it was given
/// none.
pub proof fn commands_have_the_time_they_were_given(ms: u64, elapsed_ms: u64)
    ensures
        time_given(Some(ms)) == ms,
        waiting(time_given(None), elapsed_ms) == Ok::<Patience, Error>(Patience::Forever),
        ms > 0 && elapsed_ms < ms ==> waiting(time_given(Some(ms)), elapsed_ms) is Ok,
        ms > 0 && elapsed_ms >= ms ==> waiting(time_given(Some(ms)), elapsed_ms) is Err,
{
}

/// What is passed on at once is what would have been kept: output for stdout as
/// stdout, output for stderr as stderr, and nothing else.
pub proof fn what_is_passed_on_is_the_output(data: Vec<u8>)
    ensures
        passed_stdout(Passed::Stdout(data)) == data@,
        passed_stderr(Passed::Stdout(data)).len() == 0,
        passed_stderr(Passed::Stderr(data)) == data@,
        passed_stdout(Passed::Stderr(data)).len() == 0,
        passed_stdout(Passed::Nothing).len() == 0,
        passed_stderr(Passed::Nothing).len() == 0,
{
}

} // verus!

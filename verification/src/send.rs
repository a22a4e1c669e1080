//! Sending input to a session, and waiting for what comes of it.

use crate::cli::{pairs_of, ExpectRespondPair, SessionInputCommand};
use crate::daemon::{after_read, daemon_read, read_answer, reading_keeps_consistency};
use crate::error::Error;
use crate::interactive::{complete_pairs, first_incomplete, lemma_first_incomplete, missing_half};
use crate::protocol::{err, granted, ok, refused, ResponseView, WireResponse};
use crate::session::{
    expectation_met, normalize_input, output_matches_str, regex_found, typed, CommandView,
    SessionCell, SessionCmd, StatusView,
};
use crate::state::{ServerState, ServerView};
use crate::text::{
    from_utf8_lossy, holding_is_standing_between, lossy_text, lowercase_text,
};
use vstd::prelude::*;
use vstd::string::*;
use vstd::utf8::encode_utf8;

verus! {

/// How long an expected pattern is waited for, in milliseconds.
pub const EXPECT_TIMEOUT_MS: u64 = 30_000;

/// How long the end of a session is waited for, in milliseconds.
pub const EXIT_TIMEOUT_MS: u64 = 60_000;

/// How long to wait before looking again, in milliseconds.
pub const POLL_MS: u64 = 100;

/// How long to wait after a response, in milliseconds.
pub const RESPOND_PAUSE_MS: u64 = 200;

/// What is being waited for.
#[derive(Debug, Clone, Copy, PartialEq, Eq, Structural)]
pub enum SendPhase {
    /// The pattern of a pair, by its number.
    Expecting(usize),
    /// The end of the session.
    Exiting,
}

/// A request to send input that is being waited for.
#[derive(Debug)]
pub struct PendingSend {
    pub session_id: String,
    pub pairs: Vec<ExpectRespondPair>,
    pub phase: SendPhase,
    pub wait_for_exit: bool,
    /// How many bytes of output are answered at most.
    pub limit: usize,
    pub raw: bool,
}

/// What a [`PendingSend`] says.
pub struct SendView {
    pub session_id: Seq<char>,
    pub pairs: Seq<ExpectRespondPair>,
    pub phase: SendPhase,
    pub wait_for_exit: bool,
    /// How many bytes of output are answered at most.
    pub limit: usize,
    pub raw: bool,
}

impl View for PendingSend {
    type V = SendView;

    open spec fn view(&self) -> SendView {
        SendView {
            session_id: self.session_id@,
            pairs: self.pairs@,
            phase: self.phase,
            wait_for_exit: self.wait_for_exit,
            limit: self.limit,
            raw: self.raw,
        }
    }
}

/// What comes next for a request that is being waited for.
#[derive(Debug)]
pub enum SendStep {
    /// Wait so many milliseconds, and look again.
    Sleep(u64),
    /// Pass a command to the task of the session and pause; then begin to
    /// measure the time anew, and look again.
    Respond(SessionCmd),
    /// Begin to measure the time anew, and look again.
    Restart,
    /// Answer.
    Reply(WireResponse),
}

/// What a [`SendStep`] says.
pub enum SendStepView {
    Sleep(u64),
    Respond(CommandView),
    Restart,
    Reply(ResponseView),
}

impl View for SendStep {
    type V = SendStepView;

    open spec fn view(&self) -> SendStepView {
        match self {
            SendStep::Sleep(ms) => SendStepView::Sleep(*ms),
            SendStep::Respond(command) => SendStepView::Respond(command@),
            SendStep::Restart => SendStepView::Restart,
            SendStep::Reply(reply) => SendStepView::Reply(reply@),
        }
    }
}

// ---------------------------------------------------------------------------
// Beginning
// ---------------------------------------------------------------------------

/// What input is turned into when it is sent.
pub open spec fn input_bytes(input: Seq<char>, crlf: bool) -> Seq<u8> {
    encode_utf8(typed(input, crlf))
}

/// What is done about a request to send input: the command for the task of the
/// session and what is waited for then, or the message why the request is
/// refused.
pub open spec fn send_begun(v: ServerView, cmd: SessionInputCommand) -> Result<
    (CommandView, SendView),
    Seq<char>,
> {
    let pairs = pairs_of(cmd);
    let id = cmd.session_id@;
    if exists|i: int| #[trigger] first_incomplete(pairs, i) {
        let i = choose|i: int| #[trigger] first_incomplete(pairs, i);
        Err(missing_half(pairs[i]).text())
    } else if !v.sessions.contains_key(id) {
        Err("session "@ + id + " not found"@)
    } else if v.sessions[id].cell.drain_dead {
        Err(Error::DrainTaskDead.text())
    } else {
        Ok(
            (
                CommandView::Send { data: input_bytes(cmd.input@, cmd.crlf) },
                SendView {
                    session_id: id,
                    pairs: complete_pairs(pairs),
                    phase: SendPhase::Expecting(0),
                    wait_for_exit: cmd.wait_for_exit,
                    limit: cmd.limit,
                    raw: cmd.raw,
                },
            ),
        )
    }
}

/// Begins to send input.
pub fn begin_send(state: &ServerState, cmd: &SessionInputCommand) -> (r: Result<
    (SessionCmd, PendingSend),
    Error,
>)
    ensures
        match r {
            Ok((command, pending)) => send_begun(state@, *cmd) == Ok::<
                (CommandView, SendView),
                Seq<char>,
            >((command@, pending@)),
            Err(e) => send_begun(state@, *cmd) == Err::<(CommandView, SendView), Seq<char>>(
                e.text(),
            ),
        },
{
    let ghost all = pairs_of(*cmd);
    let pairs = match cmd.expect_pairs() {
        Ok(pairs) => pairs,
        Err(e) => {
            proof {
                let i = choose|i: int| #[trigger]
                    first_incomplete(all, i) && e == missing_half(all[i]);
                let k = choose|i: int| #[trigger] first_incomplete(all, i);
                lemma_first_incomplete(all, i, k);
            }
            return Err(e);
        },
    };
    assert(forall|i: int| !#[trigger] first_incomplete(all, i));
    let session = match state.sessions.get(cmd.session_id.as_str()) {
        Some(session) => session,
        None => return Err(Error::SessionNotFound(cmd.session_id.clone())),
    };
    if session.cell.drain_dead {
        return Err(Error::DrainTaskDead);
    }
    let text = normalize_input(cmd.input.as_str(), cmd.crlf);
    let data = text.as_str().as_bytes_vec();
    Ok(
        (
            SessionCmd::Send { data },
            PendingSend {
                session_id: cmd.session_id.clone(),
                pairs,
                phase: SendPhase::Expecting(0),
                wait_for_exit: cmd.wait_for_exit,
                limit: cmd.limit,
                raw: cmd.raw,
            },
        ),
    )
}

// ---------------------------------------------------------------------------
// Waiting
// ---------------------------------------------------------------------------

/// The answer to a request to send input, and the state after it: what is new
/// in the output.
pub open spec fn send_answered(v: ServerView, p: SendView) -> (ResponseView, ServerView) {
    let id = p.session_id;
    if v.sessions.contains_key(id) {
        (
            granted(read_answer(id, v.sessions[id].cell, 0, p.limit as int, !p.raw)),
            after_read(v, id, 0, p.limit as int),
        )
    } else {
        (refused("session "@ + id + " not found"@), v)
    }
}

/// What comes next, where `matched` says whether the expected pattern has turned
/// up and `elapsed_ms` how long it, or the end, has been waited for; what is
/// waited for then; and the state after it.
pub open spec fn send_polled(v: ServerView, p: SendView, matched: bool, elapsed_ms: u64) -> (
    SendStepView,
    SendView,
    ServerView,
) {
    let cell = v.cell(p.session_id);
    let answer = send_answered(v, p);
    match p.phase {
        SendPhase::Expecting(i) => if i < p.pairs.len() {
            let pair = p.pairs[i as int];
            if cell is None {
                (SendStepView::Reply(answer.0), p, answer.1)
            } else if matched {
                if cell->0.drain_dead {
                    (SendStepView::Reply(refused(Error::DrainTaskDead.text())), p, v)
                } else {
                    (
                        SendStepView::Respond(
                            CommandView::Send { data: input_bytes(pair.respond@, true) },
                        ),
                        SendView { phase: SendPhase::Expecting((i + 1) as usize), ..p },
                        v,
                    )
                }
            } else if elapsed_ms >= EXPECT_TIMEOUT_MS {
                (SendStepView::Reply(refused(Error::ExpectTimeout(pair.expect).text())), p, v)
            } else {
                (SendStepView::Sleep(POLL_MS), p, v)
            }
        } else if p.wait_for_exit {
            (SendStepView::Restart, SendView { phase: SendPhase::Exiting, ..p }, v)
        } else {
            (SendStepView::Reply(answer.0), p, answer.1)
        },
        SendPhase::Exiting => if cell is None || cell->0.status != StatusView::Running
            || elapsed_ms >= EXIT_TIMEOUT_MS {
            (SendStepView::Reply(answer.0), p, answer.1)
        } else {
            (SendStepView::Sleep(POLL_MS), p, v)
        },
    }
}

/// Whether the pattern that is waited for has turned up in the output.
pub open spec fn pattern_turned_up(v: ServerView, p: SendView) -> bool {
    match (p.phase, v.cell(p.session_id)) {
        (SendPhase::Expecting(i), Some(cell)) => i < p.pairs.len() && {
            let text = lossy_text(cell.output.data);
            let pattern = p.pairs[i as int].expect@;
            expectation_met(text, pattern, regex_found(pattern, text))
        },
        _ => false,
    }
}

impl ServerState {
    /// What a session shares, open or closed.
    pub fn session_cell(&self, session_id: &str) -> (r: Option<&SessionCell>)
        ensures
            match r {
                Some(cell) => self@.cell(session_id@) == Some(cell@),
                None => self@.cell(session_id@) is None,
            },
    {
        match self.sessions.get(session_id) {
            Some(session) => Some(&session.cell),
            None => self.departed.get(session_id),
        }
    }

    /// Whether the pattern that is waited for has turned up in the output.
    pub fn pattern_found(&self, pending: &PendingSend) -> (r: bool)
        ensures
            r == pattern_turned_up(self@, pending@),
    {
        match pending.phase {
            SendPhase::Exiting => false,
            SendPhase::Expecting(i) => match self.session_cell(pending.session_id.as_str()) {
                None => false,
                Some(cell) => {
                    if i >= pending.pairs.len() {
                        return false;
                    }
                    let text = from_utf8_lossy(cell.output.data.as_slice());
                    output_matches_str(text.as_str(), pending.pairs[i].expect.as_str())
                },
            },
        }
    }

    fn answer_send(&mut self, pending: &PendingSend) -> (r: WireResponse)
        ensures
            (r@, final(self)@) == send_answered(old(self)@, pending@),
            old(self)@.consistent() ==> final(self)@.consistent(),
    {
        match daemon_read(pending.session_id.as_str(), 0, pending.limit, !pending.raw, self) {
            Ok(answer) => ok(answer),
            Err(e) => err(e),
        }
    }

    /// What comes next for a request that is being waited for, given whether the
    /// pattern has turned up and how long it has been waited for.
    pub fn poll_send_given(
        &mut self,
        pending: &mut PendingSend,
        matched: bool,
        elapsed_ms: u64,
    ) -> (r: SendStep)
        ensures
            (r@, final(pending)@, final(self)@) == send_polled(
                old(self)@,
                old(pending)@,
                matched,
                elapsed_ms,
            ),
            old(self)@.consistent() ==> final(self)@.consistent(),
    {
        let (known, dead, running) = match self.session_cell(pending.session_id.as_str()) {
            Some(cell) => (true, cell.drain_dead, cell.status.is_running()),
            None => (false, false, false),
        };
        match pending.phase {
            SendPhase::Expecting(i) => {
                if i < pending.pairs.len() {
                    if !known {
                        return SendStep::Reply(self.answer_send(pending));
                    }
                    if matched {
                        if dead {
                            return SendStep::Reply(err(Error::DrainTaskDead));
                        }
                        let text = normalize_input(pending.pairs[i].respond.as_str(), true);
                        let data = text.as_str().as_bytes_vec();
                        pending.phase = SendPhase::Expecting(i + 1);
                        return SendStep::Respond(SessionCmd::Send { data });
                    }
                    if elapsed_ms >= EXPECT_TIMEOUT_MS {
                        return SendStep::Reply(
                            err(Error::ExpectTimeout(pending.pairs[i].expect.clone())),
                        );
                    }
                    SendStep::Sleep(POLL_MS)
                } else if pending.wait_for_exit {
                    pending.phase = SendPhase::Exiting;
                    SendStep::Restart
                } else {
                    SendStep::Reply(self.answer_send(pending))
                }
            },
            SendPhase::Exiting => {
                if !running || elapsed_ms >= EXIT_TIMEOUT_MS {
                    SendStep::Reply(self.answer_send(pending))
                } else {
                    SendStep::Sleep(POLL_MS)
                }
            },
        }
    }

    /// What comes next for a request that is being waited for, when it has been
    /// waited for so long.
    pub fn poll_send(&mut self, pending: &mut PendingSend, elapsed_ms: u64) -> (r: SendStep)
        ensures
            (r@, final(pending)@, final(self)@) == send_polled(
                old(self)@,
                old(pending)@,
                pattern_turned_up(old(self)@, old(pending)@),
                elapsed_ms,
            ),
            old(self)@.consistent() ==> final(self)@.consistent(),
    {
        let matched = self.pattern_found(pending);
        self.poll_send_given(pending, matched, elapsed_ms)
    }
}

// ---------------------------------------------------------------------------
// Laws
// ---------------------------------------------------------------------------

/// However a request is waited for, the daemon stays consistent.
pub proof fn polling_keeps_consistency(v: ServerView, p: SendView, matched: bool, elapsed_ms: u64)
    requires
        v.consistent(),
    ensures
        send_polled(v, p, matched, elapsed_ms).2.consistent(),
{
    if v.sessions.contains_key(p.session_id) {
        reading_keeps_consistency(v, p.session_id, 0, p.limit as int);
    }
}

/// How much is left to wait for: the pairs, and then the end.
pub open spec fn phases_left(p: SendView) -> int {
    match p.phase {
        SendPhase::Expecting(i) => if i < p.pairs.len() {
            p.pairs.len() - i + 1
        } else {
            1
        },
        SendPhase::Exiting => 0,
    }
}

/// A request to send input is always answered: as long as it is not, either
/// less is left to wait for, or the wait goes on only until its time is up.
pub proof fn sending_ends(v: ServerView, p: SendView, matched: bool, elapsed_ms: u64)
    requires
        p.pairs.len() <= usize::MAX,
    ensures
        ({
            let (step, q, _) = send_polled(v, p, matched, elapsed_ms);
            match step {
                SendStepView::Reply(_) => true,
                SendStepView::Sleep(_) => q == p && elapsed_ms < EXIT_TIMEOUT_MS,
                SendStepView::Respond(_) => phases_left(q) < phases_left(p),
                SendStepView::Restart => phases_left(q) < phases_left(p),
            }
        }),
{
}

/// Patterns are waited for in the order in which they were given, and a response
/// is sent only to the pattern that it belongs to.
pub proof fn responses_follow_their_patterns(
    v: ServerView,
    p: SendView,
    matched: bool,
    elapsed_ms: u64,
)
    ensures
        ({
            let (step, q, _) = send_polled(v, p, matched, elapsed_ms);
            step is Respond ==> {
                &&& matched
                &&& p.phase matches SendPhase::Expecting(i)
                &&& i < p.pairs.len()
                &&& step == SendStepView::Respond(
                    CommandView::Send { data: input_bytes(p.pairs[i as int].respond@, true) },
                )
                &&& q.phase == SendPhase::Expecting((i + 1) as usize)
            }
        }),
{
}

/// A response is sent only when the output holds the pattern that the response
/// belongs to, and then it is sent at once; until then the request waits, and
/// when its time of 30 seconds is up it is refused. The pattern is the one of
/// the pair that is waited for, not of any other.
pub proof fn a_response_needs_its_own_pattern(
    v: ServerView,
    p: SendView,
    i: usize,
    elapsed_ms: u64,
)
    requires
        p.phase == SendPhase::Expecting(i),
        i < p.pairs.len(),
        v.sessions.contains_key(p.session_id),
    ensures
        ({
            let (step, next, after) = send_polled(v, p, pattern_turned_up(v, p), elapsed_ms);
            let cell = v.sessions[p.session_id].cell;
            let text = lossy_text(cell.output.data);
            let expected = p.pairs[i as int].expect@;
            let there = regex_found(expected, text) == Some(true) || exists|
                a: Seq<char>,
                b: Seq<char>,
            |
                lowercase_text(text) == #[trigger] (a + lowercase_text(expected) + b);
            &&& there && !cell.drain_dead ==> {
                &&& step == SendStepView::Respond(
                    CommandView::Send { data: encode_utf8(typed(p.pairs[i as int].respond@, true)) },
                )
                &&& next == (SendView { phase: SendPhase::Expecting((i + 1) as usize), ..p })
                &&& after == v
            }
            &&& there && cell.drain_dead ==> step == SendStepView::Reply(
                refused("drain task dead"@),
            ) && after == v
            &&& !there && elapsed_ms < 30_000 ==> step == SendStepView::Sleep(100) && next == p
                && after == v
            &&& !there && elapsed_ms >= 30_000 ==> step == SendStepView::Reply(
                refused("timeout waiting for expect pattern: "@ + expected),
            ) && after == v
        }),
{
    let text = lossy_text(v.sessions[p.session_id].cell.output.data);
    let expected = p.pairs[i as int].expect@;
    holding_is_standing_between(lowercase_text(text), lowercase_text(expected));
}

/// When all patterns have been answered, the request is answered with what is
/// new in the output, up to its limit; but where the end of the session is asked
/// for, it is waited for first, for 60 seconds at most.
pub proof fn the_answer_is_what_is_new(v: ServerView, p: SendView, i: usize, elapsed_ms: u64)
    requires
        v.sessions.contains_key(p.session_id),
    ensures
        ({
            let (step, next, after) = send_polled(v, p, pattern_turned_up(v, p), elapsed_ms);
            let cell = v.sessions[p.session_id].cell;
            let answered = {
                &&& step is Reply
                &&& step->Reply_0 == granted(
                    read_answer(p.session_id, cell, 0, p.limit as int, !p.raw),
                )
                &&& after == after_read(v, p.session_id, 0, p.limit as int)
            };
            &&& p.phase == SendPhase::Expecting(i) && i >= p.pairs.len() && !p.wait_for_exit
                ==> answered
            &&& p.phase == SendPhase::Expecting(i) && i >= p.pairs.len() && p.wait_for_exit ==> step
                is Restart && next == (SendView { phase: SendPhase::Exiting, ..p }) && after == v
            &&& p.phase == SendPhase::Exiting && cell.status == StatusView::Running && elapsed_ms
                < 60_000 ==> step == SendStepView::Sleep(100) && next == p && after == v
            &&& p.phase == SendPhase::Exiting && (cell.status != StatusView::Running || elapsed_ms
                >= 60_000) ==> answered
        }),
{
}

/// What is sent is the input of the request, and what is waited for are its
/// pairs, the first one first. A session that is not there, or whose task has
/// ended, is sent nothing.
pub proof fn input_is_sent_to_its_session(v: ServerView, cmd: SessionInputCommand)
    requires
        forall|i: int| !#[trigger] first_incomplete(pairs_of(cmd), i),
    ensures
        ({
            let id = cmd.session_id@;
            &&& !v.sessions.contains_key(id) ==> send_begun(v, cmd) == Err::<
                (CommandView, SendView),
                Seq<char>,
            >("session "@ + id + " not found"@)
            &&& v.sessions.contains_key(id) && v.sessions[id].cell.drain_dead ==> send_begun(v, cmd)
                == Err::<(CommandView, SendView), Seq<char>>("drain task dead"@)
            &&& v.sessions.contains_key(id) && !v.sessions[id].cell.drain_dead ==> {
                &&& send_begun(v, cmd) matches Ok((command, pending))
                &&& command == (CommandView::Send {
                    data: encode_utf8(typed(cmd.input@, cmd.crlf)),
                })
                &&& pending.session_id == id
                &&& pending.pairs == complete_pairs(pairs_of(cmd))
                &&& pending.phase == SendPhase::Expecting(0)
                &&& pending.wait_for_exit == cmd.wait_for_exit
                &&& pending.limit == cmd.limit
                &&& pending.raw == cmd.raw
            }
        }),
{
}

/// The same holds of a session that was closed while the request waited: what it
/// had put out decides. A session that nothing is known of any more is answered
/// as one that is not there.
pub proof fn closed_sessions_are_still_waited_for(
    v: ServerView,
    p: SendView,
    i: usize,
    elapsed_ms: u64,
)
    requires
        p.phase == SendPhase::Expecting(i),
        i < p.pairs.len(),
        !v.sessions.contains_key(p.session_id),
    ensures
        ({
            let (step, next, after) = send_polled(v, p, pattern_turned_up(v, p), elapsed_ms);
            let cell = v.departed[p.session_id];
            let text = lossy_text(cell.output.data);
            let expected = p.pairs[i as int].expect@;
            let there = regex_found(expected, text) == Some(true) || exists|
                a: Seq<char>,
                b: Seq<char>,
            |
                lowercase_text(text) == #[trigger] (a + lowercase_text(expected) + b);
            &&& v.departed.contains_key(p.session_id) && there && !cell.drain_dead ==> step
                is Respond
            &&& v.departed.contains_key(p.session_id) && !there && elapsed_ms < 30_000 ==> step
                == SendStepView::Sleep(100)
            &&& v.departed.contains_key(p.session_id) && !there ==> !(step is Respond)
            &&& !v.departed.contains_key(p.session_id) ==> step == SendStepView::Reply(
                refused("session "@ + p.session_id + " not found"@),
            )
            &&& after == v
        }),
{
    let text = lossy_text(v.departed[p.session_id].output.data);
    let expected = p.pairs[i as int].expect@;
    holding_is_standing_between(lowercase_text(text), lowercase_text(expected));
}

/// Half a pair is refused before anything is sent, whatever the session.
pub proof fn half_a_pair_is_refused(v: ServerView, cmd: SessionInputCommand)
    requires
        (cmd.expect is Some) != (cmd.respond is Some) || (cmd.expect2 is Some) != (cmd.respond2
            is Some) || (cmd.expect3 is Some) != (cmd.respond3 is Some),
    ensures
        send_begun(v, cmd) is Err,
{
    let pairs = pairs_of(cmd);
    if (cmd.expect is Some) != (cmd.respond is Some) {
        assert(first_incomplete(pairs, 0));
    } else if (cmd.expect2 is Some) != (cmd.respond2 is Some) {
        assert(first_incomplete(pairs, 1));
    } else {
        assert(first_incomplete(pairs, 2));
    }
}

} // verus!

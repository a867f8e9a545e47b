//! The drain state machine behind `next_token`.
//!
//! One `next_token` call proceeds in two phases. While the slot's response
//! stream has not been created yet, the call waits, polling at a fixed
//! interval with no overall bound. Once the stream exists, the call enters
//! the drain phase: a polling loop bounded by [`DRAIN_POLL_BUDGET`]
//! iterations that reads the whole stream, hands out the decodable bytes
//! past the delivered offset as a chunk, and otherwise stops on the
//! completion marker, on truncation, or when the budget runs out.
//!
//! The decisions of both phases live here as a verified step function; the
//! driver performs the filesystem probes, reads and sleeps, and feeds each
//! observation back in. The three ways a stream can end are kept apart
//! internally ([`StreamEnd`]) even though the client is shown a single
//! end-of-stream signal for all of them.

use vstd::prelude::*;

use crate::server::OlianaServer;
use crate::utf8::{is_utf8, utf8_tail_valid, utf8_valid_from};

verus! {

/// Number of drain-phase polls one `next_token` call may spend before
/// giving up: 12 seconds' worth at 10 polls per second.
pub const DRAIN_POLL_BUDGET: usize = 120;

/// The bounded part of one `next_token` call's state: whether the response
/// stream has been seen yet, and how many drain polls are left.
pub struct NextTokenCall {
    /// True once the response stream was observed to exist; the unbounded
    /// wait phase is over.
    pub started: bool,
    /// Remaining drain-phase polls before the call gives up.
    pub polls_left: usize,
}

impl NextTokenCall {
    /// State at the start of one `next_token` call: still waiting, full
    /// budget.
    pub fn new() -> (r: Self)
        ensures
            !r.started,
            r.polls_left == DRAIN_POLL_BUDGET,
    {
        NextTokenCall { started: false, polls_left: DRAIN_POLL_BUDGET }
    }
}

/// What the driver observed at one poll of the slot store.
pub enum PollInput {
    /// The response stream does not exist yet.
    Missing,
    /// The response stream exists; `bytes` is its full content if the read
    /// succeeded, and `done` says whether the completion marker exists.
    Polled { bytes: Option<Vec<u8>>, done: bool },
}

/// Spec-level image of [`PollInput`].
pub enum SpecPollInput {
    Missing,
    Polled { bytes: Option<Seq<u8>>, done: bool },
}

impl View for PollInput {
    type V = SpecPollInput;

    open spec fn view(&self) -> SpecPollInput {
        match self {
            PollInput::Missing => SpecPollInput::Missing,
            PollInput::Polled { bytes, done } => SpecPollInput::Polled {
                bytes: match bytes {
                    Some(b) => Some(b@),
                    None => None,
                },
                done: *done,
            },
        }
    }
}

/// Why a stream ended. The client sees the same end-of-stream signal for
/// all three, but the causes are kept apart so a later refinement can
/// surface them without touching the polling loop.
#[derive(Clone, Copy, Debug, PartialEq, Eq, Structural)]
pub enum StreamEnd {
    /// The completion marker exists and everything durable was delivered.
    Completed,
    /// The response stream shrank below the delivered offset.
    Truncated,
    /// The drain budget ran out before the completion marker appeared.
    TimedOut,
}

/// What one poll decided.
#[derive(Debug)]
pub enum PollStep {
    /// Newly appended bytes, ready to hand to the client; always non-empty
    /// and well-formed UTF-8.
    Chunk(Vec<u8>),
    /// The stream ended; the client is shown "no more tokens".
    End(StreamEnd),
    /// Nothing to report yet: sleep one poll interval and poll again.
    Retry,
}

/// Spec-level image of [`PollStep`].
pub enum SpecPollStep {
    Chunk(Seq<u8>),
    End(StreamEnd),
    Retry,
}

impl View for PollStep {
    type V = SpecPollStep;

    open spec fn view(&self) -> SpecPollStep {
        match self {
            PollStep::Chunk(b) => SpecPollStep::Chunk(b@),
            PollStep::End(e) => SpecPollStep::End(*e),
            PollStep::Retry => SpecPollStep::Retry,
        }
    }
}

/// The machine state one poll acts on: the call's phase and budget together
/// with the session's delivered offset.
pub struct GwState {
    pub started: bool,
    pub offset: nat,
    pub polls: nat,
}

/// The machine state held in a session and a call.
pub open spec fn gw_state(server: OlianaServer, call: NextTokenCall) -> GwState {
    GwState {
        started: call.started,
        offset: server.generate_text_next_byte_i as nat,
        polls: call.polls_left as nat,
    }
}

/// The decision taken when a poll found no new complete data: stop at the
/// completion marker, stop when the budget is exhausted, otherwise sleep
/// and retry, spending one poll.
pub open spec fn spec_tail(st: GwState, done: bool) -> (SpecPollStep, GwState) {
    if done {
        (SpecPollStep::End(StreamEnd::Completed), st)
    } else if st.polls == 0 {
        (SpecPollStep::End(StreamEnd::TimedOut), st)
    } else {
        (SpecPollStep::Retry, GwState { polls: (st.polls - 1) as nat, ..st })
    }
}

/// One step of the `next_token` machine: the decision and the state after
/// it.
///
/// While the stream is missing and the call has not started, the machine
/// only ever retries, without spending budget: the wait phase is unbounded.
/// A successful read first checks for truncation, then tries to interpret
/// the bytes past the delivered offset; when they are well-formed UTF-8 the
/// offset advances to the stream's length, and if anything new was read it
/// is produced as a chunk. In every other case the poll falls through to
/// the marker/budget decision.
pub open spec fn spec_step(st: GwState, input: SpecPollInput) -> (SpecPollStep, GwState) {
    match input {
        SpecPollInput::Missing => {
            if !st.started {
                (SpecPollStep::Retry, st)
            } else {
                spec_tail(GwState { started: true, ..st }, false)
            }
        },
        SpecPollInput::Polled { bytes, done } => {
            let st1 = GwState { started: true, ..st };
            match bytes {
                Some(b) => {
                    if b.len() < st1.offset {
                        (SpecPollStep::End(StreamEnd::Truncated), st1)
                    } else if utf8_valid_from(b, st1.offset as int) {
                        let st2 = GwState { offset: b.len() as nat, ..st1 };
                        if b.len() > st1.offset {
                            (
                                SpecPollStep::Chunk(b.subrange(st1.offset as int, b.len() as int)),
                                st2,
                            )
                        } else {
                            spec_tail(st2, done)
                        }
                    } else {
                        spec_tail(st1, done)
                    }
                },
                None => spec_tail(st1, done),
            }
        },
    }
}

impl OlianaServer {
    /// One poll of the `next_token` machine, deciding from the driver's
    /// observation whether to yield a chunk, end the stream, or retry.
    /// Everything it does is fixed by [`spec_step`]; the session's nonce,
    /// workdir and endpoint are untouched.
    pub fn generate_text_next_token_poll(
        &mut self,
        call: &mut NextTokenCall,
        input: &PollInput,
    ) -> (r: PollStep)
        ensures
            ({
                let (d, st2) = spec_step(gw_state(*old(self), *old(call)), input@);
                &&& r@ == d
                &&& gw_state(*final(self), *final(call)) == st2
            }),
            final(self).text_input_nonce == old(self).text_input_nonce,
            final(self).ai_workdir_text == old(self).ai_workdir_text,
            final(self).client_endpoint == old(self).client_endpoint,
    {
        match input {
            PollInput::Missing => {
                if !call.started {
                    return PollStep::Retry;
                }
                self.poll_tail(call, false)
            },
            PollInput::Polled { bytes, done } => {
                call.started = true;
                match bytes {
                    Some(b) => {
                        let n = b.len();
                        let off = self.generate_text_next_byte_i;
                        if n < off {
                            return PollStep::End(StreamEnd::Truncated);
                        }
                        if utf8_tail_valid(b, off) {
                            self.generate_text_next_byte_i = n;
                            if n > off {
                                let mut chunk: Vec<u8> = Vec::new();
                                let mut j = off;
                                while j < n
                                    invariant
                                        off <= j <= n,
                                        n == b.len(),
                                        chunk@ == b@.subrange(off as int, j as int),
                                    decreases n - j,
                                {
                                    chunk.push(b[j]);
                                    proof {
                                        assert(b@.subrange(off as int, j as int).push(b@[j as int])
                                            =~= b@.subrange(off as int, j + 1));
                                    }
                                    j = j + 1;
                                }
                                return PollStep::Chunk(chunk);
                            }
                        }
                        self.poll_tail(call, *done)
                    },
                    None => self.poll_tail(call, *done),
                }
            },
        }
    }

    /// The marker/budget decision shared by every poll that produced no
    /// chunk.
    fn poll_tail(&mut self, call: &mut NextTokenCall, done: bool) -> (r: PollStep)
        ensures
            ({
                let (d, st2) = spec_tail(gw_state(*old(self), *old(call)), done);
                &&& r@ == d
                &&& gw_state(*final(self), *final(call)) == st2
            }),
            *final(self) == *old(self),
            final(call).started == old(call).started,
    {
        if done {
            PollStep::End(StreamEnd::Completed)
        } else if call.polls_left == 0 {
            PollStep::End(StreamEnd::TimedOut)
        } else {
            call.polls_left = call.polls_left - 1;
            PollStep::Retry
        }
    }
}

/// Converts a produced chunk into the string handed to the client.
///
/// Relies on `String::from_utf8`: on well-formed UTF-8 input it returns the
/// string holding exactly the characters those bytes encode, a value that
/// depends on the bytes alone; [`utf8_chars`] names that decoding.
#[verifier::external_body]
fn chunk_into_string(bytes: Vec<u8>) -> (r: String)
    requires
        is_utf8(bytes@),
    ensures
        r@ == utf8_chars(bytes@),
{
    match String::from_utf8(bytes) {
        Ok(s) => s,
        Err(_) => String::new(),
    }
}

pub uninterp spec fn utf8_chars(bytes: Seq<u8>) -> Seq<char>;

/// What the streaming API hands the client for one poll decision: the
/// token string for a produced chunk, nothing for an end or a retry. The
/// chunks the machine produces are always well-formed UTF-8, which is what
/// the precondition asks of a chunk passed in.
pub fn into_token(step: PollStep) -> (r: Option<String>)
    requires
        step@ matches SpecPollStep::Chunk(c) ==> is_utf8(c),
    ensures
        match step@ {
            SpecPollStep::Chunk(c) => r matches Some(s) && s@ == utf8_chars(c),
            _ => r is None,
        },
{
    match step {
        PollStep::Chunk(b) => Some(chunk_into_string(b)),
        PollStep::End(_) => None,
        PollStep::Retry => None,
    }
}

} // verus!

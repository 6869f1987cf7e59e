//! Per-event decisions of the Log Console session.
//!
//! The session runs two cooperating activities over one channel: a log
//! reader that polls frames, and an input sender that forwards operator
//! lines. Both share one [`EchoState`]. Everything either activity
//! decides — what a poll outcome means, what bytes a command line sends,
//! when suppression starts — is taken here; the transfers, sleeps and
//! line reads happen outside the library.

use crate::echo::{feed_output, feed_state, frame_text, EchoState, CR};
use crate::errors::TransportError;
use crate::protocol::{console_command_request, console_command_request_spec, ControlRequest};
use crate::shell::is_space;
use vstd::prelude::*;

verus! {

/// What the log activity must do after one poll.
#[derive(Debug)]
pub enum LogStep {
    /// Print these bytes (possibly none) and poll again.
    Print(Vec<u8>),
    /// Nothing to report now: wait briefly, then poll again.
    Wait,
    /// The stream cannot be trusted any more: end the session with this
    /// fatal error.
    EndSession(TransportError),
}

/// Decides one poll outcome. A frame is decoded through the shared echo
/// state and its visible bytes are handed back for printing; a timeout
/// merely waits; any other failure ends the session, and the state is
/// left untouched so nothing is mistaken for consumed echo.
pub fn log_poll_step(st: &mut EchoState, res: Result<Vec<u8>, TransportError>) -> (r: LogStep)
    ensures
        res is Ok ==> {
            &&& *final(st) == feed_state(*old(st), frame_text(res->Ok_0@))
            &&& r matches LogStep::Print(out) && out@ == feed_output(
                *old(st),
                frame_text(res->Ok_0@),
            )
        },
        res matches Err(e) ==> *final(st) == *old(st) && if e is Timeout {
            r is Wait
        } else {
            r matches LogStep::EndSession(e2) && e2 == e
        },
{
    match res {
        Ok(frame) => LogStep::Print(st.feed_frame(frame.as_slice())),
        Err(e) => {
            if crate::errors::log_error_is_fatal(&e) {
                LogStep::EndSession(e)
            } else {
                LogStep::Wait
            }
        },
    }
}

/// A command line with trailing whitespace removed.
pub open spec fn trim_trailing(s: Seq<u8>) -> Seq<u8>
    decreases s.len(),
{
    if s.len() > 0 && is_space(s.last()) {
        trim_trailing(s.drop_last())
    } else {
        s
    }
}

/// A scan from the end that stopped at position `e` — everything from
/// there on is whitespace, the byte before is not — has found the trim.
proof fn lemma_trim_from_scan(s: Seq<u8>, e: int)
    requires
        0 <= e <= s.len(),
        forall|j: int| e <= j < s.len() ==> is_space(s[j]),
        e > 0 ==> !is_space(s[e - 1]),
    ensures
        trim_trailing(s) == s.take(e),
    decreases s.len(),
{
    if e == s.len() {
        if s.len() > 0 {
            assert(!is_space(s.last()));
        }
        assert(s.take(e) =~= s);
    } else {
        assert(is_space(s.last()));
        assert(s.drop_last() =~= s.take(s.len() - 1));
        assert forall|j: int| e <= j < s.drop_last().len() implies is_space(s.drop_last()[j]) by {
            assert(s.drop_last()[j] == s[j]);
        }
        lemma_trim_from_scan(s.drop_last(), e);
        assert(s.drop_last().take(e) =~= s.take(e));
    }
}

/// The payload an operator line sends to the firmware: the line with
/// trailing whitespace trimmed, terminated by a single carriage return.
pub open spec fn command_payload(line: Seq<u8>) -> Seq<u8> {
    trim_trailing(line).push(CR)
}

/// Prepares one operator line for sending: marks the echo state as
/// suppressing — before the command goes out, so its echo cannot slip
/// past — and returns the payload bytes together with the request that
/// carries them. The line must leave room for the terminating carriage
/// return in the request's sixteen-bit length field.
pub fn prepare_command(st: &mut EchoState, line: &[u8]) -> (r: (Vec<u8>, ControlRequest))
    requires
        line@.len() < 0xffff,
    ensures
        final(st).suppressing,
        final(st).last_byte_was_cr == old(st).last_byte_was_cr,
        r.0@ == command_payload(line@),
        r.1 == console_command_request_spec(r.0@.len() as u16),
{
    st.begin_command();
    let mut end: usize = line.len();
    while end > 0 && crate::shell::is_space_byte(line[end - 1])
        invariant
            0 <= end <= line@.len(),
            forall|j: int| end <= j < line@.len() ==> is_space(line@[j]),
        decreases end,
    {
        end = end - 1;
    }
    proof {
        lemma_trim_from_scan(line@, end as int);
    }
    let mut payload: Vec<u8> = Vec::new();
    let mut i: usize = 0;
    while i < end
        invariant
            0 <= i <= end <= line@.len(),
            payload@ == line@.take(i as int),
        decreases end - i,
    {
        payload.push(line[i]);
        proof {
            assert(line@.take(i as int).push(line@[i as int]) =~= line@.take(i as int + 1));
        }
        i = i + 1;
    }
    payload.push(CR);
    let req = console_command_request(payload.len() as u16);
    (payload, req)
}

} // verus!

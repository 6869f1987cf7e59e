//! Echo suppression for the streamed log.
//!
//! When a console command is sent, the firmware echoes the typed
//! characters back into the log stream, terminated by a carriage-return /
//! line-feed pair, before any further real log text. The decoder here
//! hides that echo: while `suppressing` is set it drops every byte up to
//! and including the first CR LF pair — even one split across two poll
//! frames — and passes everything else through unchanged.
//!
//! The decoder is incremental: it carries its two flags across frames, so
//! the decision for a byte depends only on the bytes that came before it
//! in the logical stream, never on frame boundaries.

use vstd::prelude::*;

verus! {

/// Carriage return: the byte that may open an echo terminator.
pub const CR: u8 = 0x0d;

/// Line feed: the byte that closes an echo terminator after a CR.
pub const LF: u8 = 0x0a;

/// State shared between the command-sending path (which sets
/// `suppressing`) and the log-reading path (which clears it when the echo
/// terminator has been consumed). `last_byte_was_cr` carries terminator
/// detection across frame boundaries.
#[derive(Clone, Copy, PartialEq, Eq, Structural, Debug)]
pub struct EchoState {
    pub suppressing: bool,
    pub last_byte_was_cr: bool,
}

/// The state a fresh session starts in: nothing suppressed, no carried CR.
pub open spec fn initial_echo_state() -> EchoState {
    EchoState { suppressing: false, last_byte_was_cr: false }
}

/// How one byte advances the state: a LF that follows a CR ends
/// suppression; `last_byte_was_cr` always tracks the byte just seen.
pub open spec fn step_state(st: EchoState, b: u8) -> EchoState {
    EchoState {
        suppressing: if st.suppressing && b == LF && st.last_byte_was_cr {
            false
        } else {
            st.suppressing
        },
        last_byte_was_cr: b == CR,
    }
}

/// What one byte contributes to the printed output: itself when not
/// suppressing, nothing otherwise (the terminator is swallowed too).
pub open spec fn step_output(st: EchoState, b: u8) -> Seq<u8> {
    if st.suppressing {
        seq![]
    } else {
        seq![b]
    }
}

/// The state after feeding a whole byte sequence.
pub open spec fn feed_state(st: EchoState, s: Seq<u8>) -> EchoState
    decreases s.len(),
{
    if s.len() == 0 {
        st
    } else {
        feed_state(step_state(st, s[0]), s.skip(1))
    }
}

/// The bytes printed while feeding a whole byte sequence, in order.
pub open spec fn feed_output(st: EchoState, s: Seq<u8>) -> Seq<u8>
    decreases s.len(),
{
    if s.len() == 0 {
        seq![]
    } else {
        step_output(st, s[0]) + feed_output(step_state(st, s[0]), s.skip(1))
    }
}

/// The number of bytes of a poll frame that carry log text: everything
/// before the first NUL, or the whole frame when no NUL is present.
pub open spec fn valid_len(s: Seq<u8>) -> int
    decreases s.len(),
{
    if s.len() == 0 {
        0
    } else if s[0] == 0 {
        0
    } else {
        1 + valid_len(s.skip(1))
    }
}

/// The log text a poll frame carries: its bytes up to the first NUL.
pub open spec fn frame_text(s: Seq<u8>) -> Seq<u8> {
    s.take(valid_len(s))
}

/// The valid length never exceeds the frame.
pub proof fn lemma_valid_len_bounds(s: Seq<u8>)
    ensures
        0 <= valid_len(s) <= s.len(),
    decreases s.len(),
{
    if s.len() > 0 && s[0] != 0 {
        lemma_valid_len_bounds(s.skip(1));
    }
}

/// The valid length is the position of the first NUL: every byte before
/// it is non-zero, and the byte at it (when inside the frame) is zero.
pub proof fn lemma_valid_len_characterises(s: Seq<u8>)
    ensures
        0 <= valid_len(s) <= s.len(),
        forall|j: int| 0 <= j < valid_len(s) ==> s[j] != 0,
        valid_len(s) < s.len() ==> s[valid_len(s)] == 0,
    decreases s.len(),
{
    lemma_valid_len_bounds(s);
    if s.len() > 0 && s[0] != 0 {
        lemma_valid_len_characterises(s.skip(1));
        assert forall|j: int| 0 <= j < valid_len(s) implies s[j] != 0 by {
            if j > 0 {
                assert(s.skip(1)[j - 1] == s[j]);
            }
        }
        if valid_len(s) < s.len() {
            assert(s.skip(1)[valid_len(s) - 1] == s[valid_len(s)]);
        }
    }
}

/// And conversely: a scan that saw `i` non-zero bytes and then either a
/// zero byte or the end of the frame has found the valid length.
pub proof fn lemma_valid_len_from_scan(s: Seq<u8>, i: int)
    requires
        0 <= i <= s.len(),
        forall|j: int| 0 <= j < i ==> s[j] != 0,
        i < s.len() ==> s[i] == 0,
    ensures
        valid_len(s) == i,
    decreases i,
{
    if s.len() == 0 {
    } else if i == 0 {
    } else {
        assert(s[0] != 0);
        assert forall|j: int| 0 <= j < i - 1 implies s.skip(1)[j] != 0 by {
            assert(s.skip(1)[j] == s[j + 1]);
        }
        if i - 1 < s.skip(1).len() {
            assert(s.skip(1)[i - 1] == s[i]);
        }
        lemma_valid_len_from_scan(s.skip(1), i - 1);
    }
}

impl EchoState {
    /// A fresh session's state.
    pub fn new() -> (r: EchoState)
        ensures
            r == initial_echo_state(),
    {
        EchoState { suppressing: false, last_byte_was_cr: false }
    }

    /// Marks the start of a command echo. The command-sending path calls
    /// this before the command goes out, so the echo cannot race ahead of
    /// the flag.
    pub fn begin_command(&mut self)
        ensures
            final(self).suppressing,
            final(self).last_byte_was_cr == old(self).last_byte_was_cr,
    {
        self.suppressing = true;
    }

    /// Feeds a run of log bytes through the decoder and returns the bytes
    /// to print, in their original order.
    pub fn feed(&mut self, bytes: &[u8]) -> (out: Vec<u8>)
        ensures
            *final(self) == feed_state(*old(self), bytes@),
            out@ == feed_output(*old(self), bytes@),
    {
        let ghost st0 = *self;
        let mut out: Vec<u8> = Vec::new();
        let mut i: usize = 0;
        proof {
            assert(bytes@.skip(0) =~= bytes@);
            assert(out@ + feed_output(st0, bytes@) =~= feed_output(st0, bytes@));
        }
        while i < bytes.len()
            invariant
                0 <= i <= bytes@.len(),
                feed_state(st0, bytes@) == feed_state(*self, bytes@.skip(i as int)),
                feed_output(st0, bytes@) == out@ + feed_output(*self, bytes@.skip(i as int)),
            decreases bytes@.len() - i,
        {
            let ghost rest = bytes@.skip(i as int);
            let b = bytes[i];
            proof {
                assert(rest[0] == bytes@[i as int]);
                assert(rest.skip(1) =~= bytes@.skip(i as int + 1));
            }
            if self.suppressing {
                if b == LF && self.last_byte_was_cr {
                    self.suppressing = false;
                }
            } else {
                out.push(b);
            }
            self.last_byte_was_cr = b == CR;
            i = i + 1;
        }
        proof {
            assert(bytes@.skip(bytes@.len() as int) =~= Seq::<u8>::empty());
            assert(out@ + Seq::<u8>::empty() =~= out@);
        }
        out
    }

    /// Handles one full poll frame: truncates it at the first NUL and
    /// feeds the remaining text through the decoder.
    pub fn feed_frame(&mut self, frame: &[u8]) -> (out: Vec<u8>)
        ensures
            *final(self) == feed_state(*old(self), frame_text(frame@)),
            out@ == feed_output(*old(self), frame_text(frame@)),
    {
        let n = frame_valid_len(frame);
        proof {
            lemma_valid_len_bounds(frame@);
        }
        let text = &frame[0..n];
        proof {
            assert(text@ =~= frame_text(frame@));
        }
        self.feed(text)
    }
}

/// The number of leading bytes of `frame` that carry log text: the
/// position of the first NUL, or the whole length when no NUL occurs.
pub fn frame_valid_len(frame: &[u8]) -> (r: usize)
    ensures
        r == valid_len(frame@),
{
    let mut i: usize = 0;
    while i < frame.len()
        invariant
            0 <= i <= frame@.len(),
            forall|j: int| 0 <= j < i ==> frame@[j] != 0,
        decreases frame@.len() - i,
    {
        if frame[i] == 0 {
            proof {
                lemma_valid_len_from_scan(frame@, i as int);
            }
            return i;
        }
        i = i + 1;
    }
    proof {
        lemma_valid_len_from_scan(frame@, i as int);
    }
    i
}

/// Feeding a concatenation is feeding its parts in turn: the state
/// threads through, and the outputs concatenate. This is what makes the
/// frame-by-frame decoder equal to a decoder run over the whole stream.
pub proof fn lemma_feed_concat(st: EchoState, a: Seq<u8>, b: Seq<u8>)
    ensures
        feed_state(st, a + b) == feed_state(feed_state(st, a), b),
        feed_output(st, a + b) == feed_output(st, a) + feed_output(feed_state(st, a), b),
    decreases a.len(),
{
    if a.len() == 0 {
        assert(a + b =~= b);
        assert(feed_output(st, a) + feed_output(feed_state(st, a), b) =~= feed_output(st, b));
    } else {
        let st1 = step_state(st, a[0]);
        assert((a + b)[0] == a[0]);
        assert((a + b).skip(1) =~= a.skip(1) + b);
        lemma_feed_concat(st1, a.skip(1), b);
        assert(feed_output(st, a + b) =~= feed_output(st, a) + feed_output(feed_state(st, a), b));
    }
}

/// While suppression is off it stays off, and every byte fed is printed
/// unchanged and in order; the carried-CR flag ends up describing the
/// last byte seen.
pub proof fn lemma_feed_passthrough(st: EchoState, s: Seq<u8>)
    requires
        !st.suppressing,
    ensures
        feed_output(st, s) == s,
        !feed_state(st, s).suppressing,
        feed_state(st, s).last_byte_was_cr == if s.len() > 0 {
            s.last() == CR
        } else {
            st.last_byte_was_cr
        },
    decreases s.len(),
{
    if s.len() > 0 {
        let st1 = step_state(st, s[0]);
        lemma_feed_passthrough(st1, s.skip(1));
        assert(feed_output(st, s) =~= s);
        if s.len() > 1 {
            assert(s.skip(1).last() == s.last());
        }
    }
}

/// Position of the first echo terminator in `s`: the first LF that
/// follows a CR, where a CR carried in from an earlier frame counts for
/// position zero. `None` when no such pair completes within `s`.
pub open spec fn terminator_pos(last_cr: bool, s: Seq<u8>) -> Option<int>
    decreases s.len(),
{
    if s.len() == 0 {
        None
    } else if last_cr && s[0] == LF {
        Some(0)
    } else {
        match terminator_pos(s[0] == CR, s.skip(1)) {
            None => None,
            Some(i) => Some(i + 1),
        }
    }
}

/// While suppressing, the decoder drops every byte up to and including
/// the first CR LF pair, clears suppression exactly when that pair has
/// been fully consumed, and from there on behaves as a fresh
/// non-suppressing decoder. When no pair completes, everything is dropped
/// and suppression persists.
pub proof fn lemma_feed_suppression(st: EchoState, s: Seq<u8>)
    requires
        st.suppressing,
    ensures
        match terminator_pos(st.last_byte_was_cr, s) {
            None => {
                &&& feed_output(st, s) == Seq::<u8>::empty()
                &&& feed_state(st, s).suppressing
            },
            Some(i) => {
                &&& 0 <= i < s.len()
                &&& s[i] == LF
                &&& feed_output(st, s.take(i + 1)) == Seq::<u8>::empty()
                &&& feed_state(st, s.take(i + 1)) == initial_echo_state()
                &&& forall|j: int| 0 <= j <= i ==> feed_state(st, s.take(j)).suppressing
                &&& feed_output(st, s) == feed_output(initial_echo_state(), s.skip(i + 1))
            },
        },
    decreases s.len(),
{
    if s.len() == 0 {
    } else {
        let b = s[0];
        let st1 = step_state(st, b);
        assert(step_output(st, b) =~= Seq::<u8>::empty());
        if st.last_byte_was_cr && b == LF {
            // The pair completes at position 0.
            assert(st1 == initial_echo_state());
            let t1 = s.take(1);
            assert(t1.len() == 1 && t1[0] == b);
            assert(t1.skip(1) =~= Seq::<u8>::empty());
            assert(feed_state(st, t1) == feed_state(st1, t1.skip(1)));
            assert(feed_output(st, t1) == step_output(st, t1[0]) + feed_output(
                step_state(st, t1[0]),
                t1.skip(1),
            ));
            assert(feed_output(st, t1) =~= Seq::<u8>::empty());
            assert(feed_output(st, s) =~= feed_output(initial_echo_state(), s.skip(1)));
            assert forall|j: int| 0 <= j <= 0 implies feed_state(st, s.take(j)).suppressing by {
                assert(s.take(0) =~= Seq::<u8>::empty());
            }
        } else {
            assert(st1.suppressing);
            lemma_feed_suppression(st1, s.skip(1));
            match terminator_pos(st.last_byte_was_cr, s) {
                None => {
                    assert(feed_output(st, s) =~= Seq::<u8>::empty());
                },
                Some(i) => {
                    let t = s.skip(1);
                    assert(terminator_pos(st1.last_byte_was_cr, t) == Some(i - 1));
                    assert(t[i - 1] == s[i]);
                    // Relate take/skip on s to take/skip on its tail.
                    assert(s.take(i + 1)[0] == b);
                    assert(s.take(i + 1).skip(1) =~= t.take(i));
                    assert(feed_state(st, s.take(i + 1)) == feed_state(st1, t.take(i)));
                    assert(feed_output(st, s.take(i + 1)) =~= feed_output(st1, t.take(i)));
                    assert(s.skip(i + 1) =~= t.skip(i));
                    assert(feed_output(st, s) =~= feed_output(st1, t));
                    assert forall|j: int| 0 <= j <= i implies feed_state(st, s.take(j)).suppressing by {
                        if j == 0 {
                            assert(s.take(0) =~= Seq::<u8>::empty());
                        } else {
                            assert(s.take(j)[0] == b);
                            assert(s.take(j).skip(1) =~= t.take(j - 1));
                            assert(feed_state(st, s.take(j)) == feed_state(st1, t.take(j - 1)));
                        }
                    }
                },
            }
        }
    }
}

/// The texts of a sequence of poll frames — each truncated at its first
/// NUL — concatenated in arrival order: the logical log stream.
pub open spec fn frames_text(frames: Seq<Seq<u8>>) -> Seq<u8>
    decreases frames.len(),
{
    if frames.len() == 0 {
        seq![]
    } else {
        frame_text(frames[0]) + frames_text(frames.skip(1))
    }
}

/// The state of a decoder that handled a sequence of frames, one
/// `feed_frame` call each.
pub open spec fn frames_state(st: EchoState, frames: Seq<Seq<u8>>) -> EchoState
    decreases frames.len(),
{
    if frames.len() == 0 {
        st
    } else {
        frames_state(feed_state(st, frame_text(frames[0])), frames.skip(1))
    }
}

/// The bytes such a decoder printed over the whole sequence, in order.
pub open spec fn frames_output(st: EchoState, frames: Seq<Seq<u8>>) -> Seq<u8>
    decreases frames.len(),
{
    if frames.len() == 0 {
        seq![]
    } else {
        feed_output(st, frame_text(frames[0])) + frames_output(
            feed_state(st, frame_text(frames[0])),
            frames.skip(1),
        )
    }
}

/// Frame boundaries are invisible to the decoder: handling frames one by
/// one is the same as feeding the concatenated stream once.
pub proof fn lemma_frames_concat(st: EchoState, frames: Seq<Seq<u8>>)
    ensures
        frames_state(st, frames) == feed_state(st, frames_text(frames)),
        frames_output(st, frames) == feed_output(st, frames_text(frames)),
    decreases frames.len(),
{
    if frames.len() == 0 {
        assert(frames_text(frames) =~= Seq::<u8>::empty());
    } else {
        let head = frame_text(frames[0]);
        let st1 = feed_state(st, head);
        lemma_frames_concat(st1, frames.skip(1));
        lemma_feed_concat(st, head, frames_text(frames.skip(1)));
    }
}

/// While suppression is off, a sequence of frames prints exactly the
/// concatenation of their texts — every byte of every frame up to its
/// first NUL, in order, and nothing after a NUL — and suppression stays
/// off.
pub proof fn lemma_frames_passthrough(st: EchoState, frames: Seq<Seq<u8>>)
    requires
        !st.suppressing,
    ensures
        frames_output(st, frames) == frames_text(frames),
        !frames_state(st, frames).suppressing,
{
    lemma_frames_concat(st, frames);
    lemma_feed_passthrough(st, frames_text(frames));
}

/// While suppressing, a sequence of frames prints nothing up to and
/// including the first CR LF pair of their concatenated texts, wherever
/// the frame boundaries fall; once the pair is consumed the decoder
/// continues as a fresh non-suppressing one, and without a pair it prints
/// nothing at all and keeps suppressing.
pub proof fn lemma_frames_suppression(st: EchoState, frames: Seq<Seq<u8>>)
    requires
        st.suppressing,
    ensures
        match terminator_pos(st.last_byte_was_cr, frames_text(frames)) {
            None => {
                &&& frames_output(st, frames) == Seq::<u8>::empty()
                &&& frames_state(st, frames).suppressing
            },
            Some(i) => {
                &&& frames_output(st, frames) == feed_output(
                    initial_echo_state(),
                    frames_text(frames).skip(i + 1),
                )
                &&& !frames_state(st, frames).suppressing
            },
        },
{
    lemma_frames_concat(st, frames);
    lemma_feed_suppression(st, frames_text(frames));
    let s = frames_text(frames);
    if let Some(i) = terminator_pos(st.last_byte_was_cr, s) {
        lemma_feed_concat(st, s.take(i + 1), s.skip(i + 1));
        assert(s.take(i + 1) + s.skip(i + 1) =~= s);
        lemma_feed_passthrough(initial_echo_state(), s.skip(i + 1));
    }
}

} // verus!

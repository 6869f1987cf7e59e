//! The register shell's command grammar.
//!
//! One command per line, whitespace-separated tokens: `r <addr> <offset>`
//! reads a register, `w <addr> <offset> <value>` writes one, and `exit`,
//! `quit` or `q` leaves the shell. Command letters are case-sensitive;
//! the numeric tokens are hexadecimal as in [`crate::hex`]. The write
//! value is parsed as a sixteen-bit number and truncated to its low eight
//! bits. Anything else is an invalid command, reported and never fatal.

use crate::hex::{parse_hex_u16, parsed_hex, parses_as_hex};
use vstd::prelude::*;

verus! {

/// Whether `b` separates tokens: space, tab, carriage return or line feed.
pub open spec fn is_space(b: u8) -> bool {
    b == 0x20 || b == 0x09 || b == 0x0d || b == 0x0a
}

/// One parsed shell command.
#[derive(Clone, Copy, PartialEq, Eq, Structural, Debug)]
pub enum Command {
    /// `r <addr> <offset>`: read a register.
    Read { addr: u16, offset: u16 },
    /// `w <addr> <offset> <value>`: write a register.
    Write { addr: u16, offset: u16, value: u8 },
    /// `exit`, `quit` or `q`: leave the shell cleanly.
    Exit,
    /// Anything else: report usage and continue.
    Invalid,
}

/// How one byte advances the tokenizer: a separator closes the token
/// under construction (when there is one); any other byte extends it.
pub open spec fn tok_step(ts: Seq<Seq<u8>>, cur: Seq<u8>, b: u8) -> (Seq<Seq<u8>>, Seq<u8>) {
    if is_space(b) {
        if cur.len() > 0 {
            (ts.push(cur), seq![])
        } else {
            (ts, cur)
        }
    } else {
        (ts, cur.push(b))
    }
}

/// The tokenizer run over a whole byte sequence.
pub open spec fn tok_fold(ts: Seq<Seq<u8>>, cur: Seq<u8>, s: Seq<u8>) -> (Seq<Seq<u8>>, Seq<u8>)
    decreases s.len(),
{
    if s.len() == 0 {
        (ts, cur)
    } else {
        let n = tok_step(ts, cur, s[0]);
        tok_fold(n.0, n.1, s.skip(1))
    }
}

/// The whitespace-separated tokens of a line, in order.
pub open spec fn tokens(s: Seq<u8>) -> Seq<Seq<u8>> {
    let a = tok_fold(seq![], seq![], s);
    if a.1.len() > 0 {
        a.0.push(a.1)
    } else {
        a.0
    }
}

/// The byte sequence of the word `exit`.
pub open spec fn exit_word() -> Seq<u8> {
    seq![0x65u8, 0x78u8, 0x69u8, 0x74u8]
}

/// The byte sequence of the word `quit`.
pub open spec fn quit_word() -> Seq<u8> {
    seq![0x71u8, 0x75u8, 0x69u8, 0x74u8]
}

/// The byte sequence of the word `q`.
pub open spec fn q_word() -> Seq<u8> {
    seq![0x71u8]
}

/// The command a line parses to: the whole grammar of the shell.
pub open spec fn parse_command_spec(line: Seq<u8>) -> Command {
    let ts = tokens(line);
    if ts.len() == 1 && (ts[0] == exit_word() || ts[0] == quit_word() || ts[0] == q_word()) {
        Command::Exit
    } else if ts.len() == 3 && ts[0] == seq![0x72u8] && parses_as_hex(ts[1]) && parses_as_hex(
        ts[2],
    ) {
        Command::Read { addr: parsed_hex(ts[1]), offset: parsed_hex(ts[2]) }
    } else if ts.len() == 4 && ts[0] == seq![0x77u8] && parses_as_hex(ts[1]) && parses_as_hex(
        ts[2],
    ) && parses_as_hex(ts[3]) {
        Command::Write {
            addr: parsed_hex(ts[1]),
            offset: parsed_hex(ts[2]),
            value: parsed_hex(ts[3]) as u8,
        }
    } else {
        Command::Invalid
    }
}

/// Whether `b` separates tokens.
pub fn is_space_byte(b: u8) -> (r: bool)
    ensures
        r == is_space(b),
{
    b == 0x20 || b == 0x09 || b == 0x0d || b == 0x0a
}

/// Splits a line into its whitespace-separated tokens.
pub fn tokenize(line: &[u8]) -> (r: Vec<Vec<u8>>)
    ensures
        r.deep_view() == tokens(line@),
{
    let mut out: Vec<Vec<u8>> = Vec::new();
    let mut cur: Vec<u8> = Vec::new();
    let mut i: usize = 0;
    proof {
        assert(line@.skip(0) =~= line@);
        assert(out.deep_view() =~= Seq::<Seq<u8>>::empty());
    }
    while i < line.len()
        invariant
            0 <= i <= line@.len(),
            tok_fold(seq![], seq![], line@) == tok_fold(out.deep_view(), cur@, line@.skip(i as int)),
        decreases line@.len() - i,
    {
        let ghost rest = line@.skip(i as int);
        let ghost ts0 = out.deep_view();
        let ghost cur0 = cur@;
        proof {
            assert(rest[0] == line@[i as int]);
            assert(rest.skip(1) =~= line@.skip(i as int + 1));
        }
        let b = line[i];
        if is_space_byte(b) {
            if cur.len() > 0 {
                out.push(cur);
                cur = Vec::new();
                proof {
                    assert(out.deep_view() =~~= ts0.push(cur0));
                    assert(cur@ =~= Seq::<u8>::empty());
                }
            }
        } else {
            cur.push(b);
        }
        proof {
            assert((out.deep_view(), cur@) == tok_step(ts0, cur0, rest[0]));
        }
        i = i + 1;
    }
    proof {
        assert(line@.skip(line@.len() as int) =~= Seq::<u8>::empty());
    }
    if cur.len() > 0 {
        let ghost ts0 = out.deep_view();
        let ghost cur0 = cur@;
        out.push(cur);
        proof {
            assert(out.deep_view() =~~= ts0.push(cur0));
        }
    }
    out
}

/// Whether a token is exactly the single byte `b0`.
fn is_single(t: &[u8], b0: u8) -> (r: bool)
    ensures
        r == (t@ == seq![b0]),
{
    if t.len() == 1 && t[0] == b0 {
        proof {
            assert(t@ =~= seq![b0]);
        }
        true
    } else {
        false
    }
}

/// Whether a token is exactly the four bytes given.
fn is_word4(t: &[u8], b0: u8, b1: u8, b2: u8, b3: u8) -> (r: bool)
    ensures
        r == (t@ == seq![b0, b1, b2, b3]),
{
    if t.len() == 4 && t[0] == b0 && t[1] == b1 && t[2] == b2 && t[3] == b3 {
        proof {
            assert(t@ =~= seq![b0, b1, b2, b3]);
        }
        true
    } else {
        false
    }
}

/// Parses one line of shell input into a command.
pub fn parse_command(line: &[u8]) -> (r: Command)
    ensures
        r == parse_command_spec(line@),
{
    let toks = tokenize(line);
    let ghost ts = tokens(line@);
    proof {
        assert forall|k: int|
            0 <= k < toks@.len() implies toks@[k]@ == #[trigger] toks.deep_view()[k] by {
            assert(toks@[k]@ =~= toks@[k].deep_view());
        }
    }
    if toks.len() == 1 {
        let t0 = &toks[0];
        if is_word4(t0.as_slice(), 0x65, 0x78, 0x69, 0x74) || is_word4(
            t0.as_slice(),
            0x71,
            0x75,
            0x69,
            0x74,
        ) || is_single(t0.as_slice(), 0x71) {
            return Command::Exit;
        }
        return Command::Invalid;
    }
    if toks.len() == 3 {
        if is_single(toks[0].as_slice(), 0x72) {
            if let Some(addr) = parse_hex_u16(toks[1].as_slice()) {
                if let Some(offset) = parse_hex_u16(toks[2].as_slice()) {
                    return Command::Read { addr, offset };
                }
            }
        }
        return Command::Invalid;
    }
    if toks.len() == 4 {
        if is_single(toks[0].as_slice(), 0x77) {
            if let Some(addr) = parse_hex_u16(toks[1].as_slice()) {
                if let Some(offset) = parse_hex_u16(toks[2].as_slice()) {
                    if let Some(value) = parse_hex_u16(toks[3].as_slice()) {
                        return Command::Write { addr, offset, value: value as u8 };
                    }
                }
            }
        }
        return Command::Invalid;
    }
    Command::Invalid
}

} // verus!

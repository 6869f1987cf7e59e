//! Hexadecimal parsing and printing.
//!
//! Numeric tokens — register-shell arguments and the command-line VID and
//! PID — are hexadecimal with an optional `0x`/`0X` prefix; digits are
//! case-insensitive. An empty token, a non-hex digit, or a value that
//! does not fit in sixteen bits is a parse error. Register bytes are
//! printed back as two upper-case hex digits each.

use vstd::prelude::*;

verus! {

/// Whether `b` is an ASCII hexadecimal digit (either case).
pub open spec fn is_hex_digit(b: u8) -> bool {
    (0x30 <= b && b <= 0x39) || (0x41 <= b && b <= 0x46) || (0x61 <= b && b <= 0x66)
}

/// The numeric value of a hexadecimal digit.
pub open spec fn hex_digit_value(b: u8) -> nat {
    if 0x30 <= b && b <= 0x39 {
        (b - 0x30) as nat
    } else if 0x41 <= b && b <= 0x46 {
        (b - 0x41 + 10) as nat
    } else if 0x61 <= b && b <= 0x66 {
        (b - 0x61 + 10) as nat
    } else {
        0
    }
}

/// The value of a digit string read left to right into an accumulator.
pub open spec fn hex_value_from(acc: nat, s: Seq<u8>) -> nat
    decreases s.len(),
{
    if s.len() == 0 {
        acc
    } else {
        hex_value_from(acc * 16 + hex_digit_value(s[0]), s.skip(1))
    }
}

/// The numeric value of a hexadecimal digit string.
pub open spec fn hex_value(s: Seq<u8>) -> nat {
    hex_value_from(0, s)
}

/// The token with a single leading `0x` or `0X` removed, when present.
pub open spec fn strip_hex_prefix(s: Seq<u8>) -> Seq<u8> {
    if s.len() >= 2 && s[0] == 0x30 && (s[1] == 0x78 || s[1] == 0x58) {
        s.skip(2)
    } else {
        s
    }
}

/// Whether a digit string (already stripped of its prefix) is a valid
/// sixteen-bit hexadecimal token: non-empty, all hex digits, value in
/// range.
pub open spec fn hex_token_ok(s: Seq<u8>) -> bool {
    &&& s.len() > 0
    &&& forall|i: int| 0 <= i < s.len() ==> is_hex_digit(s[i])
    &&& hex_value(s) <= 0xffff
}

/// Whether a raw token parses as a sixteen-bit hexadecimal number.
pub open spec fn parses_as_hex(s: Seq<u8>) -> bool {
    hex_token_ok(strip_hex_prefix(s))
}

/// The number a raw token parses to, when it parses.
pub open spec fn parsed_hex(s: Seq<u8>) -> u16 {
    hex_value(strip_hex_prefix(s)) as u16
}

/// Reading further digits never shrinks the accumulated value.
proof fn lemma_hex_value_from_monotone(acc: nat, s: Seq<u8>)
    ensures
        hex_value_from(acc, s) >= acc,
    decreases s.len(),
{
    if s.len() > 0 {
        lemma_hex_value_from_monotone(acc * 16 + hex_digit_value(s[0]), s.skip(1));
    }
}

/// The numeric value of one ASCII hex digit, or `None` for any other byte.
pub fn hex_digit(b: u8) -> (r: Option<u8>)
    ensures
        r is Some <==> is_hex_digit(b),
        r is Some ==> r->0 == hex_digit_value(b),
{
    if 0x30 <= b && b <= 0x39 {
        Some(b - 0x30)
    } else if 0x41 <= b && b <= 0x46 {
        Some(b - 0x41 + 10)
    } else if 0x61 <= b && b <= 0x66 {
        Some(b - 0x61 + 10)
    } else {
        None
    }
}

/// Parses a hexadecimal token with an optional `0x`/`0X` prefix into a
/// sixteen-bit number. Returns `None` exactly when the token (after the
/// prefix) is empty, holds a non-hex byte, or exceeds `0xffff`.
pub fn parse_hex_u16(token: &[u8]) -> (r: Option<u16>)
    ensures
        r is Some <==> parses_as_hex(token@),
        r is Some ==> r->0 == parsed_hex(token@),
{
    let start: usize = if token.len() >= 2 && token[0] == 0x30 && (token[1] == 0x78 || token[1]
        == 0x58) {
        2
    } else {
        0
    };
    let ghost digits = strip_hex_prefix(token@);
    proof {
        assert(digits =~= token@.skip(start as int));
    }
    if token.len() == start {
        return None;
    }
    let mut acc: u32 = 0;
    let mut i: usize = start;
    proof {
        assert(digits.skip(0) =~= digits);
    }
    while i < token.len()
        invariant
            start <= i <= token@.len(),
            acc <= 0xffff,
            digits == strip_hex_prefix(token@),
            digits == token@.skip(start as int),
            hex_value(digits) == hex_value_from(acc as nat, digits.skip(i - start)),
            forall|j: int| 0 <= j < i - start ==> is_hex_digit(digits[j]),
        decreases token@.len() - i,
    {
        let ghost rest = digits.skip(i - start);
        proof {
            assert(rest[0] == digits[i - start]);
            assert(digits[i - start] == token@[i as int]);
            assert(rest.skip(1) =~= digits.skip(i - start + 1));
        }
        match hex_digit(token[i]) {
            None => {
                proof {
                    assert(!is_hex_digit(digits[i - start]));
                }
                return None;
            },
            Some(d) => {
                let next: u32 = acc * 16 + d as u32;
                if next > 0xffff {
                    proof {
                        assert(hex_value_from(acc as nat, rest) == hex_value_from(
                            (acc as nat) * 16 + hex_digit_value(rest[0]),
                            rest.skip(1),
                        ));
                        assert((acc as nat) * 16 + hex_digit_value(rest[0]) == next as nat);
                        lemma_hex_value_from_monotone(next as nat, rest.skip(1));
                        assert(hex_value(digits) > 0xffff);
                    }
                    return None;
                }
                acc = next;
            },
        }
        i = i + 1;
    }
    proof {
        assert(digits.skip(i - start) =~= Seq::<u8>::empty());
        assert(forall|j: int| 0 <= j < digits.len() ==> is_hex_digit(digits[j]));
    }
    Some(acc as u16)
}

/// The upper-case ASCII digit for a four-bit value.
pub open spec fn hex_char(v: u8) -> u8 {
    if v < 10 {
        (0x30 + v) as u8
    } else {
        (0x41 + v - 10) as u8
    }
}

/// Renders one byte as two upper-case hexadecimal digits.
pub fn byte_to_hex(b: u8) -> (r: (u8, u8))
    ensures
        r.0 == hex_char(b / 16),
        r.1 == hex_char(b % 16),
{
    let hi = b / 16;
    let lo = b % 16;
    let c0 = if hi < 10 {
        0x30 + hi
    } else {
        0x41 + hi - 10
    };
    let c1 = if lo < 10 {
        0x30 + lo
    } else {
        0x41 + lo - 10
    };
    (c0, c1)
}

/// Printing a byte and parsing the two digits back yields the byte: the
/// hex round trip loses nothing.
pub proof fn lemma_hex_round_trip(b: u8)
    ensures
        parses_as_hex(seq![hex_char(b / 16), hex_char(b % 16)]),
        parsed_hex(seq![hex_char(b / 16), hex_char(b % 16)]) == b,
{
    let s = seq![hex_char(b / 16), hex_char(b % 16)];
    assert(strip_hex_prefix(s) =~= s);
    assert(s.skip(1) =~= seq![hex_char(b % 16)]);
    assert(s.skip(1).skip(1) =~= Seq::<u8>::empty());
    assert(hex_digit_value(hex_char(b / 16)) == b / 16);
    assert(hex_digit_value(hex_char(b % 16)) == b % 16);
    assert(hex_value_from(0, s) == hex_value_from(hex_digit_value(s[0]), s.skip(1)));
    assert(hex_value_from(hex_digit_value(s[0]), s.skip(1)) == hex_value_from(
        hex_digit_value(s[0]) * 16 + hex_digit_value(s.skip(1)[0]),
        s.skip(1).skip(1),
    ));
    assert(hex_value(s) == (b / 16) * 16 + b % 16);
    assert((b / 16) * 16 + b % 16 == b) by (nonlinear_arith);
}

} // verus!

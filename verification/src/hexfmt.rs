//! Lowercase hexadecimal encoding and parsing of trace and span identifiers.
//!
//! A trace identifier is a 128-bit value rendered as 32 lowercase hex digits;
//! a span identifier is a 64-bit value rendered as 16 digits. Parsing accepts
//! what `u128::from_str_radix(s, 16)` accepts: an optional leading `'+'`,
//! then at least one hex digit in either case, rejecting values out of range.

use vstd::prelude::*;

verus! {

/// The lowercase hex digit character for `d`, which must lie in `0 ..= 15`.
pub open spec fn hex_char(d: int) -> char {
    if d == 0 {
        '0'
    } else if d == 1 {
        '1'
    } else if d == 2 {
        '2'
    } else if d == 3 {
        '3'
    } else if d == 4 {
        '4'
    } else if d == 5 {
        '5'
    } else if d == 6 {
        '6'
    } else if d == 7 {
        '7'
    } else if d == 8 {
        '8'
    } else if d == 9 {
        '9'
    } else if d == 10 {
        'a'
    } else if d == 11 {
        'b'
    } else if d == 12 {
        'c'
    } else if d == 13 {
        'd'
    } else if d == 14 {
        'e'
    } else {
        'f'
    }
}

/// The fixed-width lowercase hex rendering of a non-negative `n`: exactly
/// `width` digits, zero-padded on the left, low digits rightmost.
pub open spec fn hex_fixed(n: int, width: nat) -> Seq<char>
    recommends
        n >= 0,
    decreases width,
{
    if width == 0 {
        Seq::empty()
    } else {
        hex_fixed(n / 16, (width - 1) as nat).push(hex_char(n % 16))
    }
}

/// Whether `c` is a hex digit in either case.
pub open spec fn is_hex_digit(c: char) -> bool {
    ('0' as int) <= c as int <= ('9' as int) || ('a' as int) <= c as int <= ('f' as int) || (
    'A' as int) <= c as int <= ('F' as int)
}

/// The numeric value of a hex digit character; zero on anything else.
pub open spec fn hex_digit_val(c: char) -> int {
    if ('0' as int) <= c as int <= ('9' as int) {
        c as int - ('0' as int)
    } else if ('a' as int) <= c as int <= ('f' as int) {
        c as int - ('a' as int) + 10
    } else if ('A' as int) <= c as int <= ('F' as int) {
        c as int - ('A' as int) + 10
    } else {
        0
    }
}

/// The value of a hex digit string, most significant digit first.
pub open spec fn hex_value(s: Seq<char>) -> int
    decreases s.len(),
{
    if s.len() == 0 {
        0
    } else {
        hex_value(s.drop_last()) * 16 + hex_digit_val(s.last())
    }
}

/// The digit part of a hex numeral: everything after one optional leading
/// `'+'` sign.
pub open spec fn hex_body(s: Seq<char>) -> Seq<char> {
    if s.len() > 0 && s[0] == '+' {
        s.drop_first()
    } else {
        s
    }
}

/// Whether `s` is a hex numeral whose value fits below `bound`: after the
/// optional sign there is at least one character, every character is a hex
/// digit, and the value does not exceed `bound`.
pub open spec fn hex_parse_ok(s: Seq<char>, bound: int) -> bool {
    &&& hex_body(s).len() > 0
    &&& (forall|i: int| 0 <= i < hex_body(s).len() ==> is_hex_digit(#[trigger] hex_body(s)[i]))
    &&& hex_value(hex_body(s)) <= bound
}

/// Sixteen raised to `k`.
pub open spec fn pow16(k: nat) -> int
    decreases k,
{
    if k == 0 {
        1
    } else {
        16 * pow16((k - 1) as nat)
    }
}

pub proof fn lemma_hex_value_nonneg(s: Seq<char>)
    ensures
        hex_value(s) >= 0,
    decreases s.len(),
{
    if s.len() > 0 {
        lemma_hex_value_nonneg(s.drop_last());
    }
}

pub proof fn lemma_pow16_pos(k: nat)
    ensures
        pow16(k) >= 1,
    decreases k,
{
    if k > 0 {
        lemma_pow16_pos((k - 1) as nat);
    }
}

/// The value of a concatenation: the left part shifted by the width of the
/// right part, plus the right part.
pub proof fn lemma_hex_value_append(t: Seq<char>, rest: Seq<char>)
    ensures
        hex_value(t + rest) == hex_value(t) * pow16(rest.len()) + hex_value(rest),
    decreases rest.len(),
{
    if rest.len() == 0 {
        assert(t + rest =~= t);
    } else {
        let shorter = rest.drop_last();
        lemma_hex_value_append(t, shorter);
        assert((t + rest).drop_last() =~= t + shorter);
        let a = hex_value(t);
        let p = pow16(shorter.len());
        assert(a * (16 * p) == (a * p) * 16) by (nonlinear_arith);
    }
}

fn hex_char_str(d: u64) -> (r: &'static str)
    requires
        d < 16,
    ensures
        r@ == seq![hex_char(d as int)],
{
    proof {
        reveal_strlit("0");
        reveal_strlit("1");
        reveal_strlit("2");
        reveal_strlit("3");
        reveal_strlit("4");
        reveal_strlit("5");
        reveal_strlit("6");
        reveal_strlit("7");
        reveal_strlit("8");
        reveal_strlit("9");
        reveal_strlit("a");
        reveal_strlit("b");
        reveal_strlit("c");
        reveal_strlit("d");
        reveal_strlit("e");
        reveal_strlit("f");
    }
    let r = match d {
        0 => "0",
        1 => "1",
        2 => "2",
        3 => "3",
        4 => "4",
        5 => "5",
        6 => "6",
        7 => "7",
        8 => "8",
        9 => "9",
        10 => "a",
        11 => "b",
        12 => "c",
        13 => "d",
        14 => "e",
        _ => "f",
    };
    proof {
        assert(r@ =~= seq![hex_char(d as int)]);
    }
    r
}

fn push_hex_digits(out: &mut String, n: u128, width: usize)
    ensures
        final(out)@ == old(out)@ + hex_fixed(n as int, width as nat),
    decreases width,
{
    if width > 0 {
        push_hex_digits(out, n / 16, width - 1);
        out.append(hex_char_str((n % 16) as u64));
        proof {
            assert(out@ =~= old(out)@ + hex_fixed(n as int, width as nat));
        }
    } else {
        proof {
            assert(out@ =~= old(out)@ + hex_fixed(n as int, 0));
        }
    }
}

/// Renders a 128-bit trace identifier as 32 lowercase hex digits.
pub fn trace_id_hex(id: u128) -> (r: String)
    ensures
        r@ == hex_fixed(id as int, 32),
{
    let mut out = String::new();
    push_hex_digits(&mut out, id, 32);
    proof {
        assert(out@ =~= hex_fixed(id as int, 32));
    }
    out
}

/// Renders a 64-bit span identifier as 16 lowercase hex digits.
pub fn span_id_hex(id: u64) -> (r: String)
    ensures
        r@ == hex_fixed(id as int, 16),
{
    let mut out = String::new();
    push_hex_digits(&mut out, id as u128, 16);
    proof {
        assert(out@ =~= hex_fixed(id as int, 16));
    }
    out
}

fn hex_digit_value(c: char) -> (r: Option<u64>)
    ensures
        is_hex_digit(c) ==> r == Some(hex_digit_val(c) as u64),
        !is_hex_digit(c) ==> r is None,
        r is Some ==> r->0 < 16,
{
    let v = c as u32;
    if 48 <= v && v <= 57 {
        Some((v - 48) as u64)
    } else if 97 <= v && v <= 102 {
        Some((v - 87) as u64)
    } else if 65 <= v && v <= 70 {
        Some((v - 55) as u64)
    } else {
        None
    }
}

/// Parses a hex numeral into a 128-bit value, accepting exactly the strings
/// `u128::from_str_radix(s, 16)` accepts.
pub fn parse_hex_u128(s: &str) -> (r: Option<u128>)
    ensures
        r == if hex_parse_ok(s@, u128::MAX as int) {
            Some(hex_value(hex_body(s@)) as u128)
        } else {
            None::<u128>
        },
{
    let len = s.unicode_len();
    if len == 0 {
        return None;
    }
    let first = s.get_char(0);
    let start: usize = if first == '+' {
        1
    } else {
        0
    };
    if start == len {
        // the sign alone, with no digits
        return None;
    }
    proof {
        assert(hex_body(s@) =~= s@.subrange(start as int, len as int));
    }
    let mut acc: u128 = 0;
    let mut i: usize = start;
    while i < len
        invariant
            start <= i <= len,
            len == s@.len(),
            hex_body(s@) =~= s@.subrange(start as int, len as int),
            forall|j: int| start <= j < i ==> is_hex_digit(#[trigger] s@[j]),
            acc as int == hex_value(s@.subrange(start as int, i as int)),
        decreases len - i,
    {
        let c = s.get_char(i);
        let ghost pre = s@.subrange(start as int, i as int);
        let ghost ext = s@.subrange(start as int, i as int + 1);
        proof {
            assert(ext =~= pre.push(s@[i as int]));
            assert(ext.drop_last() =~= pre);
            assert(ext.last() == s@[i as int]);
        }
        let d = match hex_digit_value(c) {
            Some(d) => d,
            None => {
                proof {
                    assert(hex_body(s@)[i - start] == s@[i as int]);
                }
                return None;
            },
        };
        if acc > (u128::MAX - d as u128) / 16 {
            // the value no longer fits in 128 bits
            proof {
                let body = hex_body(s@);
                let rest = s@.subrange(i as int + 1, len as int);
                assert(body =~= ext + rest);
                assert(ext.drop_last() =~= pre);
                assert(hex_value(ext) == acc as int * 16 + d as int);
                vstd::arithmetic::div_mod::lemma_fundamental_div_mod(
                    u128::MAX as int - d as int,
                    16,
                );
                assert(hex_value(ext) > u128::MAX as int);
                lemma_hex_value_append(ext, rest);
                lemma_hex_value_nonneg(rest);
                lemma_pow16_pos(rest.len());
                let he = hex_value(ext);
                let p = pow16(rest.len());
                lemma_hex_value_nonneg(ext);
                assert(he * p >= he) by (nonlinear_arith)
                    requires
                        he >= 0,
                        p >= 1,
                ;
                assert(hex_value(body) > u128::MAX as int);
            }
            return None;
        }
        acc = acc * 16 + d as u128;
        i = i + 1;
    }
    proof {
        assert(s@.subrange(start as int, len as int) =~= hex_body(s@));
    }
    Some(acc)
}

/// Parses a hex numeral into a 64-bit value, accepting exactly the strings
/// `u64::from_str_radix(s, 16)` accepts.
pub fn parse_hex_u64(s: &str) -> (r: Option<u64>)
    ensures
        r == if hex_parse_ok(s@, u64::MAX as int) {
            Some(hex_value(hex_body(s@)) as u64)
        } else {
            None::<u64>
        },
{
    proof {
        lemma_hex_value_nonneg(hex_body(s@));
    }
    match parse_hex_u128(s) {
        Some(v) if v <= u64::MAX as u128 => Some(v as u64),
        _ => None,
    }
}

} // verus!

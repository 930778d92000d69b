//! Decimal text: formatting a 32-bit integer for the print opcodes, parsing
//! one line of console input for the input opcode, and building the one-
//! character text that the ascii print opcode emits.

use vstd::prelude::*;
use crate::value::Fault;

verus! {

/// The decimal digit character for `d` (meaningful for 0 through 9).
pub open spec fn digit_char(d: int) -> char {
    if d == 0 {
        '0'
    } else if d == 1 {
        '1'
    } else if d == 2 {
        '2'
    } else if d == 3 {
        '3'
    } else if d == 4 {
        '4'
    } else if d == 5 {
        '5'
    } else if d == 6 {
        '6'
    } else if d == 7 {
        '7'
    } else if d == 8 {
        '8'
    } else {
        '9'
    }
}

/// The decimal digits of `n`, most significant first, with no sign and no
/// leading zero (a single `'0'` for zero).
pub open spec fn dec_digits(n: nat) -> Seq<char>
    decreases n,
{
    if n < 10 {
        seq![digit_char(n as int)]
    } else {
        dec_digits(n / 10).push(digit_char((n % 10) as int))
    }
}

/// The decimal text of `v`: a `'-'` and the digits of its magnitude when
/// negative, the digits alone otherwise.
pub open spec fn int_decimal(v: int) -> Seq<char> {
    if v < 0 {
        seq!['-'] + dec_digits((-v) as nat)
    } else {
        dec_digits(v as nat)
    }
}

/// Returns the decimal digit character for `d`.
fn digit_to_char(d: u32) -> (c: char)
    requires
        d < 10,
    ensures
        c == digit_char(d as int),
{
    if d == 0 {
        '0'
    } else if d == 1 {
        '1'
    } else if d == 2 {
        '2'
    } else if d == 3 {
        '3'
    } else if d == 4 {
        '4'
    } else if d == 5 {
        '5'
    } else if d == 6 {
        '6'
    } else if d == 7 {
        '7'
    } else if d == 8 {
        '8'
    } else {
        '9'
    }
}

/// Returns the magnitude of `v` (well-defined even for `i32::MIN`).
fn magnitude(v: i32) -> (m: u32)
    ensures
        m as int == if v >= 0 {
            v as int
        } else {
            -(v as int)
        },
{
    if v >= 0 {
        v as u32
    } else {
        (-(v as i64)) as u32
    }
}

/// Relies on char::from_u32: a character exists exactly for a valid code
/// point (below the surrogate range, or past it and at most 0x10FFFF), and
/// that character casts back to the given code point.
pub assume_specification[ char::from_u32 ](v: u32) -> (r: Option<char>)
    ensures
        r is Some <==> (v < 0xD800 || (0xE000 <= v && v <= 0x10FFFF)),
        r matches Some(c) ==> c as u32 == v,
;

/// Relies on String::push: appends one character to the end of the string.
#[verifier::external_body]
fn push_char(s: &mut String, c: char)
    ensures
        final(s)@ == old(s)@.push(c),
{
    s.push(c);
}

/// Returns the one-character text holding `c`.
pub fn char_to_text(c: char) -> (r: String)
    ensures
        r@ == seq![c],
{
    let mut r = String::new();
    push_char(&mut r, c);
    proof {
        assert(r@ =~= seq![c]);
    }
    r
}

/// Formats `v` as decimal text, as the print opcodes write an integer.
pub fn int_to_decimal(v: i32) -> (r: String)
    ensures
        r@ == int_decimal(v as int),
{
    let neg = v < 0;
    let mut m: u32 = magnitude(v);
    let ghost n0: nat = m as nat;
    let mut tail: Vec<char> = Vec::new();
    while m >= 10
        invariant
            dec_digits(n0) == dec_digits(m as nat) + tail@.reverse(),
        decreases m,
    {
        let ghost pre_m: nat = m as nat;
        let ghost pre_tail: Seq<char> = tail@;
        let d: u32 = m % 10;
        tail.push(digit_to_char(d));
        m = m / 10;
        proof {
            assert(dec_digits(pre_m) == dec_digits(m as nat).push(digit_char(d as int)));
            assert(tail@.reverse() =~= seq![digit_char(d as int)] + pre_tail.reverse());
            assert(dec_digits(m as nat) + tail@.reverse() =~= dec_digits(pre_m)
                + pre_tail.reverse());
        }
    }
    let mut r = String::new();
    if neg {
        push_char(&mut r, '-');
    }
    push_char(&mut r, digit_to_char(m));
    let ghost sign: Seq<char> = if neg {
        seq!['-']
    } else {
        Seq::<char>::empty()
    };
    let ghost top: int = m as int;
    let ghost full: Seq<char> = tail@;
    proof {
        assert(r@ =~= sign + seq![digit_char(top)]);
        assert(full.reverse().take(0) =~= Seq::<char>::empty());
        assert(r@ =~= sign + seq![digit_char(top)] + full.reverse().take(
            full.len() - tail@.len(),
        ));
        assert(tail@ =~= full.take(tail@.len() as int));
    }
    while tail.len() > 0
        invariant
            tail@.len() <= full.len(),
            tail@ == full.take(tail@.len() as int),
            r@ == sign + seq![digit_char(top)] + full.reverse().take(full.len() - tail@.len()),
        decreases tail@.len(),
    {
        let ghost pre_r: Seq<char> = r@;
        let ghost k: int = tail@.len() as int;
        let c = match tail.pop() {
            Some(c) => c,
            None => vstd::pervasive::unreached(),
        };
        push_char(&mut r, c);
        proof {
            assert(c == full[k - 1]);
            assert(full.reverse()[full.len() - k] == full[k - 1]);
            assert(tail@ =~= full.take(tail@.len() as int));
            assert(full.reverse().take(full.len() - k + 1) =~= full.reverse().take(
                full.len() - k,
            ).push(full.reverse()[full.len() - k]));
            assert(r@ =~= sign + seq![digit_char(top)] + full.reverse().take(
                full.len() - tail@.len(),
            ));
        }
    }
    proof {
        assert(full.reverse().take(full.len() as int) =~= full.reverse());
        assert(r@ =~= sign + (seq![digit_char(top)] + full.reverse()));
        assert(seq![digit_char(top)] + full.reverse() == dec_digits(n0));
        if neg {
            assert(r@ =~= seq!['-'] + dec_digits((-(v as int)) as nat));
        }
    }
    r
}

/// Whether `c` is a decimal digit.
pub open spec fn is_dec_digit(c: char) -> bool {
    48 <= c as u32 <= 57
}

/// The numeric value of a decimal digit character.
pub open spec fn digit_val(c: char) -> int {
    c as u32 - 48
}

/// Whether every character of `s` is a decimal digit.
pub open spec fn all_dec_digits(s: Seq<char>) -> bool {
    forall|i: int| 0 <= i < s.len() ==> is_dec_digit(#[trigger] s[i])
}

/// The value of a string of decimal digits, most significant first.
pub open spec fn digits_value(s: Seq<char>) -> int
    decreases s.len(),
{
    if s.len() == 0 {
        0
    } else {
        digits_value(s.drop_last()) * 10 + digit_val(s.last())
    }
}

/// The digits of an integer literal: everything after one optional leading
/// sign character.
pub open spec fn literal_body(s: Seq<char>) -> Seq<char> {
    if s.len() > 0 && (s[0] == '-' || s[0] == '+') {
        s.subrange(1, s.len() as int)
    } else {
        s
    }
}

/// Whether `s` is an integer literal: an optional sign followed by at least
/// one decimal digit and nothing else.
pub open spec fn is_int_literal(s: Seq<char>) -> bool {
    literal_body(s).len() > 0 && all_dec_digits(literal_body(s))
}

/// The value of an integer literal.
pub open spec fn int_literal_value(s: Seq<char>) -> int {
    if s.len() > 0 && s[0] == '-' {
        -digits_value(literal_body(s))
    } else {
        digits_value(literal_body(s))
    }
}

/// Whether `s` is an integer literal whose value a 32-bit integer can hold.
pub open spec fn parses_to_i32(s: Seq<char>) -> bool {
    is_int_literal(s) && i32::MIN <= int_literal_value(s) <= i32::MAX
}

/// A digit string's value is nonnegative.
proof fn lemma_digits_value_nonneg(s: Seq<char>)
    requires
        all_dec_digits(s),
    ensures
        digits_value(s) >= 0,
    decreases s.len(),
{
    if s.len() > 0 {
        assert forall|i: int| 0 <= i < s.drop_last().len() implies is_dec_digit(
            #[trigger] s.drop_last()[i],
        ) by {
            assert(s.drop_last()[i] == s[i]);
        }
        lemma_digits_value_nonneg(s.drop_last());
        assert(is_dec_digit(s.last()));
    }
}

/// A prefix of a digit string is worth no more than the whole string.
proof fn lemma_digits_value_prefix(s: Seq<char>, k: int)
    requires
        all_dec_digits(s),
        0 <= k <= s.len(),
    ensures
        digits_value(s.take(k)) <= digits_value(s),
    decreases s.len() - k,
{
    if k < s.len() {
        lemma_digits_value_prefix(s, k + 1);
        assert(s.take(k + 1).drop_last() =~= s.take(k));
        assert(s.take(k + 1).last() == s[k]);
        assert forall|i: int| 0 <= i < s.take(k).len() implies is_dec_digit(
            #[trigger] s.take(k)[i],
        ) by {
            assert(s.take(k)[i] == s[i]);
        }
        lemma_digits_value_nonneg(s.take(k));
        assert(is_dec_digit(s[k]));
        assert(digits_value(s.take(k + 1)) >= digits_value(s.take(k)));
    } else {
        assert(s.take(k) =~= s);
    }
}

/// Parses one trimmed line of console input as a 32-bit integer: an optional
/// sign, then decimal digits; anything else, or a value outside the 32-bit
/// range, is a parse error.
pub fn parse_int(s: &str) -> (r: Result<i32, Fault>)
    ensures
        match r {
            Ok(v) => parses_to_i32(s@) && v as int == int_literal_value(s@),
            Err(f) => f == Fault::ParseError && !parses_to_i32(s@),
        },
{
    let len = s.unicode_len();
    let mut start: usize = 0;
    let mut neg = false;
    if len > 0 {
        let c0 = s.get_char(0);
        if c0 == '-' {
            neg = true;
            start = 1;
        } else if c0 == '+' {
            start = 1;
        }
    }
    let ghost body: Seq<char> = s@.subrange(start as int, len as int);
    proof {
        assert(body =~= literal_body(s@));
        assert(neg == (s@.len() > 0 && s@[0] == '-'));
    }
    if start == len {
        return Err(Fault::ParseError);
    }
    let limit: u64 = if neg {
        2147483648
    } else {
        2147483647
    };
    let mut acc: u64 = 0;
    let mut i: usize = start;
    while i < len
        invariant
            start <= i <= len,
            len == s@.len(),
            start < len,
            body == s@.subrange(start as int, len as int),
            body == literal_body(s@),
            all_dec_digits(body.take(i - start)),
            acc as int == digits_value(body.take(i - start)),
            acc <= limit,
            limit == if neg {
                2147483648u64
            } else {
                2147483647u64
            },
            neg == (s@.len() > 0 && s@[0] == '-'),
        decreases len - i,
    {
        let ghost k: int = i - start;
        let c = s.get_char(i);
        proof {
            assert(body[k] == s@[i as int]);
        }
        let code = c as u32;
        if code < 48 || code > 57 {
            proof {
                assert(!is_dec_digit(body[k]));
            }
            return Err(Fault::ParseError);
        }
        let d: u32 = code - 48;
        let next: u64 = acc * 10 + (d as u64);
        proof {
            assert(body.take(k + 1).drop_last() =~= body.take(k));
            assert(body.take(k + 1).last() == body[k]);
            assert(next as int == digits_value(body.take(k + 1)));
            assert(is_dec_digit(body[k]));
            assert forall|j: int| 0 <= j < k + 1 implies is_dec_digit(
                #[trigger] body.take(k + 1)[j],
            ) by {
                if j < k {
                    assert(body.take(k + 1)[j] == body.take(k)[j]);
                } else {
                    assert(body.take(k + 1)[j] == body[k]);
                }
            }
        }
        if next > limit {
            proof {
                if parses_to_i32(s@) {
                    lemma_digits_value_prefix(body, k + 1);
                    lemma_digits_value_nonneg(body);
                }
            }
            return Err(Fault::ParseError);
        }
        acc = next;
        i = i + 1;
    }
    proof {
        assert(body.take(i - start) =~= body);
        lemma_digits_value_nonneg(body);
    }
    if neg {
        if acc == 2147483648 {
            Ok(i32::MIN)
        } else {
            Ok(-(acc as i32))
        }
    } else {
        Ok(acc as i32)
    }
}

} // verus!

//! Decimal numbers: writing them into names, reading them from literals.

use vstd::prelude::*;
use vstd::string::{StrSliceExecFns, StringExecFns};

verus! {

/// The decimal digit character for `d < 10`.
pub open spec fn digit_char(d: int) -> char {
    if d == 0 {
        '0'
    } else if d == 1 {
        '1'
    } else if d == 2 {
        '2'
    } else if d == 3 {
        '3'
    } else if d == 4 {
        '4'
    } else if d == 5 {
        '5'
    } else if d == 6 {
        '6'
    } else if d == 7 {
        '7'
    } else if d == 8 {
        '8'
    } else {
        '9'
    }
}

/// The decimal digits of `n`, most significant first, without leading
/// zeros.
pub open spec fn dec_string(n: nat) -> Seq<char>
    decreases n,
{
    if n < 10 {
        seq![digit_char(n as int)]
    } else {
        dec_string(n / 10).push(digit_char((n % 10) as int))
    }
}

fn digit_str(d: usize) -> (r: &'static str)
    requires
        d < 10,
    ensures
        r@ == seq![digit_char(d as int)],
{
    proof {
        reveal_strlit("0");
        reveal_strlit("1");
        reveal_strlit("2");
        reveal_strlit("3");
        reveal_strlit("4");
        reveal_strlit("5");
        reveal_strlit("6");
        reveal_strlit("7");
        reveal_strlit("8");
        reveal_strlit("9");
    }
    if d == 0 {
        "0"
    } else if d == 1 {
        "1"
    } else if d == 2 {
        "2"
    } else if d == 3 {
        "3"
    } else if d == 4 {
        "4"
    } else if d == 5 {
        "5"
    } else if d == 6 {
        "6"
    } else if d == 7 {
        "7"
    } else if d == 8 {
        "8"
    } else {
        "9"
    }
}

/// `n` written in decimal.
pub fn usize_to_dec(n: usize) -> (r: String)
    ensures
        r@ == dec_string(n as nat),
    decreases n,
{
    if n < 10 {
        digit_str(n).to_owned()
    } else {
        let mut s = usize_to_dec(n / 10);
        s.append(digit_str(n % 10));
        s
    }
}

/// Why a string is no unsigned integer.
#[derive(Debug, Clone, Copy, PartialEq, Eq, Structural)]
pub enum IntErrorKind {
    Empty,
    InvalidDigit,
    PosOverflow,
}

pub open spec fn is_digit(c: char) -> bool {
    '0' <= c && c <= '9'
}

/// Reads the digits `d` after the value `acc` already read, from left to
/// right, stopping at the first character that is no digit or at the first
/// digit that takes the value past `usize::MAX`.
pub open spec fn read_digits(d: Seq<char>, acc: nat) -> Result<usize, IntErrorKind>
    decreases d.len(),
{
    if d.len() == 0 {
        Ok(acc as usize)
    } else if !is_digit(d[0]) {
        Err(IntErrorKind::InvalidDigit)
    } else if acc * 10 + (d[0] as nat - '0' as nat) > usize::MAX {
        Err(IntErrorKind::PosOverflow)
    } else {
        read_digits(d.drop_first(), (acc * 10 + (d[0] as nat - '0' as nat)) as nat)
    }
}

/// What `usize::from_str` gives for `s`: an optional `+`, then at least one
/// decimal digit.
pub open spec fn parse_usize_spec(s: Seq<char>) -> Result<usize, IntErrorKind> {
    if s.len() == 0 {
        Err(IntErrorKind::Empty)
    } else {
        let d = if s[0] == '+' {
            s.drop_first()
        } else {
            s
        };
        if d.len() == 0 {
            Err(IntErrorKind::InvalidDigit)
        } else {
            read_digits(d, 0)
        }
    }
}

/// Reads `s` as a decimal `usize`, as `usize::from_str` does.
pub fn parse_usize(s: &String) -> (r: Result<usize, IntErrorKind>)
    ensures
        r == parse_usize_spec(s@),
{
    let st = s.as_str();
    let n = st.unicode_len();
    if n == 0 {
        return Err(IntErrorKind::Empty);
    }
    let mut i: usize = 0;
    if st.get_char(0) == '+' {
        i = 1;
        if n == 1 {
            return Err(IntErrorKind::InvalidDigit);
        }
    }
    let ghost d = if s@[0] == '+' {
        s@.drop_first()
    } else {
        s@
    };
    assert(d =~= s@.skip(i as int));
    assert(parse_usize_spec(s@) == read_digits(d, 0));
    let mut acc: usize = 0;
    while i < n
        invariant
            st@ == s@,
            n == s@.len(),
            i <= n,
            read_digits(s@.skip(i as int), acc as nat) == parse_usize_spec(s@),
        decreases n - i,
    {
        let c = st.get_char(i);
        assert(s@.skip(i as int)[0] == c);
        assert(s@.skip(i as int).drop_first() =~= s@.skip(i + 1));
        if !('0' <= c && c <= '9') {
            return Err(IntErrorKind::InvalidDigit);
        }
        let digit: usize = (c as u32 - '0' as u32) as usize;
        assert(digit as nat == c as nat - '0' as nat);
        match acc.checked_mul(10) {
            None => {
                return Err(IntErrorKind::PosOverflow);
            },
            Some(m) => match m.checked_add(digit) {
                None => {
                    return Err(IntErrorKind::PosOverflow);
                },
                Some(a) => {
                    acc = a;
                },
            },
        }
        i = i + 1;
    }
    assert(s@.skip(i as int).len() == 0);
    Ok(acc)
}

/// A digit character is a digit, and reads back as its value.
proof fn lemma_digit_char(d: int)
    requires
        0 <= d < 10,
    ensures
        is_digit(digit_char(d)),
        digit_char(d) as nat - '0' as nat == d,
{
}

/// Reading the decimal digits of `m` from scratch, and then more, is
/// reading the more after the value `m`.
proof fn lemma_read_dec_string(m: nat, t: Seq<char>)
    requires
        m <= usize::MAX,
    ensures
        read_digits(dec_string(m) + t, 0) == read_digits(t, m),
    decreases m,
{
    if m < 10 {
        lemma_digit_char(m as int);
        let c = digit_char(m as int);
        assert(dec_string(m) == seq![c]);
        assert((seq![c] + t).drop_first() =~= t);
        assert((seq![c] + t)[0] == c);
    } else {
        let q = m / 10;
        let c = digit_char((m % 10) as int);
        lemma_digit_char((m % 10) as int);
        assert(dec_string(m) == dec_string(q).push(c));
        assert(dec_string(m) + t =~= dec_string(q) + (seq![c] + t));
        lemma_read_dec_string(q, seq![c] + t);
        assert((seq![c] + t).drop_first() =~= t);
        assert((seq![c] + t)[0] == c);
        assert(q * 10 + (m % 10) == m);
    }
}

/// Reading a number written in decimal gives the number back.
pub proof fn law_read_what_is_written(n: usize)
    ensures
        parse_usize_spec(dec_string(n as nat)) == Ok::<usize, IntErrorKind>(n),
{
    lemma_read_dec_string(n as nat, Seq::empty());
    assert(dec_string(n as nat) + Seq::<char>::empty() =~= dec_string(n as nat));
    let d = dec_string(n as nat);
    assert(d.len() > 0 && is_digit(d[0])) by {
        lemma_dec_string_starts_with_digit(n as nat);
    }
}

/// The decimal digits of a number start with a digit.
proof fn lemma_dec_string_starts_with_digit(m: nat)
    ensures
        dec_string(m).len() > 0,
        is_digit(dec_string(m)[0]),
    decreases m,
{
    if m < 10 {
        lemma_digit_char(m as int);
    } else {
        lemma_dec_string_starts_with_digit(m / 10);
        assert(dec_string(m)[0] == dec_string(m / 10)[0]);
    }
}

} // verus!

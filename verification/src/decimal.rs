//! Decimal notation of integers: reading it and writing it.
use vstd::prelude::*;
use vstd::string::*;

use crate::text;

verus! {

/// Why a text is not the decimal notation of an integer of the wanted type.
#[derive(Clone, Copy, Debug, PartialEq, Eq, Structural)]
pub enum IntError {
    /// The text is empty.
    Empty,
    /// The text holds something other than digits, or a sign alone.
    InvalidDigit,
    /// The number is greater than the greatest value of the type.
    TooLarge,
    /// The number is less than the least value of the type.
    TooSmall,
}

impl IntError {
    /// What the error says.
    pub open spec fn message_spec(self) -> Seq<char> {
        match self {
            IntError::Empty => "cannot parse integer from empty string"@,
            IntError::InvalidDigit => "invalid digit found in string"@,
            IntError::TooLarge => "number too large to fit in target type"@,
            IntError::TooSmall => "number too small to fit in target type"@,
        }
    }

    /// What the error says.
    pub fn message(self) -> (res: &'static str)
        ensures
            res@ == self.message_spec(),
    {
        match self {
            IntError::Empty => "cannot parse integer from empty string",
            IntError::InvalidDigit => "invalid digit found in string",
            IntError::TooLarge => "number too large to fit in target type",
            IntError::TooSmall => "number too small to fit in target type",
        }
    }
}

/// The value of a decimal digit.
pub open spec fn digit_value(c: char) -> Option<int> {
    if '0' <= c <= '9' {
        Some(c as int - '0' as int)
    } else {
        None
    }
}

/// The decimal digit of a value below ten.
pub open spec fn digit_char(d: int) -> char {
    (d + '0' as int) as char
}

/// Reads the digits of `s` from `i` on after a part of value `acc`; the first character that is
/// no digit, or that takes the number over `limit`, decides the error.
pub open spec fn digits_from(s: Seq<char>, i: int, acc: int, limit: int, over: IntError) -> Result<
    int,
    IntError,
>
    decreases s.len() - i,
{
    if i >= s.len() {
        Ok(acc)
    } else {
        match digit_value(s[i]) {
            None => Err(IntError::InvalidDigit),
            Some(d) => if acc * 10 + d > limit {
                Err(over)
            } else {
                digits_from(s, i + 1, acc * 10 + d, limit, over)
            },
        }
    }
}

/// The unsigned integer up to `max` that a text denotes.
pub open spec fn parsed_unsigned(s: Seq<char>, max: int) -> Result<int, IntError> {
    if s.len() == 0 {
        Err(IntError::Empty)
    } else if s.len() == 1 && (s[0] == '+' || s[0] == '-') {
        Err(IntError::InvalidDigit)
    } else if s[0] == '+' {
        digits_from(s, 1, 0, max, IntError::TooLarge)
    } else {
        digits_from(s, 0, 0, max, IntError::TooLarge)
    }
}

/// The 64-bit unsigned integer that a text denotes.
pub open spec fn parsed_u64(s: Seq<char>) -> Result<int, IntError> {
    parsed_unsigned(s, u64::MAX as int)
}

/// The 64-bit signed integer that a text denotes.
pub open spec fn parsed_i64(s: Seq<char>) -> Result<int, IntError> {
    if s.len() > 1 && s[0] == '-' {
        match digits_from(s, 1, 0, -(i64::MIN as int), IntError::TooSmall) {
            Ok(n) => Ok(-n),
            Err(e) => Err(e),
        }
    } else {
        parsed_unsigned(s, i64::MAX as int)
    }
}

fn parse_digits(cs: &Vec<char>, start: usize, limit: u64, over: IntError) -> (res: Result<
    u64,
    IntError,
>)
    requires
        start <= cs@.len(),
    ensures
        match res {
            Ok(n) => digits_from(cs@, start as int, 0, limit as int, over) == Ok::<int, IntError>(
                n as int,
            ) && n <= limit,
            Err(e) => digits_from(cs@, start as int, 0, limit as int, over)
                == Err::<int, IntError>(e),
        },
{
    let mut acc: u64 = 0;
    let mut i: usize = start;
    while i < cs.len()
        invariant
            start <= i <= cs@.len(),
            acc <= limit,
            digits_from(cs@, start as int, 0, limit as int, over) == digits_from(
                cs@,
                i as int,
                acc as int,
                limit as int,
                over,
            ),
        decreases cs@.len() - i,
    {
        let c: char = cs[i];
        if !('0' <= c && c <= '9') {
            return Err(IntError::InvalidDigit);
        }
        let d: u64 = (c as u32 - '0' as u32) as u64;
        if acc > limit / 10 || d > limit || acc * 10 > limit - d {
            return Err(over);
        }
        acc = acc * 10 + d;
        i = i + 1;
    }
    Ok(acc)
}

/// Reads an unsigned 64-bit integer in decimal notation; a plus sign may precede it.
pub fn parse_u64(s: &str) -> (res: Result<u64, IntError>)
    ensures
        match res {
            Ok(n) => parsed_u64(s@) == Ok::<int, IntError>(n as int),
            Err(e) => parsed_u64(s@) == Err::<int, IntError>(e),
        },
{
    let cs = text::chars_of(s);
    if cs.len() == 0 {
        Err(IntError::Empty)
    } else if cs.len() == 1 && (cs[0] == '+' || cs[0] == '-') {
        Err(IntError::InvalidDigit)
    } else if cs[0] == '+' {
        parse_digits(&cs, 1, u64::MAX, IntError::TooLarge)
    } else {
        parse_digits(&cs, 0, u64::MAX, IntError::TooLarge)
    }
}

/// Reads a signed 64-bit integer in decimal notation; a sign may precede it.
pub fn parse_i64(s: &str) -> (res: Result<i64, IntError>)
    ensures
        match res {
            Ok(n) => parsed_i64(s@) == Ok::<int, IntError>(n as int),
            Err(e) => parsed_i64(s@) == Err::<int, IntError>(e),
        },
{
    let cs = text::chars_of(s);
    if cs.len() == 0 {
        return Err(IntError::Empty);
    }
    if cs.len() == 1 && (cs[0] == '+' || cs[0] == '-') {
        return Err(IntError::InvalidDigit);
    }
    if cs[0] == '-' {
        match parse_digits(&cs, 1, 9223372036854775808, IntError::TooSmall) {
            Ok(n) => if n == 9223372036854775808 {
                Ok(i64::MIN)
            } else {
                Ok(-(n as i64))
            },
            Err(e) => Err(e),
        }
    } else {
        let start: usize = if cs[0] == '+' {
            1
        } else {
            0
        };
        match parse_digits(&cs, start, 9223372036854775807, IntError::TooLarge) {
            Ok(n) => Ok(n as i64),
            Err(e) => Err(e),
        }
    }
}

/// The decimal notation of a natural number.
pub open spec fn decimal_nat(n: nat) -> Seq<char>
    decreases n,
{
    if n < 10 {
        seq![digit_char(n as int)]
    } else {
        decimal_nat(n / 10).push(digit_char((n % 10) as int))
    }
}

/// The decimal notation of an integer.
pub open spec fn decimal(n: int) -> Seq<char> {
    if n < 0 {
        seq!['-'] + decimal_nat((-n) as nat)
    } else {
        decimal_nat(n as nat)
    }
}

fn append_digit(out: &mut String, d: u64)
    requires
        d < 10,
    ensures
        final(out)@ == old(out)@.push(digit_char(d as int)),
{
    proof {
        reveal_strlit("0");
        reveal_strlit("1");
        reveal_strlit("2");
        reveal_strlit("3");
        reveal_strlit("4");
        reveal_strlit("5");
        reveal_strlit("6");
        reveal_strlit("7");
        reveal_strlit("8");
        reveal_strlit("9");
    }
    let t: &str = if d == 0 {
        "0"
    } else if d == 1 {
        "1"
    } else if d == 2 {
        "2"
    } else if d == 3 {
        "3"
    } else if d == 4 {
        "4"
    } else if d == 5 {
        "5"
    } else if d == 6 {
        "6"
    } else if d == 7 {
        "7"
    } else if d == 8 {
        "8"
    } else {
        "9"
    };
    assert(t@ =~= seq![digit_char(d as int)]);
    out.append(t);
    assert(out@ =~= old(out)@.push(digit_char(d as int)));
}

/// Writes an unsigned 64-bit integer in decimal notation.
pub fn u64_to_string(n: u64) -> (res: String)
    ensures
        res@ == decimal(n as int),
    decreases n,
{
    if n < 10 {
        let mut out = String::new();
        append_digit(&mut out, n);
        assert(out@ =~= seq![digit_char(n as int)]);
        out
    } else {
        let mut out = u64_to_string(n / 10);
        append_digit(&mut out, n % 10);
        out
    }
}

/// Writes a signed 64-bit integer in decimal notation.
pub fn i64_to_string(n: i64) -> (res: String)
    ensures
        res@ == decimal(n as int),
{
    if n < 0 {
        proof {
            reveal_strlit("-");
            assert("-"@ =~= seq!['-']);
        }
        let m: u64 = if n == i64::MIN {
            9223372036854775808
        } else {
            (-n) as u64
        };
        text::cat2("-", u64_to_string(m).as_str())
    } else {
        u64_to_string(n as u64)
    }
}

// ---------------------------------------------------------------------------
// What is written is read back
// ---------------------------------------------------------------------------

proof fn lemma_digits_push(s: Seq<char>, c: char, i: int, acc: int, limit: int, over: IntError)
    requires
        0 <= i <= s.len(),
        digit_value(c) is Some,
    ensures
        digits_from(s, i, acc, limit, over) matches Ok(n) ==> digits_from(
            s.push(c),
            i,
            acc,
            limit,
            over,
        ) == if n * 10 + digit_value(c)->0 > limit {
            Err(over)
        } else {
            Ok(n * 10 + digit_value(c)->0)
        },
    decreases s.len() - i,
{
    let t = s.push(c);
    if i < s.len() {
        assert(t[i] == s[i]);
        match digit_value(s[i]) {
            None => {},
            Some(d) => {
                if acc * 10 + d <= limit {
                    lemma_digits_push(s, c, i + 1, acc * 10 + d, limit, over);
                }
            },
        }
    } else {
        assert(t[i] == c);
        let n = acc * 10 + digit_value(c)->0;
        if n <= limit {
            assert(digits_from(t, i + 1, n, limit, over) == Ok::<int, IntError>(n));
        }
    }
}

proof fn lemma_decimal_nat_digits(n: nat, limit: int, over: IntError)
    requires
        n <= limit,
    ensures
        digits_from(decimal_nat(n), 0, 0, limit, over) == Ok::<int, IntError>(n as int),
        decimal_nat(n).len() > 0,
        digit_value(decimal_nat(n)[0]) is Some,
    decreases n,
{
    let d = (n % 10) as int;
    assert(digit_value(digit_char(d)) == Some(d));
    if n < 10 {
        let s = decimal_nat(n);
        assert(s =~= Seq::<char>::empty().push(digit_char(d)));
        lemma_digits_push(Seq::<char>::empty(), digit_char(d), 0, 0, limit, over);
    } else {
        lemma_decimal_nat_digits(n / 10, limit, over);
        lemma_digits_push(decimal_nat(n / 10), digit_char(d), 0, 0, limit, over);
        assert((n / 10) * 10 + d == n);
    }
}

proof fn lemma_digits_shift(s: Seq<char>, t: Seq<char>, i: int, acc: int, limit: int, over: IntError)
    requires
        0 <= i <= s.len(),
        t.len() > 0,
        t.skip(1) == s,
    ensures
        digits_from(t, i + 1, acc, limit, over) == digits_from(s, i, acc, limit, over),
    decreases s.len() - i,
{
    assert(t.len() == t.skip(1).len() + 1);
    if i < s.len() {
        assert(t.skip(1)[i] == t[i + 1]);
        match digit_value(s[i]) {
            None => {},
            Some(d) => {
                if acc * 10 + d <= limit {
                    lemma_digits_shift(s, t, i + 1, acc * 10 + d, limit, over);
                }
            },
        }
    }
}

/// Reading the decimal notation of an unsigned 64-bit integer gives that integer.
pub proof fn lemma_u64_read_back(n: u64)
    ensures
        parsed_u64(decimal(n as int)) == Ok::<int, IntError>(n as int),
{
    lemma_decimal_nat_digits(n as nat, u64::MAX as int, IntError::TooLarge);
}

/// Reading the decimal notation of a signed 64-bit integer gives that integer.
pub proof fn lemma_i64_read_back(n: i64)
    ensures
        parsed_i64(decimal(n as int)) == Ok::<int, IntError>(n as int),
{
    if n < 0 {
        let m = (-(n as int)) as nat;
        let s = decimal_nat(m);
        lemma_decimal_nat_digits(m, -(i64::MIN as int), IntError::TooSmall);
        assert((seq!['-'] + s).skip(1) =~= s);
        lemma_digits_shift(s, seq!['-'] + s, 0, 0, -(i64::MIN as int), IntError::TooSmall);
        assert((seq!['-'] + s)[0] == '-');
    } else {
        lemma_decimal_nat_digits(n as nat, i64::MAX as int, IntError::TooLarge);
    }
}

/// The decimal notation of a natural number is made of digits.
pub proof fn lemma_decimal_nat_is_digits(n: nat)
    ensures
        decimal_nat(n).len() > 0,
        forall|i: int| 0 <= i < decimal_nat(n).len() ==> '0' <= #[trigger] decimal_nat(n)[i] <= '9',
    decreases n,
{
    assert(forall|d: int| 0 <= d < 10 ==> '0' <= #[trigger] digit_char(d) <= '9');
    if n >= 10 {
        lemma_decimal_nat_is_digits(n / 10);
        let head = decimal_nat(n / 10);
        let s = decimal_nat(n);
        assert forall|i: int| 0 <= i < s.len() implies '0' <= #[trigger] s[i] <= '9' by {
            if i < head.len() {
                assert(s[i] == head[i]);
            }
        }
    }
}

/// Another digit at the end of the notation of a number takes the number tenfold and adds the value
/// of the digit; a minus sign before the notation takes the number to its negative.
pub proof fn lemma_notation(n: nat, d: int)
    requires
        n > 0,
        0 <= d < 10,
    ensures
        decimal((10 * n + d) as int) == decimal(n as int).push(('0' as int + d) as char),
        decimal(-(n as int)) == seq!['-'] + decimal(n as int),
        decimal(d) == seq![('0' as int + d) as char],
{
    assert((10 * n + d) / 10 == n as int);
    assert((10 * n + d) % 10 == d);
}

/// What is read as a number is made of digits, at most one sign aside; nothing else is read.
pub proof fn lemma_only_digits_read(s: Seq<char>)
    ensures
        parsed_u64(s) is Ok ==> s.len() > 0 && forall|i: int|
            0 <= i < s.len() ==> '0' <= #[trigger] s[i] <= '9' || (i == 0 && s[i] == '+'),
        parsed_i64(s) is Ok ==> s.len() > 0 && forall|i: int|
            0 <= i < s.len() ==> '0' <= #[trigger] s[i] <= '9' || (i == 0 && (s[i] == '+' || s[i]
                == '-')),
        s.len() == 0 ==> parsed_u64(s) == Err::<int, IntError>(IntError::Empty) && parsed_i64(s)
            == Err::<int, IntError>(IntError::Empty),
{
    lemma_digits_only(s, 0, 0, u64::MAX as int, IntError::TooLarge);
    lemma_digits_only(s, 0, 0, i64::MAX as int, IntError::TooLarge);
    if s.len() > 0 {
        lemma_digits_only(s, 1, 0, u64::MAX as int, IntError::TooLarge);
        lemma_digits_only(s, 1, 0, i64::MAX as int, IntError::TooLarge);
        lemma_digits_only(s, 1, 0, -(i64::MIN as int), IntError::TooSmall);
    }
}

proof fn lemma_digits_only(s: Seq<char>, i: int, acc: int, limit: int, over: IntError)
    requires
        0 <= i <= s.len(),
    ensures
        digits_from(s, i, acc, limit, over) is Ok ==> forall|k: int|
            i <= k < s.len() ==> '0' <= #[trigger] s[k] <= '9',
    decreases s.len() - i,
{
    if i < s.len() {
        if let Some(d) = digit_value(s[i]) {
            lemma_digits_only(s, i + 1, acc * 10 + d, limit, over);
        }
    }
}

/// A plus sign before the notation of a natural number changes nothing.
pub proof fn lemma_plus_sign(n: u64)
    ensures
        parsed_u64(seq!['+'] + decimal(n as int)) == Ok::<int, IntError>(n as int),
        n <= i64::MAX ==> parsed_i64(seq!['+'] + decimal(n as int)) == Ok::<int, IntError>(n as int),
{
    let s = decimal(n as int);
    assert((seq!['+'] + s).skip(1) =~= s);
    lemma_decimal_nat_is_digits(n as nat);
    lemma_decimal_nat_digits(n as nat, u64::MAX as int, IntError::TooLarge);
    lemma_digits_shift(s, seq!['+'] + s, 0, 0, u64::MAX as int, IntError::TooLarge);
    assert((seq!['+'] + s)[0] == '+');
    if n <= i64::MAX {
        lemma_decimal_nat_digits(n as nat, i64::MAX as int, IntError::TooLarge);
        lemma_digits_shift(s, seq!['+'] + s, 0, 0, i64::MAX as int, IntError::TooLarge);
    }
}

} // verus!

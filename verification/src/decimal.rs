//! Decimal notation of integers: printing and parsing.
use vstd::prelude::*;

use crate::text::chars_of;

verus! {

broadcast use vstd::string::group_string_axioms;

// ---------------------------------------------------------------------------
// Printing
// ---------------------------------------------------------------------------

/// The character of the digit `d`.
pub open spec fn digit_char(d: nat) -> char
    recommends
        d < 10,
{
    (48 + d) as char
}

/// The decimal notation of `n`, without leading zeros.
pub open spec fn digits(n: nat) -> Seq<char>
    decreases n,
{
    if n < 10 {
        seq![digit_char(n)]
    } else {
        digits(n / 10).push(digit_char(n % 10))
    }
}

/// The decimal notation of `n`, with a leading `-` where it is negative.
pub open spec fn signed_digits(n: int) -> Seq<char> {
    if n < 0 {
        seq!['-'] + digits((-n) as nat)
    } else {
        digits(n as nat)
    }
}

fn digit_text(d: u64) -> (r: &'static str)
    requires
        d < 10,
    ensures
        r@ == seq![digit_char(d as nat)],
{
    proof {
        reveal_strlit("0");
        reveal_strlit("1");
        reveal_strlit("2");
        reveal_strlit("3");
        reveal_strlit("4");
        reveal_strlit("5");
        reveal_strlit("6");
        reveal_strlit("7");
        reveal_strlit("8");
        reveal_strlit("9");
    }
    let r: &'static str = if d == 0 {
        "0"
    } else if d == 1 {
        "1"
    } else if d == 2 {
        "2"
    } else if d == 3 {
        "3"
    } else if d == 4 {
        "4"
    } else if d == 5 {
        "5"
    } else if d == 6 {
        "6"
    } else if d == 7 {
        "7"
    } else if d == 8 {
        "8"
    } else {
        "9"
    };
    assert(r@ =~= seq![digit_char(d as nat)]);
    r
}

/// The decimal notation of `n`.
pub fn print_u64(n: u64) -> (r: String)
    ensures
        r@ == digits(n as nat),
    decreases n,
{
    if n < 10 {
        digit_text(n).to_owned()
    } else {
        let mut r: String = print_u64(n / 10);
        let ghost front = r@;
        r.append(digit_text(n % 10));
        assert(r@ =~= front.push(digit_char((n % 10) as nat)));
        r
    }
}

/// The decimal notation of `n`.
pub fn print_usize(n: usize) -> (r: String)
    ensures
        r@ == digits(n as nat),
{
    print_u64(n as u64)
}

/// The decimal notation of `n`.
pub fn print_i32(n: i32) -> (r: String)
    ensures
        r@ == signed_digits(n as int),
{
    if n < 0 {
        let mut r: String = "-".to_owned();
        proof {
            reveal_strlit("-");
            assert(r@ =~= seq!['-']);
        }
        r.append(print_u64((-(n as i64)) as u64).as_str());
        r
    } else {
        print_u64(n as u64)
    }
}

// ---------------------------------------------------------------------------
// Parsing
// ---------------------------------------------------------------------------

/// Why a text is not the decimal notation of a number of the wanted type.
#[derive(Debug, Clone, Copy, PartialEq, Eq, Structural)]
pub enum NumberError {
    /// The text is empty.
    Empty,
    /// A character is not a decimal digit.
    InvalidDigit,
    /// The number is greater than the greatest of its type.
    TooLarge,
}

impl NumberError {
    /// What is said of the error.
    pub open spec fn said(self) -> Seq<char> {
        match self {
            NumberError::Empty => "cannot parse integer from empty string"@,
            NumberError::InvalidDigit => "invalid digit found in string"@,
            NumberError::TooLarge => "number too large to fit in target type"@,
        }
    }

    /// What is said of the error.
    pub fn message(&self) -> (r: String)
        ensures
            r@ == self.said(),
    {
        match self {
            NumberError::Empty => "cannot parse integer from empty string".to_owned(),
            NumberError::InvalidDigit => "invalid digit found in string".to_owned(),
            NumberError::TooLarge => "number too large to fit in target type".to_owned(),
        }
    }
}

/// Whether `c` is a decimal digit.
pub open spec fn is_digit(c: char) -> bool {
    '0' <= c <= '9'
}

/// The value of the digit `c`.
pub open spec fn digit_value(c: char) -> nat
    recommends
        is_digit(c),
{
    (c as u32 - 48) as nat
}

/// The number whose notation is that of `acc` followed by `s`, if it is at most `max`.
/// The leftmost character at fault decides the error.
pub open spec fn scan(acc: nat, s: Seq<char>, max: nat) -> Result<nat, NumberError>
    decreases s.len(),
{
    if s.len() == 0 {
        Ok(acc)
    } else if !is_digit(s[0]) {
        Err(NumberError::InvalidDigit)
    } else if acc * 10 + digit_value(s[0]) > max {
        Err(NumberError::TooLarge)
    } else {
        scan(acc * 10 + digit_value(s[0]), s.skip(1), max)
    }
}

/// The number in decimal notation in `s`: digits, after a `+` or without one.
pub open spec fn number(s: Seq<char>, max: nat) -> Result<nat, NumberError> {
    if s.len() == 0 {
        Err(NumberError::Empty)
    } else if s.len() > 1 && s[0] == '+' {
        scan(0, s.skip(1), max)
    } else {
        scan(0, s, max)
    }
}

/// The number in `s`, at most `max`, in decimal notation.
fn parse_up_to(s: &str, max: u64) -> (r: Result<u64, NumberError>)
    ensures
        match r {
            Ok(n) => number(s@, max as nat) == Ok::<nat, NumberError>(n as nat),
            Err(e) => number(s@, max as nat) == Err::<nat, NumberError>(e),
        },
{
    let cs = chars_of(s);
    if cs.len() == 0 {
        return Err(NumberError::Empty);
    }
    let mut i: usize = if cs.len() > 1 && cs[0] == '+' {
        1
    } else {
        0
    };
    let mut acc: u64 = 0;
    assert(s@.skip(0) =~= s@);
    while i < cs.len()
        invariant
            cs@ == s@,
            i <= cs@.len(),
            acc <= max,
            number(s@, max as nat) == scan(acc as nat, s@.skip(i as int), max as nat),
        decreases cs@.len() - i,
    {
        let c: char = cs[i];
        let ghost rest = s@.skip(i as int);
        assert(rest[0] == c);
        assert(rest.skip(1) =~= s@.skip(i + 1));
        if !('0' <= c && c <= '9') {
            return Err(NumberError::InvalidDigit);
        }
        let d: u64 = (c as u32 - 48) as u64;
        if d > max || acc > (max - d) / 10 {
            return Err(NumberError::TooLarge);
        }
        acc = acc * 10 + d;
        i = i + 1;
    }
    Ok(acc)
}

/// The `u64` in `s`, in decimal notation.
pub fn parse_u64(s: &str) -> (r: Result<u64, NumberError>)
    ensures
        match r {
            Ok(n) => number(s@, u64::MAX as nat) == Ok::<nat, NumberError>(n as nat),
            Err(e) => number(s@, u64::MAX as nat) == Err::<nat, NumberError>(e),
        },
{
    parse_up_to(s, u64::MAX)
}

/// The `u32` in `s`, in decimal notation.
pub fn parse_u32(s: &str) -> (r: Result<u32, NumberError>)
    ensures
        match r {
            Ok(n) => number(s@, u32::MAX as nat) == Ok::<nat, NumberError>(n as nat),
            Err(e) => number(s@, u32::MAX as nat) == Err::<nat, NumberError>(e),
        },
{
    let r = parse_up_to(s, u32::MAX as u64);
    proof {
        lemma_number_bound(s@, u32::MAX as nat);
    }
    match r {
        Ok(n) => Ok(n as u32),
        Err(e) => Err(e),
    }
}

/// The `usize` in `s`, in decimal notation.
pub fn parse_usize(s: &str) -> (r: Result<usize, NumberError>)
    ensures
        match r {
            Ok(n) => number(s@, usize::MAX as nat) == Ok::<nat, NumberError>(n as nat),
            Err(e) => number(s@, usize::MAX as nat) == Err::<nat, NumberError>(e),
        },
{
    let r = parse_up_to(s, usize::MAX as u64);
    proof {
        lemma_number_bound(s@, usize::MAX as nat);
    }
    match r {
        Ok(n) => Ok(n as usize),
        Err(e) => Err(e),
    }
}

proof fn lemma_scan_bound(acc: nat, s: Seq<char>, max: nat)
    requires
        acc <= max,
    ensures
        scan(acc, s, max) is Ok ==> scan(acc, s, max)->Ok_0 <= max,
    decreases s.len(),
{
    if s.len() > 0 && is_digit(s[0]) && acc * 10 + digit_value(s[0]) <= max {
        lemma_scan_bound(acc * 10 + digit_value(s[0]), s.skip(1), max);
    }
}

/// A number that is read is at most the greatest of its type.
pub proof fn lemma_number_bound(s: Seq<char>, max: nat)
    ensures
        number(s, max) is Ok ==> number(s, max)->Ok_0 <= max,
{
    lemma_scan_bound(0, s, max);
    lemma_scan_bound(0, s.skip(1), max);
}

// ---------------------------------------------------------------------------
// What is printed is read back
// ---------------------------------------------------------------------------

/// The notation of a number is made of digits.
pub proof fn lemma_digits(n: nat)
    ensures
        digits(n).len() > 0,
        forall|i: int| 0 <= i < digits(n).len() ==> is_digit(#[trigger] digits(n)[i]),
    decreases n,
{
    if n >= 10 {
        lemma_digits(n / 10);
        let front = digits(n / 10);
        assert forall|i: int| 0 <= i < digits(n).len() implies is_digit(#[trigger] digits(n)[i]) by {
            if i < front.len() {
                assert(digits(n)[i] == front[i]);
            }
        }
    }
}

proof fn lemma_scan_push(acc: nat, s: Seq<char>, c: char, max: nat)
    requires
        scan(acc, s, max) is Ok,
    ensures
        scan(acc, s.push(c), max) == scan(scan(acc, s, max)->Ok_0, seq![c], max),
    decreases s.len(),
{
    if s.len() == 0 {
        assert(s.push(c) =~= seq![c]);
    } else {
        assert(s.push(c).skip(1) =~= s.skip(1).push(c));
        lemma_scan_push(acc * 10 + digit_value(s[0]), s.skip(1), c, max);
    }
}

proof fn lemma_scan_digits(n: nat, max: nat)
    requires
        n <= max,
    ensures
        scan(0, digits(n), max) == Ok::<nat, NumberError>(n),
    decreases n,
{
    reveal_with_fuel(scan, 2);
    if n >= 10 {
        lemma_scan_digits(n / 10, max);
        lemma_scan_push(0, digits(n / 10), digit_char(n % 10), max);
    }
}

/// Parsing the notation of a number gives the number, for every type that can hold it.
pub proof fn law_parse_inverts_print(n: nat, max: nat)
    requires
        n <= max,
    ensures
        number(digits(n), max) == Ok::<nat, NumberError>(n),
{
    lemma_digits(n);
    lemma_scan_digits(n, max);
    assert(is_digit(digits(n)[0]));
}

/// Different numbers have different notations.
pub proof fn law_print_is_injective(m: nat, n: nat)
    requires
        digits(m) == digits(n),
    ensures
        m == n,
{
    law_parse_inverts_print(m, m + n);
    law_parse_inverts_print(n, m + n);
}

// ---------------------------------------------------------------------------
// What the notation means
// ---------------------------------------------------------------------------

/// The notation of a number is positional: a digit is its character, and a further digit stands
/// behind those of the tens. A negative number has a `-` in front.
pub proof fn law_notation_is_decimal(n: nat, d: nat)
    requires
        d < 10,
    ensures
        digits(d).len() == 1,
        digits(d)[0] as int == '0' as int + d,
        n > 0 ==> digits(10 * n + d) == digits(n) + digits(d),
        signed_digits(n as int) == digits(n),
        n > 0 ==> signed_digits(-(n as int)) == seq!['-'] + digits(n),
{
    if n > 0 {
        assert((10 * n + d) / 10 == n);
        assert((10 * n + d) % 10 == d);
        assert(digits(10 * n + d) =~= digits(n) + digits(d));
    }
}

/// Reading is positional: a further digit adds itself to ten times what was read so far. A plus in
/// front does not count. What is too large, is no digit, or is empty, is an error.
pub proof fn law_reading_is_decimal(s: Seq<char>, c: char, max: nat)
    requires
        max >= 9,
    ensures
        number(Seq::empty(), max) == Err::<nat, NumberError>(NumberError::Empty),
        '0' as int <= c as int <= '9' as int ==> number(seq![c], max) == Ok::<nat, NumberError>(
            (c as int - '0' as int) as nat,
        ),
        !('0' as int <= c as int <= '9' as int) ==> number(seq![c], max) == Err::<
            nat,
            NumberError,
        >(NumberError::InvalidDigit),
        s.len() > 0 && s[0] != '+' ==> number(seq!['+'] + s, max) == number(s, max),
        number(s, max) matches Ok(n) ==> number(s.push(c), max) == (if !('0' as int <= c as int
            <= '9' as int) {
            Err::<nat, NumberError>(NumberError::InvalidDigit)
        } else if 10 * n + (c as int - '0' as int) > max {
            Err::<nat, NumberError>(NumberError::TooLarge)
        } else {
            Ok::<nat, NumberError>((10 * n + (c as int - '0' as int)) as nat)
        }),
        number(s, max) is Err && s.len() > 0 && s != seq!['+'] ==> number(s.push(c), max) == number(
            s,
            max,
        ),
{
    reveal_with_fuel(scan, 3);
    assert(seq![c].skip(1) =~= Seq::<char>::empty());
    if s.len() > 0 && s[0] != '+' {
        assert((seq!['+'] + s).skip(1) =~= s);
    }
    if s.len() > 0 {
        let signed = s.len() > 1 && s[0] == '+';
        let body = if signed {
            s.skip(1)
        } else {
            s
        };
        if s.len() == 1 && s[0] == '+' {
            assert(s =~= seq!['+']);
        }
        if s != seq!['+'] {
            assert(s.push(c)[0] == s[0]);
            if signed {
                assert(s.push(c).skip(1) =~= body.push(c));
            }
            lemma_scan_appended(0, body, c, max);
        }
    }
}

proof fn lemma_scan_appended(acc: nat, s: Seq<char>, c: char, max: nat)
    ensures
        match scan(acc, s, max) {
            Ok(n) => scan(acc, s.push(c), max) == (if !is_digit(c) {
                Err::<nat, NumberError>(NumberError::InvalidDigit)
            } else if n * 10 + digit_value(c) > max {
                Err::<nat, NumberError>(NumberError::TooLarge)
            } else {
                Ok::<nat, NumberError>(n * 10 + digit_value(c))
            }),
            Err(e) => scan(acc, s.push(c), max) == Err::<nat, NumberError>(e),
        },
    decreases s.len(),
{
    reveal_with_fuel(scan, 2);
    if s.len() == 0 {
        assert(s.push(c) =~= seq![c]);
        assert(seq![c].skip(1) =~= Seq::<char>::empty());
    } else {
        assert(s.push(c).skip(1) =~= s.skip(1).push(c));
        assert(s.push(c)[0] == s[0]);
        if is_digit(s[0]) && acc * 10 + digit_value(s[0]) <= max {
            lemma_scan_appended(acc * 10 + digit_value(s[0]), s.skip(1), c, max);
        }
    }
}

/// What is said of an error tells which one it is.
pub proof fn law_number_errors_are_told_apart(e: NumberError, f: NumberError)
    ensures
        e.said() == f.said() ==> e == f,
        (e is Empty) == (e.said() == "cannot parse integer from empty string"@),
        (e is InvalidDigit) == (e.said() == "invalid digit found in string"@),
        (e is TooLarge) == (e.said() == "number too large to fit in target type"@),
{
    reveal_strlit("cannot parse integer from empty string");
    reveal_strlit("invalid digit found in string");
    reveal_strlit("number too large to fit in target type");
    assert("cannot parse integer from empty string"@.len() == 38);
    assert("invalid digit found in string"@.len() == 29);
    assert("number too large to fit in target type"@.len() == 38);
    assert("cannot parse integer from empty string"@[0] == 'c');
    assert("number too large to fit in target type"@[0] == 'n');
}

}

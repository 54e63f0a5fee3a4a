//! Reading and writing decimal integers, as `str::parse` and `to_string`
//! do for the integer types.

use vstd::prelude::*;

use crate::lang::parser::lexer::{digits_value, is_digit};
use crate::text::{chars_of, string_of};

verus! {

/// Whether every character of `s` is a decimal digit.
pub open spec fn all_digits(s: Seq<char>) -> bool {
    forall|i: int| 0 <= i < s.len() ==> is_digit(#[trigger] s[i])
}

/// The integer that `s` writes: an optional sign (`-` only when `signed`)
/// followed by one or more decimal digits; `None` for any other text.
pub open spec fn int_text(s: Seq<char>, signed: bool) -> Option<int> {
    if s.len() == 0 {
        None
    } else if (s[0] == '+' || s[0] == '-') && s.len() == 1 {
        None
    } else if s[0] == '+' {
        if all_digits(s.drop_first()) {
            Some(digits_value(s.drop_first()))
        } else {
            None
        }
    } else if s[0] == '-' && signed {
        if all_digits(s.drop_first()) {
            Some(-digits_value(s.drop_first()))
        } else {
            None
        }
    } else if all_digits(s) {
        Some(digits_value(s))
    } else {
        None
    }
}

/// The integer that `s` writes, if it lies in `lo..=hi`.
pub open spec fn parse_int(s: Seq<char>, signed: bool, lo: int, hi: int) -> Option<int> {
    match int_text(s, signed) {
        Some(v) => if lo <= v && v <= hi {
            Some(v)
        } else {
            None
        },
        None => None,
    }
}

proof fn lemma_digits_step(d: Seq<char>, i: int)
    requires
        0 <= i < d.len(),
    ensures
        d.take(i + 1).drop_last() == d.take(i),
        d.take(i + 1).last() == d[i],
{
    assert(d.take(i + 1).drop_last() =~= d.take(i));
}

proof fn lemma_digits_nonneg(d: Seq<char>)
    requires
        all_digits(d),
    ensures
        digits_value(d) >= 0,
    decreases d.len(),
{
    if d.len() > 0 {
        assert(all_digits(d.drop_last())) by {
            assert forall|i: int| 0 <= i < d.drop_last().len() implies is_digit(
                #[trigger] d.drop_last()[i],
            ) by {
                assert(d.drop_last()[i] == d[i]);
            }
        }
        lemma_digits_nonneg(d.drop_last());
    }
}

/// The value of the digits `s[start..]`, capped at `limit + 1`; `None`
/// if a character there is not a digit.
fn capped_digits(s: &Vec<char>, start: usize, limit: u64) -> (r: Option<u128>)
    requires
        start <= s@.len(),
    ensures
        match r {
            Some(v) => {
                &&& all_digits(s@.skip(start as int))
                &&& v == if digits_value(s@.skip(start as int)) <= limit {
                    digits_value(s@.skip(start as int))
                } else {
                    limit + 1
                }
            },
            None => !all_digits(s@.skip(start as int)),
        },
{
    let ghost d = s@.skip(start as int);
    let cap: u128 = limit as u128 + 1;
    let mut acc: u128 = 0;
    let mut i = start;
    assert(d.take(0).len() == 0);
    while i < s.len()
        invariant
            start <= i <= s@.len(),
            d == s@.skip(start as int),
            cap == limit + 1,
            all_digits(d.take(i - start)),
            acc == if digits_value(d.take(i - start)) <= limit {
                digits_value(d.take(i - start))
            } else {
                cap as int
            },
        decreases s@.len() - i,
    {
        let c = s[i];
        assert(d[i - start] == c);
        if !('0' <= c && c <= '9') {
            assert(!is_digit(d[i - start]));
            return None;
        }
        let digit = (c as u32 - '0' as u32) as u128;
        proof {
            lemma_digits_step(d, i - start);
            lemma_digits_nonneg(d.take(i - start));
            assert(all_digits(d.take(i + 1 - start))) by {
                assert forall|j: int| 0 <= j < d.take(i + 1 - start).len() implies is_digit(
                    #[trigger] d.take(i + 1 - start)[j],
                ) by {
                    if j < i - start {
                        assert(d.take(i + 1 - start)[j] == d.take(i - start)[j]);
                    }
                }
            }
        }
        if acc >= cap {
            acc = cap;
        } else {
            acc = acc * 10 + digit;
            if acc > cap {
                acc = cap;
            }
        }
        i = i + 1;
    }
    assert(d.take(i - start) =~= d);
    Some(acc)
}

/// Reads an integer in `-neg_limit..=pos_limit`; the sign (`true` for a
/// minus) and the magnitude.
fn parse_bounded(s: &Vec<char>, signed: bool, neg_limit: u64, pos_limit: u64) -> (r: Option<
    (bool, u64),
>)
    ensures
        match r {
            Some((neg, m)) => parse_int(s@, signed, -neg_limit, pos_limit as int) == Some(
                if neg {
                    -m
                } else {
                    m as int
                },
            ) && (neg ==> signed),
            None => parse_int(s@, signed, -neg_limit, pos_limit as int) is None,
        },
{
    if s.len() == 0 {
        return None;
    }
    if (s[0] == '+' || s[0] == '-') && s.len() == 1 {
        return None;
    }
    let neg = s[0] == '-' && signed;
    let start: usize = if s[0] == '+' || neg {
        1
    } else {
        0
    };
    proof {
        if start == 1 {
            assert(s@.skip(1) =~= s@.drop_first());
        } else {
            assert(s@.skip(0) =~= s@);
        }
    }
    let limit = if neg {
        neg_limit
    } else {
        pos_limit
    };
    match capped_digits(s, start, limit) {
        None => None,
        Some(v) => {
            proof {
                lemma_digits_nonneg(s@.skip(start as int));
            }
            if v > limit as u128 {
                None
            } else {
                Some((neg, v as u64))
            }
        },
    }
}

/// `s.parse::<i32>()`.
pub fn parse_i32(s: &str) -> (r: Option<i32>)
    ensures
        r == match parse_int(s@, true, i32::MIN as int, i32::MAX as int) {
            Some(v) => Some(v as i32),
            None => None::<i32>,
        },
{
    let chars = chars_of(s);
    match parse_bounded(&chars, true, 0x8000_0000, 0x7fff_ffff) {
        Some((neg, m)) => if neg {
            if m == 0x8000_0000 {
                Some(i32::MIN)
            } else {
                Some(-(m as i32))
            }
        } else {
            Some(m as i32)
        },
        None => None,
    }
}

/// `s.parse::<isize>()`.
pub fn parse_isize(s: &str) -> (r: Option<isize>)
    ensures
        r == match parse_int(s@, true, isize::MIN as int, isize::MAX as int) {
            Some(v) => Some(v as isize),
            None => None::<isize>,
        },
{
    let chars = chars_of(s);
    let neg_limit: u64 = (isize::MAX as u64) + 1;
    let pos_limit: u64 = isize::MAX as u64;
    match parse_bounded(&chars, true, neg_limit, pos_limit) {
        Some((neg, m)) => if neg {
            if m == neg_limit {
                Some(isize::MIN)
            } else {
                Some(-(m as isize))
            }
        } else {
            Some(m as isize)
        },
        None => None,
    }
}

/// `s.parse::<u32>()`.
pub fn parse_u32(s: &str) -> (r: Option<u32>)
    ensures
        r == match parse_int(s@, false, 0, u32::MAX as int) {
            Some(v) => Some(v as u32),
            None => None::<u32>,
        },
{
    let chars = chars_of(s);
    match parse_bounded(&chars, false, 0, 0xffff_ffff) {
        Some((_, m)) => Some(m as u32),
        None => None,
    }
}

/// `s.parse::<usize>()`.
pub fn parse_usize(s: &str) -> (r: Option<usize>)
    ensures
        r == match parse_int(s@, false, 0, usize::MAX as int) {
            Some(v) => Some(v as usize),
            None => None::<usize>,
        },
{
    let chars = chars_of(s);
    match parse_bounded(&chars, false, 0, usize::MAX as u64) {
        Some((_, m)) => Some(m as usize),
        None => None,
    }
}

/// The digit character for `d` in `0..10`.
pub open spec fn digit_char(d: nat) -> char {
    (('0' as u32) + d) as char
}

/// The decimal numeral for `n`, without leading zeros.
pub open spec fn decimal(n: nat) -> Seq<char>
    decreases n,
{
    if n < 10 {
        seq![digit_char(n)]
    } else {
        decimal(n / 10).push(digit_char(n % 10))
    }
}

/// The decimal numeral for the integer `n`, with a `-` when negative.
pub open spec fn signed_decimal(n: int) -> Seq<char> {
    if n < 0 {
        seq!['-'] + decimal((-n) as nat)
    } else {
        decimal(n as nat)
    }
}

/// `n.to_string()` for an unsigned integer.
pub fn u64_to_string(n: u64) -> (s: String)
    ensures
        s@ == decimal(n as nat),
    decreases n,
{
    let d = (n % 10) as u32;
    let c = char_of_digit(d);
    if n < 10 {
        let v: Vec<char> = vec![c];
        assert(v@ =~= seq![c]);
        string_of(v.as_slice())
    } else {
        let mut s = u64_to_string(n / 10);
        crate::text::push_char(&mut s, c);
        s
    }
}

/// The digit character for `d`.
fn char_of_digit(d: u32) -> (c: char)
    requires
        d < 10,
    ensures
        c == digit_char(d as nat),
{
    if d == 0 {
        '0'
    } else if d == 1 {
        '1'
    } else if d == 2 {
        '2'
    } else if d == 3 {
        '3'
    } else if d == 4 {
        '4'
    } else if d == 5 {
        '5'
    } else if d == 6 {
        '6'
    } else if d == 7 {
        '7'
    } else if d == 8 {
        '8'
    } else {
        '9'
    }
}

/// `n.to_string()` for a signed integer.
pub fn i64_to_string(n: i64) -> (s: String)
    ensures
        s@ == signed_decimal(n as int),
{
    if n < 0 {
        let m: u64 = if n == i64::MIN {
            0x8000_0000_0000_0000
        } else {
            (-n) as u64
        };
        let digits = u64_to_string(m);
        proof {
            reveal_strlit("-");
        }
        crate::errors::concat("-", digits.as_str())
    } else {
        u64_to_string(n as u64)
    }
}

/// Why a text is not a number of an unsigned type.
#[derive(Clone, Copy, Debug, PartialEq, Eq, Structural)]
pub enum IntErrorKind {
    Empty,
    InvalidDigit,
    PosOverflow,
}

/// The first problem met reading the digits `d` from the front, the value
/// read so far being `acc`: a character that is not a digit, or a value
/// past `limit`.
pub open spec fn digit_problem(d: Seq<char>, acc: int, limit: int) -> Option<IntErrorKind>
    decreases d.len(),
{
    if d.len() == 0 {
        None
    } else if !is_digit(d[0]) {
        Some(IntErrorKind::InvalidDigit)
    } else {
        let v = acc * 10 + (d[0] as int - '0' as int);
        if v > limit {
            Some(IntErrorKind::PosOverflow)
        } else {
            digit_problem(d.drop_first(), v, limit)
        }
    }
}

/// The problem reported when `s` is read as an unsigned number up to
/// `limit`, reading from the front.
pub open spec fn unsigned_problem(s: Seq<char>, limit: int) -> Option<IntErrorKind> {
    if s.len() == 0 {
        Some(IntErrorKind::Empty)
    } else if (s[0] == '+' || s[0] == '-') && s.len() == 1 {
        Some(IntErrorKind::InvalidDigit)
    } else if s[0] == '+' {
        digit_problem(s.drop_first(), 0, limit)
    } else {
        digit_problem(s, 0, limit)
    }
}

proof fn lemma_no_problem_prefix(d: Seq<char>, limit: int, k: int)
    requires
        0 <= k <= d.len(),
        digit_problem(d, 0, limit) is None,
    ensures
        all_digits(d.take(k)),
        digits_value(d.take(k)) <= limit || k == 0,
        digit_problem(d.skip(k), digits_value(d.take(k)), limit) is None,
    decreases k,
{
    if k == 0 {
        assert(d.skip(0) =~= d);
        assert(d.take(0).len() == 0);
    } else {
        lemma_no_problem_prefix(d, limit, k - 1);
        let acc = digits_value(d.take(k - 1));
        let rest = d.skip(k - 1);
        assert(rest[0] == d[k - 1]);
        assert(rest.drop_first() =~= d.skip(k));
        assert(d.take(k).drop_last() =~= d.take(k - 1));
        assert(d.take(k).last() == d[k - 1]);
        assert forall|i: int| 0 <= i < d.take(k).len() implies is_digit(#[trigger] d.take(k)[i]) by {
            if i < k - 1 {
                assert(d.take(k)[i] == d.take(k - 1)[i]);
            }
        }
    }
}

/// Reading `s` as an unsigned number up to `limit` fails with a problem
/// exactly when it does not give a number.
proof fn lemma_unsigned_problem(s: Seq<char>, limit: int)
    requires
        limit >= 0,
        parse_int(s, false, 0, limit) is None,
    ensures
        unsigned_problem(s, limit) is Some,
{
    if unsigned_problem(s, limit) is None {
        let d = if s[0] == '+' {
            s.drop_first()
        } else {
            s
        };
        lemma_no_problem_prefix(d, limit, d.len() as int);
        assert(d.take(d.len() as int) =~= d);
        lemma_digits_nonneg(d);
    }
}

/// The message of a parse error of this kind.
pub open spec fn int_error_message(k: IntErrorKind) -> Seq<char> {
    match k {
        IntErrorKind::Empty => "cannot parse integer from empty string"@,
        IntErrorKind::InvalidDigit => "invalid digit found in string"@,
        IntErrorKind::PosOverflow => "number too large to fit in target type"@,
    }
}

/// The first problem reading `s[start..]` as digits up to `limit`.
fn find_digit_problem(s: &Vec<char>, start: usize, limit: u64) -> (r: Option<IntErrorKind>)
    requires
        start <= s@.len(),
        limit <= u32::MAX,
    ensures
        r == digit_problem(s@.skip(start as int), 0, limit as int),
{
    let mut acc: u64 = 0;
    let mut i = start;
    assert(s@.skip(start as int) =~= s@.skip(start as int));
    while i < s.len()
        invariant
            start <= i <= s@.len(),
            acc <= limit,
            limit <= u32::MAX,
            digit_problem(s@.skip(start as int), 0, limit as int) == digit_problem(
                s@.skip(i as int),
                acc as int,
                limit as int,
            ),
        decreases s@.len() - i,
    {
        let c = s[i];
        assert(s@.skip(i as int)[0] == c);
        assert(s@.skip(i as int).drop_first() =~= s@.skip(i + 1));
        if !('0' <= c && c <= '9') {
            return Some(IntErrorKind::InvalidDigit);
        }
        let v = acc * 10 + (c as u32 - '0' as u32) as u64;
        if v > limit {
            return Some(IntErrorKind::PosOverflow);
        }
        acc = v;
        i = i + 1;
    }
    None
}

/// `s.parse::<u32>()` with the message of its error.
pub fn parse_u32_or_message(s: &str) -> (r: Result<u32, String>)
    ensures
        match r {
            Ok(v) => parse_int(s@, false, 0, u32::MAX as int) == Some(v as int),
            Err(m) => {
                &&& parse_int(s@, false, 0, u32::MAX as int) is None
                &&& unsigned_problem(s@, u32::MAX as int) matches Some(k) && m@ == int_error_message(k)
            },
        },
{
    match parse_u32(s) {
        Some(v) => Ok(v),
        None => {
            proof {
                lemma_unsigned_problem(s@, u32::MAX as int);
            }
            let chars = chars_of(s);
            let problem = if chars.len() == 0 {
                Some(IntErrorKind::Empty)
            } else if (chars[0] == '+' || chars[0] == '-') && chars.len() == 1 {
                Some(IntErrorKind::InvalidDigit)
            } else if chars[0] == '+' {
                assert(chars@.skip(1) =~= s@.drop_first());
                find_digit_problem(&chars, 1, 0xffff_ffff)
            } else {
                assert(chars@.skip(0) =~= s@);
                find_digit_problem(&chars, 0, 0xffff_ffff)
            };
            let m = match problem {
                Some(IntErrorKind::Empty) => "cannot parse integer from empty string".to_owned(),
                Some(IntErrorKind::InvalidDigit) => "invalid digit found in string".to_owned(),
                Some(IntErrorKind::PosOverflow) => "number too large to fit in target type".to_owned(),
                None => "invalid digit found in string".to_owned(),
            };
            Err(m)
        },
    }
}

/// The numeral of `n` is read back as `n`.
pub proof fn lemma_decimal_reads_back(n: nat)
    ensures
        decimal(n).len() > 0,
        all_digits(decimal(n)),
        digits_value(decimal(n)) == n,
        is_digit(decimal(n)[0]),
    decreases n,
{
    let d = (n % 10) as nat;
    assert(digit_char(d) as int == '0' as int + d);
    if n >= 10 {
        lemma_decimal_reads_back(n / 10);
        let x = decimal(n / 10);
        let s = decimal(n);
        assert(s == x.push(digit_char(d)));
        assert(s.drop_last() =~= x);
        assert(digits_value(s) == digits_value(x) * 10 + d);
        vstd::arithmetic::div_mod::lemma_fundamental_div_mod(n as int, 10);
        assert forall|i: int| 0 <= i < s.len() implies is_digit(#[trigger] s[i]) by {
            if i < x.len() {
                assert(s[i] == x[i]);
            }
        }
        assert(s[0] == x[0]);
    } else {
        assert(n % 10 == n);
        let s = decimal(n);
        assert(s.drop_last() =~= Seq::<char>::empty());
        assert(s.last() == digit_char(n));
        assert(digits_value(s) == digits_value(s.drop_last()) * 10 + (s.last() as int - '0' as int));
    }
}

/// Reading the numeral of `n` (with a `-` for negative `n`) gives `n`.
pub proof fn lemma_signed_decimal_parses(n: int, lo: int, hi: int)
    requires
        lo <= n <= hi,
    ensures
        parse_int(signed_decimal(n), true, lo, hi) == Some(n),
{
    if n < 0 {
        lemma_decimal_reads_back((-n) as nat);
        let s = signed_decimal(n);
        assert(s.drop_first() =~= decimal((-n) as nat));
        assert(s[0] == '-');
    } else {
        lemma_decimal_reads_back(n as nat);
        let s = decimal(n as nat);
        assert(s[0] != '+' && s[0] != '-');
    }
}

} // verus!

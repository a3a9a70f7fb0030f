use vstd::prelude::*;
use vstd::string::{StrSliceExecFns, StringExecFns};
use crate::dates::CalendarDate;
use crate::month::{month_name, month_title};
use crate::text::{dec_rep, u64_to_string};
use crate::year::Config;

verus! {

/// The largest magnitude the integer parser accepts.
pub open spec fn int_limit() -> int {
    999_999_999_999_999_999
}

const INT_LIMIT: u64 = 999_999_999_999_999_999;

pub open spec fn is_digit(c: char) -> bool {
    '0' <= c && c <= '9'
}

pub open spec fn digit_value(c: char) -> int {
    c as int - '0' as int
}

pub open spec fn all_digits(s: Seq<char>) -> bool {
    forall|i: int| 0 <= i < s.len() ==> is_digit(#[trigger] s[i])
}

/// The value of a string of decimal digits, most significant first.
pub open spec fn digits_value(s: Seq<char>) -> int
    decreases s.len(),
{
    if s.len() == 0 {
        0
    } else {
        digits_value(s.drop_last()) * 10 + digit_value(s.last())
    }
}

/// The input with a single leading sign removed.
pub open spec fn digits_part(s: Seq<char>) -> Seq<char> {
    if s.len() > 0 && (s[0] == '-' || s[0] == '+') {
        s.subrange(1, s.len() as int)
    } else {
        s
    }
}

pub open spec fn is_negative(s: Seq<char>) -> bool {
    s.len() > 0 && s[0] == '-'
}

/// The shape of an integer argument: an optional sign, then one or more
/// decimal digits.
pub open spec fn int_shape(s: Seq<char>) -> bool {
    digits_part(s).len() > 0 && all_digits(digits_part(s))
}

/// The value an integer argument denotes.
pub open spec fn int_value(s: Seq<char>) -> int {
    if is_negative(s) {
        -digits_value(digits_part(s))
    } else {
        digits_value(digits_part(s))
    }
}

/// An argument parses as an integer exactly when it has the sign-and-digits
/// shape and its magnitude is at most `int_limit`.
pub open spec fn parses_as_int(s: Seq<char>) -> bool {
    int_shape(s) && digits_value(digits_part(s)) <= int_limit()
}

/// A validation failure of the argument resolver.
#[derive(Debug)]
pub enum ParseError {
    /// The argument is not a decimal integer.
    InvalidInteger(String),
    /// The year is an integer outside 1 through 9999.
    YearOutOfRange(i64),
    /// The month is an integer outside 1 through 12.
    MonthOutOfRange(i64),
    /// The month text is a prefix of no month name, or of several.
    InvalidMonthName(String),
    /// The whole-year flag came together with a month or year argument.
    ConflictingArguments,
}

/// The decimal rendering of an integer, with a leading minus sign when it is
/// negative.
pub open spec fn int_rep(v: int) -> Seq<char> {
    if v < 0 {
        seq!['-'] + dec_rep((-v) as nat)
    } else {
        dec_rep(v as nat)
    }
}

/// The user-facing message of each error.
pub open spec fn error_message(e: ParseError) -> Seq<char> {
    match e {
        ParseError::InvalidInteger(s) => "Invalid integer \""@ + s@ + "\""@,
        ParseError::YearOutOfRange(v) => "year \""@ + int_rep(v as int)
            + "\" not in the range 1 through 9999"@,
        ParseError::MonthOutOfRange(v) => "month \""@ + int_rep(v as int)
            + "\" not in the range 1 through 12"@,
        ParseError::InvalidMonthName(s) => "Invalid month \""@ + s@ + "\""@,
        ParseError::ConflictingArguments => "the whole-year flag conflicts with a month or year"@,
    }
}

fn i64_to_string(v: i64) -> (r: String)
    ensures
        r@ == int_rep(v as int),
{
    if v < 0 {
        let mag: u64 = ((-(v + 1)) as u64) + 1;
        let mut s = String::from_str("-");
        s.append(u64_to_string(mag).as_str());
        proof {
            reveal_strlit("-");
            assert(s@ =~= int_rep(v as int));
        }
        s
    } else {
        u64_to_string(v as u64)
    }
}

impl ParseError {
    /// The message of the error, as `error_message` states it.
    pub fn message(&self) -> (r: String)
        ensures
            r@ == error_message(*self),
    {
        match self {
            ParseError::InvalidInteger(s) => {
                let mut t = String::from_str("Invalid integer \"");
                t.append(s.as_str());
                t.append("\"");
                t
            },
            ParseError::YearOutOfRange(v) => {
                let mut t = String::from_str("year \"");
                t.append(i64_to_string(*v).as_str());
                t.append("\" not in the range 1 through 9999");
                t
            },
            ParseError::MonthOutOfRange(v) => {
                let mut t = String::from_str("month \"");
                t.append(i64_to_string(*v).as_str());
                t.append("\" not in the range 1 through 12");
                t
            },
            ParseError::InvalidMonthName(s) => {
                let mut t = String::from_str("Invalid month \"");
                t.append(s.as_str());
                t.append("\"");
                t
            },
            ParseError::ConflictingArguments => {
                String::from_str("the whole-year flag conflicts with a month or year")
            },
        }
    }
}

proof fn lemma_digits_value_nonneg(t: Seq<char>)
    requires
        all_digits(t),
    ensures
        digits_value(t) >= 0,
    decreases t.len(),
{
    if t.len() > 0 {
        assert(all_digits(t.drop_last()));
        lemma_digits_value_nonneg(t.drop_last());
    }
}

proof fn lemma_digits_prefix_le(t: Seq<char>, k: int)
    requires
        all_digits(t),
        0 <= k <= t.len(),
    ensures
        digits_value(t.take(k)) <= digits_value(t),
    decreases t.len() - k,
{
    if k < t.len() {
        lemma_digits_prefix_le(t, k + 1);
        assert(t.take(k + 1).drop_last() =~= t.take(k));
        assert(all_digits(t.take(k)));
        lemma_digits_value_nonneg(t.take(k));
    } else {
        assert(t.take(k) =~= t);
    }
}

/// Parses a decimal integer: an optional sign and at least one digit, with a
/// magnitude of at most `int_limit`. Anything else is an `InvalidInteger`.
pub fn parse_int(val: &str) -> (r: Result<i64, ParseError>)
    ensures
        match r {
            Ok(v) => parses_as_int(val@) && v as int == int_value(val@),
            Err(e) => !parses_as_int(val@) && (e matches ParseError::InvalidInteger(s) && s@
                == val@),
        },
{
    let n = val.unicode_len();
    let mut start: usize = 0;
    let mut neg = false;
    if n > 0 {
        let c0 = val.get_char(0);
        if c0 == '-' {
            neg = true;
            start = 1;
        } else if c0 == '+' {
            start = 1;
        }
    }
    proof {
        assert(digits_part(val@) =~= val@.subrange(start as int, n as int));
        assert(neg == is_negative(val@));
    }
    if start >= n {
        return Err(ParseError::InvalidInteger(String::from_str(val)));
    }
    let mut acc: u64 = 0;
    let mut i: usize = start;
    while i < n
        invariant
            start <= i <= n,
            n == val@.len(),
            start <= 1,
            digits_part(val@) == val@.subrange(start as int, n as int),
            all_digits(val@.subrange(start as int, i as int)),
            acc as int == digits_value(val@.subrange(start as int, i as int)),
            acc <= INT_LIMIT,
        decreases n - i,
    {
        let c = val.get_char(i);
        if !('0' <= c && c <= '9') {
            assert(!all_digits(digits_part(val@))) by {
                assert(digits_part(val@)[i - start] == val@[i as int]);
            }
            return Err(ParseError::InvalidInteger(String::from_str(val)));
        }
        let d: u64 = ((c as u32) - 48) as u64;
        proof {
            assert(val@.subrange(start as int, i as int + 1).drop_last() =~= val@.subrange(
                start as int,
                i as int,
            ));
            assert(val@.subrange(start as int, i as int + 1).last() == val@[i as int]);
        }
        if acc > (INT_LIMIT - d) / 10 {
            assert(acc * 10 + d > INT_LIMIT);
            assert(!parses_as_int(val@)) by {
                if int_shape(val@) {
                    let dp = digits_part(val@);
                    assert(dp.take(i - start + 1) =~= val@.subrange(start as int, i as int + 1));
                    assert(digits_value(dp.take(i - start + 1)) == acc * 10 + d);
                    lemma_digits_prefix_le(dp, i - start + 1);
                }
            }
            return Err(ParseError::InvalidInteger(String::from_str(val)));
        }
        acc = acc * 10 + d;
        i = i + 1;
    }
    proof {
        assert(val@.subrange(start as int, n as int) =~= digits_part(val@));
    }
    let v: i64 = if neg {
        -(acc as i64)
    } else {
        acc as i64
    };
    Ok(v)
}

/// Parses a year argument: an integer in 1 through 9999. An integer outside
/// that range is a `YearOutOfRange`; anything else an `InvalidInteger`.
pub fn parse_year(year: &str) -> (r: Result<i32, ParseError>)
    ensures
        match r {
            Ok(v) => parses_as_int(year@) && v as int == int_value(year@) && 1 <= v <= 9999,
            Err(e) => match e {
                ParseError::InvalidInteger(s) => !parses_as_int(year@) && s@ == year@,
                ParseError::YearOutOfRange(v) => parses_as_int(year@) && v as int == int_value(
                    year@,
                ) && !(1 <= int_value(year@) <= 9999),
                _ => false,
            },
        },
{
    match parse_int(year) {
        Ok(num) => if 1 <= num && num <= 9999 {
            Ok(num as i32)
        } else {
            Err(ParseError::YearOutOfRange(num))
        },
        Err(e) => Err(e),
    }
}

/// The character with upper-case ASCII letters folded to lower case.
pub open spec fn fold_char(c: char) -> char {
    if 'A' <= c && c <= 'Z' {
        ((c as int) + 32) as char
    } else {
        c
    }
}

/// Whether `input` is a case-insensitive prefix of month `m`'s name.
pub open spec fn name_matches(input: Seq<char>, m: int) -> bool {
    input.len() <= month_title(m).len() && (forall|i: int|
        0 <= i < input.len() ==> fold_char(#[trigger] input[i]) == fold_char(month_title(m)[i]))
}

/// How many of the months `m` through 12 the input is a prefix of.
pub open spec fn match_count_from(input: Seq<char>, m: int) -> nat
    decreases 13 - m,
{
    if m > 12 || m < 1 {
        0
    } else {
        (if name_matches(input, m) {
            1nat
        } else {
            0nat
        }) + match_count_from(input, m + 1)
    }
}

/// How many month names the input is a case-insensitive prefix of.
pub open spec fn match_count(input: Seq<char>) -> nat {
    match_count_from(input, 1)
}

fn fold_char_exec(c: char) -> (r: char)
    ensures
        r == fold_char(c),
{
    if 'A' <= c && c <= 'Z' {
        ((c as u8) + 32) as char
    } else {
        c
    }
}

fn is_name_prefix(input: &str, m: u32) -> (r: bool)
    requires
        1 <= m <= 12,
    ensures
        r == name_matches(input@, m as int),
{
    let name = month_name(m);
    let ilen = input.unicode_len();
    let nlen = name.unicode_len();
    if ilen > nlen {
        return false;
    }
    let mut i: usize = 0;
    while i < ilen
        invariant
            i <= ilen,
            ilen == input@.len(),
            nlen == name@.len(),
            ilen <= nlen,
            name@ == month_title(m as int),
            forall|j: int| 0 <= j < i ==> fold_char(#[trigger] input@[j]) == fold_char(name@[j]),
        decreases ilen - i,
    {
        let a = fold_char_exec(input.get_char(i));
        let b = fold_char_exec(name.get_char(i));
        if a != b {
            return false;
        }
        i = i + 1;
    }
    true
}

/// Parses a month argument. An integer in 1 through 12 names the month
/// directly; an integer outside that range is a `MonthOutOfRange`. Any other
/// text resolves through case-insensitive prefix matching against the month
/// names, and is an `InvalidMonthName` unless it matches exactly one.
pub fn parse_month(month: &str) -> (r: Result<u32, ParseError>)
    ensures
        match r {
            Ok(m) => (parses_as_int(month@) && 1 <= int_value(month@) <= 12 && m as int
                == int_value(month@)) || (!parses_as_int(month@) && match_count(month@) == 1 && 1
                <= m <= 12 && name_matches(month@, m as int)),
            Err(e) => match e {
                ParseError::MonthOutOfRange(v) => parses_as_int(month@) && v as int == int_value(
                    month@,
                ) && !(1 <= int_value(month@) <= 12),
                ParseError::InvalidMonthName(s) => !parses_as_int(month@) && match_count(month@)
                    != 1 && s@ == month@,
                _ => false,
            },
        },
{
    match parse_int(month) {
        Ok(num) => if 1 <= num && num <= 12 {
            Ok(num as u32)
        } else {
            Err(ParseError::MonthOutOfRange(num))
        },
        Err(_) => {
            let mut count: u32 = 0;
            let mut found: u32 = 1;
            let mut m: u32 = 1;
            while m <= 12
                invariant
                    1 <= m <= 13,
                    count <= m - 1,
                    match_count(month@) == count + match_count_from(month@, m as int),
                    count >= 1 ==> 1 <= found < m && name_matches(month@, found as int),
                decreases 13 - m,
            {
                if is_name_prefix(month, m) {
                    count = count + 1;
                    found = m;
                }
                m = m + 1;
            }
            if count == 1 {
                Ok(found)
            } else {
                Err(ParseError::InvalidMonthName(String::from_str(month)))
            }
        },
    }
}

/// Resolves the command-line intent into a configuration. The whole-year
/// flag conflicts with an explicit month or year; the month and year
/// arguments are validated as `parse_month` and `parse_year` say, the first
/// failure aborting; when the flag is set the whole of today's year is
/// rendered; with no arguments at all, today's month of today's year; a year
/// alone renders that whole year; a month alone falls in today's year.
pub fn resolve_config(
    month_arg: Option<&str>,
    year_arg: Option<&str>,
    show_year: bool,
    today: CalendarDate,
) -> (r: Result<Config, ParseError>)
    requires
        today.wf(),
        today.year >= 1,
    ensures
        match r {
            Ok(c) => {
                &&& c.wf()
                &&& c.today == today
                &&& show_year ==> month_arg is None && year_arg is None && c.month is None
                    && c.year == today.year
                &&& (!show_year && month_arg is None && year_arg is None) ==> c.month == Some(
                    today.month,
                ) && c.year == today.year
                &&& (!show_year && month_arg is None && year_arg is Some) ==> c.month is None
                &&& (!show_year ==> (month_arg matches Some(ms) ==> (c.month matches Some(m) && ((
                parses_as_int(ms@) && m as int == int_value(ms@)) || (!parses_as_int(ms@)
                    && match_count(ms@) == 1 && name_matches(ms@, m as int))))))
                &&& (!show_year ==> (year_arg matches Some(ys) ==> parses_as_int(ys@) && c.year
                    as int == int_value(ys@)))
                &&& (!show_year && year_arg is None) ==> c.year == today.year
            },
            Err(e) => match e {
                ParseError::ConflictingArguments => show_year && (month_arg is Some || year_arg
                    is Some),
                ParseError::MonthOutOfRange(v) => !show_year && (month_arg matches Some(ms)
                    && parses_as_int(ms@) && v as int == int_value(ms@) && !(1 <= int_value(ms@)
                    <= 12)),
                ParseError::InvalidMonthName(s) => !show_year && (month_arg matches Some(ms)
                    && !parses_as_int(ms@) && match_count(ms@) != 1 && s@ == ms@),
                ParseError::InvalidInteger(s) => !show_year && (year_arg matches Some(ys)
                    && !parses_as_int(ys@) && s@ == ys@),
                ParseError::YearOutOfRange(v) => !show_year && (year_arg matches Some(ys)
                    && parses_as_int(ys@) && v as int == int_value(ys@) && !(1 <= int_value(ys@)
                    <= 9999)),
            },
        },
{
    if show_year && (month_arg.is_some() || year_arg.is_some()) {
        return Err(ParseError::ConflictingArguments);
    }
    let mut month: Option<u32> = match month_arg {
        Some(ms) => match parse_month(ms) {
            Ok(m) => Some(m),
            Err(e) => { return Err(e) },
        },
        None => None,
    };
    let mut year: Option<i32> = match year_arg {
        Some(ys) => match parse_year(ys) {
            Ok(y) => Some(y),
            Err(e) => { return Err(e) },
        },
        None => None,
    };
    if show_year {
        month = None;
        year = Some(today.year);
    } else if month.is_none() && year.is_none() {
        month = Some(today.month);
        year = Some(today.year);
    }
    let resolved_year: i32 = match year {
        Some(y) => y,
        None => today.year,
    };
    Ok(Config { month, year: resolved_year, today })
}

} // verus!

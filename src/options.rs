use vstd::prelude::*;
use crate::text::{
    append_str, ascii_upper, chars_of, is_ascii_digit, is_ascii_seq, padded_at_least, padded_decimal, push_char,
    string_from_range, to_ascii_upper_char, to_uppercase, trim, trim_seq, upper_of,
};

verus! {

/// Errors of OCC symbol parsing.
#[derive(Debug, Clone, PartialEq, Eq)]
pub enum OccSymbolError {
    TooShort(usize),
    TooLong(usize),
    InvalidExpirationDate(String),
    InvalidOptionType(char),
    InvalidStrikePrice(String),
    EmptyUnderlying,
}

/// Call or put.
#[derive(Debug, Clone, Copy, PartialEq, Eq, Structural)]
pub enum OptionType {
    Call,
    Put,
}

impl OptionType {
    /// The OCC character of the type.
    pub fn as_char(&self) -> (r: char)
        ensures
            r == match *self {
                OptionType::Call => 'C',
                OptionType::Put => 'P',
            },
    {
        match self {
            OptionType::Call => 'C',
            OptionType::Put => 'P',
        }
    }

    /// The full name of the type.
    pub fn as_str(&self) -> (r: &'static str)
        ensures
            r@ == match *self {
                OptionType::Call => "CALL"@,
                OptionType::Put => "PUT"@,
            },
    {
        match self {
            OptionType::Call => "CALL",
            OptionType::Put => "PUT",
        }
    }

    /// The type of an OCC character, in either case.
    pub fn try_from_char(c: char) -> (r: Result<OptionType, OccSymbolError>)
        ensures
            r == if ascii_upper(c) == 'C' {
                Ok::<OptionType, OccSymbolError>(OptionType::Call)
            } else if ascii_upper(c) == 'P' {
                Ok(OptionType::Put)
            } else {
                Err(OccSymbolError::InvalidOptionType(c))
            },
    {
        let u = to_ascii_upper_char(c);
        if u == 'C' {
            Ok(OptionType::Call)
        } else if u == 'P' {
            Ok(OptionType::Put)
        } else {
            Err(OccSymbolError::InvalidOptionType(c))
        }
    }
}

pub open spec fn is_leap_year(y: int) -> bool {
    y % 4 == 0 && (y % 100 != 0 || y % 400 == 0)
}

pub open spec fn days_in_month(y: int, m: int) -> int {
    if m == 2 {
        if is_leap_year(y) { 29 } else { 28 }
    } else if m == 4 || m == 6 || m == 9 || m == 11 {
        30
    } else {
        31
    }
}

/// Whether `year-month-day` is a day of the proleptic Gregorian calendar.
pub open spec fn is_valid_date(y: int, m: int, d: int) -> bool {
    1 <= m <= 12 && 1 <= d <= days_in_month(y, m)
}

/// Relies on `chrono::NaiveDate::from_ymd_opt`: `Some` exactly for a
/// calendar day that exists, for years within chrono's range.
#[verifier::external_body]
fn date_exists(year: i32, month: u32, day: u32) -> (r: bool)
    requires
        1900 <= year <= 2100,
    ensures
        r == is_valid_date(year as int, month as int, day as int),
{
    chrono::NaiveDate::from_ymd_opt(year, month, day).is_some()
}

pub open spec fn two_digit_value(s: Seq<char>, at: int) -> int {
    10 * ((s[at] as u32) - ('0' as u32)) + ((s[at + 1] as u32) - ('0' as u32))
}

pub open spec fn all_digits(s: Seq<char>, from: int, to: int) -> bool {
    forall|i: int| from <= i < to ==> is_ascii_digit(#[trigger] s[i])
}

fn all_digits_exec(cs: &Vec<char>, from: usize, to: usize) -> (r: bool)
    requires
        from <= to <= cs@.len(),
    ensures
        r == all_digits(cs@, from as int, to as int),
{
    let mut i = from;
    while i < to
        invariant
            from <= i <= to <= cs@.len(),
            forall|k: int| from <= k < i ==> is_ascii_digit(#[trigger] cs@[k]),
        decreases to - i,
    {
        if !('0' <= cs[i] && cs[i] <= '9') {
            assert(!is_ascii_digit(cs@[i as int]));
            return false;
        }
        i += 1;
    }
    true
}

/// Whether six digits `YYMMDD` name an existing day of the years 2000-2099.
pub open spec fn yymmdd_valid(s: Seq<char>) -> bool {
    is_valid_date(2000 + two_digit_value(s, 0), two_digit_value(s, 2), two_digit_value(s, 4))
}

fn yymmdd_exists(cs: &Vec<char>) -> (r: bool)
    requires
        6 <= cs@.len(),
        all_digits(cs@, 0, 6),
    ensures
        r == yymmdd_valid(cs@.subrange(0, 6)),
{
    let ghost s = cs@.subrange(0, 6);
    assert(is_ascii_digit(cs@[0]) && is_ascii_digit(cs@[1]) && is_ascii_digit(cs@[2]));
    assert(is_ascii_digit(cs@[3]) && is_ascii_digit(cs@[4]) && is_ascii_digit(cs@[5]));
    let y: u32 = 10 * ((cs[0] as u32) - ('0' as u32)) + ((cs[1] as u32) - ('0' as u32));
    let m: u32 = 10 * ((cs[2] as u32) - ('0' as u32)) + ((cs[3] as u32) - ('0' as u32));
    let d: u32 = 10 * ((cs[4] as u32) - ('0' as u32)) + ((cs[5] as u32) - ('0' as u32));
    assert(s[0] == cs@[0] && s[1] == cs@[1] && s[2] == cs@[2]);
    assert(s[3] == cs@[3] && s[4] == cs@[4] && s[5] == cs@[5]);
    date_exists(2000 + y as i32, m, d)
}

pub open spec fn is_option_type_char(c: char) -> bool {
    c == 'C' || c == 'c' || c == 'P' || c == 'p'
}

/// Shape of an OCC symbol: 15 to 21 ASCII characters ending in six date
/// digits, `C` or `P` (either case), and eight strike digits.
pub open spec fn spec_looks_like_occ(t: Seq<char>) -> bool {
    let n = t.len();
    is_ascii_seq(t) && 15 <= n <= 21 && is_option_type_char(t[n - 9]) && all_digits(t, n - 8, n as int)
        && all_digits(t, n - 15, n - 9)
}

/// Whether the trimmed text looks like an OCC option symbol.
pub fn looks_like_occ_symbol(symbol: &str) -> (r: bool)
    ensures
        r == spec_looks_like_occ(trim_seq(symbol@)),
{
    let t = trim(symbol);
    let cs = chars_of(t);
    let n = cs.len();
    if n < 15 || n > 21 {
        return false;
    }
    if !crate::text::is_ascii_text(t) {
        return false;
    }
    let c = cs[n - 9];
    if !(c == 'C' || c == 'c' || c == 'P' || c == 'p') {
        return false;
    }
    all_digits_exec(&cs, n - 8, n) && all_digits_exec(&cs, n - 15, n - 9)
}

/// Value of a run of decimal digits.
pub open spec fn digits_value(s: Seq<char>) -> int
    decreases s.len(),
{
    if s.len() == 0 {
        0
    } else {
        10 * digits_value(s.drop_last()) + ((s.last() as u32) - ('0' as u32))
    }
}

proof fn lemma_digits_value_monotone(s: Seq<char>, k: int)
    requires
        0 <= k <= s.len(),
        forall|i: int| 0 <= i < s.len() ==> is_ascii_digit(#[trigger] s[i]),
    ensures
        0 <= digits_value(s.subrange(0, k)) <= digits_value(s),
    decreases s.len(),
{
    if k < s.len() {
        assert(s.drop_last().subrange(0, k) =~= s.subrange(0, k));
        assert forall|i: int| 0 <= i < s.drop_last().len() implies is_ascii_digit(#[trigger] s.drop_last()[i]) by {
            assert(s.drop_last()[i] == s[i]);
        }
        lemma_digits_value_monotone(s.drop_last(), k);
    } else {
        assert(s.subrange(0, k) =~= s);
        if s.len() > 0 {
            assert forall|i: int| 0 <= i < s.drop_last().len() implies is_ascii_digit(#[trigger] s.drop_last()[i]) by {
                assert(s.drop_last()[i] == s[i]);
            }
            lemma_digits_value_monotone(s.drop_last(), s.len() - 1);
        }
    }
}

/// Value of `cs[from..to]` when it is below `limit`, else `None`.
fn digits_value_below(cs: &Vec<char>, from: usize, to: usize, limit: u64) -> (r: Option<u64>)
    requires
        from <= to <= cs@.len(),
        all_digits(cs@, from as int, to as int),
        0 < limit <= 1_000_000_000,
    ensures
        match r {
            Some(v) => v == digits_value(cs@.subrange(from as int, to as int)) && v < limit,
            None => digits_value(cs@.subrange(from as int, to as int)) >= limit,
        },
{
    let ghost s = cs@.subrange(from as int, to as int);
    assert forall|i: int| 0 <= i < s.len() implies is_ascii_digit(#[trigger] s[i]) by {
        assert(s[i] == cs@[from + i]);
    }
    let mut v: u64 = 0;
    let mut i = from;
    assert(s.subrange(0, 0) =~= Seq::<char>::empty());
    while i < to
        invariant
            from <= i <= to <= cs@.len(),
            s == cs@.subrange(from as int, to as int),
            forall|k: int| 0 <= k < s.len() ==> is_ascii_digit(#[trigger] s[k]),
            0 < limit <= 1_000_000_000,
            v == digits_value(s.subrange(0, i - from)),
            v < limit,
        decreases to - i,
    {
        assert(s.subrange(0, i - from + 1).drop_last() =~= s.subrange(0, i - from));
        assert(s[i - from] == cs@[i as int]);
        let d: u64 = ((cs[i] as u32) - ('0' as u32)) as u64;
        let nv = v * 10 + d;
        if nv >= limit {
            proof {
                lemma_digits_value_monotone(s, i - from + 1);
            }
            return None;
        }
        v = nv;
        i += 1;
    }
    assert(s.subrange(0, to - from) =~= s);
    Some(v)
}

/// The standard OCC symbol for a compact broker symbol `[-]{underlying}
/// {YYMMDD}{C|P}{strike}` with the strike in whole dollars; `None` when the
/// text does not have that shape, already looks like an OCC symbol, names a
/// day that does not exist, or has a strike of 100000 dollars or more.
pub open spec fn spec_normalize_option_symbol(symbol: Seq<char>) -> Option<Seq<char>> {
    let t = trim_seq(symbol);
    let s = if t.len() > 0 && t[0] == '-' { t.drop_first() } else { t };
    let a = crate::text::first_index_where_digit(s);
    let rest = s.subrange(a, s.len() as int);
    if s.len() == 0 || spec_looks_like_occ(trim_seq(s)) || a >= s.len() || a == 0 || rest.len() < 8 {
        None
    } else if !all_digits(rest, 0, 6) || !is_option_type_char(rest[6]) || !all_digits(rest, 7, rest.len() as int) {
        None
    } else if !yymmdd_valid(rest.subrange(0, 6)) || digits_value(rest.subrange(7, rest.len() as int)) >= 100000 {
        None
    } else {
        Some(upper_of(s.subrange(0, a)) + rest.subrange(0, 6) + seq![ascii_upper(rest[6])]
            + padded_at_least((digits_value(rest.subrange(7, rest.len() as int)) * 1000) as nat, 8))
    }
}

/// Normalizes a compact broker option symbol such as `-MU270115C600` into
/// the standard OCC form `MU270115C00600000`.
pub fn normalize_option_symbol(symbol: &str) -> (r: Option<String>)
    ensures
        match r {
            Some(v) => spec_normalize_option_symbol(symbol@) == Some(v@),
            None => spec_normalize_option_symbol(symbol@) is None,
        },
{
    let t = trim(symbol);
    let tc = chars_of(t);
    let s_chars: Vec<char> = if tc.len() > 0 && tc[0] == '-' {
        let v = string_from_range(&tc, 1, tc.len());
        proof {
            assert(tc@.subrange(1, tc@.len() as int) =~= t@.drop_first());
        }
        chars_of(v.as_str())
    } else {
        tc
    };
    let s = string_from_range(&s_chars, 0, s_chars.len());
    proof {
        assert(s_chars@.subrange(0, s_chars@.len() as int) =~= s_chars@);
    }
    let n = s_chars.len();
    if n == 0 {
        return None;
    }
    if looks_like_occ_symbol(s.as_str()) {
        return None;
    }
    let a = crate::text::find_first_digit(&s_chars);
    if a >= n || a == 0 {
        return None;
    }
    let rest = string_from_range(&s_chars, a, n);
    let rc = chars_of(rest.as_str());
    let rn = rc.len();
    if rn < 8 {
        return None;
    }
    if !all_digits_exec(&rc, 0, 6) {
        return None;
    }
    let tch = rc[6];
    if !(tch == 'C' || tch == 'c' || tch == 'P' || tch == 'p') {
        return None;
    }
    if !all_digits_exec(&rc, 7, rn) {
        return None;
    }
    if !yymmdd_exists(&rc) {
        return None;
    }
    let strike = match digits_value_below(&rc, 7, rn, 100000) {
        Some(v) => v,
        None => {
            return None;
        },
    };
    let underlying = string_from_range(&s_chars, 0, a);
    let mut out = to_uppercase(underlying.as_str());
    let date = string_from_range(&rc, 0, 6);
    append_str(&mut out, date.as_str());
    push_char(&mut out, to_ascii_upper_char(tch));
    let padded = padded_decimal(strike * 1000, 8);
    append_str(&mut out, padded.as_str());
    Some(out)
}

} // verus!

verus! {

/// A calendar day of an option's expiration.
#[derive(Debug, Clone, Copy, PartialEq, Eq, Structural)]
pub struct ExpirationDate {
    pub year: i32,
    pub month: u32,
    pub day: u32,
}

impl ExpirationDate {
    /// The day `year-month-day`, when it exists; years 1900 to 2100.
    pub fn from_ymd(year: i32, month: u32, day: u32) -> (r: Option<Self>)
        ensures
            match r {
                Some(d) => d.year == year && d.month == month && d.day == day && 1900 <= year <= 2100
                    && is_valid_date(year as int, month as int, day as int),
                None => !(1900 <= year <= 2100 && is_valid_date(year as int, month as int, day as int)),
            },
    {
        if year < 1900 || year > 2100 || !date_exists(year, month, day) {
            None
        } else {
            Some(ExpirationDate { year, month, day })
        }
    }
}

/// An OCC option symbol's parts; the strike is in thousandths of a dollar.
#[derive(Debug, Clone, PartialEq, Eq)]
pub struct ParsedOccSymbol {
    pub underlying: String,
    pub expiration: ExpirationDate,
    pub option_type: OptionType,
    pub strike_thousandths: u64,
}

/// An unsigned decimal as `str::parse` reads it: an optional `+`, then one
/// or more digits.
pub open spec fn parse_unsigned(s: Seq<char>) -> Option<int> {
    let body = if s.len() > 0 && s[0] == '+' { s.drop_first() } else { s };
    if body.len() > 0 && all_digits(body, 0, body.len() as int) {
        Some(digits_value(body))
    } else {
        None
    }
}

/// A signed decimal as `str::parse` reads it: an optional sign, then one or
/// more digits.
pub open spec fn parse_signed(s: Seq<char>) -> Option<int> {
    if s.len() > 0 && s[0] == '-' {
        let body = s.drop_first();
        if body.len() > 0 && all_digits(body, 0, body.len() as int) {
            Some(-digits_value(body))
        } else {
            None
        }
    } else {
        parse_unsigned(s)
    }
}

fn digits_in(cs: &Vec<char>, from: usize, to: usize) -> (r: Option<u64>)
    requires
        from <= to <= cs@.len(),
        to - from <= 8,
    ensures
        match r {
            Some(v) => to > from && all_digits(cs@.subrange(from as int, to as int), 0, to - from)
                && v == digits_value(cs@.subrange(from as int, to as int)) && v < pow10((to - from) as nat),
            None => !(to > from && all_digits(cs@.subrange(from as int, to as int), 0, to - from)),
        },
{
    let ghost s = cs@.subrange(from as int, to as int);
    if to == from {
        return None;
    }
    if !all_digits_exec(cs, from, to) {
        proof {
            if all_digits(s, 0, to - from) {
                assert forall|i: int| from <= i < to implies is_ascii_digit(#[trigger] cs@[i]) by {
                    assert(s[i - from] == cs@[i]);
                }
            }
        }
        return None;
    }
    assert forall|i: int| 0 <= i < to - from implies is_ascii_digit(#[trigger] s[i]) by {
        assert(s[i] == cs@[from + i]);
    }
    proof {
        lemma_digits_value_bound(s);
        lemma_pow10_le((to - from) as nat);
    }
    match digits_value_below(cs, from, to, 1_000_000_000) {
        Some(v) => Some(v),
        None => None,
    }
}

proof fn lemma_digits_value_bound(s: Seq<char>)
    requires
        forall|i: int| 0 <= i < s.len() ==> is_ascii_digit(#[trigger] s[i]),
    ensures
        0 <= digits_value(s) < pow10(s.len() as nat),
    decreases s.len(),
{
    if s.len() > 0 {
        assert forall|i: int| 0 <= i < s.drop_last().len() implies is_ascii_digit(#[trigger] s.drop_last()[i]) by {
            assert(s.drop_last()[i] == s[i]);
        }
        lemma_digits_value_bound(s.drop_last());
        assert(is_ascii_digit(s[s.len() - 1]));
    }
}

proof fn lemma_pow10_mono(n: nat)
    ensures
        pow10(n) < pow10(n + 1),
        pow10(n) >= 1,
    decreases n,
{
    if n > 0 {
        lemma_pow10_mono((n - 1) as nat);
    }
}

pub open spec fn pow10(n: nat) -> int
    decreases n,
{
    if n == 0 { 1 } else { 10 * pow10((n - 1) as nat) }
}

proof fn lemma_pow10_le(n: nat)
    requires
        n <= 8,
    ensures
        pow10(n) <= 100_000_000,
        n == 2 ==> pow10(n) == 100,
    decreases n,
{
    reveal_with_fuel(pow10, 9);
}

/// Reads `cs[from..to]` (at most eight characters) as `parse_unsigned` does.
fn parse_unsigned_exec(cs: &Vec<char>, from: usize, to: usize) -> (r: Option<u64>)
    requires
        from <= to <= cs@.len(),
        to - from <= 8,
    ensures
        match r {
            Some(v) => parse_unsigned(cs@.subrange(from as int, to as int)) == Some(v as int) && v < pow10((to - from) as nat),
            None => parse_unsigned(cs@.subrange(from as int, to as int)) is None,
        },
{
    let ghost s = cs@.subrange(from as int, to as int);
    if to > from && cs[from] == '+' {
        assert(s.drop_first() =~= cs@.subrange(from + 1, to as int));
        let r = digits_in(cs, from + 1, to);
        proof {
            lemma_pow10_mono((to - from - 1) as nat);
        }
        r
    } else {
        digits_in(cs, from, to)
    }
}

fn parse_signed_exec(cs: &Vec<char>, from: usize, to: usize) -> (r: Option<i64>)
    requires
        from <= to <= cs@.len(),
        to - from <= 8,
    ensures
        match r {
            Some(v) => parse_signed(cs@.subrange(from as int, to as int)) == Some(v as int)
                && -pow10((to - from) as nat) < v < pow10((to - from) as nat),
            None => parse_signed(cs@.subrange(from as int, to as int)) is None,
        },
{
    let ghost s = cs@.subrange(from as int, to as int);
    if to > from && cs[from] == '-' {
        assert(s.drop_first() =~= cs@.subrange(from + 1, to as int));
        proof {
            lemma_pow10_mono((to - from - 1) as nat);
            lemma_pow10_le((to - from - 1) as nat);
        }
        match digits_in(cs, from + 1, to) {
            Some(v) => Some(-(v as i64)),
            None => None,
        }
    } else {
        proof {
            lemma_pow10_le((to - from) as nat);
        }
        match parse_unsigned_exec(cs, from, to) {
            Some(v) => Some(v as i64),
            None => None,
        }
    }
}

/// The expiration date of a six-character `YYMMDD` field: year 2000 + YY,
/// where YY may carry a sign and MM and DD a `+`, each read as a decimal
/// integer.
pub open spec fn spec_expiration(d: Seq<char>) -> Option<(int, int, int)> {
    match (parse_signed(d.subrange(0, 2)), parse_unsigned(d.subrange(2, 4)), parse_unsigned(d.subrange(4, 6))) {
        (Some(y), Some(m), Some(day)) => if is_valid_date(2000 + y, m, day) {
            Some((2000 + y, m, day))
        } else {
            None
        },
        _ => None,
    }
}

/// What `parse_occ_symbol` decides for the trimmed text `t`; lengths count
/// characters.
pub open spec fn spec_parse_occ(t: Seq<char>) -> Result<(Seq<char>, (int, int, int), OptionType, int), ()> {
    let n = t.len();
    if n < 15 || n > 21 || trim_seq(t.subrange(0, n - 15)).len() == 0 {
        Err(())
    } else {
        match (spec_expiration(t.subrange(n - 15, n - 9)), parse_unsigned(t.subrange(n - 8, n as int))) {
            (Some(date), Some(strike)) => if ascii_upper(t[n - 9]) == 'C' {
                Ok((upper_of(trim_seq(t.subrange(0, n - 15))), date, OptionType::Call, strike))
            } else if ascii_upper(t[n - 9]) == 'P' {
                Ok((upper_of(trim_seq(t.subrange(0, n - 15))), date, OptionType::Put, strike))
            } else {
                Err(())
            },
            _ => Err(()),
        }
    }
}

/// Parses an OCC option symbol, spaced (21 characters) or compact (at least
/// 15): underlying, `YYMMDD` expiration, `C` or `P`, and an eight-digit strike
/// in thousandths of a dollar.
pub fn parse_occ_symbol(symbol: &str) -> (r: Result<ParsedOccSymbol, OccSymbolError>)
    ensures
        match r {
            Ok(p) => spec_parse_occ(trim_seq(symbol@)) == Ok::<_, ()>((
                p.underlying@,
                (p.expiration.year as int, p.expiration.month as int, p.expiration.day as int),
                p.option_type,
                p.strike_thousandths as int,
            )),
            Err(e) => spec_parse_occ(trim_seq(symbol@)) is Err && match e {
                OccSymbolError::TooShort(n) => n == trim_seq(symbol@).len() && n < 15,
                OccSymbolError::TooLong(n) => n == trim_seq(symbol@).len() && n > 21,
                OccSymbolError::InvalidOptionType(c) => c == trim_seq(symbol@)[trim_seq(symbol@).len() - 9],
                _ => true,
            },
        },
{
    let t = trim(symbol);
    let cs = chars_of(t);
    let n = cs.len();
    if n < 15 {
        return Err(OccSymbolError::TooShort(n));
    }
    if n > 21 {
        return Err(OccSymbolError::TooLong(n));
    }
    let head = string_from_range(&cs, 0, n - 15);
    let underlying = trim(head.as_str());
    if underlying.unicode_len() == 0 {
        return Err(OccSymbolError::EmptyUnderlying);
    }
    proof {
        lemma_pow10_le(2);
    }
    let year = parse_signed_exec(&cs, n - 15, n - 13);
    let month = parse_unsigned_exec(&cs, n - 13, n - 11);
    let day = parse_unsigned_exec(&cs, n - 11, n - 9);
    proof {
        let d = t@.subrange(n - 15, n - 9);
        assert(d.subrange(0, 2) =~= t@.subrange(n - 15, n - 13));
        assert(d.subrange(2, 4) =~= t@.subrange(n - 13, n - 11));
        assert(d.subrange(4, 6) =~= t@.subrange(n - 11, n - 9));
    }
    let date_text = string_from_range(&cs, n - 15, n - 9);
    let expiration = match (year, month, day) {
        (Some(y), Some(m), Some(d)) => {
            let full: i64 = 2000 + y;
            if full < 1900 || full > 2100 || m > 100 || d > 100 {
                return Err(OccSymbolError::InvalidExpirationDate(date_text));
            }
            match ExpirationDate::from_ymd(full as i32, m as u32, d as u32) {
                Some(e) => e,
                None => {
                    return Err(OccSymbolError::InvalidExpirationDate(date_text));
                },
            }
        },
        _ => {
            return Err(OccSymbolError::InvalidExpirationDate(date_text));
        },
    };
    let option_type = match OptionType::try_from_char(cs[n - 9]) {
        Ok(o) => o,
        Err(e) => {
            return Err(e);
        },
    };
    let strike = match parse_unsigned_exec(&cs, n - 8, n) {
        Some(v) => v,
        None => {
            return Err(OccSymbolError::InvalidStrikePrice(string_from_range(&cs, n - 8, n)));
        },
    };
    Ok(ParsedOccSymbol {
        underlying: to_uppercase(underlying),
        expiration,
        option_type,
        strike_thousandths: strike,
    })
}

} // verus!

verus! {

/// `YYMMDD` of a date, years taken modulo 100.
pub open spec fn yymmdd(d: ExpirationDate) -> Seq<char> {
    padded_at_least((d.year % 100) as nat, 2) + padded_at_least(d.month as nat, 2) + padded_at_least(d.day as nat, 2)
}

/// The compact OCC symbol: upper-cased underlying, `YYMMDD`, `C` or `P`, and
/// the strike in thousandths zero-padded to eight digits.
pub open spec fn spec_build_occ(underlying: Seq<char>, d: ExpirationDate, t: OptionType, strike_thousandths: u64) -> Seq<char> {
    upper_of(underlying) + yymmdd(d) + seq![if t == OptionType::Call { 'C' } else { 'P' }]
        + padded_at_least(strike_thousandths as nat, 8)
}

pub fn build_occ_symbol(underlying: &str, expiration: ExpirationDate, option_type: OptionType, strike_thousandths: u64) -> (r: String)
    requires
        0 <= expiration.year,
    ensures
        r@ == spec_build_occ(underlying@, expiration, option_type, strike_thousandths),
{
    let mut out = to_uppercase(underlying);
    let yy = padded_decimal((expiration.year % 100) as u64, 2);
    append_str(&mut out, yy.as_str());
    let mm = padded_decimal(expiration.month as u64, 2);
    append_str(&mut out, mm.as_str());
    let dd = padded_decimal(expiration.day as u64, 2);
    append_str(&mut out, dd.as_str());
    push_char(&mut out, option_type.as_char());
    let strike = padded_decimal(strike_thousandths, 8);
    append_str(&mut out, strike.as_str());
    out
}

impl ParsedOccSymbol {
    pub fn new(underlying: String, expiration: ExpirationDate, option_type: OptionType, strike_thousandths: u64) -> (r: Self)
        ensures
            r.underlying == underlying,
            r.expiration == expiration,
            r.option_type == option_type,
            r.strike_thousandths == strike_thousandths,
    {
        ParsedOccSymbol { underlying, expiration, option_type, strike_thousandths }
    }

    /// The compact OCC symbol of these parts.
    pub fn to_occ_symbol(&self) -> (r: String)
        requires
            0 <= self.expiration.year,
        ensures
            r@ == spec_build_occ(self.underlying@, self.expiration, self.option_type, self.strike_thousandths),
    {
        build_occ_symbol(self.underlying.as_str(), self.expiration, self.option_type, self.strike_thousandths)
    }

    /// The expiration as `YYYY-MM-DD`.
    pub fn expiration_iso(&self) -> (r: String)
        requires
            0 <= self.expiration.year,
        ensures
            r@ == padded_at_least(self.expiration.year as nat, 4) + "-"@ + padded_at_least(self.expiration.month as nat, 2) + "-"@
                + padded_at_least(self.expiration.day as nat, 2),
    {
        let mut out = padded_decimal(self.expiration.year as u64, 4);
        append_str(&mut out, "-");
        let mm = padded_decimal(self.expiration.month as u64, 2);
        append_str(&mut out, mm.as_str());
        append_str(&mut out, "-");
        let dd = padded_decimal(self.expiration.day as u64, 2);
        append_str(&mut out, dd.as_str());
        out
    }
}

} // verus!

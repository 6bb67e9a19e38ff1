use vstd::prelude::*;
use vstd::arithmetic::div_mod::lemma_add_mod_noop;
use vstd::string::StringSliceAdditionalSpecFns;
use crate::text::{
    append_str, ascii_upper, ascii_upper_seq, is_ascii_seq, chars_of, is_ascii_alnum, is_ascii_alpha, is_ascii_digit, is_ascii_upper, padded_at_least,
    padded_decimal, push_char, string_from_range, string_of, to_ascii_upper_char, to_uppercase, trim, trim_seq, upper_of,
};

verus! {

/// Errors of CUSIP parsing.
#[derive(Debug, Clone, PartialEq, Eq)]
pub enum CusipError {
    InvalidLength(usize),
    InvalidCharacter,
    CheckDigitMismatch { expected: u8, actual: u8 },
}

/// Parsed parts of an ISIN.
#[derive(Debug, Clone, PartialEq, Eq)]
pub struct ParsedIsin {
    pub country_code: String,
    pub nsin: String,
    pub check_digit: u8,
}

/// Errors of ISIN parsing.
#[derive(Debug, Clone, PartialEq, Eq)]
pub enum IsinError {
    InvalidLength(usize),
    InvalidCountryCode(String),
    InvalidNsin,
    InvalidCheckDigitFormat,
    CheckDigitMismatch { expected: u8, actual: u8 },
}

fn is_digit(c: char) -> (r: bool)
    ensures
        r == is_ascii_digit(c),
{
    '0' <= c && c <= '9'
}

fn is_alpha(c: char) -> (r: bool)
    ensures
        r == is_ascii_alpha(c),
{
    ('A' <= c && c <= 'Z') || ('a' <= c && c <= 'z')
}

fn is_alnum(c: char) -> (r: bool)
    ensures
        r == is_ascii_alnum(c),
{
    is_alpha(c) || is_digit(c)
}

pub open spec fn digit_value(c: char) -> int {
    (c as u32) - ('0' as u32)
}

/// Value of a letter: `A` (or `a`) is 10, ..., `Z` is 35.
pub open spec fn letter_value(c: char) -> int {
    (ascii_upper(c) as u32) - ('A' as u32) + 10
}

/// Value of one CUSIP character.
pub open spec fn cusip_char_value(c: char) -> int {
    if is_ascii_digit(c) {
        digit_value(c)
    } else if is_ascii_alpha(c) {
        letter_value(c)
    } else if c == '*' {
        36
    } else if c == '@' {
        37
    } else if c == '#' {
        38
    } else {
        0
    }
}

/// Contribution of the character at `index`: doubled at odd positions, then
/// its decimal digits summed.
pub open spec fn cusip_term(c: char, index: int) -> int {
    let v = if index % 2 == 1 { 2 * cusip_char_value(c) } else { cusip_char_value(c) };
    v / 10 + v % 10
}

pub open spec fn cusip_sum(s: Seq<char>) -> int
    decreases s.len(),
{
    if s.len() == 0 {
        0
    } else {
        cusip_sum(s.drop_last()) + cusip_term(s.last(), s.len() - 1)
    }
}

/// The modified-Luhn CUSIP check digit of `s`.
pub open spec fn cusip_check_digit(s: Seq<char>) -> int {
    (10 - cusip_sum(s) % 10) % 10
}

proof fn lemma_cusip_sum_nonneg(s: Seq<char>)
    ensures
        cusip_sum(s) >= 0,
    decreases s.len(),
{
    if s.len() > 0 {
        lemma_cusip_sum_nonneg(s.drop_last());
    }
}

/// Computes the CUSIP check digit of the given characters.
#[verifier::rlimit(40)]
pub fn compute_cusip_check_digit(first_8: &str) -> (r: u8)
    ensures
        r == cusip_check_digit(first_8@),
        r < 10,
{
    let cs = chars_of(first_8);
    let mut sum: u32 = 0;
    let mut i: usize = 0;
    while i < cs.len()
        invariant
            cs@ == first_8@,
            i <= cs@.len(),
            sum < 10,
            sum == cusip_sum(first_8@.subrange(0, i as int)) % 10,
        decreases cs.len() - i,
    {
        let c = cs[i];
        let val: u32 = if is_digit(c) {
            (c as u32) - ('0' as u32)
        } else if is_alpha(c) {
            (to_ascii_upper_char(c) as u32) - ('A' as u32) + 10
        } else if c == '*' {
            36
        } else if c == '@' {
            37
        } else if c == '#' {
            38
        } else {
            0
        };
        let v: u32 = if i % 2 == 1 { val * 2 } else { val };
        let term: u32 = v / 10 + v % 10;
        proof {
            let p = first_8@.subrange(0, i as int);
            let q = first_8@.subrange(0, i + 1);
            assert(q.drop_last() =~= p);
            assert(term == cusip_term(c, i as int));
            lemma_cusip_sum_nonneg(p);
            lemma_add_mod_noop(cusip_sum(p), term as int, 10);
            assert(term < 100);
        }
        sum = (sum + term) % 10;
        i += 1;
    }
    assert(first_8@.subrange(0, cs@.len() as int) =~= first_8@);
    ((10 - sum) % 10) as u8
}

/// What `parse_cusip` decides for a text, after trimming.
pub open spec fn spec_parse_cusip(t: Seq<char>) -> Result<Seq<char>, CusipError> {
    let len = vstd::utf8::encode_utf8(t).len() as usize;
    if len != 9 {
        Err(CusipError::InvalidLength(len))
    } else if !(forall|i: int| 0 <= i < t.len() ==> is_ascii_alnum(#[trigger] t[i])) {
        Err(CusipError::InvalidCharacter)
    } else if !is_ascii_digit(t[8]) {
        Err(CusipError::InvalidCharacter)
    } else if cusip_check_digit(t.subrange(0, 8)) != digit_value(t[8]) {
        Err(CusipError::CheckDigitMismatch { expected: cusip_check_digit(t.subrange(0, 8)) as u8, actual: digit_value(t[8]) as u8 })
    } else {
        Ok(t)
    }
}

proof fn lemma_ascii_utf8_len(s: &str)
    requires
        forall|i: int| 0 <= i < s@.len() ==> is_ascii_alnum(#[trigger] s@[i]),
    ensures
        s.spec_bytes().len() == s@.len(),
{
    assert(vstd::string::is_ascii(s));
    vstd::string::is_ascii_spec_bytes(s);
}

/// Parses a 9-character CUSIP, validating its check digit; surrounding white
/// space is ignored and the trimmed text returned.
pub fn parse_cusip(s: &str) -> (r: Result<&str, CusipError>)
    ensures
        match r {
            Ok(v) => spec_parse_cusip(trim_seq(s@)) == Ok::<Seq<char>, CusipError>(v@),
            Err(e) => spec_parse_cusip(trim_seq(s@)) == Err::<Seq<char>, CusipError>(e),
        },
{
    let t = trim(s);
    let len = t.len();
    if len != 9 {
        return Err(CusipError::InvalidLength(len));
    }
    let cs = chars_of(t);
    let mut i: usize = 0;
    while i < cs.len()
        invariant
            cs@ == t@,
            i <= cs@.len(),
            len == 9,
            len == t.spec_bytes().len() as usize,
            t@ == trim_seq(s@),
            forall|k: int| 0 <= k < i ==> is_ascii_alnum(#[trigger] t@[k]),
        decreases cs.len() - i,
    {
        if !is_alnum(cs[i]) {
            assert(!is_ascii_alnum(t@[i as int]));
            return Err(CusipError::InvalidCharacter);
        }
        i += 1;
    }
    proof {
        lemma_ascii_utf8_len(t);
    }
    let c8 = cs[8];
    if !is_digit(c8) {
        return Err(CusipError::InvalidCharacter);
    }
    let first8 = string_from_range(&cs, 0, 8);
    let expected = compute_cusip_check_digit(first8.as_str());
    let actual: u8 = ((c8 as u32) - ('0' as u32)) as u8;
    if expected != actual {
        return Err(CusipError::CheckDigitMismatch { expected, actual });
    }
    Ok(t)
}

pub open spec fn spec_looks_like_cusip(t: Seq<char>) -> bool {
    vstd::utf8::encode_utf8(t).len() as usize == 9 && t.len() == 9
        && (forall|i: int| 0 <= i < 8 ==> is_ascii_alnum(#[trigger] t[i])) && is_ascii_digit(t[8])
}

/// Whether the trimmed text is 9 ASCII characters, alphanumeric, ending in a
/// digit. The check digit is not validated.
pub fn looks_like_cusip(s: &str) -> (r: bool)
    ensures
        r == spec_looks_like_cusip(trim_seq(s@)),
{
    let t = trim(s);
    if t.len() != 9 {
        return false;
    }
    let cs = chars_of(t);
    if cs.len() != 9 {
        return false;
    }
    let mut i: usize = 0;
    while i < 8
        invariant
            cs@ == t@,
            cs@.len() == 9,
            t.spec_bytes().len() as usize == 9,
            t@ == trim_seq(s@),
            i <= 8,
            forall|k: int| 0 <= k < i ==> is_ascii_alnum(#[trigger] t@[k]),
        decreases 8 - i,
    {
        if !is_alnum(cs[i]) {
            assert(!is_ascii_alnum(t@[i as int]));
            return false;
        }
        i += 1;
    }
    is_digit(cs[8])
}

/// Digits of one ISIN character: a digit stays, a letter becomes its two
/// digits (`A` is `1`,`0`), anything else contributes nothing.
pub open spec fn isin_char_digits(c: char) -> Seq<int> {
    if is_ascii_digit(c) {
        seq![digit_value(c)]
    } else if is_ascii_alpha(c) {
        seq![letter_value(c) / 10, letter_value(c) % 10]
    } else {
        Seq::empty()
    }
}

pub open spec fn isin_digits(s: Seq<char>) -> Seq<int>
    decreases s.len(),
{
    if s.len() == 0 {
        Seq::empty()
    } else {
        isin_digits(s.drop_last()) + isin_char_digits(s.last())
    }
}

pub open spec fn luhn_term(d: int, doubled: bool) -> int {
    if doubled {
        if 2 * d > 9 { 2 * d - 9 } else { 2 * d }
    } else {
        d
    }
}

/// Luhn sum of digits, read from the right; the rightmost is doubled when
/// `double_last` holds, and doubling alternates from there.
pub open spec fn luhn_sum(d: Seq<int>, double_last: bool) -> int
    decreases d.len(),
{
    if d.len() == 0 {
        0
    } else {
        luhn_term(d.last(), double_last) + luhn_sum(d.drop_last(), !double_last)
    }
}

/// ISIN check digit of a text: Luhn over its digit expansion, rightmost doubled.
pub open spec fn isin_check_digit(s: Seq<char>) -> int {
    (10 - luhn_sum(isin_digits(s), true) % 10) % 10
}

proof fn lemma_digits_bounded(s: Seq<char>)
    ensures
        forall|i: int| 0 <= i < isin_digits(s).len() ==> 0 <= #[trigger] isin_digits(s)[i] <= 9,
    decreases s.len(),
{
    if s.len() > 0 {
        lemma_digits_bounded(s.drop_last());
        let c = s.last();
        if is_ascii_alpha(c) {
            assert(0 <= letter_value(c) <= 35);
        }
        let a = isin_digits(s.drop_last());
        let b = isin_char_digits(c);
        assert forall|i: int| 0 <= i < isin_digits(s).len() implies 0 <= #[trigger] isin_digits(s)[i] <= 9 by {
            if i >= a.len() {
                assert(isin_digits(s)[i] == b[i - a.len()]);
            } else {
                assert(isin_digits(s)[i] == a[i]);
            }
        }
    }
}

proof fn lemma_luhn_sum_nonneg(d: Seq<int>, p: bool)
    requires
        forall|i: int| 0 <= i < d.len() ==> 0 <= #[trigger] d[i] <= 9,
    ensures
        luhn_sum(d, p) >= 0,
    decreases d.len(),
{
    if d.len() > 0 {
        lemma_luhn_sum_nonneg(d.drop_last(), !p);
    }
}

fn isin_digit_vec(s: &str) -> (r: Vec<u8>)
    ensures
        r@.len() == isin_digits(s@).len(),
        forall|i: int| 0 <= i < r@.len() ==> r@[i] as int == #[trigger] isin_digits(s@)[i],
{
    let cs = chars_of(s);
    let mut out: Vec<u8> = Vec::new();
    let mut i: usize = 0;
    while i < cs.len()
        invariant
            cs@ == s@,
            i <= cs@.len(),
            out@.len() == isin_digits(s@.subrange(0, i as int)).len(),
            forall|k: int| 0 <= k < out@.len() ==> out@[k] as int == #[trigger] isin_digits(s@.subrange(0, i as int))[k],
        decreases cs.len() - i,
    {
        let c = cs[i];
        let ghost before = out@;
        proof {
            assert(s@.subrange(0, i + 1).drop_last() =~= s@.subrange(0, i as int));
        }
        if is_digit(c) {
            out.push(((c as u32) - ('0' as u32)) as u8);
        } else if is_alpha(c) {
            let v: u8 = ((to_ascii_upper_char(c) as u32) - ('A' as u32) + 10) as u8;
            out.push(v / 10);
            out.push(v % 10);
        }
        proof {
            let d0 = isin_digits(s@.subrange(0, i as int));
            let d1 = isin_digits(s@.subrange(0, i + 1));
            assert(d1 == d0 + isin_char_digits(c));
            assert forall|k: int| 0 <= k < out@.len() implies out@[k] as int == #[trigger] d1[k] by {
                if k < before.len() {
                    assert(out@[k] == before[k]);
                }
            }
        }
        i += 1;
    }
    assert(s@.subrange(0, cs@.len() as int) =~= s@);
    out
}

/// Computes the ISIN check digit of the given characters.
pub fn compute_isin_check_digit(first_11: &str) -> (r: u8)
    ensures
        r == isin_check_digit(first_11@),
        r < 10,
{
    let digits = isin_digit_vec(first_11);
    let ghost d = isin_digits(first_11@);
    proof {
        lemma_digits_bounded(first_11@);
    }
    let n = digits.len();
    let mut k: usize = n;
    let mut sum: u32 = 0;
    let mut doubled: bool = true;
    assert(d.subrange(0, n as int) =~= d);
    while k > 0
        invariant
            n == d.len(),
            digits@.len() == n,
            forall|i: int| 0 <= i < n ==> digits@[i] as int == #[trigger] d[i],
            forall|i: int| 0 <= i < d.len() ==> 0 <= #[trigger] d[i] <= 9,
            k <= n,
            sum < 10,
            (luhn_sum(d, true)) % 10 == (sum + luhn_sum(d.subrange(0, k as int), doubled)) % 10,
        decreases k,
    {
        let dv: u32 = digits[k - 1] as u32;
        let term: u32 = if doubled {
            if dv * 2 > 9 { dv * 2 - 9 } else { dv * 2 }
        } else {
            dv
        };
        proof {
            let p = d.subrange(0, k as int);
            assert(p.drop_last() =~= d.subrange(0, k - 1));
            assert(p.last() == d[k - 1]);
            assert(term == luhn_term(d[k - 1], doubled));
            let rest = luhn_sum(d.subrange(0, k - 1), !doubled);
            assert forall|i: int| 0 <= i < d.subrange(0, k - 1).len() implies 0 <= #[trigger] d.subrange(0, k - 1)[i] <= 9 by {
                assert(d.subrange(0, k - 1)[i] == d[i]);
            }
            lemma_luhn_sum_nonneg(d.subrange(0, k - 1), !doubled);
            lemma_add_mod_noop(sum + term, rest, 10);
            lemma_add_mod_noop((sum + term) as int % 10, rest, 10);
            assert(((sum + term) as int % 10) % 10 == (sum + term) as int % 10);
        }
        sum = (sum + term) % 10;
        doubled = !doubled;
        k -= 1;
    }
    ((10 - sum) % 10) as u8
}

/// The verdict of ISIN validation on `u`, the upper-cased trimmed text.
#[derive(Debug, Clone, Copy, PartialEq, Eq, Structural)]
pub enum IsinVerdict {
    Length(usize),
    CountryCode,
    Nsin,
    CheckDigitFormat,
    Mismatch(u8, u8),
    Valid,
}

pub open spec fn isin_verdict(u: Seq<char>) -> IsinVerdict {
    let len = vstd::utf8::encode_utf8(u).len() as usize;
    if len != 12 || u.len() != 12 {
        IsinVerdict::Length(len)
    } else if !(is_ascii_upper(u[0]) && is_ascii_upper(u[1])) {
        IsinVerdict::CountryCode
    } else if !(forall|i: int| 2 <= i < 11 ==> is_ascii_alnum(#[trigger] u[i])) {
        IsinVerdict::Nsin
    } else if !is_ascii_digit(u[11]) {
        IsinVerdict::CheckDigitFormat
    } else if isin_check_digit(u.subrange(0, 11)) != digit_value(u[11]) {
        IsinVerdict::Mismatch(isin_check_digit(u.subrange(0, 11)) as u8, digit_value(u[11]) as u8)
    } else {
        IsinVerdict::Valid
    }
}

/// The error or parts that an ISIN verdict stands for.
pub open spec fn isin_result_matches(u: Seq<char>, r: Result<ParsedIsin, IsinError>) -> bool {
    match isin_verdict(u) {
        IsinVerdict::Length(n) => r == Err::<ParsedIsin, IsinError>(IsinError::InvalidLength(n)),
        IsinVerdict::CountryCode => r matches Err(IsinError::InvalidCountryCode(cc)) && cc@ == u.subrange(0, 2),
        IsinVerdict::Nsin => r == Err::<ParsedIsin, IsinError>(IsinError::InvalidNsin),
        IsinVerdict::CheckDigitFormat => r == Err::<ParsedIsin, IsinError>(IsinError::InvalidCheckDigitFormat),
        IsinVerdict::Mismatch(e, a) => r == Err::<ParsedIsin, IsinError>(IsinError::CheckDigitMismatch { expected: e, actual: a }),
        IsinVerdict::Valid => r matches Ok(p) && p.country_code@ == u.subrange(0, 2) && p.nsin@ == u.subrange(2, 11)
            && p.check_digit == digit_value(u[11]),
    }
}

/// Validates an ISIN that is already trimmed and upper-cased: length (in
/// bytes, and ASCII), an alphabetic country code, an alphanumeric NSIN, a
/// check digit, and the Luhn check.
pub fn parse_isin_upper(u: &str) -> (r: Result<ParsedIsin, IsinError>)
    ensures
        isin_result_matches(u@, r),
{
    let len = u.len();
    let cs = chars_of(u);
    if len != 12 || cs.len() != 12 {
        return Err(IsinError::InvalidLength(len));
    }
    if !(('A' <= cs[0] && cs[0] <= 'Z') && ('A' <= cs[1] && cs[1] <= 'Z')) {
        return Err(IsinError::InvalidCountryCode(string_from_range(&cs, 0, 2)));
    }
    let mut i: usize = 2;
    while i < 11
        invariant
            cs@ == u@,
            cs@.len() == 12,
            u.spec_bytes().len() as usize == 12,
            is_ascii_upper(u@[0]) && is_ascii_upper(u@[1]),
            2 <= i <= 11,
            forall|k: int| 2 <= k < i ==> is_ascii_alnum(#[trigger] u@[k]),
        decreases 11 - i,
    {
        if !is_alnum(cs[i]) {
            assert(!is_ascii_alnum(u@[i as int]));
            return Err(IsinError::InvalidNsin);
        }
        i += 1;
    }
    if !is_digit(cs[11]) {
        return Err(IsinError::InvalidCheckDigitFormat);
    }
    let actual: u8 = ((cs[11] as u32) - ('0' as u32)) as u8;
    let first11 = string_from_range(&cs, 0, 11);
    let expected = compute_isin_check_digit(first11.as_str());
    if expected != actual {
        return Err(IsinError::CheckDigitMismatch { expected, actual });
    }
    Ok(ParsedIsin {
        country_code: string_from_range(&cs, 0, 2),
        nsin: string_from_range(&cs, 2, 11),
        check_digit: actual,
    })
}

/// Parses and validates an ISIN; surrounding white space is ignored and
/// letters are upper-cased first.
pub fn parse_isin(s: &str) -> (r: Result<ParsedIsin, IsinError>)
    ensures
        isin_result_matches(upper_of(trim_seq(s@)), r),
        is_ascii_seq(trim_seq(s@)) ==> isin_result_matches(ascii_upper_seq(trim_seq(s@)), r),
{
    let u = to_uppercase(trim(s));
    parse_isin_upper(u.as_str())
}

pub open spec fn spec_looks_like_isin(t: Seq<char>) -> bool {
    vstd::utf8::encode_utf8(t).len() as usize == 12 && t.len() == 12 && is_ascii_alpha(t[0]) && is_ascii_alpha(t[1])
        && (forall|i: int| 2 <= i < 11 ==> is_ascii_alnum(#[trigger] t[i])) && is_ascii_digit(t[11])
}

/// Whether the trimmed text has the shape of an ISIN: two letters, nine
/// alphanumerics, a digit. The check digit is not validated.
pub fn looks_like_isin(s: &str) -> (r: bool)
    ensures
        r == spec_looks_like_isin(trim_seq(s@)),
{
    let t = trim(s);
    if t.len() != 12 {
        return false;
    }
    let cs = chars_of(t);
    if cs.len() != 12 {
        return false;
    }
    if !is_alpha(cs[0]) || !is_alpha(cs[1]) {
        return false;
    }
    let mut i: usize = 2;
    while i < 11
        invariant
            cs@ == t@,
            cs@.len() == 12,
            t.spec_bytes().len() as usize == 12,
            t@ == trim_seq(s@),
            is_ascii_alpha(t@[0]) && is_ascii_alpha(t@[1]),
            2 <= i <= 11,
            forall|k: int| 2 <= k < i ==> is_ascii_alnum(#[trigger] t@[k]),
        decreases 11 - i,
    {
        if !is_alnum(cs[i]) {
            assert(!is_ascii_alnum(t@[i as int]));
            return false;
        }
        i += 1;
    }
    is_digit(cs[11])
}

/// The ISIN made of a country code, the first nine characters of a CUSIP,
/// and the check digit of both.
pub open spec fn spec_cusip_to_isin(cusip: Seq<char>, country_code: Seq<char>) -> Seq<char> {
    let body = country_code + cusip.subrange(0, 9);
    body.push(((isin_check_digit(body) + 48) as u8) as char)
}

pub fn cusip_to_isin(cusip: &str, country_code: &str) -> (r: String)
    requires
        cusip@.len() >= 9,
        forall|i: int| 0 <= i < 9 ==> (#[trigger] cusip@[i] as u32) < 128,
    ensures
        r@ == spec_cusip_to_isin(cusip@, country_code@),
{
    let cs = chars_of(cusip);
    let mut body = crate::text::string_of(country_code);
    let nine = string_from_range(&cs, 0, 9);
    crate::text::append_str(&mut body, nine.as_str());
    let check = compute_isin_check_digit(body.as_str());
    let mut out = crate::text::string_of(body.as_str());
    push_char(&mut out, ((check + 48) as u8) as char);
    out
}

} // verus!

verus! {

/// Decimal text of a number.
pub open spec fn decimal(v: nat) -> Seq<char> {
    padded_at_least(v, 1)
}

fn mismatch_message(expected: u8, actual: u8) -> (r: String)
    ensures
        r@ == "Check digit mismatch: expected "@ + decimal(expected as nat) + ", got "@ + decimal(actual as nat),
{
    let mut m = string_of("Check digit mismatch: expected ");
    let e = padded_decimal(expected as u64, 1);
    append_str(&mut m, e.as_str());
    append_str(&mut m, ", got ");
    let a = padded_decimal(actual as u64, 1);
    append_str(&mut m, a.as_str());
    m
}

impl CusipError {
    /// Human-readable description of the error.
    pub fn message(&self) -> (r: String)
        ensures
            r@ == match *self {
                CusipError::InvalidLength(n) => "CUSIP must be exactly 9 characters, got "@ + decimal(n as nat),
                CusipError::InvalidCharacter => "CUSIP must be alphanumeric"@,
                CusipError::CheckDigitMismatch { expected, actual } => "Check digit mismatch: expected "@
                    + decimal(expected as nat) + ", got "@ + decimal(actual as nat),
            },
    {
        match self {
            CusipError::InvalidLength(n) => {
                let mut m = string_of("CUSIP must be exactly 9 characters, got ");
                let d = padded_decimal(*n as u64, 1);
                append_str(&mut m, d.as_str());
                m
            },
            CusipError::InvalidCharacter => string_of("CUSIP must be alphanumeric"),
            CusipError::CheckDigitMismatch { expected, actual } => mismatch_message(*expected, *actual),
        }
    }
}

impl IsinError {
    /// Human-readable description of the error.
    pub fn message(&self) -> (r: String)
        ensures
            r@ == match *self {
                IsinError::InvalidLength(n) => "ISIN must be exactly 12 characters, got "@ + decimal(n as nat),
                IsinError::InvalidCountryCode(cc) => "Invalid country code '"@ + cc@ + "': must be 2 uppercase letters"@,
                IsinError::InvalidNsin => "NSIN (characters 3-11) must be alphanumeric"@,
                IsinError::InvalidCheckDigitFormat => "Check digit (character 12) must be a digit"@,
                IsinError::CheckDigitMismatch { expected, actual } => "Check digit mismatch: expected "@
                    + decimal(expected as nat) + ", got "@ + decimal(actual as nat),
            },
    {
        match self {
            IsinError::InvalidLength(n) => {
                let mut m = string_of("ISIN must be exactly 12 characters, got ");
                let d = padded_decimal(*n as u64, 1);
                append_str(&mut m, d.as_str());
                m
            },
            IsinError::InvalidCountryCode(cc) => {
                let mut m = string_of("Invalid country code '");
                append_str(&mut m, cc.as_str());
                append_str(&mut m, "': must be 2 uppercase letters");
                m
            },
            IsinError::InvalidNsin => string_of("NSIN (characters 3-11) must be alphanumeric"),
            IsinError::InvalidCheckDigitFormat => string_of("Check digit (character 12) must be a digit"),
            IsinError::CheckDigitMismatch { expected, actual } => mismatch_message(*expected, *actual),
        }
    }
}

} // verus!

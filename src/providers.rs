use vstd::prelude::*;
use crate::text::{
    append_str, chars_of, contains_seq, contains_str, first_index_of, find_char, is_hex_digit, lemma_first_index_of,
    occurs_at, occurs_at_exec, str_eq, string_from_range, string_of, to_uppercase, trim, trim_seq, upper_of,
};

verus! {

/// Leftmost occurrence of `sep` in `s` at or after `i`, or -1.
pub open spec fn find_from(s: Seq<char>, sep: Seq<char>, i: int) -> int
    decreases s.len() + 1 - i,
{
    if i < 0 || i > s.len() {
        -1
    } else if occurs_at(s, sep, i) {
        i
    } else {
        find_from(s, sep, i + 1)
    }
}

proof fn lemma_find_from_bounds(s: Seq<char>, sep: Seq<char>, i: int)
    ensures
        find_from(s, sep, i) == -1 || (i <= find_from(s, sep, i) && occurs_at(s, sep, find_from(s, sep, i))),
    decreases s.len() + 1 - i,
{
    if 0 <= i <= s.len() && !occurs_at(s, sep, i) {
        lemma_find_from_bounds(s, sep, i + 1);
    }
}

/// Leftmost position of `sep` in `s[from..]`, as `find_from`.
fn find_str_from(s: &Vec<char>, sep: &Vec<char>, from: usize) -> (r: Option<usize>)
    requires
        from <= s@.len(),
    ensures
        match r {
            Some(i) => find_from(s@, sep@, from as int) == i as int,
            None => find_from(s@, sep@, from as int) == -1,
        },
{
    let mut i = from;
    loop
        invariant
            from <= i <= s@.len(),
            find_from(s@, sep@, from as int) == find_from(s@, sep@, i as int),
        decreases s@.len() - i,
    {
        if occurs_at_exec(s, sep, i) {
            return Some(i);
        }
        if i == s.len() {
            assert(find_from(s@, sep@, i + 1) == -1);
            return None;
        }
        i += 1;
    }
}

/// The parts of `s` between the occurrences of `sep` (not empty), left to
/// right, starting at `i`.
pub open spec fn split_parts(s: Seq<char>, sep: Seq<char>, i: int) -> Seq<Seq<char>>
    decreases s.len() + 1 - i,
{
    if i < 0 || i > s.len() || sep.len() == 0 {
        Seq::empty()
    } else {
        let j = find_from(s, sep, i);
        if j < 0 {
            seq![s.subrange(i, s.len() as int)]
        } else if j < i || j + sep.len() > s.len() {
            Seq::empty()
        } else {
            seq![s.subrange(i, j)] + split_parts(s, sep, j + sep.len())
        }
    }
}

/// The URL in a part that follows `src="`, up to the closing quote, when it
/// names a main bundle.
pub open spec fn main_js_in_part(p: Seq<char>) -> Option<Seq<char>> {
    let e = first_index_of(p, '"');
    if e < p.len() && contains_seq(p.subrange(0, e), "main."@) && contains_seq(p.subrange(0, e), ".js"@) {
        Some(p.subrange(0, e))
    } else {
        None
    }
}

/// First part, from index `k` on, that names a main bundle.
pub open spec fn first_main_js(parts: Seq<Seq<char>>, k: int) -> Option<Seq<char>>
    decreases parts.len() - k,
{
    if k < 0 || k >= parts.len() {
        None
    } else if main_js_in_part(parts[k]) is Some {
        main_js_in_part(parts[k])
    } else {
        first_main_js(parts, k + 1)
    }
}

fn main_js_of_part(p: &Vec<char>) -> (r: Option<String>)
    ensures
        match r {
            Some(u) => main_js_in_part(p@) == Some(u@),
            None => main_js_in_part(p@) is None,
        },
{
    let e = find_char(p, '"');
    proof {
        lemma_first_index_of(p@, '"');
    }
    if e >= p.len() {
        return None;
    }
    let url = string_from_range(p, 0, e);
    if contains_str(url.as_str(), "main.") && contains_str(url.as_str(), ".js") {
        Some(url)
    } else {
        None
    }
}

/// Finds the script URL of the main bundle in an HTML page: the first
/// `src="..."` value that contains both `main.` and `.js`.
pub fn extract_main_js_url(html: &str) -> (r: Option<String>)
    ensures
        match r {
            Some(u) => first_main_js(split_parts(html@, "src=\""@, 0), 0) == Some(u@),
            None => first_main_js(split_parts(html@, "src=\""@, 0), 0) is None,
        },
{
    let s = chars_of(html);
    let sep = chars_of("src=\"");
    proof {
        reveal_strlit("src=\"");
    }
    let ghost parts = split_parts(html@, sep@, 0);
    let mut i: usize = 0;
    let ghost mut k: int = 0;
    loop
        invariant
            s@ == html@,
            sep@ == "src=\""@,
            sep@.len() == 5,
            i <= s@.len(),
            parts == split_parts(html@, sep@, 0),
            0 <= k <= parts.len(),
            split_parts(html@, sep@, i as int) == parts.subrange(k, parts.len() as int),
            first_main_js(parts, 0) == first_main_js(parts, k),
        decreases s@.len() - i,
    {
        let found = find_str_from(&s, &sep, i);
        proof {
            lemma_find_from_bounds(s@, sep@, i as int);
        }
        let end = match found {
            Some(j) => j,
            None => s.len(),
        };
        let part = string_from_range(&s, i, end);
        let pc = chars_of(part.as_str());
        proof {
            match found {
                Some(j) => {
                    assert(split_parts(html@, sep@, i as int) =~= seq![pc@] + split_parts(html@, sep@, j + 5));
                },
                None => {
                    assert(split_parts(html@, sep@, i as int) =~= seq![pc@]);
                },
            }
            assert(parts.subrange(k, parts.len() as int)[0] == pc@);
            assert(parts[k] == pc@);
        }
        let m = main_js_of_part(&pc);
        if m.is_some() {
            return m;
        }
        match found {
            None => {
                proof {
                    assert(parts.subrange(k, parts.len() as int).len() == 1);
                    assert(first_main_js(parts, k + 1) is None);
                }
                return None;
            },
            Some(j) => {
                proof {
                    assert(occurs_at(s@, sep@, j as int));
                    let a = parts.subrange(k, parts.len() as int);
                    let b = split_parts(html@, sep@, j + 5);
                    assert(a == seq![pc@] + b);
                    assert(b =~= a.subrange(1, a.len() as int));
                    assert(a.subrange(1, a.len() as int) =~= parts.subrange(k + 1, parts.len() as int));
                    k = k + 1;
                }
                let n: usize = s.len();
                assert(j + 5 <= n);
                i = j + 5;
            },
        }
    }
}

} // verus!

verus! {

/// A hex salt following the first `pat` in `js`, up to the next quote.
pub open spec fn salt_after(js: Seq<char>, pat: Seq<char>) -> Option<Seq<char>> {
    let idx = find_from(js, pat, 0);
    if idx < 0 {
        None
    } else {
        let after = js.subrange(idx + pat.len(), js.len() as int);
        let end = first_index_of(after, '"');
        if end < after.len() && end > 0 && (forall|i: int| 0 <= i < end ==> is_hex_digit(#[trigger] after[i])) {
            Some(after.subrange(0, end))
        } else {
            None
        }
    }
}

pub open spec fn spec_extract_salt(js: Seq<char>) -> Option<Seq<char>> {
    match salt_after(js, "salt:\""@) {
        Some(s) => Some(s),
        None => salt_after(js, "salt: \""@),
    }
}

fn salt_after_exec(js: &Vec<char>, pat: &Vec<char>) -> (r: Option<String>)
    ensures
        match r {
            Some(s) => salt_after(js@, pat@) == Some(s@),
            None => salt_after(js@, pat@) is None,
        },
{
    let found = find_str_from(js, pat, 0);
    proof {
        lemma_find_from_bounds(js@, pat@, 0);
    }
    let idx = match found {
        None => {
            return None;
        },
        Some(i) => i,
    };
    assert(occurs_at(js@, pat@, idx as int));
    let n: usize = js.len();
    let after_s = string_from_range(js, idx + pat.len(), n);
    let after = chars_of(after_s.as_str());
    let end = find_char(&after, '"');
    proof {
        lemma_first_index_of(after@, '"');
    }
    if end >= after.len() || end == 0 {
        return None;
    }
    let mut k: usize = 0;
    while k < end
        invariant
            k <= end < after@.len(),
            end > 0,
            find_from(js@, pat@, 0) == idx,
            after@ == js@.subrange(idx + pat@.len(), js@.len() as int),
            end == first_index_of(after@, '"'),
            forall|i: int| 0 <= i < k ==> is_hex_digit(#[trigger] after@[i]),
        decreases end - k,
    {
        let c = after[k];
        if !(('0' <= c && c <= '9') || ('a' <= c && c <= 'f') || ('A' <= c && c <= 'F')) {
            assert(!is_hex_digit(after@[k as int]));
            return None;
        }
        k += 1;
    }
    Some(string_from_range(&after, 0, end))
}

/// Finds the hex salt in a JS bundle: the value of `salt:"..."` or, failing
/// that, of `salt: "..."`.
pub fn extract_salt_from_js(js: &str) -> (r: Option<String>)
    ensures
        match r {
            Some(s) => spec_extract_salt(js@) == Some(s@),
            None => spec_extract_salt(js@) is None,
        },
{
    let cs = chars_of(js);
    let p1 = chars_of("salt:\"");
    let p2 = chars_of("salt: \"");
    match salt_after_exec(&cs, &p1) {
        Some(s) => Some(s),
        None => salt_after_exec(&cs, &p2),
    }
}

/// Content of the first `<pat>...</pat>` element, trimmed.
pub open spec fn element_text(xml: Seq<char>, pat: Seq<char>) -> Option<Seq<char>> {
    let open = "<"@ + pat + ">"@;
    let close = "</"@ + pat + ">"@;
    let start = find_from(xml, open, 0);
    if start < 0 {
        None
    } else {
        let after = xml.subrange(start + open.len(), xml.len() as int);
        let end = find_from(after, close, 0);
        if end < 0 {
            None
        } else {
            Some(trim_seq(after.subrange(0, end)))
        }
    }
}

pub open spec fn spec_extract_xml_value(xml: Seq<char>, tag: Seq<char>) -> Option<Seq<char>> {
    match element_text(xml, "d:"@ + tag) {
        Some(v) => Some(v),
        None => element_text(xml, tag),
    }
}

fn element_text_exec(xml: &Vec<char>, pat: &str) -> (r: Option<String>)
    ensures
        match r {
            Some(s) => element_text(xml@, pat@) == Some(s@),
            None => element_text(xml@, pat@) is None,
        },
{
    let mut open_s = string_of("<");
    append_str(&mut open_s, pat);
    append_str(&mut open_s, ">");
    let mut close_s = string_of("</");
    append_str(&mut close_s, pat);
    append_str(&mut close_s, ">");
    let open = chars_of(open_s.as_str());
    let close = chars_of(close_s.as_str());
    let found = find_str_from(xml, &open, 0);
    proof {
        lemma_find_from_bounds(xml@, open@, 0);
    }
    let start = match found {
        None => {
            return None;
        },
        Some(i) => i,
    };
    assert(occurs_at(xml@, open@, start as int));
    let n: usize = xml.len();
    let after_s = string_from_range(xml, start + open.len(), n);
    let after = chars_of(after_s.as_str());
    let found2 = find_str_from(&after, &close, 0);
    proof {
        lemma_find_from_bounds(after@, close@, 0);
    }
    match found2 {
        None => None,
        Some(end) => {
            assert(occurs_at(after@, close@, end as int));
            let inner = string_from_range(&after, 0, end);
            Some(string_of(trim(inner.as_str())))
        },
    }
}

/// Text of the element `<d:tag>` or, failing that, `<tag>`, trimmed.
pub fn extract_xml_value(xml: &str, tag: &str) -> (r: Option<String>)
    ensures
        match r {
            Some(s) => spec_extract_xml_value(xml@, tag@) == Some(s@),
            None => spec_extract_xml_value(xml@, tag@) is None,
        },
{
    let cs = chars_of(xml);
    let mut prefixed = string_of("d:");
    append_str(&mut prefixed, tag);
    match element_text_exec(&cs, prefixed.as_str()) {
        Some(v) => Some(v),
        None => element_text_exec(&cs, tag),
    }
}

pub open spec fn spec_is_us_treasury_isin(isin: Seq<char>) -> bool {
    isin.len() >= 5 && isin.subrange(0, 5) == "US912"@
}

/// US Treasury ISINs start with `US912`.
pub fn is_us_treasury_isin(isin: &str) -> (r: bool)
    ensures
        r == spec_is_us_treasury_isin(isin@),
{
    let cs = chars_of(isin);
    if cs.len() < 5 {
        return false;
    }
    let head = string_from_range(&cs, 0, 5);
    str_eq(head.as_str(), "US912")
}

/// Errors of the market-data helpers.
#[derive(Debug, Clone, PartialEq, Eq)]
pub enum MarketDataError {
    SymbolNotFound(String),
    UnsupportedAssetType(String),
}

/// Accepts US Treasury ISINs only.
pub fn guard_us_treasury(isin: &str) -> (r: Result<(), MarketDataError>)
    ensures
        r is Ok <==> spec_is_us_treasury_isin(isin@),
        r matches Err(MarketDataError::SymbolNotFound(m)) ==> m@ == isin@ + " is not a US Treasury ISIN"@,
        !(r matches Err(MarketDataError::UnsupportedAssetType(_))),
{
    if !is_us_treasury_isin(isin) {
        let mut m = string_of(isin);
        append_str(&mut m, " is not a US Treasury ISIN");
        return Err(MarketDataError::SymbolNotFound(m));
    }
    Ok(())
}

/// Canonical coupon frequency of a name, in any case; unknown names are
/// semi-annual.
pub open spec fn spec_normalize_frequency(u: Seq<char>) -> Seq<char> {
    if u == "SEMI-ANNUAL"@ || u == "SEMI_ANNUAL"@ || u == "SEMIANNUAL"@ {
        "SEMI_ANNUAL"@
    } else if u == "ANNUAL"@ {
        "ANNUAL"@
    } else if u == "QUARTERLY"@ {
        "QUARTERLY"@
    } else if u == "NONE"@ || u == "ZERO"@ {
        "ZERO"@
    } else {
        "SEMI_ANNUAL"@
    }
}

pub fn normalize_frequency(freq: &str) -> (r: String)
    ensures
        r@ == spec_normalize_frequency(upper_of(freq@)),
{
    let u = to_uppercase(freq);
    let s = u.as_str();
    if str_eq(s, "SEMI-ANNUAL") || str_eq(s, "SEMI_ANNUAL") || str_eq(s, "SEMIANNUAL") {
        string_of("SEMI_ANNUAL")
    } else if str_eq(s, "ANNUAL") {
        string_of("ANNUAL")
    } else if str_eq(s, "QUARTERLY") {
        string_of("QUARTERLY")
    } else if str_eq(s, "NONE") || str_eq(s, "ZERO") {
        string_of("ZERO")
    } else {
        string_of("SEMI_ANNUAL")
    }
}

} // verus!

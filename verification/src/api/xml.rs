//! The API's response envelope and its value conventions: the `Status`
//! envelope mapped to success or a classified error, Namecheap's
//! `MM/DD/YYYY` dates normalized to ISO-8601, and textual booleans.
use vstd::prelude::*;

use super::Error;
use crate::text::{
    chars_of, char_is_whitespace, concat2, decimal, eq_ignore_ascii_case,
    eq_ignore_case, is_ascii_digit, is_whitespace, lemma_decimal_digits, owned, parse_u32,
    parse_u32_chars, split_on, str_eq, trim, trim_start, trim_str, zero_padded,
    zero_padded_string,
};

verus! {

/// The `<ApiResponse>` envelope with its command payload.
pub struct ApiResponse<T> {
    pub status: String,
    pub errors: ApiErrors,
    pub command_response: Option<T>,
}

pub struct ApiErrors {
    pub errors: Vec<ApiError>,
}

pub struct ApiError {
    pub number: String,
    pub message: String,
}

pub open spec fn whitelist_hint() -> Seq<char> {
    " \u{2014} this often accompanies IP-whitelist problems: check the client_ip config value, your current outbound IPv4, and the Namecheap whitelist"@
}

/// The code and message reported for a failed envelope: the first error's
/// number and trimmed text, or a placeholder when none is given.
pub open spec fn first_error(errors: Seq<ApiError>) -> (Seq<char>, Seq<char>) {
    if errors.len() > 0 {
        (errors[0].number@, trim(errors[0].message@))
    } else {
        ("unknown"@, "no error detail in response"@)
    }
}

/// How a non-OK envelope is classified. Error 1011150 gains a whitelist
/// hint; in-band error 500000 is a rate limit.
pub open spec fn envelope_error(errors: Seq<ApiError>, e: Error) -> bool {
    let (code, base) = first_error(errors);
    let message = if code == "1011150"@ { base + whitelist_hint() } else { base };
    if code == "500000"@ {
        e matches Error::RateLimited(m) && m@ == "API error 500000: "@ + message
    } else {
        e matches Error::Api { code: c, message: m } && c@ == code && m@ == message
    }
}

/// The outcome of a parsed envelope: its payload when `Status` is OK (in
/// any case), otherwise the classified API error.
pub open spec fn envelope_outcome<T>(resp: ApiResponse<T>, r: Result<T, Error>) -> bool {
    if eq_ignore_case(resp.status@, "ok"@) {
        match resp.command_response {
            Some(p) => r == Ok::<T, Error>(p),
            None => r matches Err(Error::Parse(m)) && m@
                == "Status=OK but no CommandResponse element"@,
        }
    } else {
        r matches Err(e) && envelope_error(resp.errors.errors@, e)
    }
}

fn classify_errors(errors: &ApiErrors) -> (e: Error)
    ensures
        envelope_error(errors.errors@, e),
{
    let (code, mut message) = if errors.errors.len() > 0 {
        (errors.errors[0].number.clone(), trim_str(errors.errors[0].message.as_str()))
    } else {
        (owned("unknown"), owned("no error detail in response"))
    };
    if str_eq(code.as_str(), "1011150") {
        message.push_str(
            " \u{2014} this often accompanies IP-whitelist problems: check the client_ip config value, your current outbound IPv4, and the Namecheap whitelist",
        );
    }
    if str_eq(code.as_str(), "500000") {
        return Error::RateLimited(concat2("API error 500000: ", message.as_str()));
    }
    Error::Api { code, message }
}

/// Map a parsed envelope to its payload or its API error.
pub fn interpret<T>(resp: ApiResponse<T>) -> (r: Result<T, Error>)
    ensures
        envelope_outcome(resp, r),
{
    if eq_ignore_ascii_case(resp.status.as_str(), "ok") {
        match resp.command_response {
            Some(p) => Ok(p),
            None => Err(Error::Parse(owned("Status=OK but no CommandResponse element"))),
        }
    } else {
        Err(classify_errors(&resp.errors))
    }
}

// ---------------------------------------------------------------------------
// Dates
// ---------------------------------------------------------------------------

/// Days in a Gregorian month (0 outside 1..=12).
pub open spec fn month_days(year: u32, month: u32) -> u32 {
    if month == 1 || month == 3 || month == 5 || month == 7 || month == 8 || month == 10 || month
        == 12 {
        31
    } else if month == 4 || month == 6 || month == 9 || month == 11 {
        30
    } else if month == 2 {
        if (year % 4 == 0 && year % 100 != 0) || year % 400 == 0 {
            29
        } else {
            28
        }
    } else {
        0
    }
}

pub fn days_in_month(year: u32, month: u32) -> (r: u32)
    ensures
        r == month_days(year, month),
{
    match month {
        1 | 3 | 5 | 7 | 8 | 10 | 12 => 31,
        4 | 6 | 9 | 11 => 30,
        2 => {
            if (year % 4 == 0 && year % 100 != 0) || year % 400 == 0 {
                29
            } else {
                28
            }
        },
        _ => 0,
    }
}

/// The leading run of non-whitespace characters.
pub open spec fn token_prefix(t: Seq<char>) -> Seq<char>
    decreases t.len(),
{
    if t.len() == 0 || is_whitespace(t[0]) {
        seq![]
    } else {
        seq![t[0]] + token_prefix(t.skip(1))
    }
}

/// `s.split_whitespace().next().unwrap_or(s)`.
pub open spec fn date_part(s: Seq<char>) -> Seq<char> {
    let t = trim_start(s);
    if t.len() == 0 {
        s
    } else {
        token_prefix(t)
    }
}

/// The (year, month, day) of a recognized `M/D/YYYY` date.
pub open spec fn us_date(s: Seq<char>) -> Option<(u32, u32, u32)> {
    let parts = split_on(date_part(s), '/');
    if parts.len() == 3 {
        match (parse_u32(parts[0]), parse_u32(parts[1]), parse_u32(parts[2])) {
            (Some(m), Some(d), Some(y)) => if 1 <= m <= 12 && y >= 1000 && 1 <= d <= month_days(
                y,
                m,
            ) {
                Some((y, m, d))
            } else {
                None
            },
            _ => None,
        }
    } else {
        None
    }
}

pub open spec fn iso_date(y: u32, m: u32, d: u32) -> Seq<char> {
    zero_padded(y as nat, 4) + seq!['-'] + zero_padded(m as nat, 2) + seq!['-'] + zero_padded(
        d as nat,
        2,
    )
}

/// A recognized date as `YYYY-MM-DD`; anything else verbatim.
pub open spec fn iso_normalized(s: Seq<char>) -> Seq<char> {
    match us_date(s) {
        Some((y, m, d)) => iso_date(y, m, d),
        None => s,
    }
}

proof fn lemma_trim_start_skip(s: Seq<char>, i: int)
    requires
        0 <= i <= s.len(),
        forall|j: int| 0 <= j < i ==> is_whitespace(#[trigger] s[j]),
    ensures
        trim_start(s) == trim_start(s.skip(i)),
    decreases i,
{
    if i > 0 {
        assert(s.skip(1).skip(i - 1) =~= s.skip(i));
        assert forall|j: int| 0 <= j < i - 1 implies is_whitespace(#[trigger] s.skip(1)[j]) by {
            assert(s.skip(1)[j] == s[j + 1]);
        }
        lemma_trim_start_skip(s.skip(1), i - 1);
    } else {
        assert(s.skip(0) =~= s);
    }
}

proof fn lemma_token_prefix(t: Seq<char>, k: int)
    requires
        0 <= k <= t.len(),
        forall|j: int| 0 <= j < k ==> !is_whitespace(#[trigger] t[j]),
        k == t.len() || is_whitespace(t[k]),
    ensures
        token_prefix(t) == t.take(k),
    decreases k,
{
    if k > 0 {
        assert forall|j: int| 0 <= j < k - 1 implies !is_whitespace(#[trigger] t.skip(1)[j]) by {
            assert(t.skip(1)[j] == t[j + 1]);
        }
        if k < t.len() {
            assert(t.skip(1)[k - 1] == t[k]);
        }
        lemma_token_prefix(t.skip(1), k - 1);
        assert(t.take(k) =~= seq![t[0]] + t.skip(1).take(k - 1));
    } else {
        assert(t.take(0) =~= Seq::<char>::empty());
    }
}

/// The whitespace-free first token of `s` (or `s` itself when it has none).
fn date_part_of(v: &Vec<char>) -> (r: Vec<char>)
    ensures
        r@ == date_part(v@),
{
    let mut i: usize = 0;
    while i < v.len() && char_is_whitespace(v[i])
        invariant
            i <= v@.len(),
            forall|j: int| 0 <= j < i ==> is_whitespace(#[trigger] v@[j]),
        decreases v@.len() - i,
    {
        i = i + 1;
    }
    proof {
        lemma_trim_start_skip(v@, i as int);
        if i < v@.len() {
            assert(!is_whitespace(v@.skip(i as int)[0]));
        }
        assert(trim_start(v@.skip(i as int)) == v@.skip(i as int));
    }
    if i == v.len() {
        return v.clone();
    }
    let mut r: Vec<char> = Vec::new();
    let mut j: usize = i;
    while j < v.len() && !char_is_whitespace(v[j])
        invariant
            i <= j <= v@.len(),
            r@ == v@.subrange(i as int, j as int),
            forall|k: int| i <= k < j ==> !is_whitespace(#[trigger] v@[k]),
        decreases v@.len() - j,
    {
        r.push(v[j]);
        j = j + 1;
        assert(r@ =~= v@.subrange(i as int, j as int));
    }
    proof {
        let t = v@.skip(i as int);
        assert forall|k: int| 0 <= k < j - i implies !is_whitespace(#[trigger] t[k]) by {
            assert(t[k] == v@[i + k]);
        }
        if j < v@.len() {
            assert(t[j - i] == v@[j as int]);
        }
        lemma_token_prefix(t, j - i);
        assert(t.take(j - i) =~= v@.subrange(i as int, j as int));
    }
    r
}

/// `s.split('/')`, when it yields exactly three pieces.
fn split_three(v: &Vec<char>) -> (r: Option<(Vec<char>, Vec<char>, Vec<char>)>)
    ensures
        split_on(v@, '/').len() == 3 <==> r is Some,
        r matches Some((a, b, c)) ==> {
            &&& split_on(v@, '/')[0] == a@
            &&& split_on(v@, '/')[1] == b@
            &&& split_on(v@, '/')[2] == c@
        },
{
    let mut done: Vec<Vec<char>> = Vec::new();
    let mut cur: Vec<char> = Vec::new();
    let mut i: usize = 0;
    while i < v.len()
        invariant
            i <= v@.len(),
            split_on(v@.take(i as int), '/') == done@.map_values(|p: Vec<char>| p@).push(cur@),
        decreases v@.len() - i,
    {
        proof {
            let t = v@.take(i + 1);
            assert(t.drop_last() =~= v@.take(i as int));
            assert(t.last() == v@[i as int]);
        }
        if v[i] == '/' {
            let ghost old_done = done@;
            let piece = cur;
            done.push(piece);
            cur = Vec::new();
            assert(done@.map_values(|p: Vec<char>| p@) =~= old_done.map_values(|p: Vec<char>| p@).push(piece@));
            assert(split_on(v@.take(i + 1), '/') =~= done@.map_values(|p: Vec<char>| p@).push(cur@));
        } else {
            let ghost old_cur = cur@;
            cur.push(v[i]);
            assert(split_on(v@.take(i + 1), '/') =~= done@.map_values(|p: Vec<char>| p@).push(cur@));
        }
        i = i + 1;
    }
    assert(v@.take(v@.len() as int) =~= v@);
    if done.len() != 2 {
        return None;
    }
    let c = cur;
    let b = done.pop().unwrap();
    let a = done.pop().unwrap();
    Some((a, b, c))
}

/// Namecheap dates arrive as `MM/DD/YYYY` (sometimes single-digit fields,
/// sometimes a trailing time). A valid date becomes `YYYY-MM-DD`; anything
/// else, including an impossible day, passes through verbatim.
pub fn to_iso_date(s: &str) -> (r: String)
    ensures
        r@ == iso_normalized(s@),
{
    let v = chars_of(s);
    let date = date_part_of(&v);
    match split_three(&date) {
        None => owned(s),
        Some((mp, dp, yp)) => {
            match (parse_u32_chars(&mp), parse_u32_chars(&dp), parse_u32_chars(&yp)) {
                (Some(m), Some(d), Some(y)) => {
                    if 1 <= m && m <= 12 && y >= 1000 && 1 <= d && d <= days_in_month(y, m) {
                        let mut r = zero_padded_string(y as u64, 4);
                        r.push('-');
                        r.push_str(zero_padded_string(m as u64, 2).as_str());
                        r.push('-');
                        r.push_str(zero_padded_string(d as u64, 2).as_str());
                        assert(r@ =~= iso_date(y, m, d));
                        r
                    } else {
                        owned(s)
                    }
                },
                _ => owned(s),
            }
        },
    }
}

proof fn lemma_split_without_separator(s: Seq<char>, sep: char)
    requires
        forall|i: int| 0 <= i < s.len() ==> #[trigger] s[i] != sep,
    ensures
        split_on(s, sep) == seq![s],
    decreases s.len(),
{
    if s.len() > 0 {
        assert forall|i: int| 0 <= i < s.drop_last().len() implies #[trigger] s.drop_last()[i]
            != sep by {
            assert(s.drop_last()[i] == s[i]);
        }
        lemma_split_without_separator(s.drop_last(), sep);
        assert(s.drop_last().push(s.last()) =~= s);
    } else {
        assert(s =~= Seq::<char>::empty());
    }
}

proof fn lemma_zero_padded_digits(n: nat, w: nat)
    ensures
        zero_padded(n, w).len() >= 1,
        forall|i: int| 0 <= i < zero_padded(n, w).len() ==> is_ascii_digit(
            #[trigger] zero_padded(n, w)[i],
        ),
{
    lemma_decimal_digits(n);
    let d = decimal(n);
    if d.len() < w {
        let pad = Seq::new((w - d.len()) as nat, |i: int| '0');
        assert forall|i: int| 0 <= i < zero_padded(n, w).len() implies is_ascii_digit(
            #[trigger] zero_padded(n, w)[i],
        ) by {
            if i >= pad.len() {
                assert(zero_padded(n, w)[i] == d[i - pad.len()]);
            }
        }
    }
}

/// Normalizing a date twice changes nothing more than normalizing it once:
/// an ISO date produced here is not itself a recognized `M/D/YYYY` date,
/// and unrecognized values pass through.
pub proof fn iso_normalization_is_idempotent(s: Seq<char>)
    ensures
        iso_normalized(iso_normalized(s)) == iso_normalized(s),
{
    match us_date(s) {
        None => {},
        Some((y, m, d)) => {
            let o = iso_date(y, m, d);
            let a = zero_padded(y as nat, 4);
            let b = zero_padded(m as nat, 2);
            let c = zero_padded(d as nat, 2);
            lemma_zero_padded_digits(y as nat, 4);
            lemma_zero_padded_digits(m as nat, 2);
            lemma_zero_padded_digits(d as nat, 2);
            assert forall|i: int| 0 <= i < o.len() implies #[trigger] o[i] == '-' || is_ascii_digit(
                o[i],
            ) by {
                if i < a.len() {
                    assert(o[i] == a[i]);
                } else if i == a.len() {
                } else if i < a.len() + 1 + b.len() {
                    assert(o[i] == b[i - a.len() - 1]);
                } else if i == a.len() + 1 + b.len() {
                } else {
                    assert(o[i] == c[i - a.len() - 2 - b.len()]);
                }
            }
            assert(!is_whitespace(o[0]));
            assert(trim_start(o) == o);
            assert forall|j: int| 0 <= j < o.len() implies !is_whitespace(#[trigger] o[j]) by {
                assert(o[j] == '-' || is_ascii_digit(o[j]));
            }
            lemma_token_prefix(o, o.len() as int);
            assert(o.take(o.len() as int) =~= o);
            assert(date_part(o) == o);
            assert forall|i: int| 0 <= i < o.len() implies #[trigger] o[i] != '/' by {
                assert(o[i] == '-' || is_ascii_digit(o[i]));
            }
            lemma_split_without_separator(o, '/');
            assert(us_date(o) is None);
        },
    }
}

} // verus!

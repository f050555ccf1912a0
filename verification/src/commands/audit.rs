//! The account audit: every read-only safety check over the gathered
//! account state, as findings ranked critical, warning, info, and ordered
//! by rank then domain.
use vstd::prelude::*;

use super::account::Balances;
use super::domains::{all_contact_sets_identical, contacts_identical, Contacts, Domain, LockStatus};
use super::privacy::PrivacySubscription;
use crate::api::{error_message, unix_now, Error};
use crate::config::opt_view;
use crate::text::{
    ascii_uppercase, decimal_string, lemma_safe_lines_push, push_safe_line, safe_lines, upper,
    chars_of, concat2, concat3, debug_quoted, decimal, eq_ignore_ascii_case,
    eq_ignore_case, lex_gt, owned, parse_bounded, parse_bounded_chars, quoted, signed_decimal,
    signed_decimal_string, str_eq, str_gt,
};

verus! {

// ---------------------------------------------------------------------------
// Dates
// ---------------------------------------------------------------------------

/// Days since the Unix epoch of a civil date (Howard Hinnant's
/// days_from_civil), with floor division.
pub open spec fn civil_days(y: int, m: int, d: int) -> int {
    let y2 = if m <= 2 { y - 1 } else { y };
    let era = y2 / 400;
    let yoe = y2 - era * 400;
    let mp = (m + 9) % 12;
    let doy = (153 * mp + 2) / 5 + d - 1;
    let doe = yoe * 365 + yoe / 4 - yoe / 100 + doy;
    era * 146097 + doe - 719468
}

fn days_from_civil(y: u64, m: u64, d: u64) -> (r: i128)
    requires
        y <= i64::MAX,
        1 <= m <= 12,
        1 <= d <= 31,
    ensures
        r == civil_days(y as int, m as int, d as int),
{
    let y2: i128 = if m <= 2 { y as i128 - 1 } else { y as i128 };
    let era: i128 = if y2 >= 0 { y2 / 400 } else { -1 };
    assert(era == y2 / 400);
    let yoe: i128 = y2 - era * 400;
    assert(0 <= yoe < 400);
    let mp: i128 = (m as i128 + 9) % 12;
    let doy: i128 = (153 * mp + 2) / 5 + d as i128 - 1;
    let doe: i128 = yoe * 365 + yoe / 4 - yoe / 100 + doy;
    era * 146097 + doe - 719468
}

/// Index of the first `c` in `s`.
pub open spec fn index_of(s: Seq<char>, c: char) -> Option<int>
    decreases s.len(),
{
    if s.len() == 0 {
        None
    } else if s[0] == c {
        Some(0)
    } else {
        match index_of(s.skip(1), c) {
            Some(k) => Some(k + 1),
            None => None,
        }
    }
}

/// An ISO-8601 date (as the envelope emits it) as days since the epoch:
/// `Y-M-D` split at the first two dashes, month 1..=12, day 1..=31. (A
/// piece with a leading `-` never parses to a month or day in range.)
pub open spec fn iso_days(s: Seq<char>) -> Option<int> {
    match index_of(s, '-') {
        None => None,
        Some(i1) => {
            let rest = s.skip(i1 + 1);
            match index_of(rest, '-') {
                None => None,
                Some(i2) => match (
                    parse_bounded(s.take(i1), i64::MAX as nat),
                    parse_bounded(rest.take(i2), i64::MAX as nat),
                    parse_bounded(rest.skip(i2 + 1), i64::MAX as nat),
                ) {
                    (Some(y), Some(m), Some(d)) => if 1 <= m <= 12 && 1 <= d <= 31 {
                        Some(civil_days(y as int, m as int, d as int))
                    } else {
                        None
                    },
                    _ => None,
                },
            }
        },
    }
}

fn find_char(v: &Vec<char>, from: usize, c: char) -> (r: Option<usize>)
    requires
        from <= v@.len(),
    ensures
        r is None ==> index_of(v@.skip(from as int), c) is None,
        r matches Some(i) ==> from <= i < v@.len() && index_of(v@.skip(from as int), c) == Some(
            i - from,
        ),
{
    let mut i: usize = from;
    assert(v@.skip(from as int).skip(0) =~= v@.skip(from as int));
    while i < v.len()
        invariant
            from <= i <= v@.len(),
            forall|j: int| from <= j < i ==> v@[j] != c,
            index_of(v@.skip(from as int), c) == match index_of(v@.skip(i as int), c) {
                Some(k) => Some(k + (i - from)),
                None => None,
            },
        decreases v@.len() - i,
    {
        if v[i] == c {
            assert(v@.skip(i as int)[0] == c);
            return Some(i);
        }
        assert(v@.skip(i as int).skip(1) =~= v@.skip(i + 1));
        i = i + 1;
    }
    assert(v@.skip(i as int).len() == 0);
    None
}

fn sub_chars(v: &Vec<char>, from: usize, to: usize) -> (r: Vec<char>)
    requires
        from <= to <= v@.len(),
    ensures
        r@ == v@.subrange(from as int, to as int),
{
    let mut r: Vec<char> = Vec::new();
    let mut i: usize = from;
    while i < to
        invariant
            from <= i <= to <= v@.len(),
            r@ == v@.subrange(from as int, i as int),
        decreases to - i,
    {
        r.push(v[i]);
        i = i + 1;
        assert(r@ =~= v@.subrange(from as int, i as int));
    }
    r
}

/// Parse an ISO-8601 date into days since the epoch.
#[verifier::spinoff_prover]
pub fn parse_iso_days(s: &str) -> (r: Option<i128>)
    ensures
        match iso_days(s@) {
            Some(n) => r == Some(n as i128),
            None => r is None,
        },
{
    let v = chars_of(s);
    assert(v@.skip(0) =~= v@);
    let f1 = find_char(&v, 0, '-');
    if f1.is_none() {
        return None;
    }
    let i1 = f1.unwrap();
    assert(index_of(s@, '-') == Some(i1 as int));
    let ghost rest = s@.skip(i1 + 1);
    assert(v@.skip(i1 + 1) =~= rest);
    let f2 = find_char(&v, i1 + 1, '-');
    if f2.is_none() {
        assert(index_of(rest, '-') is None);
        return None;
    }
    let i2 = f2.unwrap();
    assert(i1 < i2 < v@.len());
    assert(index_of(rest, '-') == Some(i2 - i1 - 1));
    let p0 = sub_chars(&v, 0, i1);
    let p1 = sub_chars(&v, i1 + 1, i2);
    let p2 = sub_chars(&v, i2 + 1, v.len());
    assert(p0@ =~= s@.take(i1 as int));
    assert(p1@ =~= rest.take(i2 - i1 - 1));
    assert(p2@ =~= rest.skip(i2 - i1));
    let max: u64 = 9223372036854775807;
    match (parse_bounded_chars(&p0, max), parse_bounded_chars(&p1, max), parse_bounded_chars(&p2, max)) {
        (Some(y), Some(m), Some(d)) => {
            if 1 <= m && m <= 12 && 1 <= d && d <= 31 {
                Some(days_from_civil(y, m, d))
            } else {
                None
            }
        },
        _ => None,
    }
}

/// Today as whole days since the Unix epoch (UTC); 0 when the clock reads
/// before the epoch. The clock's reading is not stated; the day it falls on
/// is `days_since_epoch`.
pub fn today_days() -> (r: i64)
    ensures
        0 <= r <= u64::MAX / 86400,
{
    days_since_epoch(unix_now())
}

/// The whole UTC days in `secs` seconds since the epoch.
pub fn days_since_epoch(secs: u64) -> (r: i64)
    ensures
        r == secs / 86400,
{
    (secs / 86400) as i64
}

// ---------------------------------------------------------------------------
// Findings
// ---------------------------------------------------------------------------

pub struct Finding {
    /// critical | warning | info
    pub severity: &'static str,
    pub check: &'static str,
    pub domain: Option<String>,
    pub message: String,
}

impl Finding {
    pub fn duplicate(&self) -> (r: Finding)
        ensures
            finding_view(r) == finding_view(*self),
    {
        Finding {
            severity: self.severity,
            check: self.check,
            domain: match &self.domain {
                Some(d) => Some(d.clone()),
                None => None,
            },
            message: self.message.clone(),
        }
    }
}

pub struct AuditSummary {
    pub domains: usize,
    pub critical: usize,
    pub warning: usize,
    pub info: usize,
    pub api_calls: u32,
}

pub struct AuditReport {
    pub findings: Vec<Finding>,
    pub summary: AuditSummary,
}

/// What the per-domain probes returned: the transfer-lock read and the
/// contacts read, each a result or the error it failed with.
pub struct DomainProbe {
    pub lock: Result<LockStatus, Error>,
    pub contacts: Result<Contacts, Error>,
}

/// A finding by value: (severity, check, domain, message).
pub type FindingView = (Seq<char>, Seq<char>, Option<Seq<char>>, Seq<char>);

pub open spec fn finding_view(f: Finding) -> FindingView {
    (f.severity@, f.check@, opt_view(f.domain), f.message@)
}

pub open spec fn findings_view(fs: Seq<Finding>) -> Seq<FindingView> {
    fs.map_values(|f: Finding| finding_view(f))
}

pub open spec fn when(c: bool, f: FindingView) -> Seq<FindingView> {
    if c {
        seq![f]
    } else {
        seq![]
    }
}

/// Domains within the 90-day expiry horizon.
pub open spec fn expiring_soon(d: Domain, today: int) -> bool {
    iso_days(d.expires@) matches Some(e) && e - today <= 90
}

/// The account-level finding: the balance cannot fund auto-renew
/// (critical when a domain renewing automatically expires within 90 days).
pub open spec fn account_findings(
    domains: Seq<Domain>,
    b: Balances,
    covers: Option<bool>,
    today: int,
) -> Seq<FindingView> {
    let sev = if exists|i: int|
        0 <= i < domains.len() && expiring_soon(#[trigger] domains[i], today) && domains[i].auto_renew {
        "critical"@
    } else {
        "warning"@
    };
    when(
        covers == Some(false),
        (
            sev,
            "balance_covers_auto_renew"@,
            None,
            "available balance does not cover the "@ + b.funds_required_for_auto_renew@ + " "@
                + b.currency@ + " needed for auto-renew"@,
        ),
    )
}

pub open spec fn expiry_findings(d: Domain, today: int) -> Seq<FindingView> {
    match iso_days(d.expires@) {
        Some(e) => {
            let left = e - today;
            when(
                left <= 90,
                (
                    if left <= 30 {
                        "critical"@
                    } else {
                        "warning"@
                    },
                    "expiry_horizon"@,
                    Some(d.name@),
                    "expires "@ + d.expires@ + " ("@ + signed_decimal(left) + " days)"@ + if d.auto_renew {
                        seq![]
                    } else {
                        " and auto-renew is OFF"@
                    },
                ),
            )
        },
        None => seq![
            (
                "info"@,
                "expiry_horizon"@,
                Some(d.name@),
                "unparseable expiry date "@ + quoted(d.expires@),
            ),
        ],
    }
}

/// The state checks of one domain, in order: expiry horizon, auto-renew,
/// expired, registry hold, privacy, DNS posture.
pub open spec fn domain_findings(d: Domain, today: int) -> Seq<FindingView> {
    let ghost n = Some(d.name@);
    expiry_findings(d, today) + when(
        !d.auto_renew,
        ("warning"@, "auto_renew"@, n, "auto-renew is OFF; the domain will lapse at expiry"@),
    ) + when(d.is_expired, ("critical"@, "expired"@, n, "domain is EXPIRED"@)) + when(
        d.registry_hold,
        ("critical"@, "registry_hold"@, n, "registry/dispute hold: changes are not allowed"@),
    ) + when(
        !eq_ignore_case(d.privacy@, "enabled"@),
        ("warning"@, "privacy"@, n, "domain privacy is "@ + d.privacy@),
    ) + when(!d.is_our_dns, ("info"@, "dns_posture"@, n, "uses external nameservers"@))
}

pub open spec fn all_domain_findings(ds: Seq<Domain>, today: int) -> Seq<FindingView>
    decreases ds.len(),
{
    if ds.len() == 0 {
        seq![]
    } else {
        all_domain_findings(ds.drop_last(), today) + domain_findings(ds.last(), today)
    }
}

/// A privacy subscription that exists but is not enabled.
pub open spec fn subscription_findings(s: PrivacySubscription) -> Seq<FindingView> {
    when(
        !eq_ignore_case(s.status@, "enabled"@),
        (
            "warning"@,
            "privacy_subscription"@,
            if s.domain_name@.len() == 0 {
                None
            } else {
                Some(s.domain_name@)
            },
            "privacy subscription "@ + s.id@ + " is "@ + s.status@,
        ),
    )
}

pub open spec fn all_subscription_findings(ss: Seq<PrivacySubscription>) -> Seq<FindingView>
    decreases ss.len(),
{
    if ss.len() == 0 {
        seq![]
    } else {
        all_subscription_findings(ss.drop_last()) + subscription_findings(ss.last())
    }
}

/// The per-domain probe findings: transfer lock, then contact consistency;
/// a failed probe is an info finding carrying the error.
pub open spec fn probe_findings(d: Domain, p: DomainProbe) -> Seq<FindingView> {
    let ghost n = Some(d.name@);
    (match p.lock {
        Ok(st) => when(
            !st.locked,
            ("warning"@, "transfer_lock"@, n, "registrar transfer lock is OFF"@),
        ),
        Err(e) => seq![
            ("info"@, "transfer_lock"@, n, "could not read lock status: "@ + error_message(e)),
        ],
    }) + (match p.contacts {
        Ok(c) => when(
            !all_contact_sets_identical(c),
            ("warning"@, "contact_consistency"@, n, "contact sets differ between roles"@),
        ),
        Err(e) => seq![
            ("info"@, "contact_consistency"@, n, "could not read contacts: "@ + error_message(e)),
        ],
    })
}

pub open spec fn all_probe_findings(ds: Seq<Domain>, ps: Seq<DomainProbe>) -> Seq<FindingView>
    decreases ds.len(),
{
    if ds.len() == 0 || ps.len() == 0 {
        seq![]
    } else {
        all_probe_findings(ds.drop_last(), ps.drop_last()) + probe_findings(ds.last(), ps.last())
    }
}

/// Every finding, in the order the checks run.
pub open spec fn raw_findings(
    domains: Seq<Domain>,
    b: Balances,
    covers: Option<bool>,
    subs: Seq<PrivacySubscription>,
    probes: Seq<DomainProbe>,
    today: int,
) -> Seq<FindingView> {
    account_findings(domains, b, covers, today) + all_domain_findings(domains, today)
        + all_subscription_findings(subs) + all_probe_findings(domains, probes)
}

// ---------------------------------------------------------------------------
// Ordering
// ---------------------------------------------------------------------------

pub open spec fn rank(severity: Seq<char>) -> int {
    if severity == "critical"@ {
        0
    } else if severity == "warning"@ {
        1
    } else {
        2
    }
}

/// `Option<String>` order: `None` first, then strings lexicographically.
pub open spec fn domain_gt(a: Option<Seq<char>>, b: Option<Seq<char>>) -> bool {
    match (a, b) {
        (Some(x), Some(y)) => lex_gt(x, y),
        (Some(_), None) => true,
        _ => false,
    }
}

/// The sort key (rank, domain) of `a` is greater than that of `b`.
pub open spec fn key_gt(a: FindingView, b: FindingView) -> bool {
    rank(a.0) > rank(b.0) || (rank(a.0) == rank(b.0) && domain_gt(a.2, b.2))
}

/// `x` placed after every element whose key is not greater than its own.
pub open spec fn insert_by_key(s: Seq<FindingView>, x: FindingView) -> Seq<FindingView>
    decreases s.len(),
{
    if s.len() == 0 {
        seq![x]
    } else if key_gt(s.last(), x) {
        insert_by_key(s.drop_last(), x).push(s.last())
    } else {
        s.push(x)
    }
}

/// A stable sort by (rank, domain).
pub open spec fn sort_findings(s: Seq<FindingView>) -> Seq<FindingView>
    decreases s.len(),
{
    if s.len() == 0 {
        seq![]
    } else {
        insert_by_key(sort_findings(s.drop_last()), s.last())
    }
}

pub open spec fn count_severity(s: Seq<FindingView>, severity: Seq<char>) -> nat
    decreases s.len(),
{
    if s.len() == 0 {
        0
    } else {
        count_severity(s.drop_last(), severity) + if s.last().0 == severity {
            1nat
        } else {
            0nat
        }
    }
}

// ---------------------------------------------------------------------------
// The order and the counts of a report
// ---------------------------------------------------------------------------

proof fn lemma_lex_transitive(a: Seq<char>, b: Seq<char>, c: Seq<char>)
    requires
        lex_gt(a, b),
        lex_gt(b, c),
    ensures
        lex_gt(a, c),
    decreases a.len(),
{
    if c.len() > 0 && a[0] == b[0] && b[0] == c[0] {
        lemma_lex_transitive(a.skip(1), b.skip(1), c.skip(1));
    }
}

proof fn lemma_lex_asymmetric(a: Seq<char>, b: Seq<char>)
    requires
        lex_gt(a, b),
    ensures
        !lex_gt(b, a),
    decreases a.len(),
{
    if b.len() > 0 && a[0] == b[0] {
        lemma_lex_asymmetric(a.skip(1), b.skip(1));
    }
}

proof fn lemma_lex_total(a: Seq<char>, b: Seq<char>)
    requires
        !lex_gt(a, b),
        !lex_gt(b, a),
    ensures
        a == b,
    decreases a.len(),
{
    if a.len() > 0 && b.len() > 0 {
        assert(a[0] == b[0]) by {
            if a[0] != b[0] {
                assert((a[0] as int) != (b[0] as int));
            }
        }
        lemma_lex_total(a.skip(1), b.skip(1));
        assert(a =~= seq![a[0]] + a.skip(1));
        assert(b =~= seq![b[0]] + b.skip(1));
    } else {
        assert(a =~= b);
    }
}

proof fn lemma_key_asymmetric(a: FindingView, b: FindingView)
    requires
        key_gt(a, b),
    ensures
        !key_gt(b, a),
{
    if let (Some(x), Some(y)) = (a.2, b.2) {
        if lex_gt(x, y) {
            lemma_lex_asymmetric(x, y);
        }
    }
}

proof fn lemma_key_negatively_transitive(a: FindingView, b: FindingView, c: FindingView)
    requires
        !key_gt(a, b),
        !key_gt(b, c),
    ensures
        !key_gt(a, c),
{
    if let (Some(x), Some(y), Some(z)) = (a.2, b.2, c.2) {
        if lex_gt(x, z) && !lex_gt(x, y) && !lex_gt(y, z) {
            if lex_gt(y, x) {
                lemma_lex_transitive(y, x, z);
            } else {
                lemma_lex_total(x, y);
            }
        }
    }
}

/// No finding comes before one with a smaller (rank, domain) key.
pub open spec fn ranked(s: Seq<FindingView>) -> bool {
    forall|i: int, j: int| 0 <= i < j < s.len() ==> !key_gt(#[trigger] s[i], #[trigger] s[j])
}

/// Where `insert_by_key` places `x`.
pub open spec fn insert_position(s: Seq<FindingView>, x: FindingView) -> int
    decreases s.len(),
{
    if s.len() == 0 {
        0
    } else if key_gt(s.last(), x) {
        insert_position(s.drop_last(), x)
    } else {
        s.len() as int
    }
}

proof fn lemma_insert_position(s: Seq<FindingView>, x: FindingView)
    ensures
        0 <= insert_position(s, x) <= s.len(),
        forall|j: int| insert_position(s, x) <= j < s.len() ==> key_gt(#[trigger] s[j], x),
        insert_position(s, x) == 0 || !key_gt(s[insert_position(s, x) - 1], x),
    decreases s.len(),
{
    if s.len() > 0 && key_gt(s.last(), x) {
        let d = s.drop_last();
        lemma_insert_position(d, x);
        assert forall|j: int| insert_position(s, x) <= j < s.len() implies key_gt(#[trigger] s[j], x) by {
            if j < d.len() {
                assert(s[j] == d[j]);
            }
        }
        if insert_position(s, x) > 0 {
            assert(s[insert_position(s, x) - 1] == d[insert_position(s, x) - 1]);
        }
    }
}

proof fn lemma_insert_keeps_ranked(s: Seq<FindingView>, x: FindingView)
    requires
        ranked(s),
    ensures
        ranked(insert_by_key(s, x)),
        insert_by_key(s, x) == s.take(insert_position(s, x)) + seq![x] + s.skip(
            insert_position(s, x),
        ),
{
    let p = insert_position(s, x);
    lemma_insert_position(s, x);
    lemma_insert_at(s, x, p);
    let r = s.take(p) + seq![x] + s.skip(p);
    assert forall|i: int, j: int| 0 <= i < j < r.len() implies !key_gt(#[trigger] r[i], #[trigger] r[j]) by {
        if i < p && j < p {
            assert(r[i] == s[i] && r[j] == s[j]);
        } else if i < p && j == p {
            assert(r[i] == s[i] && r[j] == x);
            if i < p - 1 {
                assert(!key_gt(s[i], s[p - 1]));
                lemma_key_negatively_transitive(s[i], s[p - 1], x);
            }
        } else if i < p {
            assert(r[i] == s[i] && r[j] == s[j - 1]);
        } else if i == p {
            assert(r[i] == x && r[j] == s[j - 1]);
            lemma_key_asymmetric(s[j - 1], x);
        } else {
            assert(r[i] == s[i - 1] && r[j] == s[j - 1]);
        }
    }
}

/// Audit findings come ranked: critical before warning before info, and
/// by domain (account-level findings first) within a rank.
pub proof fn findings_are_ranked(raw: Seq<FindingView>)
    ensures
        ranked(sort_findings(raw)),
    decreases raw.len(),
{
    if raw.len() > 0 {
        findings_are_ranked(raw.drop_last());
        lemma_insert_keeps_ranked(sort_findings(raw.drop_last()), raw.last());
    }
}

proof fn lemma_count_append(a: Seq<FindingView>, b: Seq<FindingView>, severity: Seq<char>)
    ensures
        count_severity(a + b, severity) == count_severity(a, severity) + count_severity(b, severity),
    decreases b.len(),
{
    if b.len() > 0 {
        lemma_count_append(a, b.drop_last(), severity);
        assert((a + b).drop_last() =~= a + b.drop_last());
    } else {
        assert(a + b =~= a);
    }
}

proof fn lemma_count_insert(t: Seq<FindingView>, x: FindingView, severity: Seq<char>)
    requires
        ranked(t),
    ensures
        count_severity(insert_by_key(t, x), severity) == count_severity(t, severity) + if x.0
            == severity {
            1int
        } else {
            0int
        },
        insert_by_key(t, x).len() == t.len() + 1,
        ranked(insert_by_key(t, x)),
{
    lemma_insert_keeps_ranked(t, x);
    lemma_insert_position(t, x);
    let p = insert_position(t, x);
    lemma_count_append(t.take(p) + seq![x], t.skip(p), severity);
    lemma_count_append(t.take(p), seq![x], severity);
    lemma_count_append(t.take(p), t.skip(p), severity);
    assert(t.take(p) + t.skip(p) =~= t);
    assert(seq![x].drop_last() =~= Seq::<FindingView>::empty());
    assert(count_severity(Seq::<FindingView>::empty(), severity) == 0);
    assert(count_severity(seq![x], severity) == count_severity(seq![x].drop_last(), severity) + if x.0
        == severity {
        1nat
    } else {
        0nat
    });
}

proof fn lemma_sort_counts(raw: Seq<FindingView>, severity: Seq<char>)
    ensures
        count_severity(sort_findings(raw), severity) == count_severity(raw, severity),
        sort_findings(raw).len() == raw.len(),
        ranked(sort_findings(raw)),
    decreases raw.len(),
{
    if raw.len() > 0 {
        lemma_sort_counts(raw.drop_last(), severity);
        lemma_count_insert(sort_findings(raw.drop_last()), raw.last(), severity);
    }
}

/// A severity of the report: critical, warning or info.
pub open spec fn known_severity(s: Seq<char>) -> bool {
    s == "critical"@ || s == "warning"@ || s == "info"@
}

pub open spec fn all_known(s: Seq<FindingView>) -> bool {
    forall|i: int| 0 <= i < s.len() ==> known_severity(#[trigger] s[i].0)
}

proof fn lemma_known_append(a: Seq<FindingView>, b: Seq<FindingView>)
    requires
        all_known(a),
        all_known(b),
    ensures
        all_known(a + b),
{
    assert forall|i: int| 0 <= i < (a + b).len() implies known_severity(#[trigger] (a + b)[i].0) by {
        if i < a.len() {
            assert((a + b)[i] == a[i]);
        } else {
            assert((a + b)[i] == b[i - a.len()]);
        }
    }
}

proof fn lemma_domain_findings_known(ds: Seq<Domain>, today: int)
    ensures
        all_known(all_domain_findings(ds, today)),
    decreases ds.len(),
{
    if ds.len() > 0 {
        lemma_domain_findings_known(ds.drop_last(), today);
        let d = ds.last();
        let n = Some(d.name@);
        let e = expiry_findings(d, today);
        let a = e + when(
            !d.auto_renew,
            ("warning"@, "auto_renew"@, n, "auto-renew is OFF; the domain will lapse at expiry"@),
        );
        let b = a + when(d.is_expired, ("critical"@, "expired"@, n, "domain is EXPIRED"@));
        let c = b + when(
            d.registry_hold,
            ("critical"@, "registry_hold"@, n, "registry/dispute hold: changes are not allowed"@),
        );
        let f = c + when(
            !eq_ignore_case(d.privacy@, "enabled"@),
            ("warning"@, "privacy"@, n, "domain privacy is "@ + d.privacy@),
        );
        let g = f + when(!d.is_our_dns, ("info"@, "dns_posture"@, n, "uses external nameservers"@));
        assert(all_known(e));
        lemma_known_append(e, when(
            !d.auto_renew,
            ("warning"@, "auto_renew"@, n, "auto-renew is OFF; the domain will lapse at expiry"@),
        ));
        lemma_known_append(a, when(d.is_expired, ("critical"@, "expired"@, n, "domain is EXPIRED"@)));
        lemma_known_append(b, when(
            d.registry_hold,
            ("critical"@, "registry_hold"@, n, "registry/dispute hold: changes are not allowed"@),
        ));
        lemma_known_append(c, when(
            !eq_ignore_case(d.privacy@, "enabled"@),
            ("warning"@, "privacy"@, n, "domain privacy is "@ + d.privacy@),
        ));
        lemma_known_append(f, when(!d.is_our_dns, ("info"@, "dns_posture"@, n, "uses external nameservers"@)));
        assert(g == domain_findings(d, today));
        lemma_known_append(all_domain_findings(ds.drop_last(), today), g);
    }
}

proof fn lemma_contains_concat(a: Seq<FindingView>, b: Seq<FindingView>, x: FindingView)
    ensures
        a.contains(x) || b.contains(x) ==> (a + b).contains(x),
{
    if a.contains(x) {
        let i = choose|i: int| 0 <= i < a.len() && a[i] == x;
        assert((a + b)[i] == a[i]);
    } else if b.contains(x) {
        let j = choose|j: int| 0 <= j < b.len() && b[j] == x;
        assert((a + b)[a.len() + j] == b[j]);
    }
}

/// The finding an expired domain raises.
pub open spec fn expired_finding(name: Seq<char>) -> FindingView {
    ("critical"@, "expired"@, Some(name), "domain is EXPIRED"@)
}

proof fn lemma_domain_expired(d: Domain, today: int)
    requires
        d.is_expired,
    ensures
        domain_findings(d, today).contains(expired_finding(d.name@)),
{
    let n = Some(d.name@);
    let x = expired_finding(d.name@);
    let e = expiry_findings(d, today);
    let w = when(
        !d.auto_renew,
        ("warning"@, "auto_renew"@, n, "auto-renew is OFF; the domain will lapse at expiry"@),
    );
    let ex = when(d.is_expired, ("critical"@, "expired"@, n, "domain is EXPIRED"@));
    assert(ex == seq![x]);
    assert(ex[0] == x);
    lemma_contains_concat(e + w, ex, x);
    let h = when(
        d.registry_hold,
        ("critical"@, "registry_hold"@, n, "registry/dispute hold: changes are not allowed"@),
    );
    let pv = when(
        !eq_ignore_case(d.privacy@, "enabled"@),
        ("warning"@, "privacy"@, n, "domain privacy is "@ + d.privacy@),
    );
    let dn = when(!d.is_our_dns, ("info"@, "dns_posture"@, n, "uses external nameservers"@));
    lemma_contains_concat(e + w + ex, h, x);
    lemma_contains_concat(e + w + ex + h, pv, x);
    lemma_contains_concat(e + w + ex + h + pv, dn, x);
    assert(e + w + ex + h + pv + dn == domain_findings(d, today));
}

/// What the audit must report about one domain's state, whatever else
/// holds of it: auto-renew off is a warning, an expired domain and a
/// registry hold are critical, privacy other than enabled is a warning, and
/// external nameservers are noted.
pub open spec fn state_reported(d: Domain, found: Seq<FindingView>) -> bool {
    let n = Some(d.name@);
    &&& !d.auto_renew ==> found.contains(
        ("warning"@, "auto_renew"@, n, "auto-renew is OFF; the domain will lapse at expiry"@),
    )
    &&& d.is_expired ==> found.contains(("critical"@, "expired"@, n, "domain is EXPIRED"@))
    &&& d.registry_hold ==> found.contains(
        ("critical"@, "registry_hold"@, n, "registry/dispute hold: changes are not allowed"@),
    )
    &&& !eq_ignore_case(d.privacy@, "enabled"@) ==> found.contains(
        ("warning"@, "privacy"@, n, "domain privacy is "@ + d.privacy@),
    )
    &&& !d.is_our_dns ==> found.contains(("info"@, "dns_posture"@, n, "uses external nameservers"@))
}

proof fn lemma_contains_grows(a: Seq<FindingView>, b: Seq<FindingView>, d: Domain)
    requires
        state_reported(d, a),
    ensures
        state_reported(d, a + b),
{
    let n = Some(d.name@);
    lemma_contains_concat(a, b, ("warning"@, "auto_renew"@, n, "auto-renew is OFF; the domain will lapse at expiry"@));
    lemma_contains_concat(a, b, ("critical"@, "expired"@, n, "domain is EXPIRED"@));
    lemma_contains_concat(a, b, ("critical"@, "registry_hold"@, n, "registry/dispute hold: changes are not allowed"@));
    lemma_contains_concat(a, b, ("warning"@, "privacy"@, n, "domain privacy is "@ + d.privacy@));
    lemma_contains_concat(a, b, ("info"@, "dns_posture"@, n, "uses external nameservers"@));
}

proof fn lemma_contains_grows_left(a: Seq<FindingView>, b: Seq<FindingView>, d: Domain)
    requires
        state_reported(d, b),
    ensures
        state_reported(d, a + b),
{
    let n = Some(d.name@);
    lemma_contains_concat(a, b, ("warning"@, "auto_renew"@, n, "auto-renew is OFF; the domain will lapse at expiry"@));
    lemma_contains_concat(a, b, ("critical"@, "expired"@, n, "domain is EXPIRED"@));
    lemma_contains_concat(a, b, ("critical"@, "registry_hold"@, n, "registry/dispute hold: changes are not allowed"@));
    lemma_contains_concat(a, b, ("warning"@, "privacy"@, n, "domain privacy is "@ + d.privacy@));
    lemma_contains_concat(a, b, ("info"@, "dns_posture"@, n, "uses external nameservers"@));
}

#[verifier::rlimit(80)]
#[verifier::spinoff_prover]
proof fn lemma_domain_state_reported(d: Domain, today: int)
    ensures
        state_reported(d, domain_findings(d, today)),
{
    let n = Some(d.name@);
    let e = expiry_findings(d, today);
    let xa = ("warning"@, "auto_renew"@, n, "auto-renew is OFF; the domain will lapse at expiry"@);
    let xe = ("critical"@, "expired"@, n, "domain is EXPIRED"@);
    let xh = ("critical"@, "registry_hold"@, n, "registry/dispute hold: changes are not allowed"@);
    let xp = ("warning"@, "privacy"@, n, "domain privacy is "@ + d.privacy@);
    let xd = ("info"@, "dns_posture"@, n, "uses external nameservers"@);
    let wa = when(!d.auto_renew, xa);
    let we = when(d.is_expired, xe);
    let wh = when(d.registry_hold, xh);
    let wp = when(!eq_ignore_case(d.privacy@, "enabled"@), xp);
    let wd = when(!d.is_our_dns, xd);
    let all = e + wa + we + wh + wp + wd;
    assert(all == domain_findings(d, today));
    assert(all =~= e + (wa + (we + (wh + (wp + wd)))));
    if !d.auto_renew {
        assert(wa[0] == xa);
        lemma_contains_concat(wa, we + (wh + (wp + wd)), xa);
        lemma_contains_concat(e, wa + (we + (wh + (wp + wd))), xa);
    }
    if d.is_expired {
        assert(we[0] == xe);
        lemma_contains_concat(we, wh + (wp + wd), xe);
        lemma_contains_concat(wa, we + (wh + (wp + wd)), xe);
        lemma_contains_concat(e, wa + (we + (wh + (wp + wd))), xe);
    }
    if d.registry_hold {
        assert(wh[0] == xh);
        lemma_contains_concat(wh, wp + wd, xh);
        lemma_contains_concat(we, wh + (wp + wd), xh);
        lemma_contains_concat(wa, we + (wh + (wp + wd)), xh);
        lemma_contains_concat(e, wa + (we + (wh + (wp + wd))), xh);
    }
    if !eq_ignore_case(d.privacy@, "enabled"@) {
        assert(wp[0] == xp);
        lemma_contains_concat(wp, wd, xp);
        lemma_contains_concat(wh, wp + wd, xp);
        lemma_contains_concat(we, wh + (wp + wd), xp);
        lemma_contains_concat(wa, we + (wh + (wp + wd)), xp);
        lemma_contains_concat(e, wa + (we + (wh + (wp + wd))), xp);
    }
    if !d.is_our_dns {
        assert(wd[0] == xd);
        lemma_contains_concat(wp, wd, xd);
        lemma_contains_concat(wh, wp + wd, xd);
        lemma_contains_concat(we, wh + (wp + wd), xd);
        lemma_contains_concat(wa, we + (wh + (wp + wd)), xd);
        lemma_contains_concat(e, wa + (we + (wh + (wp + wd))), xd);
    }
}

proof fn lemma_all_domains_state_reported(ds: Seq<Domain>, today: int, i: int)
    requires
        0 <= i < ds.len(),
    ensures
        state_reported(ds[i], all_domain_findings(ds, today)),
    decreases ds.len(),
{
    if i == ds.len() - 1 {
        lemma_domain_state_reported(ds.last(), today);
        lemma_contains_grows_left(all_domain_findings(ds.drop_last(), today), domain_findings(ds.last(), today), ds[i]);
    } else {
        assert(ds.drop_last()[i] == ds[i]);
        lemma_all_domains_state_reported(ds.drop_last(), today, i);
        lemma_contains_grows(all_domain_findings(ds.drop_last(), today), domain_findings(ds.last(), today), ds[i]);
    }
}

proof fn lemma_sort_state_reported(raw: Seq<FindingView>, d: Domain)
    requires
        state_reported(d, raw),
    ensures
        state_reported(d, sort_findings(raw)),
{
    let n = Some(d.name@);
    let xa = ("warning"@, "auto_renew"@, n, "auto-renew is OFF; the domain will lapse at expiry"@);
    let xe = ("critical"@, "expired"@, n, "domain is EXPIRED"@);
    let xh = ("critical"@, "registry_hold"@, n, "registry/dispute hold: changes are not allowed"@);
    let xp = ("warning"@, "privacy"@, n, "domain privacy is "@ + d.privacy@);
    let xd = ("info"@, "dns_posture"@, n, "uses external nameservers"@);
    if raw.contains(xa) { lemma_sort_contains(raw, xa); }
    if raw.contains(xe) { lemma_sort_contains(raw, xe); }
    if raw.contains(xh) { lemma_sort_contains(raw, xh); }
    if raw.contains(xp) { lemma_sort_contains(raw, xp); }
    if raw.contains(xd) { lemma_sort_contains(raw, xd); }
}

/// Every domain's state is reported: each of its states the audit checks
/// (auto-renew off, expired, registry hold, privacy not enabled, external
/// nameservers) yields its finding for that domain in the report,
/// whatever its other flags and whatever else the account holds.
pub proof fn domain_states_are_reported(
    domains: Seq<Domain>,
    b: Balances,
    covers: Option<bool>,
    subs: Seq<PrivacySubscription>,
    probes: Seq<DomainProbe>,
    today: int,
    i: int,
)
    requires
        0 <= i < domains.len(),
    ensures
        state_reported(domains[i], sort_findings(raw_findings(domains, b, covers, subs, probes, today))),
{
    let d = domains[i];
    let acc = account_findings(domains, b, covers, today);
    let ad = all_domain_findings(domains, today);
    lemma_all_domains_state_reported(domains, today, i);
    lemma_contains_grows_left(acc, ad, d);
    lemma_contains_grows(acc + ad, all_subscription_findings(subs), d);
    lemma_contains_grows(acc + ad + all_subscription_findings(subs), all_probe_findings(domains, probes), d);
    lemma_sort_state_reported(raw_findings(domains, b, covers, subs, probes, today), d);
}

/// What the audit must report from one domain's probes: a transfer lock
/// that is off is a warning, contact sets that differ between roles are a
/// warning, and a probe that failed is noted with its error.
pub open spec fn probe_reported(d: Domain, p: DomainProbe, found: Seq<FindingView>) -> bool {
    let n = Some(d.name@);
    &&& (match p.lock {
        Ok(st) => !st.locked ==> found.contains(
            ("warning"@, "transfer_lock"@, n, "registrar transfer lock is OFF"@),
        ),
        Err(e) => found.contains(
            ("info"@, "transfer_lock"@, n, "could not read lock status: "@ + error_message(e)),
        ),
    })
    &&& (match p.contacts {
        Ok(c) => !all_contact_sets_identical(c) ==> found.contains(
            ("warning"@, "contact_consistency"@, n, "contact sets differ between roles"@),
        ),
        Err(e) => found.contains(
            ("info"@, "contact_consistency"@, n, "could not read contacts: "@ + error_message(e)),
        ),
    })
}

/// The findings a probe can raise, whichever it raises.
pub open spec fn probe_finding_candidates(d: Domain, p: DomainProbe) -> Seq<FindingView> {
    let n = Some(d.name@);
    seq![
        ("warning"@, "transfer_lock"@, n, "registrar transfer lock is OFF"@),
        ("info"@, "transfer_lock"@, n, "could not read lock status: "@ + error_message(
            p.lock->Err_0,
        )),
        ("warning"@, "contact_consistency"@, n, "contact sets differ between roles"@),
        ("info"@, "contact_consistency"@, n, "could not read contacts: "@ + error_message(
            p.contacts->Err_0,
        )),
    ]
}

proof fn lemma_probe_grows(a: Seq<FindingView>, b: Seq<FindingView>, d: Domain, p: DomainProbe)
    requires
        probe_reported(d, p, a) || probe_reported(d, p, b),
    ensures
        probe_reported(d, p, a + b),
{
    let c = probe_finding_candidates(d, p);
    lemma_contains_concat(a, b, c[0]);
    lemma_contains_concat(a, b, c[1]);
    lemma_contains_concat(a, b, c[2]);
    lemma_contains_concat(a, b, c[3]);
}

proof fn lemma_probe_reported(d: Domain, p: DomainProbe)
    ensures
        probe_reported(d, p, probe_findings(d, p)),
{
    let n = Some(d.name@);
    let lock = match p.lock {
        Ok(st) => when(!st.locked, ("warning"@, "transfer_lock"@, n, "registrar transfer lock is OFF"@)),
        Err(e) => seq![("info"@, "transfer_lock"@, n, "could not read lock status: "@ + error_message(e))],
    };
    let contacts = match p.contacts {
        Ok(c) => when(
            !all_contact_sets_identical(c),
            ("warning"@, "contact_consistency"@, n, "contact sets differ between roles"@),
        ),
        Err(e) => seq![
            ("info"@, "contact_consistency"@, n, "could not read contacts: "@ + error_message(e)),
        ],
    };
    assert(lock + contacts == probe_findings(d, p));
    let c = probe_finding_candidates(d, p);
    if lock.len() > 0 {
        assert(lock[0] == c[0] || lock[0] == c[1]);
        lemma_contains_concat(lock, contacts, lock[0]);
    }
    if contacts.len() > 0 {
        assert(contacts[0] == c[2] || contacts[0] == c[3]);
        lemma_contains_concat(lock, contacts, contacts[0]);
    }
}

proof fn lemma_all_probes_reported(ds: Seq<Domain>, ps: Seq<DomainProbe>, i: int)
    requires
        0 <= i < ds.len(),
        ds.len() == ps.len(),
    ensures
        probe_reported(ds[i], ps[i], all_probe_findings(ds, ps)),
    decreases ds.len(),
{
    let prev = all_probe_findings(ds.drop_last(), ps.drop_last());
    let last = probe_findings(ds.last(), ps.last());
    if i == ds.len() - 1 {
        lemma_probe_reported(ds.last(), ps.last());
    } else {
        assert(ds.drop_last()[i] == ds[i]);
        assert(ps.drop_last()[i] == ps[i]);
        lemma_all_probes_reported(ds.drop_last(), ps.drop_last(), i);
    }
    lemma_probe_grows(prev, last, ds[i], ps[i]);
}

/// What the audit must report of one privacy subscription: one that is not
/// enabled is a warning.
pub open spec fn subscription_reported(sub: PrivacySubscription, found: Seq<FindingView>) -> bool {
    !eq_ignore_case(sub.status@, "enabled"@) ==> found.contains(
        (
            "warning"@,
            "privacy_subscription"@,
            if sub.domain_name@.len() == 0 {
                None
            } else {
                Some(sub.domain_name@)
            },
            "privacy subscription "@ + sub.id@ + " is "@ + sub.status@,
        ),
    )
}

proof fn lemma_all_subscriptions_reported(ss: Seq<PrivacySubscription>, i: int)
    requires
        0 <= i < ss.len(),
    ensures
        subscription_reported(ss[i], all_subscription_findings(ss)),
    decreases ss.len(),
{
    let sub = ss[i];
    let x = (
        "warning"@,
        "privacy_subscription"@,
        if sub.domain_name@.len() == 0 {
            None
        } else {
            Some(sub.domain_name@)
        },
        "privacy subscription "@ + sub.id@ + " is "@ + sub.status@,
    );
    let prev = all_subscription_findings(ss.drop_last());
    let last = subscription_findings(ss.last());
    if i == ss.len() - 1 {
        if !eq_ignore_case(sub.status@, "enabled"@) {
            assert(last[0] == x);
        }
    } else {
        assert(ss.drop_last()[i] == ss[i]);
        lemma_all_subscriptions_reported(ss.drop_last(), i);
    }
    lemma_contains_concat(prev, last, x);
}

/// Every check the audit runs is reported: each domain's state (see
/// `state_reported`) and its probes (see `probe_reported`), each privacy
/// subscription that is not enabled, and a balance that does not cover
/// auto-renew (critical when a domain renewing automatically expires
/// within 90 days, a warning otherwise). What is reported is independent
/// of what else the account holds.
pub proof fn every_check_is_reported(
    domains: Seq<Domain>,
    b: Balances,
    covers: Option<bool>,
    subs: Seq<PrivacySubscription>,
    probes: Seq<DomainProbe>,
    today: int,
)
    requires
        probes.len() == domains.len(),
    ensures
        ({
            let found = sort_findings(raw_findings(domains, b, covers, subs, probes, today));
            &&& forall|i: int| 0 <= i < domains.len() ==> state_reported(#[trigger] domains[i], found)
            &&& forall|i: int|
                0 <= i < domains.len() ==> probe_reported(#[trigger] domains[i], probes[i], found)
            &&& forall|k: int| 0 <= k < subs.len() ==> subscription_reported(#[trigger] subs[k], found)
            &&& covers == Some(false) ==> found.contains(
                (
                    if exists|i: int|
                        0 <= i < domains.len() && expiring_soon(#[trigger] domains[i], today)
                            && domains[i].auto_renew {
                        "critical"@
                    } else {
                        "warning"@
                    },
                    "balance_covers_auto_renew"@,
                    None,
                    "available balance does not cover the "@ + b.funds_required_for_auto_renew@
                        + " "@ + b.currency@ + " needed for auto-renew"@,
                ),
            )
        }),
{
    let raw = raw_findings(domains, b, covers, subs, probes, today);
    let acc = account_findings(domains, b, covers, today);
    let ad = all_domain_findings(domains, today);
    let asub = all_subscription_findings(subs);
    let ap = all_probe_findings(domains, probes);
    assert(raw == acc + ad + asub + ap);
    assert forall|i: int| 0 <= i < domains.len() implies state_reported(
        #[trigger] domains[i],
        sort_findings(raw),
    ) by {
        domain_states_are_reported(domains, b, covers, subs, probes, today, i);
    }
    assert forall|i: int| 0 <= i < domains.len() implies probe_reported(
        #[trigger] domains[i],
        probes[i],
        sort_findings(raw),
    ) by {
        lemma_all_probes_reported(domains, probes, i);
        lemma_probe_grows(acc + ad + asub, ap, domains[i], probes[i]);
        let c = probe_finding_candidates(domains[i], probes[i]);
        if raw.contains(c[0]) { lemma_sort_contains(raw, c[0]); }
        if raw.contains(c[1]) { lemma_sort_contains(raw, c[1]); }
        if raw.contains(c[2]) { lemma_sort_contains(raw, c[2]); }
        if raw.contains(c[3]) { lemma_sort_contains(raw, c[3]); }
    }
    assert forall|k: int| 0 <= k < subs.len() implies subscription_reported(
        #[trigger] subs[k],
        sort_findings(raw),
    ) by {
        lemma_all_subscriptions_reported(subs, k);
        let sub = subs[k];
        let x = (
            "warning"@,
            "privacy_subscription"@,
            if sub.domain_name@.len() == 0 {
                None
            } else {
                Some(sub.domain_name@)
            },
            "privacy subscription "@ + sub.id@ + " is "@ + sub.status@,
        );
        lemma_contains_concat(acc + ad, asub, x);
        lemma_contains_concat(acc + ad + asub, ap, x);
        if raw.contains(x) { lemma_sort_contains(raw, x); }
    }
    if covers == Some(false) {
        let x = acc[0];
        lemma_contains_concat(acc, ad, x);
        lemma_contains_concat(acc + ad, asub, x);
        lemma_contains_concat(acc + ad + asub, ap, x);
        lemma_sort_contains(raw, x);
    }
}

proof fn lemma_all_domains_expired(ds: Seq<Domain>, today: int, i: int)
    requires
        0 <= i < ds.len(),
        ds[i].is_expired,
    ensures
        all_domain_findings(ds, today).contains(expired_finding(ds[i].name@)),
    decreases ds.len(),
{
    let x = expired_finding(ds[i].name@);
    if i == ds.len() - 1 {
        lemma_domain_expired(ds.last(), today);
    } else {
        assert(ds.drop_last()[i] == ds[i]);
        lemma_all_domains_expired(ds.drop_last(), today, i);
    }
    lemma_contains_concat(all_domain_findings(ds.drop_last(), today), domain_findings(ds.last(), today), x);
}

proof fn lemma_sort_contains(raw: Seq<FindingView>, x: FindingView)
    requires
        raw.contains(x),
    ensures
        sort_findings(raw).contains(x),
    decreases raw.len(),
{
    let t = sort_findings(raw.drop_last());
    findings_are_ranked(raw.drop_last());
    lemma_insert_keeps_ranked(t, raw.last());
    lemma_insert_position(t, raw.last());
    let p = insert_position(t, raw.last());
    let s = t.take(p) + seq![raw.last()] + t.skip(p);
    if raw.last() == x {
        assert(s[p] == x);
    } else {
        let i = choose|i: int| 0 <= i < raw.len() && raw[i] == x;
        assert(raw.drop_last()[i] == x);
        lemma_sort_contains(raw.drop_last(), x);
        let j = choose|j: int| 0 <= j < t.len() && t[j] == x;
        if j < p {
            assert(s[j] == t[j]);
        } else {
            assert(s[j + 1] == t[j]);
        }
    }
}

proof fn lemma_count_positive(s: Seq<FindingView>, x: FindingView)
    requires
        s.contains(x),
    ensures
        count_severity(s, x.0) > 0,
    decreases s.len(),
{
    if s.last() != x {
        let i = choose|i: int| 0 <= i < s.len() && s[i] == x;
        assert(s.drop_last()[i] == x);
        lemma_count_positive(s.drop_last(), x);
    }
}

/// No expired domain goes unreported: for every domain marked expired, the
/// audit's findings include a critical "expired" finding for that domain,
/// whatever its other flags, and so the report counts at least one
/// critical finding.
pub proof fn expired_domains_are_reported_critical(
    domains: Seq<Domain>,
    b: Balances,
    covers: Option<bool>,
    subs: Seq<PrivacySubscription>,
    probes: Seq<DomainProbe>,
    today: int,
    i: int,
)
    requires
        0 <= i < domains.len(),
        domains[i].is_expired,
    ensures
        sort_findings(raw_findings(domains, b, covers, subs, probes, today)).contains(
            ("critical"@, "expired"@, Some(domains[i].name@), "domain is EXPIRED"@),
        ),
        count_severity(sort_findings(raw_findings(domains, b, covers, subs, probes, today)), "critical"@)
            > 0,
{
    let x = expired_finding(domains[i].name@);
    let acc = account_findings(domains, b, covers, today);
    let ad = all_domain_findings(domains, today);
    lemma_all_domains_expired(domains, today, i);
    lemma_contains_concat(acc, ad, x);
    lemma_contains_concat(acc + ad, all_subscription_findings(subs), x);
    lemma_contains_concat(acc + ad + all_subscription_findings(subs), all_probe_findings(domains, probes), x);
    lemma_sort_contains(raw_findings(domains, b, covers, subs, probes, today), x);
    lemma_count_positive(sort_findings(raw_findings(domains, b, covers, subs, probes, today)), x);
}

proof fn lemma_subscription_findings_known(ss: Seq<PrivacySubscription>)
    ensures
        all_known(all_subscription_findings(ss)),
    decreases ss.len(),
{
    if ss.len() > 0 {
        lemma_subscription_findings_known(ss.drop_last());
        lemma_known_append(all_subscription_findings(ss.drop_last()), subscription_findings(ss.last()));
    }
}

proof fn lemma_probe_findings_known(ds: Seq<Domain>, ps: Seq<DomainProbe>)
    ensures
        all_known(all_probe_findings(ds, ps)),
    decreases ds.len(),
{
    if ds.len() > 0 && ps.len() > 0 {
        lemma_probe_findings_known(ds.drop_last(), ps.drop_last());
        let d = ds.last();
        let p = ps.last();
        let n = Some(d.name@);
        let lock = match p.lock {
            Ok(st) => when(!st.locked, ("warning"@, "transfer_lock"@, n, "registrar transfer lock is OFF"@)),
            Err(e) => seq![("info"@, "transfer_lock"@, n, "could not read lock status: "@ + error_message(e))],
        };
        let contacts = match p.contacts {
            Ok(c) => when(
                !all_contact_sets_identical(c),
                ("warning"@, "contact_consistency"@, n, "contact sets differ between roles"@),
            ),
            Err(e) => seq![
                ("info"@, "contact_consistency"@, n, "could not read contacts: "@ + error_message(e)),
            ],
        };
        lemma_known_append(lock, contacts);
        assert(lock + contacts == probe_findings(d, p));
        lemma_known_append(all_probe_findings(ds.drop_last(), ps.drop_last()), lock + contacts);
    }
}

proof fn lemma_known_counts(s: Seq<FindingView>)
    requires
        all_known(s),
    ensures
        count_severity(s, "critical"@) + count_severity(s, "warning"@) + count_severity(s, "info"@)
            == s.len(),
    decreases s.len(),
{
    reveal_strlit("critical");
    reveal_strlit("warning");
    reveal_strlit("info");
    if s.len() > 0 {
        assert(all_known(s.drop_last())) by {
            assert forall|i: int| 0 <= i < s.drop_last().len() implies known_severity(
                #[trigger] s.drop_last()[i].0,
            ) by {
                assert(s.drop_last()[i] == s[i]);
            }
        }
        lemma_known_counts(s.drop_last());
        assert(known_severity(s[s.len() - 1].0));
        assert("critical"@ != "warning"@ && "critical"@ != "info"@ && "warning"@ != "info"@) by {
            assert("critical"@.len() != "warning"@.len());
            assert("critical"@.len() != "info"@.len());
            assert("warning"@.len() != "info"@.len());
        }
    }
}

/// The report's summary accounts for every finding: the critical, warning
/// and info counts add up to the number of findings, one per check that
/// fired.
pub proof fn summary_counts_every_finding(
    domains: Seq<Domain>,
    b: Balances,
    covers: Option<bool>,
    subs: Seq<PrivacySubscription>,
    probes: Seq<DomainProbe>,
    today: int,
)
    ensures
        ({
            let raw = raw_findings(domains, b, covers, subs, probes, today);
            let f = sort_findings(raw);
            &&& f.len() == raw.len()
            &&& count_severity(f, "critical"@) + count_severity(f, "warning"@) + count_severity(
                f,
                "info"@,
            ) == f.len()
        }),
{
    let raw = raw_findings(domains, b, covers, subs, probes, today);
    let acc = account_findings(domains, b, covers, today);
    assert(all_known(acc));
    lemma_domain_findings_known(domains, today);
    lemma_subscription_findings_known(subs);
    lemma_probe_findings_known(domains, probes);
    lemma_known_append(acc, all_domain_findings(domains, today));
    lemma_known_append(acc + all_domain_findings(domains, today), all_subscription_findings(subs));
    lemma_known_append(
        acc + all_domain_findings(domains, today) + all_subscription_findings(subs),
        all_probe_findings(domains, probes),
    );
    lemma_known_counts(raw);
    lemma_sort_counts(raw, "critical"@);
    lemma_sort_counts(raw, "warning"@);
    lemma_sort_counts(raw, "info"@);
}

fn severity_rank(s: &str) -> (r: u8)
    ensures
        r == rank(s@),
{
    if str_eq(s, "critical") {
        0
    } else if str_eq(s, "warning") {
        1
    } else {
        2
    }
}

fn finding_key_gt(a: &Finding, b: &Finding) -> (r: bool)
    ensures
        r == key_gt(finding_view(*a), finding_view(*b)),
{
    let ra = severity_rank(a.severity);
    let rb = severity_rank(b.severity);
    if ra != rb {
        return ra > rb;
    }
    match (&a.domain, &b.domain) {
        (Some(x), Some(y)) => str_gt(x.as_str(), y.as_str()),
        (Some(_), None) => true,
        _ => false,
    }
}

proof fn lemma_insert_at(s: Seq<FindingView>, x: FindingView, p: int)
    requires
        0 <= p <= s.len(),
        forall|j: int| p <= j < s.len() ==> key_gt(#[trigger] s[j], x),
        p == 0 || !key_gt(s[p - 1], x),
    ensures
        insert_by_key(s, x) == s.take(p) + seq![x] + s.skip(p),
    decreases s.len(),
{
    if s.len() == p {
        if p == 0 {
            assert(s.take(0) + seq![x] + s.skip(0) =~= seq![x]);
        } else {
            assert(s.take(p) + seq![x] + s.skip(p) =~= s.push(x));
        }
    } else {
        assert(key_gt(s[s.len() - 1], x));
        let d = s.drop_last();
        assert forall|j: int| p <= j < d.len() implies key_gt(#[trigger] d[j], x) by {
            assert(d[j] == s[j]);
        }
        if p > 0 {
            assert(d[p - 1] == s[p - 1]);
        }
        lemma_insert_at(d, x, p);
        assert(d.take(p) + seq![x] + d.skip(p) + seq![s.last()] =~= s.take(p) + seq![x] + s.skip(p));
    }
}

/// Findings stably sorted by (rank, domain).
pub fn sort_by_rank(raw: &Vec<Finding>) -> (r: Vec<Finding>)
    ensures
        findings_view(r@) == sort_findings(findings_view(raw@)),
{
    let ghost rv = findings_view(raw@);
    let mut out: Vec<Finding> = Vec::new();
    let mut i: usize = 0;
    assert(rv.take(0) =~= Seq::<FindingView>::empty());
    while i < raw.len()
        invariant
            i <= raw@.len(),
            rv == findings_view(raw@),
            findings_view(out@) == sort_findings(rv.take(i as int)),
        decreases raw@.len() - i,
    {
        let x = raw[i].duplicate();
        let ghost xv = finding_view(x);
        let ghost ov = findings_view(out@);
        let mut p: usize = out.len();
        while p > 0 && finding_key_gt(&out[p - 1], &x)
            invariant
                p <= out@.len(),
                ov == findings_view(out@),
                xv == finding_view(x),
                forall|j: int| p <= j < out@.len() ==> key_gt(#[trigger] ov[j], xv),
            decreases p,
        {
            p = p - 1;
        }
        proof {
            lemma_insert_at(ov, xv, p as int);
            let t = rv.take(i + 1);
            assert(t.drop_last() =~= rv.take(i as int));
            assert(t.last() == xv);
        }
        out.insert(p, x);
        assert(findings_view(out@) =~= ov.take(p as int) + seq![xv] + ov.skip(p as int));
        i = i + 1;
    }
    assert(rv.take(raw@.len() as int) =~= rv);
    out
}

// ---------------------------------------------------------------------------
// Gathering
// ---------------------------------------------------------------------------

fn push_finding(
    out: &mut Vec<Finding>,
    severity: &'static str,
    check: &'static str,
    domain: Option<String>,
    message: String,
)
    ensures
        findings_view(final(out)@) == findings_view(old(out)@).push(
            (severity@, check@, opt_view(domain), message@),
        ),
{
    let ghost before = out@;
    let f = Finding { severity, check, domain, message };
    out.push(f);
    assert(findings_view(out@) =~= findings_view(before).push(finding_view(f)));
}

fn push_expiry_findings(out: &mut Vec<Finding>, d: &Domain, today: i64)
    ensures
        findings_view(final(out)@) == findings_view(old(out)@) + expiry_findings(*d, today as int),
{
    let ghost start = findings_view(out@);
    match parse_iso_days(d.expires.as_str()) {
        Some(exp) => {
            let left: i128 = exp - today as i128;
            if left <= 90 {
                let mut m = concat3("expires ", d.expires.as_str(), " (");
                m.push_str(signed_decimal_string(left).as_str());
                m.push_str(" days)");
                if !d.auto_renew {
                    m.push_str(" and auto-renew is OFF");
                }
                let sev = if left <= 30 { "critical" } else { "warning" };
                push_finding(out, sev, "expiry_horizon", Some(d.name.clone()), m);
            }
        },
        None => {
            push_finding(
                out,
                "info",
                "expiry_horizon",
                Some(d.name.clone()),
                concat2("unparseable expiry date ", debug_quoted(d.expires.as_str()).as_str()),
            );
        },
    }
    assert(findings_view(out@) =~= start + expiry_findings(*d, today as int));
}

fn push_when(
    out: &mut Vec<Finding>,
    cond: bool,
    severity: &'static str,
    check: &'static str,
    domain: &String,
    message: &str,
)
    ensures
        findings_view(final(out)@) == findings_view(old(out)@) + when(
            cond,
            (severity@, check@, Some(domain@), message@),
        ),
{
    let ghost start = findings_view(out@);
    if cond {
        push_finding(out, severity, check, Some(domain.clone()), owned(message));
    }
    assert(findings_view(out@) =~= start + when(cond, (severity@, check@, Some(domain@), message@)));
}

#[verifier::spinoff_prover]
#[verifier::rlimit(40)]
fn push_domain_findings(out: &mut Vec<Finding>, d: &Domain, today: i64)
    ensures
        findings_view(final(out)@) == findings_view(old(out)@) + domain_findings(*d, today as int),
{
    let ghost start = findings_view(out@);
    push_expiry_findings(out, d, today);
    push_when(
        out,
        !d.auto_renew,
        "warning",
        "auto_renew",
        &d.name,
        "auto-renew is OFF; the domain will lapse at expiry",
    );
    push_when(out, d.is_expired, "critical", "expired", &d.name, "domain is EXPIRED");
    push_when(
        out,
        d.registry_hold,
        "critical",
        "registry_hold",
        &d.name,
        "registry/dispute hold: changes are not allowed",
    );
    let privacy_off = !eq_ignore_ascii_case(d.privacy.as_str(), "enabled");
    let privacy_message = concat2("domain privacy is ", d.privacy.as_str());
    push_when(out, privacy_off, "warning", "privacy", &d.name, privacy_message.as_str());
    push_when(out, !d.is_our_dns, "info", "dns_posture", &d.name, "uses external nameservers");
    assert(findings_view(out@) =~= start + domain_findings(*d, today as int));
}

fn push_probe_findings(out: &mut Vec<Finding>, d: &Domain, p: &DomainProbe)
    ensures
        findings_view(final(out)@) == findings_view(old(out)@) + probe_findings(*d, *p),
{
    let ghost start = findings_view(out@);
    match &p.lock {
        Ok(st) => {
            if !st.locked {
                push_finding(
                    out,
                    "warning",
                    "transfer_lock",
                    Some(d.name.clone()),
                    owned("registrar transfer lock is OFF"),
                );
            }
        },
        Err(e) => {
            push_finding(
                out,
                "info",
                "transfer_lock",
                Some(d.name.clone()),
                concat2("could not read lock status: ", e.message().as_str()),
            );
        },
    }
    let ghost s1 = findings_view(out@);
    match &p.contacts {
        Ok(c) => {
            if !contacts_identical(c) {
                push_finding(
                    out,
                    "warning",
                    "contact_consistency",
                    Some(d.name.clone()),
                    owned("contact sets differ between roles"),
                );
            }
        },
        Err(e) => {
            push_finding(
                out,
                "info",
                "contact_consistency",
                Some(d.name.clone()),
                concat2("could not read contacts: ", e.message().as_str()),
            );
        },
    }
    assert(findings_view(out@) =~= start + probe_findings(*d, *p));
}

fn any_expiring_with_auto_renew(domains: &Vec<Domain>, today: i64) -> (r: bool)
    ensures
        r == exists|i: int|
            0 <= i < domains@.len() && expiring_soon(#[trigger] domains@[i], today as int)
                && domains@[i].auto_renew,
{
    let mut i: usize = 0;
    while i < domains.len()
        invariant
            i <= domains@.len(),
            forall|j: int|
                0 <= j < i ==> !(expiring_soon(#[trigger] domains@[j], today as int)
                    && domains@[j].auto_renew),
        decreases domains@.len() - i,
    {
        let d = &domains[i];
        if d.auto_renew {
            match parse_iso_days(d.expires.as_str()) {
                Some(exp) => {
                    if exp - today as i128 <= 90 {
                        assert(expiring_soon(domains@[i as int], today as int));
                        return true;
                    }
                },
                None => {},
            }
        }
        i = i + 1;
    }
    false
}

fn count_of(fs: &Vec<Finding>, severity: &str) -> (r: usize)
    ensures
        r == count_severity(findings_view(fs@), severity@),
{
    let ghost fv = findings_view(fs@);
    let mut n: usize = 0;
    let mut i: usize = 0;
    while i < fs.len()
        invariant
            i <= fs@.len(),
            fv == findings_view(fs@),
            n == count_severity(fv.take(i as int), severity@),
            n <= i,
        decreases fs@.len() - i,
    {
        proof {
            let t = fv.take(i + 1);
            assert(t.drop_last() =~= fv.take(i as int));
            assert(t.last() == finding_view(fs@[i as int]));
        }
        if str_eq(fs[i].severity, severity) {
            n = n + 1;
        }
        i = i + 1;
    }
    assert(fv.take(fs@.len() as int) =~= fv);
    n
}

/// Every read-only safety check across the account, given the gathered
/// state: the domain list, the balances (and whether the available balance
/// covers auto-renew, when that could be decided), the privacy
/// subscriptions, and each domain's lock and contacts probe. Findings are
/// data; the report lists them by rank, then domain.
pub fn run(
    domain_list: &Vec<Domain>,
    balances: &Balances,
    covers: Option<bool>,
    subs: &Vec<PrivacySubscription>,
    probes: &Vec<DomainProbe>,
    today: i64,
    api_calls: u32,
) -> (r: AuditReport)
    requires
        probes@.len() == domain_list@.len(),
    ensures
        findings_view(r.findings@) == sort_findings(
            raw_findings(domain_list@, *balances, covers, subs@, probes@, today as int),
        ),
        r.summary.domains == domain_list@.len(),
        r.summary.critical == count_severity(findings_view(r.findings@), "critical"@),
        r.summary.warning == count_severity(findings_view(r.findings@), "warning"@),
        r.summary.info == count_severity(findings_view(r.findings@), "info"@),
        r.summary.api_calls == api_calls,
        forall|i: int|
            0 <= i < domain_list@.len() && (#[trigger] domain_list@[i]).is_expired
                ==> findings_view(r.findings@).contains(
                ("critical"@, "expired"@, Some(domain_list@[i].name@), "domain is EXPIRED"@),
            ),
        (exists|i: int| 0 <= i < domain_list@.len() && (#[trigger] domain_list@[i]).is_expired)
            ==> r.summary.critical > 0,
    forall|i: int|
            0 <= i < domain_list@.len() ==> state_reported(
                #[trigger] domain_list@[i],
                findings_view(r.findings@),
            ),
        forall|i: int|
            0 <= i < domain_list@.len() ==> probe_reported(
                #[trigger] domain_list@[i],
                probes@[i],
                findings_view(r.findings@),
            ),
        forall|k: int|
            0 <= k < subs@.len() ==> subscription_reported(
                #[trigger] subs@[k],
                findings_view(r.findings@),
            ),
{
    let mut raw: Vec<Finding> = Vec::new();
    if covers == Some(false) {
        let severity = if any_expiring_with_auto_renew(domain_list, today) {
            "critical"
        } else {
            "warning"
        };
        let mut m = concat3(
            "available balance does not cover the ",
            balances.funds_required_for_auto_renew.as_str(),
            " ",
        );
        m.push_str(balances.currency.as_str());
        m.push_str(" needed for auto-renew");
        push_finding(&mut raw, severity, "balance_covers_auto_renew", None, m);
    }
    assert(findings_view(raw@) =~= account_findings(domain_list@, *balances, covers, today as int));
    let ghost acc = findings_view(raw@);
    let mut i: usize = 0;
    assert(domain_list@.take(0) =~= Seq::<Domain>::empty());
    assert(acc + all_domain_findings(domain_list@.take(0), today as int) =~= acc);
    while i < domain_list.len()
        invariant
            i <= domain_list@.len(),
            findings_view(raw@) == acc + all_domain_findings(domain_list@.take(i as int), today as int),
        decreases domain_list@.len() - i,
    {
        push_domain_findings(&mut raw, &domain_list[i], today);
        proof {
            let t = domain_list@.take(i + 1);
            assert(t.drop_last() =~= domain_list@.take(i as int));
        }
        i = i + 1;
    }
    assert(domain_list@.take(domain_list@.len() as int) =~= domain_list@);
    let ghost acc2 = findings_view(raw@);
    let mut k: usize = 0;
    assert(subs@.take(0) =~= Seq::<PrivacySubscription>::empty());
    assert(acc2 + all_subscription_findings(subs@.take(0)) =~= acc2);
    while k < subs.len()
        invariant
            k <= subs@.len(),
            findings_view(raw@) == acc2 + all_subscription_findings(subs@.take(k as int)),
        decreases subs@.len() - k,
    {
        let s = &subs[k];
        let ghost before = findings_view(raw@);
        if !eq_ignore_ascii_case(s.status.as_str(), "enabled") {
            let domain = if s.domain_name.as_str().unicode_len() == 0 {
                None
            } else {
                Some(s.domain_name.clone())
            };
            let mut m = concat3("privacy subscription ", s.id.as_str(), " is ");
            m.push_str(s.status.as_str());
            push_finding(&mut raw, "warning", "privacy_subscription", domain, m);
        }
        proof {
            let t = subs@.take(k + 1);
            assert(t.drop_last() =~= subs@.take(k as int));
            assert(findings_view(raw@) =~= before + subscription_findings(*s));
        }
        k = k + 1;
    }
    assert(subs@.take(subs@.len() as int) =~= subs@);
    let ghost acc3 = findings_view(raw@);
    let mut j: usize = 0;
    assert(acc3 + all_probe_findings(domain_list@.take(0), probes@.take(0)) =~= acc3);
    while j < domain_list.len()
        invariant
            j <= domain_list@.len(),
            probes@.len() == domain_list@.len(),
            findings_view(raw@) == acc3 + all_probe_findings(
                domain_list@.take(j as int),
                probes@.take(j as int),
            ),
        decreases domain_list@.len() - j,
    {
        push_probe_findings(&mut raw, &domain_list[j], &probes[j]);
        proof {
            let t = domain_list@.take(j + 1);
            let u = probes@.take(j + 1);
            assert(t.drop_last() =~= domain_list@.take(j as int));
            assert(u.drop_last() =~= probes@.take(j as int));
        }
        j = j + 1;
    }
    assert(probes@.take(probes@.len() as int) =~= probes@);
    let findings = sort_by_rank(&raw);
    let summary = AuditSummary {
        domains: domain_list.len(),
        critical: count_of(&findings, "critical"),
        warning: count_of(&findings, "warning"),
        info: count_of(&findings, "info"),
        api_calls,
    };
    proof {
        assert forall|i: int|
            0 <= i < domain_list@.len() && (#[trigger] domain_list@[i]).is_expired implies findings_view(
            findings@,
        ).contains(("critical"@, "expired"@, Some(domain_list@[i].name@), "domain is EXPIRED"@)) by {
            expired_domains_are_reported_critical(
                domain_list@,
                *balances,
                covers,
                subs@,
                probes@,
                today as int,
                i,
            );
        }
        every_check_is_reported(domain_list@, *balances, covers, subs@, probes@, today as int);
        assert forall|i: int| 0 <= i < domain_list@.len() implies state_reported(
            #[trigger] domain_list@[i],
            findings_view(findings@),
        ) by {
            domain_states_are_reported(
                domain_list@,
                *balances,
                covers,
                subs@,
                probes@,
                today as int,
                i,
            );
        }
        if exists|i: int| 0 <= i < domain_list@.len() && (#[trigger] domain_list@[i]).is_expired {
            let i = choose|i: int| 0 <= i < domain_list@.len() && (#[trigger] domain_list@[i]).is_expired;
            expired_domains_are_reported_critical(
                domain_list@,
                *balances,
                covers,
                subs@,
                probes@,
                today as int,
                i,
            );
        }
    }
    AuditReport { findings, summary }
}

// ---------------------------------------------------------------------------
// Human-readable output
// ---------------------------------------------------------------------------

pub open spec fn summary_line(s: AuditSummary) -> Seq<char> {
    "audit: "@ + decimal(s.domains as nat) + " domains \u{2014} "@ + decimal(s.critical as nat)
        + " critical, "@ + decimal(s.warning as nat) + " warning, "@ + decimal(s.info as nat)
        + " info ("@ + decimal(s.api_calls as nat) + " API calls)"@
}

pub open spec fn finding_line(f: FindingView) -> Seq<char> {
    "["@ + upper(f.0) + "] "@ + f.1 + " "@ + match f.2 {
        Some(d) => d,
        None => "(account)"@,
    } + ": "@ + f.3
}

pub open spec fn audit_lines(r: AuditReport) -> Seq<Seq<char>> {
    let fs = findings_view(r.findings@);
    seq![summary_line(r.summary)] + fs.map_values(|f: FindingView| finding_line(f)) + if fs.len()
        == 0 {
        seq!["no findings: all checks clean"@]
    } else {
        seq![]
    }
}

fn summary_text(s: &AuditSummary) -> (r: String)
    ensures
        r@ == summary_line(*s),
{
    let mut r = concat3("audit: ", decimal_string(s.domains as u128).as_str(), " domains \u{2014} ");
    r.push_str(decimal_string(s.critical as u128).as_str());
    r.push_str(" critical, ");
    r.push_str(decimal_string(s.warning as u128).as_str());
    r.push_str(" warning, ");
    r.push_str(decimal_string(s.info as u128).as_str());
    r.push_str(" info (");
    r.push_str(decimal_string(s.api_calls as u128).as_str());
    r.push_str(" API calls)");
    assert(r@ =~= summary_line(*s));
    r
}

fn finding_text(f: &Finding) -> (r: String)
    ensures
        r@ == finding_line(finding_view(*f)),
{
    let mut r = concat3("[", ascii_uppercase(f.severity).as_str(), "] ");
    r.push_str(f.check);
    r.push_str(" ");
    match &f.domain {
        Some(d) => r.push_str(d.as_str()),
        None => r.push_str("(account)"),
    }
    r.push_str(": ");
    r.push_str(f.message.as_str());
    assert(r@ =~= finding_line(finding_view(*f)));
    r
}

/// The audit as a person reads it: the summary, one line per finding, or
/// a clean bill when there are none.
pub fn render(report: &AuditReport) -> (text: String)
    ensures
        text@ == safe_lines(audit_lines(*report)),
{
    let ghost fs = findings_view(report.findings@);
    let ghost lines = fs.map_values(|f: FindingView| finding_line(f));
    let mut text = String::new();
    let head = summary_text(&report.summary);
    push_safe_line(&mut text, head.as_str());
    let ghost first = seq![head@];
    proof {
        lemma_safe_lines_push(seq![], head@);
        assert(first =~= Seq::<Seq<char>>::empty().push(head@));
    }
    let mut i: usize = 0;
    while i < report.findings.len()
        invariant
            i <= report.findings@.len(),
            fs == findings_view(report.findings@),
            lines == fs.map_values(|f: FindingView| finding_line(f)),
            first == seq![summary_line(report.summary)],
            text@ == safe_lines(first + lines.take(i as int)),
        decreases report.findings@.len() - i,
    {
        let l = finding_text(&report.findings[i]);
        push_safe_line(&mut text, l.as_str());
        proof {
            assert(lines[i as int] == l@);
            lemma_safe_lines_push(first + lines.take(i as int), l@);
            assert(first + lines.take(i + 1) =~= (first + lines.take(i as int)).push(l@));
        }
        i = i + 1;
    }
    assert(lines.take(report.findings@.len() as int) =~= lines);
    if report.findings.len() == 0 {
        let l = owned("no findings: all checks clean");
        push_safe_line(&mut text, l.as_str());
        proof {
            lemma_safe_lines_push(first + lines, l@);
            assert(audit_lines(*report) =~= (first + lines).push(l@));
        }
    } else {
        assert(audit_lines(*report) =~= first + lines);
    }
    text
}

} // verus!

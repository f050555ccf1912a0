//! The environment preflight: can the tool operate against the resolved
//! profile, and is the setup safe? Every check is decided here from what
//! was found locally and from the one live read.
use vstd::prelude::*;

use crate::api::{error_message, Error};
use crate::config::Profile;
use crate::text::{
    ascii_uppercase, concat2, concat3, debug_quoted, decimal, decimal_string, lemma_safe_lines_push,
    owned, push_safe_line, quoted, safe_lines, str_eq, upper,
};

verus! {

pub struct Check {
    pub check: &'static str,
    /// ok | warn | fail
    pub status: &'static str,
    pub detail: String,
}

pub struct DoctorReport {
    /// True when no check failed: the tool can operate against this profile.
    /// Check results are data; gate programmatically on this.
    pub ready: bool,
    pub checks: Vec<Check>,
}

/// A check by value: (check, status, detail).
pub type CheckView = (Seq<char>, Seq<char>, Seq<char>);

pub open spec fn check_view(c: Check) -> CheckView {
    (c.check@, c.status@, c.detail@)
}

pub open spec fn checks_view(cs: Seq<Check>) -> Seq<CheckView> {
    cs.map_values(|c: Check| check_view(c))
}

/// Where credentials came from: the config file (its path) or the
/// environment alone.
pub open spec fn config_check(config_file: Option<String>) -> CheckView {
    match config_file {
        Some(p) => ("config"@, "ok"@, "config file present, 0600 enforced ("@ + p@ + ")"@),
        None => ("config"@, "ok"@, "pure-env configuration (no config file)"@),
    }
}

pub open spec fn profile_check(p: Profile) -> CheckView {
    (
        "profile"@,
        "ok"@,
        "active profile "@ + quoted(p.name@) + " ("@ + if p.sandbox {
            "sandbox"@
        } else {
            "production"@
        } + ")"@,
    )
}

pub open spec fn gate_check(p: Profile) -> CheckView {
    if p.sandbox {
        (
            "production_gate"@,
            "ok"@,
            "sandbox profile; mutations always permitted (no production risk)"@,
        )
    } else if p.allow_production_mutations {
        (
            "production_gate"@,
            "warn"@,
            "allow_production_mutations is ON; this host holds armed registrar authority"@,
        )
    } else {
        (
            "production_gate"@,
            "ok"@,
            "production mutations disabled (read-only unless armed in config)"@,
        )
    }
}

/// The spend cap as written in the report, when one is set.
pub open spec fn spend_cap_check(spend_cap: Option<String>) -> CheckView {
    match spend_cap {
        Some(c) => ("spend_cap"@, "ok"@, "max_daily_spend set to "@ + c@),
        None => (
            "spend_cap"@,
            "warn"@,
            "max_daily_spend unset; production purchases are refused until a cap is set"@,
        ),
    }
}

/// The spend cap matters only once production mutations are armed.
pub open spec fn spend_cap_checks(p: Profile, spend_cap: Option<String>) -> Seq<CheckView> {
    if !p.sandbox && p.allow_production_mutations {
        seq![spend_cap_check(spend_cap)]
    } else {
        seq![]
    }
}

/// The journal directory (as displayed) and what the write-and-remove
/// probe of it gave.
pub open spec fn state_dir_check(state_dir: Option<(String, Result<(), String>)>) -> CheckView {
    match state_dir {
        None => (
            "state_dir"@,
            "warn"@,
            "no state directory available; mutations cannot be journaled"@,
        ),
        Some((dir, Ok(()))) => ("state_dir"@, "ok"@, "writable ("@ + dir@ + ")"@),
        Some((dir, Err(e))) => (
            "state_dir"@,
            "fail"@,
            "not writable ("@ + e@ + "); mutations will be refused ("@ + dir@ + ")"@,
        ),
    }
}

pub open spec fn whitelist_code() -> Seq<char> {
    "1011150"@
}

/// The one live read (users.getBalances) proves the key valid and the IP
/// whitelisted; its failure is a check, not an error.
pub open spec fn api_auth_check(live: Result<(), Error>) -> CheckView {
    match live {
        Ok(()) => (
            "api_auth"@,
            "ok"@,
            "users.getBalances succeeded; key valid and IP whitelisted"@,
        ),
        Err(Error::Api { code, message }) => if code@ == whitelist_code() {
            ("api_auth"@, "fail"@, "IP whitelist: "@ + message@)
        } else {
            ("api_auth"@, "fail"@, "live read failed: "@ + error_message(live->Err_0))
        },
        Err(Error::RateLimited(m)) => (
            "api_auth"@,
            "warn"@,
            "rate limited ("@ + m@ + "); auth unconfirmed, retry later"@,
        ),
        Err(e) => ("api_auth"@, "fail"@, "live read failed: "@ + error_message(e)),
    }
}

/// Every check, in the order they run.
pub open spec fn doctor_checks(
    config_file: Option<String>,
    p: Profile,
    spend_cap: Option<String>,
    state_dir: Option<(String, Result<(), String>)>,
    live: Result<(), Error>,
) -> Seq<CheckView> {
    seq![config_check(config_file), profile_check(p), gate_check(p)] + spend_cap_checks(
        p,
        spend_cap,
    ) + seq![state_dir_check(state_dir), api_auth_check(live)]
}

/// No check failed.
pub open spec fn all_pass(cs: Seq<CheckView>) -> bool {
    forall|i: int| 0 <= i < cs.len() ==> (#[trigger] cs[i]).1 != "fail"@
}

fn entry(name: &'static str, status: &'static str, detail: String) -> (c: Check)
    ensures
        check_view(c) == (name@, status@, detail@),
{
    Check { check: name, status, detail }
}

fn config_entry(config_file: &Option<String>) -> (c: Check)
    ensures
        check_view(c) == config_check(*config_file),
{
    match config_file {
        Some(p) => {
            let d = concat3("config file present, 0600 enforced (", p.as_str(), ")");
            entry("config", "ok", d)
        },
        None => entry("config", "ok", owned("pure-env configuration (no config file)")),
    }
}

fn profile_entry(p: &Profile) -> (c: Check)
    ensures
        check_view(c) == profile_check(*p),
{
    let mut d = concat3("active profile ", debug_quoted(p.name.as_str()).as_str(), " (");
    d.push_str(if p.sandbox { "sandbox" } else { "production" });
    d.push_str(")");
    entry("profile", "ok", d)
}

fn gate_entry(p: &Profile) -> (c: Check)
    ensures
        check_view(c) == gate_check(*p),
{
    if p.sandbox {
        entry(
            "production_gate",
            "ok",
            owned("sandbox profile; mutations always permitted (no production risk)"),
        )
    } else if p.allow_production_mutations {
        entry(
            "production_gate",
            "warn",
            owned("allow_production_mutations is ON; this host holds armed registrar authority"),
        )
    } else {
        entry(
            "production_gate",
            "ok",
            owned("production mutations disabled (read-only unless armed in config)"),
        )
    }
}

fn spend_cap_entry(spend_cap: &Option<String>) -> (c: Check)
    ensures
        check_view(c) == spend_cap_check(*spend_cap),
{
    match spend_cap {
        Some(cap) => entry("spend_cap", "ok", concat2("max_daily_spend set to ", cap.as_str())),
        None => entry(
            "spend_cap",
            "warn",
            owned("max_daily_spend unset; production purchases are refused until a cap is set"),
        ),
    }
}

fn state_dir_entry(state_dir: &Option<(String, Result<(), String>)>) -> (c: Check)
    ensures
        check_view(c) == state_dir_check(*state_dir),
{
    match state_dir {
        None => entry(
            "state_dir",
            "warn",
            owned("no state directory available; mutations cannot be journaled"),
        ),
        Some((dir, Ok(()))) => entry("state_dir", "ok", concat3("writable (", dir.as_str(), ")")),
        Some((dir, Err(e))) => {
            let mut d = concat3("not writable (", e.as_str(), "); mutations will be refused (");
            d.push_str(dir.as_str());
            d.push_str(")");
            entry("state_dir", "fail", d)
        },
    }
}

fn api_auth_entry(live: &Result<(), Error>) -> (c: Check)
    ensures
        check_view(c) == api_auth_check(*live),
{
    match live {
        Ok(()) => entry(
            "api_auth",
            "ok",
            owned("users.getBalances succeeded; key valid and IP whitelisted"),
        ),
        Err(Error::Api { code, message }) => {
            if str_eq(code.as_str(), "1011150") {
                entry("api_auth", "fail", concat2("IP whitelist: ", message.as_str()))
            } else {
                let e = live.as_ref().unwrap_err();
                entry("api_auth", "fail", concat2("live read failed: ", e.message().as_str()))
            }
        },
        Err(Error::RateLimited(m)) => entry(
            "api_auth",
            "warn",
            concat3("rate limited (", m.as_str(), "); auth unconfirmed, retry later"),
        ),
        Err(e) => entry("api_auth", "fail", concat2("live read failed: ", e.message().as_str())),
    }
}

fn push_check(out: &mut Vec<Check>, c: Check)
    ensures
        checks_view(final(out)@) == checks_view(old(out)@).push(check_view(c)),
{
    let ghost before = out@;
    let ghost cv = check_view(c);
    out.push(c);
    assert(checks_view(out@) =~= checks_view(before).push(cv));
}

/// Read-only environment preflight over what was found: the config file
/// in use (its displayed path), the resolved profile, the spend cap as
/// written (when set), the journal directory with its write probe, and
/// the outcome of the one live read. The report is ready exactly when no
/// check failed.
pub fn run(
    config_file: Option<String>,
    profile: &Profile,
    spend_cap: Option<String>,
    state_dir: Option<(String, Result<(), String>)>,
    live: Result<(), Error>,
) -> (r: DoctorReport)
    ensures
        checks_view(r.checks@) == doctor_checks(config_file, *profile, spend_cap, state_dir, live),
        r.ready == all_pass(checks_view(r.checks@)),
{
    let mut checks: Vec<Check> = Vec::new();
    push_check(&mut checks, config_entry(&config_file));
    push_check(&mut checks, profile_entry(profile));
    push_check(&mut checks, gate_entry(profile));
    let ghost head = checks_view(checks@);
    if !profile.sandbox && profile.allow_production_mutations {
        push_check(&mut checks, spend_cap_entry(&spend_cap));
    }
    assert(checks_view(checks@) =~= head + spend_cap_checks(*profile, spend_cap));
    push_check(&mut checks, state_dir_entry(&state_dir));
    push_check(&mut checks, api_auth_entry(&live));
    let ghost cv = checks_view(checks@);
    assert(cv =~= doctor_checks(config_file, *profile, spend_cap, state_dir, live));
    let mut ready = true;
    let mut i: usize = 0;
    while i < checks.len()
        invariant
            i <= checks@.len(),
            cv == checks_view(checks@),
            ready == forall|j: int| 0 <= j < i ==> (#[trigger] cv[j]).1 != "fail"@,
        decreases checks@.len() - i,
    {
        assert(cv[i as int] == check_view(checks@[i as int]));
        let failed = str_eq(checks[i].status, "fail");
        if failed {
            ready = false;
        }
        assert(ready == forall|j: int| 0 <= j < i + 1 ==> (#[trigger] cv[j]).1 != "fail"@) by {
            if !failed && ready {
                assert forall|j: int| 0 <= j < i + 1 implies (#[trigger] cv[j]).1 != "fail"@ by {
                    if j < i {
                    }
                }
            }
        }
        i = i + 1;
    }
    DoctorReport { ready, checks }
}

/// How many checks failed.
pub open spec fn failing(cs: Seq<CheckView>) -> nat
    decreases cs.len(),
{
    if cs.len() == 0 {
        0
    } else {
        failing(cs.drop_last()) + if cs.last().1 == "fail"@ {
            1nat
        } else {
            0nat
        }
    }
}

pub open spec fn report_lines(r: DoctorReport) -> Seq<Seq<char>> {
    let cs = checks_view(r.checks@);
    cs.map_values(|c: CheckView| "["@ + upper(c.1) + "] "@ + c.0 + ": "@ + c.2) + seq![
        if r.ready {
            "doctor: ready"@
        } else {
            "doctor: NOT ready ("@ + decimal(failing(cs)) + " failing)"@
        },
    ]
}

/// The preflight as a person reads it: one line per check, then the verdict.
pub fn render(report: &DoctorReport) -> (text: String)
    ensures
        text@ == safe_lines(report_lines(*report)),
{
    let ghost cs = checks_view(report.checks@);
    let ghost lines = cs.map_values(|c: CheckView| "["@ + upper(c.1) + "] "@ + c.0 + ": "@ + c.2);
    let mut text = String::new();
    let mut failed: usize = 0;
    let mut i: usize = 0;
    while i < report.checks.len()
        invariant
            i <= report.checks@.len(),
            cs == checks_view(report.checks@),
            lines == cs.map_values(|c: CheckView| "["@ + upper(c.1) + "] "@ + c.0 + ": "@ + c.2),
            text@ == safe_lines(lines.take(i as int)),
            failed == failing(cs.take(i as int)),
            failed <= i,
        decreases report.checks@.len() - i,
    {
        let c = &report.checks[i];
        let mut line = concat3("[", ascii_uppercase(c.status).as_str(), "] ");
        line.push_str(c.check);
        line.push_str(": ");
        line.push_str(c.detail.as_str());
        push_safe_line(&mut text, line.as_str());
        if str_eq(c.status, "fail") {
            failed = failed + 1;
        }
        proof {
            assert(cs[i as int] == check_view(report.checks@[i as int]));
            assert(line@ =~= lines[i as int]);
            lemma_safe_lines_push(lines.take(i as int), line@);
            assert(lines.take(i + 1) =~= lines.take(i as int).push(line@));
            let t = cs.take(i + 1);
            assert(t.drop_last() =~= cs.take(i as int));
        }
        i = i + 1;
    }
    assert(lines.take(report.checks@.len() as int) =~= lines);
    assert(cs.take(report.checks@.len() as int) =~= cs);
    let verdict = if report.ready {
        owned("doctor: ready")
    } else {
        let mut v = concat2("doctor: NOT ready (", decimal_string(failed as u128).as_str());
        v.push_str(" failing)");
        v
    };
    push_safe_line(&mut text, verdict.as_str());
    proof {
        lemma_safe_lines_push(lines, verdict@);
        assert(report_lines(*report) =~= lines.push(verdict@));
    }
    text
}

} // verus!

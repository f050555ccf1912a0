//! The API client: the read-only allowlist, the production-mutation gate,
//! request assembly, one retry for reads, and the mapping of transport
//! failures onto the crate's error kinds with the API key redacted.
use vstd::prelude::*;

use std::path::PathBuf;
use std::time::{Duration, Instant, SystemTime, SystemTimeError, UNIX_EPOCH};

use crate::config::{config_error_message, endpoint_of, ConfigError, Profile};
use crate::text::{
    contains_seq, lemma_replace_leaves_no_pattern,
    owned,
    ascii_lowercase, concat2, concat3, debug_quoted, decimal, decimal_string, has_prefix, lower,
    quoted, replace_all, replace_str, starts_with, str_eq, suffix_from, views,
};

pub mod xml;

verus! {

// ---------------------------------------------------------------------------
// Clock and path types of std
// ---------------------------------------------------------------------------

#[verifier::external_type_specification]
#[verifier::external_body]
pub struct ExInstant(Instant);

#[verifier::external_type_specification]
#[verifier::external_body]
pub struct ExPathBuf(PathBuf);

/// `Instant::now`: the current monotonic time. Nothing is stated of it.
#[verifier::external_body]
fn instant_now() -> Instant {
    Instant::now()
}

/// `Instant::elapsed`: time since `t`. Nothing is stated of it.
#[verifier::external_body]
fn instant_elapsed(t: &Instant) -> Duration {
    t.elapsed()
}

/// `Duration::as_millis`: the whole milliseconds of `d`. Nothing is
/// stated of it: durations are opaque here, and the one measured is an
/// elapsed time.
#[verifier::external_body]
fn duration_millis(d: &Duration) -> u128 {
    d.as_millis()
}

// ---------------------------------------------------------------------------
// The wall clock
// ---------------------------------------------------------------------------

#[verifier::external_type_specification]
#[verifier::external_body]
pub struct ExSystemTime(SystemTime);

#[verifier::external_type_specification]
#[verifier::external_body]
pub struct ExSystemTimeError(SystemTimeError);

/// `SystemTime::now`: the wall clock. Nothing is stated of it.
#[verifier::external_body]
fn system_now() -> SystemTime {
    SystemTime::now()
}

/// `SystemTime::duration_since` the Unix epoch: fails when the clock is
/// set before 1970. Nothing is stated of it: it depends on the clock.
#[verifier::external_body]
fn since_unix_epoch(t: &SystemTime) -> Result<Duration, SystemTimeError> {
    t.duration_since(UNIX_EPOCH)
}

/// `Duration::as_secs`: the whole seconds of `d`. Nothing is stated of
/// it: durations are opaque here.
#[verifier::external_body]
fn duration_secs(d: &Duration) -> u64 {
    d.as_secs()
}

/// Seconds since the Unix epoch by the wall clock; 0 when the clock reads
/// before the epoch. The reading rests on the clock, so no clause states
/// it; what is done with it is `epoch_seconds`.
pub fn unix_now() -> (r: u64) {
    let reading = match since_unix_epoch(&system_now()) {
        Ok(d) => Some(duration_secs(&d)),
        Err(_) => None,
    };
    epoch_seconds(reading)
}

/// The seconds of a clock reading since the epoch, where `None` stands for
/// a clock set before the epoch, which counts as 0.
pub fn epoch_seconds(since_epoch: Option<u64>) -> (r: u64)
    ensures
        r == match since_epoch {
            Some(s) => s,
            None => 0,
        },
{
    match since_epoch {
        Some(s) => s,
        None => 0,
    }
}

// ---------------------------------------------------------------------------
// Commands
// ---------------------------------------------------------------------------

/// Every read-only API method this tool may issue, lowercase canonical
/// (no "namecheap." prefix). `Client::call` refuses anything not listed.
pub const READ_ONLY_COMMANDS: [&'static str; 12] = [
    "domains.getlist",
    "domains.check",
    "domains.getregistrarlock",
    "domains.getinfo",
    "domains.getcontacts",
    "domains.gettldlist",
    "domains.transfer.getstatus",
    "domains.dns.getlist",
    "domains.dns.gethosts",
    "whoisguard.getlist",
    "users.getbalances",
    "users.getpricing",
];

/// The read-only allowlist, in order.
pub open spec fn read_only_commands() -> Seq<Seq<char>> {
    seq![
        "domains.getlist"@,
        "domains.check"@,
        "domains.getregistrarlock"@,
        "domains.getinfo"@,
        "domains.getcontacts"@,
        "domains.gettldlist"@,
        "domains.transfer.getstatus"@,
        "domains.dns.getlist"@,
        "domains.dns.gethosts"@,
        "whoisguard.getlist"@,
        "users.getbalances"@,
        "users.getpricing"@,
    ]
}

/// The listed allowlist is exactly what is accepted as read-only.
pub proof fn allowlist_is_listed(c: Seq<char>)
    ensures
        is_read_only(c) <==> read_only_commands().contains(c),
{
    let l = read_only_commands();
    assert(l[0] == "domains.getlist"@);
    assert(l[1] == "domains.check"@);
    assert(l[2] == "domains.getregistrarlock"@);
    assert(l[3] == "domains.getinfo"@);
    assert(l[4] == "domains.getcontacts"@);
    assert(l[5] == "domains.gettldlist"@);
    assert(l[6] == "domains.transfer.getstatus"@);
    assert(l[7] == "domains.dns.getlist"@);
    assert(l[8] == "domains.dns.gethosts"@);
    assert(l[9] == "whoisguard.getlist"@);
    assert(l[10] == "users.getbalances"@);
    assert(l[11] == "users.getpricing"@);
    if l.contains(c) {
        let i = choose|i: int| 0 <= i < l.len() && l[i] == c;
        assert(0 <= i < 12);
    }
}

/// The allowlist as owned strings, in order.
pub fn read_only_command_names() -> (r: Vec<String>)
    ensures
        views(r@) == read_only_commands(),
{
    let mut r: Vec<String> = Vec::new();
    let mut i: usize = 0;
    while i < READ_ONLY_COMMANDS.len()
        invariant
            i <= READ_ONLY_COMMANDS@.len(),
            READ_ONLY_COMMANDS@.len() == read_only_commands().len(),
            forall|j: int| 0 <= j < READ_ONLY_COMMANDS@.len() ==> #[trigger] READ_ONLY_COMMANDS@[j]@ == read_only_commands()[j],
            views(r@) == read_only_commands().take(i as int),
        decreases READ_ONLY_COMMANDS@.len() - i,
    {
        let ghost before = r@;
        let name = owned(READ_ONLY_COMMANDS[i]);
        r.push(name);
        assert(r@ == before.push(name));
        assert(views(r@) =~= views(before).push(name@));
        assert(read_only_commands().take(i + 1) =~= read_only_commands().take(i as int).push(
            read_only_commands()[i as int],
        ));
        i = i + 1;
    }
    assert(read_only_commands().take(12) =~= read_only_commands());
    r
}

/// Membership in the read-only allowlist.
pub open spec fn is_read_only(c: Seq<char>) -> bool {
    ||| c == "domains.getlist"@
    ||| c == "domains.check"@
    ||| c == "domains.getregistrarlock"@
    ||| c == "domains.getinfo"@
    ||| c == "domains.getcontacts"@
    ||| c == "domains.gettldlist"@
    ||| c == "domains.transfer.getstatus"@
    ||| c == "domains.dns.getlist"@
    ||| c == "domains.dns.gethosts"@
    ||| c == "whoisguard.getlist"@
    ||| c == "users.getbalances"@
    ||| c == "users.getpricing"@
}

/// A command name without its "namecheap." (or "Namecheap.") prefix.
pub open spec fn unprefixed(c: Seq<char>) -> Seq<char> {
    if starts_with(c, "namecheap."@) || starts_with(c, "Namecheap."@) {
        c.skip(10)
    } else {
        c
    }
}

/// Lowercase canonical command name: "namecheap." (or "Namecheap.")
/// prefix stripped.
pub open spec fn canonical(c: Seq<char>) -> Seq<char> {
    lower(unprefixed(c))
}

/// The command name with its "namecheap." prefix stripped, case kept.
pub fn strip_command_prefix(command: &str) -> (r: String)
    ensures
        r@ == unprefixed(command@),
{
    proof {
        reveal_strlit("namecheap.");
        reveal_strlit("Namecheap.");
    }
    if has_prefix(command, "namecheap.") || has_prefix(command, "Namecheap.") {
        suffix_from(command, 10)
    } else {
        owned(command)
    }
}

/// Lowercase canonical command name: "namecheap." prefix stripped.
pub fn canonical_command(command: &str) -> (r: String)
    ensures
        r@ == canonical(command@),
{
    let stripped = strip_command_prefix(command);
    ascii_lowercase(stripped.as_str())
}

/// A name that starts with neither spelling of the prefix is its own
/// unprefixed form.
pub proof fn lemma_unprefixed_plain(x: Seq<char>)
    requires
        x.len() > 0,
        x[0] != 'n' && x[0] != 'N',
    ensures
        unprefixed(x) == x,
{
    reveal_strlit("namecheap.");
    reveal_strlit("Namecheap.");
    if starts_with(x, "namecheap."@) {
        assert(x.take(10)[0] == "namecheap."@[0]);
    }
    if starts_with(x, "Namecheap."@) {
        assert(x.take(10)[0] == "Namecheap."@[0]);
    }
}

proof fn lemma_lower_fixed(x: Seq<char>)
    requires
        forall|i: int| 0 <= i < x.len() ==> !crate::text::is_ascii_upper(#[trigger] x[i]),
    ensures
        lower(x) == x,
{
    assert(lower(x) =~= x);
}

/// Canonicalizing is idempotent: a canonical name has no ASCII capital and
/// canonicalizing it again changes nothing. This holds whenever the
/// canonical name does not itself begin with "namecheap." (as it does for
/// "namecheap.Namecheap.x" or "NAMECHEAP.x", where a second pass strips
/// once more).
pub proof fn canonical_is_idempotent(c: Seq<char>)
    requires
        !starts_with(canonical(c), "namecheap."@),
    ensures
        forall|i: int|
            0 <= i < canonical(c).len() ==> !crate::text::is_ascii_upper(#[trigger] canonical(c)[i]),
        canonical(canonical(c)) == canonical(c),
{
    reveal_strlit("Namecheap.");
    let r = canonical(c);
    assert forall|i: int| 0 <= i < r.len() implies !crate::text::is_ascii_upper(#[trigger] r[i]) by {
        let ch = unprefixed(c)[i];
        assert(r[i] == crate::text::lower_char(ch));
    }
    if starts_with(r, "Namecheap."@) {
        assert(r.take(10)[0] == "Namecheap."@[0]);
        assert(r[0] == 'N');
    }
    assert(unprefixed(r) == r);
    lemma_lower_fixed(r);
}

/// An allowlisted name is already canonical: canonicalizing it again
/// changes nothing.
pub proof fn lemma_read_only_is_canonical(x: Seq<char>)
    requires
        is_read_only(x),
    ensures
        canonical(x) == x,
        unprefixed(x) == x,
{
    reveal_strlit("domains.getlist");
    reveal_strlit("domains.check");
    reveal_strlit("domains.getregistrarlock");
    reveal_strlit("domains.getinfo");
    reveal_strlit("domains.getcontacts");
    reveal_strlit("domains.gettldlist");
    reveal_strlit("domains.transfer.getstatus");
    reveal_strlit("domains.dns.getlist");
    reveal_strlit("domains.dns.gethosts");
    reveal_strlit("whoisguard.getlist");
    reveal_strlit("users.getbalances");
    reveal_strlit("users.getpricing");
    reveal_strlit("namecheap.");
    reveal_strlit("Namecheap.");
    assert(x.len() >= 10);
    assert(x[0] == 'd' || x[0] == 'w' || x[0] == 'u');
    assert(!starts_with(x, "namecheap."@)) by {
        if starts_with(x, "namecheap."@) {
            assert(x.take(10)[0] == "namecheap."@[0]);
        }
    }
    assert(!starts_with(x, "Namecheap."@)) by {
        if starts_with(x, "Namecheap."@) {
            assert(x.take(10)[0] == "Namecheap."@[0]);
        }
    }
    lemma_lower_fixed(x);
}

/// Whether a canonical command is on the read-only allowlist.
pub fn read_only_command(c: &str) -> (r: bool)
    ensures
        r == is_read_only(c@),
{
    str_eq(c, "domains.getlist") || str_eq(c, "domains.check") || str_eq(
        c,
        "domains.getregistrarlock",
    ) || str_eq(c, "domains.getinfo") || str_eq(c, "domains.getcontacts") || str_eq(
        c,
        "domains.gettldlist",
    ) || str_eq(c, "domains.transfer.getstatus") || str_eq(c, "domains.dns.getlist") || str_eq(c, "domains.dns.gethosts") || str_eq(
        c,
        "whoisguard.getlist",
    ) || str_eq(c, "users.getbalances") || str_eq(c, "users.getpricing")
}

// ---------------------------------------------------------------------------
// Errors
// ---------------------------------------------------------------------------

#[derive(Debug)]
pub enum Error {
    Config(ConfigError),
    Transport(String),
    RateLimited(String),
    Api { code: String, message: String },
    Parse(String),
    Usage(String),
    /// Refused by the safety policy (mutation gate); maps to the config
    /// kind and exit code.
    Policy(String),
}

pub open spec fn exit_code_of(e: Error) -> u8 {
    match e {
        Error::Api { .. } | Error::Parse(_) => 1,
        Error::Usage(_) => 2,
        Error::Config(_) | Error::Policy(_) => 3,
        Error::Transport(_) => 4,
        Error::RateLimited(_) => 5,
    }
}

pub open spec fn kind_of(e: Error) -> Seq<char> {
    match e {
        Error::Api { .. } => "api"@,
        Error::Parse(_) => "parse"@,
        Error::Usage(_) => "usage"@,
        Error::Config(_) | Error::Policy(_) => "config"@,
        Error::Transport(_) => "transport"@,
        Error::RateLimited(_) => "rate_limit"@,
    }
}

/// The error's display text.
pub open spec fn error_message(e: Error) -> Seq<char> {
    match e {
        Error::Config(c) => config_error_message(c),
        Error::Transport(m) => "transport: "@ + m@,
        Error::RateLimited(m) => "rate limited by Namecheap ("@ + m@ + "); retry later"@,
        Error::Api { code, message } => "Namecheap API error "@ + code@ + ": "@ + message@,
        Error::Parse(m) => "unexpected API response: "@ + m@,
        Error::Usage(m) => m@,
        Error::Policy(m) => m@,
    }
}

impl Error {
    pub fn exit_code(&self) -> (r: u8)
        ensures
            r == exit_code_of(*self),
    {
        match self {
            Error::Api { .. } | Error::Parse(_) => 1,
            Error::Usage(_) => 2,
            Error::Config(_) | Error::Policy(_) => 3,
            Error::Transport(_) => 4,
            Error::RateLimited(_) => 5,
        }
    }

    pub fn kind(&self) -> (r: &'static str)
        ensures
            r@ == kind_of(*self),
    {
        match self {
            Error::Api { .. } => "api",
            Error::Parse(_) => "parse",
            Error::Usage(_) => "usage",
            Error::Config(_) | Error::Policy(_) => "config",
            Error::Transport(_) => "transport",
            Error::RateLimited(_) => "rate_limit",
        }
    }

    pub fn code(&self) -> (r: Option<&str>)
        ensures
            match *self {
                Error::Api { code, .. } => r matches Some(c) && c@ == code@,
                _ => r is None,
            },
    {
        match self {
            Error::Api { code, .. } => Some(code.as_str()),
            _ => None,
        }
    }

    /// The error's display text.
    pub fn message(&self) -> (r: String)
        ensures
            r@ == error_message(*self),
    {
        match self {
            Error::Config(c) => c.message(),
            Error::Transport(m) => concat2("transport: ", m.as_str()),
            Error::RateLimited(m) => concat3(
                "rate limited by Namecheap (",
                m.as_str(),
                "); retry later",
            ),
            Error::Api { code, message } => {
                let mut r = concat3("Namecheap API error ", code.as_str(), ": ");
                r.push_str(message.as_str());
                r
            },
            Error::Parse(m) => concat2("unexpected API response: ", m.as_str()),
            Error::Usage(m) => m.clone(),
            Error::Policy(m) => m.clone(),
        }
    }
}

/// The kind alone decides the exit code: two errors of one kind always
/// exit alike, so agents may switch on either.
pub proof fn exit_code_follows_kind(a: Error, b: Error)
    requires
        kind_of(a) == kind_of(b),
    ensures
        exit_code_of(a) == exit_code_of(b),
{
    reveal_strlit("api");
    reveal_strlit("parse");
    reveal_strlit("usage");
    reveal_strlit("config");
    reveal_strlit("transport");
    reveal_strlit("rate_limit");
    assert("api"@.len() == 3);
    assert("parse"@.len() == 5);
    assert("usage"@.len() == 5);
    assert("config"@.len() == 6);
    assert("transport"@.len() == 9);
    assert("rate_limit"@.len() == 10);
    assert("parse"@[0] != "usage"@[0]);
}

// ---------------------------------------------------------------------------
// Transport
// ---------------------------------------------------------------------------

#[derive(Debug)]
pub enum TransportFailure {
    Status(u16),
    Other(String),
}

/// Where requests go. Implementors perform the HTTP exchange and the
/// waiting between requests.
pub trait Transport {
    /// Whether `reply` is an answer this transport gives when `form` is
    /// posted to `endpoint`. An implementation may say what its exchanges
    /// are; by default it admits any reply. The client relies on nothing
    /// more than that `send` keeps to it.
    open spec fn answered(
        &self,
        endpoint: Seq<char>,
        form: Seq<(Seq<char>, Seq<char>)>,
        reply: Result<String, TransportFailure>,
    ) -> bool {
        true
    }

    /// Post `params` to `endpoint` and return the reply.
    fn send(&self, endpoint: &str, params: &[(String, String)]) -> (r: Result<String, TransportFailure>)
        ensures
            self.answered(endpoint@, pairs_view(params@), r),
    ;

    /// Block for `millis` milliseconds (request spacing and retry backoff).
    fn pause(&self, millis: u64);
}

/// A parameter pair by value.
pub open spec fn pair_view(p: (String, String)) -> (Seq<char>, Seq<char>) {
    (p.0@, p.1@)
}

/// Parameter pairs by value.
pub open spec fn pairs_view(s: Seq<(String, String)>) -> Seq<(Seq<char>, Seq<char>)> {
    s.map_values(|p: (String, String)| pair_view(p))
}

/// The form sent for one command: the five authentication and routing
/// parameters from the profile, then the caller's parameters in order.
pub open spec fn request_form(
    profile: Profile,
    command: Seq<char>,
    params: Seq<(Seq<char>, Seq<char>)>,
) -> Seq<(Seq<char>, Seq<char>)> {
    seq![
        ("ApiUser"@, profile.api_user@),
        ("ApiKey"@, profile.api_key@),
        ("UserName"@, profile.username@),
        ("Command"@, "namecheap."@ + command),
        ("ClientIp"@, profile.client_ip@),
    ] + params
}

/// Borrowed parameter pairs by value.
pub open spec fn params_view(params: Seq<(&str, &str)>) -> Seq<(Seq<char>, Seq<char>)> {
    params.map_values(|p: (&str, &str)| (p.0@, p.1@))
}

/// The parameters sent for one command.
pub fn request_params(profile: &Profile, command: &str, params: &[(&str, &str)]) -> (r: Vec<
    (String, String),
>)
    ensures
        pairs_view(r@) == request_form(*profile, command@, params_view(params@)),
{
    let mut r: Vec<(String, String)> = Vec::new();
    r.push(("ApiUser".to_string(), profile.api_user.clone()));
    r.push(("ApiKey".to_string(), profile.api_key.expose().to_string()));
    r.push(("UserName".to_string(), profile.username.clone()));
    r.push(("Command".to_string(), concat2("namecheap.", command)));
    r.push(("ClientIp".to_string(), profile.client_ip.clone()));
    let mut i: usize = 0;
    while i < params.len()
        invariant
            i <= params@.len(),
            r@.map_values(|p: (String, String)| pair_view(p)) == request_form(
                *profile,
                command@,
                params_view(params@.take(i as int)),
            ),
        decreases params@.len() - i,
    {
        let (k, v) = params[i];
        let ghost before = r@;
        let pair = (owned(k), owned(v));
        r.push(pair);
        proof {
            assert(params@.take(i + 1).drop_last() =~= params@.take(i as int));
            assert(params@.take(i + 1) =~= params@.take(i as int).push(params@[i as int]));
            assert(r@ == before.push(pair));
            assert(r@.map_values(|p: (String, String)| pair_view(p)) =~= before.map_values(
                |p: (String, String)| pair_view(p),
            ).push(pair_view(pair)));
            assert(r@.map_values(|p: (String, String)| pair_view(p)) =~= request_form(
                *profile,
                command@,
                params_view(params@.take(i + 1)),
            ));
        }
        i = i + 1;
    }
    assert(params@.take(params@.len() as int) =~= params@);
    assert(pairs_view(r@) == r@.map_values(|p: (String, String)| pair_view(p)));
    r
}

/// Whether a read is retried: once, after HTTP 429 or any 5xx.
pub open spec fn retryable(retry: bool, a: Result<String, TransportFailure>) -> bool {
    retry && (a matches Err(TransportFailure::Status(code)) && (code == 429 || code >= 500))
}

pub fn should_retry(retry: bool, attempt: &Result<String, TransportFailure>) -> (r: bool)
    ensures
        r == retryable(retry, *attempt),
{
    retry && match attempt {
        Err(TransportFailure::Status(code)) => *code == 429 || *code >= 500,
        _ => false,
    }
}

// ---------------------------------------------------------------------------
// Key redaction
// ---------------------------------------------------------------------------

pub open spec fn hex_digit(d: u8) -> char {
    if d < 10 {
        ((d + 48) as u8) as char
    } else {
        ((d + 55) as u8) as char
    }
}

/// Bytes that pass through percent-encoding unchanged.
pub open spec fn unreserved(b: u8) -> bool {
    (48 <= b && b <= 57) || (65 <= b && b <= 90) || (97 <= b && b <= 122) || b == 45 || b == 95
        || b == 46 || b == 126
}

/// The percent-encoded form of a byte string (uppercase hex).
pub open spec fn percent_encoded(bytes: Seq<u8>) -> Seq<char>
    decreases bytes.len(),
{
    if bytes.len() == 0 {
        seq![]
    } else {
        let b = bytes.last();
        percent_encoded(bytes.drop_last()) + if unreserved(b) {
            seq![b as char]
        } else {
            seq!['%', hex_digit(b / 16), hex_digit(b % 16)]
        }
    }
}

pub open spec fn redaction_mark() -> Seq<char> {
    "<redacted>"@
}

/// `msg` with every occurrence of the key, raw and percent-encoded,
/// replaced. Keys under 8 bytes are left alone.
pub open spec fn redacted(msg: Seq<char>, key: Seq<char>) -> Seq<char> {
    let bytes = vstd::utf8::encode_utf8(key);
    if bytes.len() < 8 {
        msg
    } else {
        let out = replace_all(msg, key, redaction_mark());
        let enc = percent_encoded(bytes);
        if enc != key {
            replace_all(out, enc, redaction_mark())
        } else {
            out
        }
    }
}

fn hex(d: u8) -> (c: char)
    requires
        d < 16,
    ensures
        c == hex_digit(d),
{
    if d < 10 {
        (d + 48) as char
    } else {
        (d + 55) as char
    }
}

fn percent_encode(bytes: &[u8]) -> (r: String)
    ensures
        r@ == percent_encoded(bytes@),
{
    let mut r = String::new();
    let mut i: usize = 0;
    while i < bytes.len()
        invariant
            i <= bytes@.len(),
            r@ == percent_encoded(bytes@.take(i as int)),
        decreases bytes@.len() - i,
    {
        let b = bytes[i];
        if (48 <= b && b <= 57) || (65 <= b && b <= 90) || (97 <= b && b <= 122) || b == 45 || b
            == 95 || b == 46 || b == 126 {
            r.push(b as char);
        } else {
            r.push('%');
            r.push(hex(b / 16));
            r.push(hex(b % 16));
        }
        proof {
            assert(bytes@.take(i + 1).drop_last() =~= bytes@.take(i as int));
        }
        i = i + 1;
    }
    assert(bytes@.take(bytes@.len() as int) =~= bytes@);
    r
}

proof fn lemma_encode_empty(key: Seq<char>)
    requires
        key.len() == 0,
    ensures
        vstd::utf8::encode_utf8(key).len() == 0,
{
}

proof fn lemma_percent_encoded_nonempty(bytes: Seq<u8>)
    requires
        bytes.len() > 0,
    ensures
        percent_encoded(bytes).len() > 0,
    decreases bytes.len(),
{
}

/// Replace the key (raw and percent-encoded) in an error string. Keys
/// shorter than 8 bytes are not replaced.
pub fn redact(msg: &str, key: &str) -> (r: String)
    ensures
        r@ == redacted(msg@, key@),
{
    let bytes = key.as_bytes();
    if bytes.len() < 8 {
        return msg.to_string();
    }
    proof {
        if key@.len() == 0 {
            lemma_encode_empty(key@);
        }
        lemma_percent_encoded_nonempty(bytes@);
    }
    let encoded = percent_encode(bytes);
    let out = replace_str(msg, key, "<redacted>");
    if !str_eq(encoded.as_str(), key) {
        return replace_str(out.as_str(), encoded.as_str(), "<redacted>");
    }
    out
}

proof fn lemma_percent_encoded_no_angle(bytes: Seq<u8>)
    ensures
        !percent_encoded(bytes).contains('<'),
        !percent_encoded(bytes).contains('>'),
        percent_encoded(bytes).len() >= bytes.len(),
    decreases bytes.len(),
{
    if bytes.len() > 0 {
        lemma_percent_encoded_no_angle(bytes.drop_last());
        let b = bytes.last();
        let prev = percent_encoded(bytes.drop_last());
        let tail: Seq<char> = if unreserved(b) {
            seq![b as char]
        } else {
            seq!['%', hex_digit(b / 16), hex_digit(b % 16)]
        };
        assert(percent_encoded(bytes) == prev + tail);
        assert forall|c: char| c == '<' || c == '>' implies !(prev + tail).contains(c) by {
            if (prev + tail).contains(c) {
                let k = choose|k: int| 0 <= k < (prev + tail).len() && (prev + tail)[k] == c;
                if k < prev.len() {
                    assert(prev[k] == c);
                } else {
                    assert(tail[k - prev.len()] == c);
                }
            }
        }
    }
}

/// The API key never survives redaction: once a message is redacted,
/// neither the key nor its percent-encoded form occurs in it. This holds
/// for every key of at least 8 bytes that has no `<` or `>` and that (raw
/// or encoded) is not part of the marker `<redacted>` itself.
pub proof fn redaction_removes_key(msg: Seq<char>, key: Seq<char>)
    requires
        vstd::utf8::encode_utf8(key).len() >= 8,
        !key.contains('<'),
        !key.contains('>'),
        !contains_seq(redaction_mark(), key),
        !contains_seq(redaction_mark(), percent_encoded(vstd::utf8::encode_utf8(key))),
    ensures
        !contains_seq(redacted(msg, key), key),
        !contains_seq(redacted(msg, key), percent_encoded(vstd::utf8::encode_utf8(key))),
{
    reveal_strlit("<redacted>");
    let rep = redaction_mark();
    assert(rep[0] == '<');
    assert(rep.last() == '>');
    let bytes = vstd::utf8::encode_utf8(key);
    if key.len() == 0 {
        lemma_encode_empty(key);
    }
    let enc = percent_encoded(bytes);
    lemma_percent_encoded_no_angle(bytes);
    let out = replace_all(msg, key, rep);
    lemma_replace_leaves_no_pattern(msg, key, rep, key);
    if enc != key {
        lemma_replace_leaves_no_pattern(out, enc, rep, key);
        lemma_replace_leaves_no_pattern(out, enc, rep, enc);
    }
}

/// How one transport outcome surfaces: the body, or the error kind it
/// maps to, with the key removed from any transport message. HTTP 429 and
/// 405 (the live rate limiter's answer) are rate limits.
pub open spec fn maps_attempt(
    a: Result<String, TransportFailure>,
    key: Seq<char>,
    r: Result<String, Error>,
) -> bool {
    match a {
        Ok(body) => r matches Ok(b) && b@ == body@,
        Err(TransportFailure::Status(code)) => if code == 429 || code == 405 {
            r matches Err(Error::RateLimited(m)) && m@ == "HTTP "@ + decimal(code as nat)
        } else {
            r matches Err(Error::Transport(m)) && m@ == "HTTP status "@ + decimal(code as nat)
        },
        Err(TransportFailure::Other(msg)) => r matches Err(Error::Transport(m)) && m@ == redacted(
            msg@,
            key,
        ),
    }
}

pub fn map_attempt(attempt: Result<String, TransportFailure>, key: &str) -> (r: Result<
    String,
    Error,
>)
    ensures
        maps_attempt(attempt, key@, r),
{
    match attempt {
        Ok(body) => Ok(body),
        Err(TransportFailure::Status(code)) => {
            if code == 429 || code == 405 {
                Err(Error::RateLimited(concat2("HTTP ", decimal_string(code as u128).as_str())))
            } else {
                Err(Error::Transport(concat2("HTTP status ", decimal_string(code as u128).as_str())))
            }
        },
        Err(TransportFailure::Other(msg)) => Err(Error::Transport(redact(msg.as_str(), key))),
    }
}

// ---------------------------------------------------------------------------
// Client
// ---------------------------------------------------------------------------

pub open spec fn gate_refusal() -> Seq<char> {
    "mutations against production are disabled; use a sandbox profile or set allow_production_mutations = true in this profile"@
}

pub open spec fn not_read_only_message(command: Seq<char>) -> Seq<char> {
    quoted(command)
        + " is not a known read-only command; mutating commands must use the mutation path"@
}

/// The refusal of a mutation whose intent the journal could not record.
pub open spec fn unrecorded_message(reason: Seq<char>) -> Seq<char> {
    "cannot record mutation intent in the journal ("@ + reason + "); refusing to mutate"@
}

/// Whether the profile permits mutating commands.
pub open spec fn mutations_permitted(p: Profile) -> bool {
    p.sandbox || p.allow_production_mutations
}

/// What a purchase must do about the daily spend cap before it is sent.
pub enum SpendStep {
    /// Sandbox without a cap and without a ledger: nothing to record.
    Skip,
    /// Sandbox without a cap: record the reservation for parity, no limit.
    Record,
    /// A cap is set: sum the ledger's last 24 hours, refuse if the listed
    /// price would exceed the cap, else record the reservation.
    CheckCap,
}

pub open spec fn no_cap_message() -> Seq<char> {
    "purchases against production require max_daily_spend in the profile"@
}

pub open spec fn no_ledger_message() -> Seq<char> {
    "max_daily_spend is set but no state directory is available to track it"@
}

/// The spend-cap policy, fail-closed: production without a cap refuses
/// every purchase; a cap without a ledger to track it refuses too.
pub open spec fn spend_step(sandbox: bool, cap_set: bool, ledger: bool, r: Result<SpendStep, Error>) -> bool {
    if !cap_set {
        if sandbox {
            r == Ok::<SpendStep, Error>(if ledger { SpendStep::Record } else { SpendStep::Skip })
        } else {
            r matches Err(Error::Policy(m)) && m@ == no_cap_message()
        }
    } else if !ledger {
        r matches Err(Error::Policy(m)) && m@ == no_ledger_message()
    } else {
        r == Ok::<SpendStep, Error>(SpendStep::CheckCap)
    }
}

/// Decide what the spend cap asks of a purchase, given whether the profile
/// is the sandbox, whether it sets `max_daily_spend`, and whether a state
/// directory holds the ledger.
pub fn spend_plan(sandbox: bool, cap_set: bool, ledger: bool) -> (r: Result<SpendStep, Error>)
    ensures
        spend_step(sandbox, cap_set, ledger, r),
{
    if !cap_set {
        if sandbox {
            if ledger {
                Ok(SpendStep::Record)
            } else {
                Ok(SpendStep::Skip)
            }
        } else {
            Err(Error::Policy(owned("purchases against production require max_daily_spend in the profile")))
        }
    } else if !ledger {
        Err(Error::Policy(owned("max_daily_spend is set but no state directory is available to track it")))
    } else {
        Ok(SpendStep::CheckCap)
    }
}

/// Production purchases are refused entirely until a cap is set: without
/// `max_daily_spend`, no production purchase is ever let through,
/// whatever the ledger.
pub proof fn uncapped_production_never_spends(ledger: bool, r: Result<SpendStep, Error>)
    requires
        spend_step(false, false, ledger, r),
    ensures
        r is Err,
{
}

/// One request handed to the transport: the endpoint, the form, and the
/// reply that came back.
pub type Exchange = (Seq<char>, Seq<(Seq<char>, Seq<char>)>, Result<String, TransportFailure>);

/// One exchange with the transport: `form` was posted to `endpoint` once,
/// and a second time only when retries are allowed and the reply to the
/// first was HTTP 429 or a 5xx; each reply is one the transport gives to
/// that request, and the result is the last reply, classified, with the
/// key removed.
pub open spec fn exchanged<T: Transport>(
    transport: T,
    before: Seq<Exchange>,
    after: Seq<Exchange>,
    endpoint: Seq<char>,
    form: Seq<(Seq<char>, Seq<char>)>,
    retry: bool,
    key: Seq<char>,
    r: Result<String, Error>,
) -> bool {
    let n = before.len() as int;
    &&& n < after.len()
    &&& after.take(n) == before
    &&& after[n].0 == endpoint
    &&& after[n].1 == form
    &&& transport.answered(endpoint, form, after[n].2)
    &&& if retryable(retry, after[n].2) {
        &&& after.len() == n + 2
        &&& after[n + 1].0 == endpoint
        &&& after[n + 1].1 == form
        &&& transport.answered(endpoint, form, after[n + 1].2)
        &&& maps_attempt(after[n + 1].2, key, r)
    } else {
        &&& after.len() == n + 1
        &&& maps_attempt(after[n].2, key, r)
    }
}

pub struct Client<T: Transport> {
    transport: T,
    profile: Profile,
    last_call: Option<Instant>,
    calls: u32,
    /// Least time between two calls, in milliseconds.
    spacing: u64,
    /// Wait before the one retry of a read, in milliseconds.
    retry_backoff: u64,
    /// Mutation journal directory; `None` disables journaling.
    journal_dir: Option<PathBuf>,
    /// Every request handed to the transport so far, with its reply, in
    /// order (a retried request appears twice).
    requests: Ghost<Seq<Exchange>>,
    /// Every pause asked of the transport so far, in order.
    pauses: Ghost<Seq<u64>>,
}

impl<T: Transport> Client<T> {
    pub closed spec fn call_count(&self) -> u32 {
        self.calls
    }

    pub closed spec fn profile_state(&self) -> Profile {
        self.profile
    }

    pub closed spec fn transport_state(&self) -> T {
        self.transport
    }

    pub closed spec fn journal_state(&self) -> Option<PathBuf> {
        self.journal_dir
    }

    /// The requests handed to the transport so far, with their replies,
    /// in order.
    pub closed spec fn exchanges(&self) -> Seq<Exchange> {
        self.requests@
    }

    /// The least time kept between two calls, in milliseconds.
    pub closed spec fn spacing_state(&self) -> u64 {
        self.spacing
    }

    /// The pause before the one retry of a read, in milliseconds.
    pub closed spec fn retry_backoff_state(&self) -> u64 {
        self.retry_backoff
    }

    /// When the last call went out; `None` before the first.
    pub closed spec fn last_call_state(&self) -> Option<Instant> {
        self.last_call
    }

    /// The pauses asked of the transport so far, in milliseconds, in order.
    pub closed spec fn paused(&self) -> Seq<u64> {
        self.pauses@
    }

    /// A client with the default spacing (3.1 s between calls, 5 s before
    /// the one retry) and no journal.
    pub fn new(transport: T, profile: Profile) -> (c: Self)
        ensures
            c.transport_state() == transport,
            c.profile_state() == profile,
            c.call_count() == 0,
            c.exchanges() == Seq::<Exchange>::empty(),
            c.journal_state() is None,
            c.last_call_state() is None,
            c.paused() == Seq::<u64>::empty(),
            c.spacing_state() == 3100,
            c.retry_backoff_state() == 5000,
    {
        Client {
            transport,
            profile,
            last_call: None,
            calls: 0,
            spacing: 3100,
            retry_backoff: 5000,
            journal_dir: None,
            requests: Ghost(Seq::empty()),
            pauses: Ghost(Seq::empty()),
        }
    }

    pub fn set_journal_dir(&mut self, dir: Option<PathBuf>)
        ensures
            final(self).journal_state() == dir,
            final(self).call_count() == old(self).call_count(),
            final(self).exchanges() == old(self).exchanges(),
            final(self).profile_state() == old(self).profile_state(),
            final(self).transport_state() == old(self).transport_state(),
    {
        self.journal_dir = dir;
    }

    pub fn journal_dir(&self) -> (r: Option<&PathBuf>)
        ensures
            match self.journal_state() {
                Some(d) => r == Some(&d),
                None => r is None,
            },
    {
        match &self.journal_dir {
            Some(d) => Some(d),
            None => None,
        }
    }

    /// Override throttle spacing and retry backoff, in milliseconds.
    pub fn set_timing(&mut self, spacing_ms: u64, retry_backoff_ms: u64)
        ensures
            final(self).spacing_state() == spacing_ms,
            final(self).retry_backoff_state() == retry_backoff_ms,
            final(self).last_call_state() == old(self).last_call_state(),
            final(self).paused() == old(self).paused(),
            final(self).journal_state() == old(self).journal_state(),
            final(self).call_count() == old(self).call_count(),
            final(self).exchanges() == old(self).exchanges(),
            final(self).profile_state() == old(self).profile_state(),
            final(self).transport_state() == old(self).transport_state(),
    {
        self.spacing = spacing_ms;
        self.retry_backoff = retry_backoff_ms;
    }

    pub fn profile(&self) -> (r: &Profile)
        ensures
            *r == self.profile_state(),
    {
        &self.profile
    }

    pub fn transport(&self) -> (r: &T)
        ensures
            *r == self.transport_state(),
    {
        &self.transport
    }

    /// Logical API commands issued so far (a retried attempt counts once).
    pub fn calls(&self) -> (r: u32)
        ensures
            r == self.call_count(),
    {
        self.calls
    }

    /// The production-mutation gate.
    pub fn require_mutations_permitted(&self) -> (r: Result<(), Error>)
        ensures
            mutations_permitted(self.profile_state()) ==> r is Ok,
            !mutations_permitted(self.profile_state()) ==> (r matches Err(Error::Policy(m)) && m@
                == gate_refusal()),
    {
        if !self.profile.sandbox && !self.profile.allow_production_mutations {
            return Err(
                Error::Policy(
                    "mutations against production are disabled; use a sandbox profile or set allow_production_mutations = true in this profile".to_string(),
                ),
            );
        }
        Ok(())
    }

    /// Issue one read-only API call, retrying once on HTTP 429/5xx. Any
    /// command whose canonical form is not on the allowlist is refused
    /// before anything is sent.
    pub fn call(&mut self, command: &str, params: &[(&str, &str)]) -> (r: Result<String, Error>)
        requires
            old(self).call_count() < u32::MAX,
        ensures
            final(self).profile_state() == old(self).profile_state(),
            final(self).journal_state() == old(self).journal_state(),
            !is_read_only(canonical(command@)) ==> {
                &&& r matches Err(Error::Policy(m)) && m@ == not_read_only_message(command@)
                &&& final(self).call_count() == old(self).call_count()
                &&& final(self).exchanges() == old(self).exchanges()
            },
            is_read_only(canonical(command@)) ==> {
                &&& final(self).call_count() == old(self).call_count() + 1
                &&& exchanged(
                    old(self).transport_state(),
                    old(self).exchanges(),
                    final(self).exchanges(),
                    endpoint_of(old(self).profile_state()),
                    request_form(old(self).profile_state(), unprefixed(command@), params_view(params@)),
                    true,
                    old(self).profile_state().api_key@,
                    r,
                )
            },
    {
        let name = strip_command_prefix(command);
        let canonical = ascii_lowercase(name.as_str());
        if !read_only_command(canonical.as_str()) {
            let m = concat2(
                debug_quoted(command).as_str(),
                " is not a known read-only command; mutating commands must use the mutation path",
            );
            return Err(Error::Policy(m));
        }
        self.dispatch(name.as_str(), params, true)
    }

    /// Issue one mutating API call: refused unless the profile permits
    /// mutations, and never retried.
    pub fn dispatch_mutation(&mut self, command: &str, params: &[(&str, &str)]) -> (r: Result<
        String,
        Error,
    >)
        requires
            old(self).call_count() < u32::MAX,
        ensures
            final(self).profile_state() == old(self).profile_state(),
            final(self).journal_state() == old(self).journal_state(),
            !mutations_permitted(old(self).profile_state()) ==> {
                &&& r matches Err(Error::Policy(m)) && m@ == gate_refusal()
                &&& final(self).call_count() == old(self).call_count()
                &&& final(self).exchanges() == old(self).exchanges()
            },
            mutations_permitted(old(self).profile_state()) ==> {
                &&& final(self).call_count() == old(self).call_count() + 1
                &&& exchanged(
                    old(self).transport_state(),
                    old(self).exchanges(),
                    final(self).exchanges(),
                    endpoint_of(old(self).profile_state()),
                    request_form(old(self).profile_state(), unprefixed(command@), params_view(params@)),
                    false,
                    old(self).profile_state().api_key@,
                    r,
                )
            },
    {
        match self.require_mutations_permitted() {
            Err(e) => return Err(e),
            Ok(()) => {},
        }
        let name = strip_command_prefix(command);
        self.dispatch(name.as_str(), params, false)
    }

    /// Issue one mutating API call after its intent went to the journal.
    /// The production-mutation gate comes first; then, when a journal
    /// directory is set and the intent could not be recorded (`intent`
    /// holds why), the call is refused: the journal is fail-closed, so an
    /// unrecorded mutation never goes out.
    pub fn dispatch_mutation_journaled(
        &mut self,
        command: &str,
        params: &[(&str, &str)],
        intent: Result<(), String>,
    ) -> (r: Result<String, Error>)
        requires
            old(self).call_count() < u32::MAX,
        ensures
            final(self).profile_state() == old(self).profile_state(),
            final(self).journal_state() == old(self).journal_state(),
            !mutations_permitted(old(self).profile_state()) ==> {
                &&& r matches Err(Error::Policy(m)) && m@ == gate_refusal()
                &&& final(self).call_count() == old(self).call_count()
                &&& final(self).exchanges() == old(self).exchanges()
            },
            mutations_permitted(old(self).profile_state()) && old(self).journal_state() is Some
                && intent is Err ==> {
                &&& r matches Err(Error::Policy(m)) && m@ == unrecorded_message(intent->Err_0@)
                &&& final(self).call_count() == old(self).call_count()
                &&& final(self).exchanges() == old(self).exchanges()
            },
            mutations_permitted(old(self).profile_state()) && (old(self).journal_state() is None
                || intent is Ok) ==> {
                &&& final(self).call_count() == old(self).call_count() + 1
                &&& exchanged(
                    old(self).transport_state(),
                    old(self).exchanges(),
                    final(self).exchanges(),
                    endpoint_of(old(self).profile_state()),
                    request_form(old(self).profile_state(), unprefixed(command@), params_view(params@)),
                    false,
                    old(self).profile_state().api_key@,
                    r,
                )
            },
    {
        match self.require_mutations_permitted() {
            Err(e) => return Err(e),
            Ok(()) => {},
        }
        if self.journal_dir.is_some() {
            if let Err(e) = intent {
                return Err(Error::Policy(concat3(
                    "cannot record mutation intent in the journal (",
                    e.as_str(),
                    "); refusing to mutate",
                )));
            }
        }
        self.dispatch_mutation(command, params)
    }

    fn dispatch(&mut self, name: &str, params: &[(&str, &str)], retry: bool) -> (r: Result<
        String,
        Error,
    >)
        requires
            old(self).call_count() < u32::MAX,
        ensures
            final(self).profile_state() == old(self).profile_state(),
            final(self).journal_state() == old(self).journal_state(),
            final(self).call_count() == old(self).call_count() + 1,
            final(self).transport_state() == old(self).transport_state(),
            exchanged(
                old(self).transport_state(),
                old(self).exchanges(),
                final(self).exchanges(),
                endpoint_of(old(self).profile_state()),
                request_form(old(self).profile_state(), name@, params_view(params@)),
                retry,
                old(self).profile_state().api_key@,
                r,
            ),
    {
        let all = request_params(&self.profile, name, params);
        self.calls = self.calls + 1;
        self.throttle();
        let ghost form = request_form(self.profile, name@, params_view(params@));
        let ghost key = self.profile.api_key@;
        let ghost before = self.requests@;
        let endpoint = self.profile.endpoint();
        let mut attempt = self.transport.send(endpoint, all.as_slice());
        self.requests = Ghost(self.requests@.push((endpoint@, form, attempt)));
        if should_retry(retry, &attempt) {
            self.transport.pause(self.retry_backoff);
            self.pauses = Ghost(self.pauses@.push(self.retry_backoff));
            self.throttle();
            attempt = self.transport.send(endpoint, all.as_slice());
            self.requests = Ghost(self.requests@.push((endpoint@, form, attempt)));
        }
        let r = map_attempt(attempt, self.profile.api_key.expose());
        assert(self.requests@.take(before.len() as int) =~= before);
        r
    }

    /// Space calls at least `spacing` apart: before the first call nothing
    /// is awaited; after it, when less than `spacing` has passed since the
    /// last call, the transport is asked to pause for the rest of it, which
    /// is more than nothing and at most `spacing`. The time of this call is
    /// then recorded.
    fn throttle(&mut self)
        ensures
            final(self).spacing_state() == old(self).spacing_state(),
            final(self).retry_backoff_state() == old(self).retry_backoff_state(),
            final(self).last_call_state() is Some,
            old(self).last_call_state() is None ==> final(self).paused() == old(self).paused(),
            old(self).last_call_state() is Some ==> {
                ||| final(self).paused() == old(self).paused()
                ||| {
                    &&& final(self).paused().len() == old(self).paused().len() + 1
                    &&& final(self).paused().drop_last() == old(self).paused()
                    &&& 0 < final(self).paused().last() <= old(self).spacing_state()
                }
            },
            final(self).profile_state() == old(self).profile_state(),
            final(self).journal_state() == old(self).journal_state(),
            final(self).call_count() == old(self).call_count(),
            final(self).exchanges() == old(self).exchanges(),
            final(self).transport_state() == old(self).transport_state(),
    {
        match &self.last_call {
            Some(prev) => {
                let elapsed = duration_millis(&instant_elapsed(prev));
                if elapsed < self.spacing as u128 {
                    let wait = self.spacing - (elapsed as u64);
                    self.transport.pause(wait);
                    self.pauses = Ghost(self.pauses@.push(wait));
                }
            },
            None => {},
        }
        self.last_call = Some(instant_now());
    }
}

} // verus!

use std::cell::RefCell;

use ncheap::api::{
    canonical_command, map_attempt, redact, request_params, spend_plan, Client, Error, SpendStep,
    Transport, TransportFailure,
};
use ncheap::commands::raw;
use ncheap::config::{Profile, Secret};

struct FakeTransport {
    responses: RefCell<Vec<Result<String, TransportFailure>>>,
    requests: RefCell<Vec<Vec<(String, String)>>>,
    endpoints: RefCell<Vec<String>>,
    pauses: RefCell<usize>,
    waits: RefCell<Vec<u64>>,
}

impl FakeTransport {
    fn with_results(responses: Vec<Result<String, TransportFailure>>) -> Self {
        Self {
            responses: RefCell::new(responses),
            requests: RefCell::new(Vec::new()),
            endpoints: RefCell::new(Vec::new()),
            pauses: RefCell::new(0),
            waits: RefCell::new(Vec::new()),
        }
    }
}

impl Transport for FakeTransport {
    fn send(&self, endpoint: &str, params: &[(String, String)]) -> Result<String, TransportFailure> {
        self.endpoints.borrow_mut().push(endpoint.to_string());
        self.requests.borrow_mut().push(params.to_vec());
        let mut responses = self.responses.borrow_mut();
        if responses.is_empty() {
            return Err(TransportFailure::Other("no more fixture responses".into()));
        }
        responses.remove(0)
    }

    fn pause(&self, millis: u64) {
        *self.pauses.borrow_mut() += 1;
        self.waits.borrow_mut().push(millis);
    }
}

fn profile(sandbox: bool, armed: bool) -> Profile {
    Profile {
        name: "test".into(),
        api_user: "testuser".into(),
        api_key: Secret::new("testkey".into()),
        username: "testuser".into(),
        client_ip: "192.0.2.1".into(),
        sandbox,
        allow_production_mutations: armed,
    }
}

fn client_with(
    results: Vec<Result<String, TransportFailure>>,
    sandbox: bool,
    armed: bool,
) -> Client<FakeTransport> {
    let mut client = Client::new(FakeTransport::with_results(results), profile(sandbox, armed));
    client.set_timing(0, 0);
    client
}

fn param<'a>(request: &'a [(String, String)], key: &str) -> Option<&'a str> {
    request
        .iter()
        .find(|(k, _)| k == key)
        .map(|(_, v)| v.as_str())
}

#[test]
fn reads_carry_auth_and_the_prefixed_command() {
    let mut client = client_with(vec![Ok("<ok/>".into())], true, false);
    let body = client
        .call("domains.getInfo", &[("DomainName", "example.com")])
        .ok()
        .unwrap();
    assert_eq!(body, "<ok/>");
    let requests = client.transport().requests.borrow();
    assert_eq!(requests.len(), 1);
    let r = &requests[0];
    assert_eq!(param(r, "ApiUser"), Some("testuser"));
    assert_eq!(param(r, "ApiKey"), Some("testkey"));
    assert_eq!(param(r, "UserName"), Some("testuser"));
    assert_eq!(param(r, "Command"), Some("namecheap.domains.getInfo"));
    assert_eq!(param(r, "ClientIp"), Some("192.0.2.1"));
    assert_eq!(param(r, "DomainName"), Some("example.com"));
    assert_eq!(r.len(), 6);
    assert_eq!(client.calls(), 1);
}

#[test]
fn a_prefixed_command_is_not_prefixed_twice() {
    let mut client = client_with(vec![Ok("b".into())], true, false);
    client.call("namecheap.users.getBalances", &[]).ok().unwrap();
    let requests = client.transport().requests.borrow();
    assert_eq!(param(&requests[0], "Command"), Some("namecheap.users.getBalances"));
}

#[test]
fn commands_off_the_allowlist_are_refused_before_sending() {
    let mut client = client_with(vec![], true, false);
    let err = client.call("domains.dns.setCustom", &[]).err().unwrap();
    assert_eq!(err.kind(), "config");
    assert_eq!(err.exit_code(), 3);
    assert_eq!(
        err.message(),
        "\"domains.dns.setCustom\" is not a known read-only command; mutating commands must use the mutation path"
    );
    assert!(client.transport().requests.borrow().is_empty());
    assert_eq!(client.calls(), 0);
}

#[test]
fn reads_retry_once_on_server_errors() {
    let mut client = client_with(
        vec![Err(TransportFailure::Status(503)), Ok("second".into())],
        true,
        false,
    );
    let body = client.call("domains.getList", &[]).ok().unwrap();
    assert_eq!(body, "second");
    assert_eq!(client.transport().requests.borrow().len(), 2);
    assert_eq!(*client.transport().pauses.borrow(), 1);
    assert_eq!(client.calls(), 1, "a retried attempt is still one call");
}

#[test]
fn a_second_429_is_a_rate_limit() {
    let mut client = client_with(
        vec![Err(TransportFailure::Status(429)), Err(TransportFailure::Status(429))],
        true,
        false,
    );
    let err = client.call("domains.getList", &[]).err().unwrap();
    assert!(matches!(err, Error::RateLimited(ref m) if m == "HTTP 429"));
    assert_eq!(err.exit_code(), 5);
    assert_eq!(client.transport().requests.borrow().len(), 2);
}

#[test]
fn client_errors_are_not_retried() {
    let mut client = client_with(vec![Err(TransportFailure::Status(404))], true, false);
    let err = client.call("domains.getList", &[]).err().unwrap();
    assert!(matches!(err, Error::Transport(ref m) if m == "HTTP status 404"));
    assert_eq!(err.exit_code(), 4);
    assert_eq!(client.transport().requests.borrow().len(), 1);
}

#[test]
fn transport_messages_lose_the_key() {
    let mut client = Client::new(
        FakeTransport::with_results(vec![Err(TransportFailure::Other(
            "connect failed for ApiKey=0123456789abcdef".into(),
        ))]),
        Profile {
            api_key: Secret::new("0123456789abcdef".into()),
            ..profile(true, false)
        },
    );
    client.set_timing(0, 0);
    let err = client.call("domains.getList", &[]).err().unwrap();
    assert_eq!(err.message(), "transport: connect failed for ApiKey=<redacted>");
}

#[test]
fn mutations_against_unarmed_production_send_nothing() {
    let mut client = client_with(vec![Ok("x".into())], false, false);
    let err = client
        .dispatch_mutation("domains.dns.setCustom", &[("SLD", "example")])
        .err()
        .unwrap();
    assert!(matches!(err, Error::Policy(_)));
    assert_eq!(err.exit_code(), 3);
    assert!(err.message().contains("allow_production_mutations"));
    assert!(client.transport().requests.borrow().is_empty());
    assert_eq!(client.calls(), 0);
    assert!(client.require_mutations_permitted().is_err());
}

#[test]
fn mutations_are_never_retried() {
    let mut client = client_with(
        vec![Err(TransportFailure::Status(503)), Ok("late".into())],
        true,
        false,
    );
    let err = client
        .dispatch_mutation("domains.dns.setCustom", &[("SLD", "example")])
        .err()
        .unwrap();
    assert!(matches!(err, Error::Transport(ref m) if m == "HTTP status 503"));
    let requests = client.transport().requests.borrow();
    assert_eq!(requests.len(), 1);
    assert_eq!(param(&requests[0], "Command"), Some("namecheap.domains.dns.setCustom"));
    assert_eq!(param(&requests[0], "SLD"), Some("example"));
}

#[test]
fn armed_production_may_mutate() {
    let mut client = client_with(vec![Ok("done".into())], false, true);
    assert!(client.require_mutations_permitted().is_ok());
    let body = client
        .dispatch_mutation("domains.renew", &[])
        .ok()
        .unwrap();
    assert_eq!(body, "done");
}

#[test]
fn canonical_names_drop_the_prefix_and_case() {
    assert_eq!(canonical_command("namecheap.domains.getList"), "domains.getlist");
    assert_eq!(canonical_command("Namecheap.Users.GetBalances"), "users.getbalances");
    assert_eq!(canonical_command("domains.check"), "domains.check");
}

#[test]
fn canonicalizing_twice_changes_nothing() {
    for c in [
        "namecheap.domains.getList",
        "Namecheap.users.getBalances",
        "domains.getTldList",
        "Domains.DNS.GetHosts",
    ] {
        let once = canonical_command(c);
        assert_eq!(canonical_command(&once), once);
        assert_eq!(once, once.to_ascii_lowercase());
    }
    // A name that is still prefixed after one pass is stripped again.
    assert_eq!(canonical_command("NAMECHEAP.x"), "namecheap.x");
    assert_eq!(canonical_command("namecheap.x"), "x");
}

#[test]
fn request_parameters_lead_with_the_profile() {
    let p = profile(true, false);
    let all = request_params(&p, "domains.check", &[("DomainList", "a.com,b.com")]);
    let keys: Vec<&str> = all.iter().map(|(k, _)| k.as_str()).collect();
    assert_eq!(
        keys,
        ["ApiUser", "ApiKey", "UserName", "Command", "ClientIp", "DomainList"]
    );
    assert_eq!(all[3].1, "namecheap.domains.check");
}

#[test]
fn redaction_covers_raw_and_percent_encoded_keys() {
    assert_eq!(redact("key=abc+def/ghi!", "abc+def/ghi!"), "key=<redacted>");
    assert_eq!(
        redact("sent abc%2Bdef%2Fghi%21 over", "abc+def/ghi!"),
        "sent <redacted> over"
    );
    assert_eq!(redact("short key abc", "abc"), "short key abc");
    assert_eq!(redact("no key here", "0123456789"), "no key here");
}

#[test]
fn redacted_text_no_longer_holds_the_key() {
    let key = "s3cr3t-k3y-value";
    let out = redact("a s3cr3t-k3y-value b s3cr3t-k3y-value", key);
    assert!(!out.contains(key));
    assert_eq!(out, "a <redacted> b <redacted>");
}

#[test]
fn attempts_map_onto_error_kinds() {
    assert_eq!(map_attempt(Ok("body".into()), "k").ok().unwrap(), "body");
    let e = map_attempt(Err(TransportFailure::Status(500)), "k").err().unwrap();
    assert_eq!(e.message(), "transport: HTTP status 500");
    let e = map_attempt(Err(TransportFailure::Status(429)), "k").err().unwrap();
    assert_eq!(e.message(), "rate limited by Namecheap (HTTP 429); retry later");
    assert_eq!(e.kind(), "rate_limit");
    let e = map_attempt(Err(TransportFailure::Status(405)), "k").err().unwrap();
    assert!(matches!(e, Error::RateLimited(ref m) if m == "HTTP 405"));
    assert_eq!(e.exit_code(), 5);
}

#[test]
fn error_kinds_and_exit_codes_agree() {
    let errors = [
        (Error::Api { code: "1".into(), message: "m".into() }, "api", 1),
        (Error::Parse("p".into()), "parse", 1),
        (Error::Usage("u".into()), "usage", 2),
        (Error::Policy("p".into()), "config", 3),
        (Error::Transport("t".into()), "transport", 4),
        (Error::RateLimited("r".into()), "rate_limit", 5),
    ];
    for (e, kind, code) in errors {
        assert_eq!(e.kind(), kind);
        assert_eq!(e.exit_code(), code);
    }
    let api = Error::Api { code: "2019166".into(), message: "Domain not found".into() };
    assert_eq!(api.code(), Some("2019166"));
    assert_eq!(api.message(), "Namecheap API error 2019166: Domain not found");
    assert_eq!(Error::Usage("x".into()).code(), None);
}

#[test]
fn spend_cap_policy_fails_closed() {
    assert!(matches!(spend_plan(true, false, false), Ok(SpendStep::Skip)));
    assert!(matches!(spend_plan(true, false, true), Ok(SpendStep::Record)));
    let e = spend_plan(false, false, true).err().unwrap();
    assert_eq!(
        e.message(),
        "purchases against production require max_daily_spend in the profile"
    );
    assert_eq!(e.exit_code(), 3);
    let e = spend_plan(false, true, false).err().unwrap();
    assert_eq!(
        e.message(),
        "max_daily_spend is set but no state directory is available to track it"
    );
    assert!(matches!(spend_plan(false, true, true), Ok(SpendStep::CheckCap)));
    assert!(matches!(spend_plan(true, true, true), Ok(SpendStep::CheckCap)));
}

#[test]
fn raw_params_split_at_the_first_equals_and_refuse_auth() {
    let ok = raw::parse_params(&["DomainName=a=b.com".to_owned(), "X=".to_owned()])
        .ok()
        .unwrap();
    assert_eq!(ok, vec![("DomainName".into(), "a=b.com".into()), ("X".into(), "".into())]);
    let e = raw::parse_params(&["apikey=steal".to_owned()]).err().unwrap();
    assert_eq!(
        e.message(),
        "--param apikey is reserved: authentication parameters are set from the profile"
    );
    let e = raw::parse_params(&["noequals".to_owned()]).err().unwrap();
    assert_eq!(e.message(), "--param \"noequals\" is not KEY=VALUE");
    assert_eq!(e.exit_code(), 2);
}

#[test]
fn raw_refuses_methods_off_the_allowlist_before_any_request() {
    let mut client = client_with(vec![Ok("x".into())], true, false);
    let e = raw::call(&mut client, "domains.dns.setCustom", &[]).err().unwrap();
    assert_eq!(e.kind(), "usage");
    assert!(e
        .message()
        .starts_with("\"domains.dns.setCustom\" is not on the read-only allowlist; allowed: domains.getlist, "));
    assert!(client.transport().requests.borrow().is_empty());
}

#[test]
fn raw_sends_the_canonical_command_with_user_params() {
    let mut client = client_with(vec![Ok("<raw/>".into())], true, false);
    let body = raw::call(
        &mut client,
        "Namecheap.Domains.GetTldList",
        &[("Extra".to_owned(), "1".to_owned())],
    )
    .ok()
    .unwrap();
    assert_eq!(body, "<raw/>");
    let requests = client.transport().requests.borrow();
    assert_eq!(param(&requests[0], "Command"), Some("namecheap.domains.gettldlist"));
    assert_eq!(param(&requests[0], "Extra"), Some("1"));
}

#[test]
fn the_first_call_never_waits_and_the_next_keeps_the_spacing() {
    let mut client = Client::new(
        FakeTransport::with_results(vec![Ok("a".into()), Ok("b".into())]),
        profile(true, false),
    );
    client.set_timing(3_600_000, 0);
    client.call("domains.getList", &[]).ok().unwrap();
    assert_eq!(*client.transport().pauses.borrow(), 0);
    client.call("domains.getList", &[]).ok().unwrap();
    assert_eq!(*client.transport().pauses.borrow(), 1);
}

#[test]
fn zero_spacing_never_waits_between_calls() {
    let mut client = client_with(vec![Ok("a".into()), Ok("b".into())], true, false);
    client.call("domains.getList", &[]).ok().unwrap();
    client.call("domains.getList", &[]).ok().unwrap();
    assert_eq!(*client.transport().pauses.borrow(), 0);
}

#[test]
fn the_transfer_status_lookup_is_a_read() {
    let mut client = client_with(vec![Ok("<status/>".into())], true, false);
    let body = client
        .call("domains.transfer.getStatus", &[("TransferID", "42")])
        .ok()
        .unwrap();
    assert_eq!(body, "<status/>");
    let requests = client.transport().requests.borrow();
    assert_eq!(requests.len(), 1);
    assert_eq!(param(&requests[0], "Command"), Some("namecheap.domains.transfer.getStatus"));
    assert_eq!(param(&requests[0], "TransferID"), Some("42"));
}

#[test]
fn every_attempt_goes_to_the_profiles_own_endpoint() {
    let mut sandbox = client_with(
        vec![Err(TransportFailure::Status(503)), Ok("b".into())],
        true,
        false,
    );
    sandbox.call("domains.getList", &[]).ok().unwrap();
    assert_eq!(
        *sandbox.transport().endpoints.borrow(),
        vec![
            "https://api.sandbox.namecheap.com/xml.response".to_string(),
            "https://api.sandbox.namecheap.com/xml.response".to_string(),
        ]
    );
    let mut production = client_with(vec![Ok("b".into())], false, true);
    production.dispatch_mutation("domains.setRegistrarLock", &[]).ok().unwrap();
    assert_eq!(
        *production.transport().endpoints.borrow(),
        vec!["https://api.namecheap.com/xml.response".to_string()]
    );
}

#[test]
fn a_non_retryable_failure_is_sent_once() {
    let mut client = client_with(
        vec![Err(TransportFailure::Status(404)), Ok("never".into())],
        true,
        false,
    );
    let err = client.call("domains.getList", &[]).err().unwrap();
    assert_eq!(err.message(), "transport: HTTP status 404");
    assert_eq!(client.transport().requests.borrow().len(), 1);
    assert_eq!(*client.transport().pauses.borrow(), 0);
}

#[test]
fn an_unrecorded_mutation_is_never_sent() {
    let mut client = client_with(vec![Ok("done".into())], true, false);
    client.set_journal_dir(Some(std::path::PathBuf::from("/var/lib/ncheap")));
    let err = client
        .dispatch_mutation_journaled("domains.setRegistrarLock", &[], Err("disk full".into()))
        .err()
        .unwrap();
    assert_eq!(
        err.message(),
        "cannot record mutation intent in the journal (disk full); refusing to mutate"
    );
    assert_eq!(err.kind(), "config");
    assert!(client.transport().requests.borrow().is_empty());
    assert_eq!(client.calls(), 0);
    let body = client
        .dispatch_mutation_journaled("domains.setRegistrarLock", &[], Ok(()))
        .ok()
        .unwrap();
    assert_eq!(body, "done");
    assert_eq!(client.calls(), 1);
}

#[test]
fn without_a_journal_the_intent_does_not_decide() {
    let mut client = client_with(vec![Err(TransportFailure::Status(503))], true, false);
    let err = client
        .dispatch_mutation_journaled("domains.setRegistrarLock", &[], Err("ignored".into()))
        .err()
        .unwrap();
    assert_eq!(err.message(), "transport: HTTP status 503");
    assert_eq!(client.transport().requests.borrow().len(), 1, "a mutation is never retried");
}

#[test]
fn raw_refusal_lists_the_whole_allowlist() {
    let mut client = client_with(vec![], true, false);
    let e = raw::call(&mut client, "domains.create", &[]).err().unwrap();
    assert_eq!(
        e.message(),
        format!(
            "\"domains.create\" is not on the read-only allowlist; allowed: {}",
            ncheap::api::READ_ONLY_COMMANDS.join(", ")
        )
    );
    assert!(e.message().contains("domains.transfer.getstatus"));
    assert_eq!(e.exit_code(), 2);
}

#[test]
fn pauses_fill_the_spacing_and_the_backoff() {
    let mut client = Client::new(
        FakeTransport::with_results(vec![
            Ok("a".into()),
            Err(TransportFailure::Status(429)),
            Ok("b".into()),
        ]),
        profile(true, false),
    );
    client.set_timing(60_000, 5_000);
    client.call("domains.getList", &[]).ok().unwrap();
    client.call("domains.getList", &[]).ok().unwrap();
    let waits = client.transport().waits.borrow().clone();
    // The spacing wait before the second call, the backoff before its
    // retry, then the spacing wait before the retry itself.
    assert_eq!(waits.len(), 3);
    assert!(waits[0] > 55_000 && waits[0] <= 60_000);
    assert_eq!(waits[1], 5_000);
    assert!(waits[2] > 55_000 && waits[2] <= 60_000);
}

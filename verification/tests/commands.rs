use std::cell::RefCell;

use ncheap::api::xml::{interpret, ApiError, ApiErrors, ApiResponse};
use ncheap::api::{Client, Error, Transport, TransportFailure};
use ncheap::commands::account::{
    self, Balances, GetPricingResponse, Price, PricingQuery, Product, ProductCategory, ProductType,
};
use ncheap::commands::audit::{self, AuditReport, DomainProbe, Finding};
use ncheap::commands::dns::{self, DnsInfo, EditResult, HostRecord, SetResult};
use ncheap::commands::doctor;
use ncheap::commands::guard::{accept_answer, confirm_mutation, expect_profile, Confirmation};
use ncheap::commands::domains::{self, CheckResult, Contact, Contacts, Domain, LockStatus};
use ncheap::commands::paging::Pager;
use ncheap::commands::privacy::{self, PrivacySubscription};
use ncheap::commands::transfer::{self, CreateResponse, StatusResponse};
use ncheap::config::{parse_bool, Profile, Secret};
use quick_xml::events::{BytesStart, Event};
use quick_xml::Reader;

struct FakeTransport {
    responses: RefCell<Vec<Result<String, TransportFailure>>>,
    requests: RefCell<Vec<Vec<(String, String)>>>,
}

impl FakeTransport {
    fn new(responses: Vec<String>) -> Self {
        Self {
            responses: RefCell::new(responses.into_iter().map(Ok).collect()),
            requests: RefCell::new(Vec::new()),
        }
    }
}

impl Transport for FakeTransport {
    fn send(&self, _endpoint: &str, params: &[(String, String)]) -> Result<String, TransportFailure> {
        self.requests.borrow_mut().push(params.to_vec());
        let mut responses = self.responses.borrow_mut();
        if responses.is_empty() {
            return Err(TransportFailure::Other("no more fixture responses".into()));
        }
        responses.remove(0)
    }

    fn pause(&self, _millis: u64) {}
}

fn test_profile() -> Profile {
    Profile {
        name: "test".into(),
        api_user: "testuser".into(),
        api_key: Secret::new("testkey".into()),
        username: "testuser".into(),
        client_ip: "192.0.2.1".into(),
        sandbox: true,
        allow_production_mutations: false,
    }
}

fn test_client(transport: FakeTransport) -> Client<FakeTransport> {
    test_client_with(transport, test_profile())
}

fn test_client_with(transport: FakeTransport, profile: Profile) -> Client<FakeTransport> {
    let mut client = Client::new(transport, profile);
    client.set_timing(0, 0);
    client
}

fn param<'a>(request: &'a [(String, String)], key: &str) -> Option<&'a str> {
    request
        .iter()
        .find(|(k, _)| k == key)
        .map(|(_, v)| v.as_str())
}

fn envelope_xml(command: &str, inner: &str) -> String {
    format!(
        r#"<?xml version="1.0" encoding="UTF-8"?>
<ApiResponse xmlns="http://api.namecheap.com/xml.response" Status="OK">
  <Errors />
  <Warnings />
  <RequestedCommand>namecheap.{command}</RequestedCommand>
  <CommandResponse Type="namecheap.{command}">{inner}</CommandResponse>
  <Server>TEST</Server>
  <GMTTimeDifference>--4:00</GMTTimeDifference>
  <ExecutionTime>0.01</ExecutionTime>
</ApiResponse>"#
    )
}

/// Attributes of every element named `tag`.
fn elements(xml: &str, tag: &str) -> Vec<Vec<(String, String)>> {
    fn attrs(e: &BytesStart) -> Vec<(String, String)> {
        e.attributes()
            .map(|a| {
                let a = a.unwrap();
                (
                    String::from_utf8(a.key.as_ref().to_vec()).unwrap(),
                    a.unescape_value().unwrap().into_owned(),
                )
            })
            .collect()
    }
    let mut reader = Reader::from_str(xml);
    let mut out = Vec::new();
    loop {
        match reader.read_event().unwrap() {
            Event::Start(e) | Event::Empty(e) if e.name().as_ref() == tag.as_bytes() => {
                out.push(attrs(&e))
            }
            Event::Eof => break,
            _ => {}
        }
    }
    out
}

fn attr(attrs: &[(String, String)], key: &str) -> String {
    attrs
        .iter()
        .find(|(k, _)| k == key)
        .map(|(_, v)| v.clone())
        .unwrap_or_default()
}

fn flag(attrs: &[(String, String)], key: &str) -> bool {
    parse_bool(&attr(attrs, key)).unwrap()
}

fn payload<T>(xml: &str, value: T) -> Result<T, Error> {
    let root = &elements(xml, "ApiResponse")[0];
    interpret(ApiResponse {
        status: attr(root, "Status"),
        errors: ApiErrors { errors: Vec::<ApiError>::new() },
        command_response: Some(value),
    })
}

fn check_results(xml: &str) -> Vec<CheckResult> {
    elements(xml, "DomainCheckResult")
        .iter()
        .map(|a| CheckResult {
            domain: attr(a, "Domain"),
            available: flag(a, "Available"),
            is_premium: flag(a, "IsPremiumName"),
            premium_registration_price: attr(a, "PremiumRegistrationPrice"),
            premium_renewal_price: attr(a, "PremiumRenewalPrice"),
            premium_restore_price: attr(a, "PremiumRestorePrice"),
            premium_transfer_price: attr(a, "PremiumTransferPrice"),
            icann_fee: attr(a, "IcannFee"),
            eap_fee: attr(a, "EapFee"),
            error_no: attr(a, "ErrorNo"),
            description: attr(a, "Description"),
        })
        .collect()
}

#[test]
fn check_parses_regular_and_premium_results() {
    let inner = r#"
<DomainCheckResult Domain="taken.example" Available="false" ErrorNo="0" Description="" IsPremiumName="false" PremiumRegistrationPrice="0" PremiumRenewalPrice="0" PremiumRestorePrice="0" PremiumTransferPrice="0" IcannFee="0" EapFee="0"/>
<DomainCheckResult Domain="fancy.example" Available="true" ErrorNo="0" Description="" IsPremiumName="true" PremiumRegistrationPrice="13000.0000" PremiumRenewalPrice="13000.0000" PremiumRestorePrice="65.0000" PremiumTransferPrice="13000.0000" IcannFee="0.0000" EapFee="0.0000"/>"#;
    let transport = FakeTransport::new(vec![envelope_xml("domains.check", inner)]);
    let mut client = test_client(transport);

    let body = domains::check(
        &mut client,
        &["taken.example".to_owned(), "fancy.example".to_owned()],
    )
    .ok()
    .expect("check should succeed");
    let results = payload(&body, check_results(&body)).ok().unwrap();

    assert_eq!(results.len(), 2);
    assert!(
        !results[0].available,
        "unavailable domain is data, not error"
    );
    assert!(results[1].available);
    assert!(results[1].is_premium);
    assert_eq!(results[1].premium_registration_price, "13000.0000");

    let requests = client.transport().requests.borrow();
    let first = &requests[0];
    assert_eq!(param(first, "Command"), Some("namecheap.domains.check"));
    assert_eq!(
        param(first, "DomainList"),
        Some("taken.example,fancy.example"),
        "domains must be comma-joined into one call"
    );
}

#[test]
fn lock_status_parses_capitalized_boolean() {
    // Docs say RegistrarLockStatus values are "True"/"False" (capitalized).
    let inner =
        r#"<DomainGetRegistrarLockResult Domain="domain1.example" RegistrarLockStatus="True" />"#;
    let transport = FakeTransport::new(vec![envelope_xml("domains.getRegistrarLock", inner)]);
    let mut client = test_client(transport);

    let body = domains::lock_status(&mut client, "domain1.example")
        .ok()
        .expect("lock should succeed");
    let a = &elements(&body, "DomainGetRegistrarLockResult")[0];
    let status = payload(
        &body,
        LockStatus { domain: attr(a, "Domain"), locked: flag(a, "RegistrarLockStatus") },
    )
    .ok()
    .unwrap();

    assert_eq!(status.domain, "domain1.example");
    assert!(status.locked);
    let requests = client.transport().requests.borrow();
    assert_eq!(
        param(&requests[0], "Command"),
        Some("namecheap.domains.getRegistrarLock")
    );
    assert_eq!(param(&requests[0], "DomainName"), Some("domain1.example"));
}

#[test]
fn check_refuses_more_than_fifty_domains_before_sending() {
    let mut client = test_client(FakeTransport::new(vec![]));
    let many: Vec<String> = (0..51).map(|i| format!("d{i}.example")).collect();
    let e = domains::check(&mut client, &many).err().unwrap();
    assert_eq!(
        e.message(),
        "domains check accepts at most 50 domains per call (got 51)"
    );
    assert_eq!(e.exit_code(), 2);
    assert!(client.transport().requests.borrow().is_empty());
    assert_eq!(client.calls(), 0);
}

#[test]
fn check_normalizes_every_domain_and_stops_at_the_first_bad_one() {
    let list = domains::check_domain_list(&["Example.COM.".to_owned(), "münchen.de".to_owned()])
        .ok()
        .unwrap();
    assert_eq!(list, "example.com,xn--mnchen-3ya.de");
    let e = domains::check_domain_list(&["ok.com".to_owned(), "www.bad.com".to_owned()])
        .err()
        .unwrap();
    assert!(e.message().contains("bad.com"));
}

#[test]
fn lock_status_refuses_a_subdomain_without_sending() {
    let mut client = test_client(FakeTransport::new(vec![]));
    let e = domains::lock_status(&mut client, "www.example.com").err().unwrap();
    assert_eq!(e.exit_code(), 2);
    assert!(client.transport().requests.borrow().is_empty());
}

fn domain(name: &str, expires: &str, auto_renew: bool) -> Domain {
    Domain {
        id: "1".into(),
        name: name.into(),
        user: "u".into(),
        created: "2020-01-01".into(),
        expires: expires.into(),
        is_expired: false,
        registry_hold: false,
        auto_renew,
        privacy: "ENABLED".into(),
        is_premium: false,
        is_our_dns: true,
    }
}

fn contact(first: &str) -> Contact {
    Contact {
        read_only: false,
        organization_name: String::new(),
        job_title: String::new(),
        first_name: first.into(),
        last_name: "Doe".into(),
        address1: "1 Main St".into(),
        address2: String::new(),
        city: "Town".into(),
        state_province: "ST".into(),
        postal_code: "12345".into(),
        country: "US".into(),
        phone: "+1.5555555555".into(),
        phone_ext: String::new(),
        fax: String::new(),
        email_address: "j@example.com".into(),
    }
}

fn contacts(domain: &str, tech_first: &str) -> Contacts {
    Contacts {
        domain: domain.into(),
        registrant: contact("Jane"),
        tech: contact(tech_first),
        admin: contact("Jane"),
        aux_billing: contact("Jane"),
    }
}

fn balances() -> Balances {
    Balances {
        currency: "USD".into(),
        available_balance: "1.00".into(),
        account_balance: "1.00".into(),
        earned_amount: "0".into(),
        withdrawable_amount: "0".into(),
        funds_required_for_auto_renew: "20.00".into(),
    }
}

fn findings(report: &AuditReport) -> Vec<(String, String, Option<String>)> {
    report
        .findings
        .iter()
        .map(|f: &Finding| (f.severity.to_owned(), f.check.to_owned(), f.domain.clone()))
        .collect()
}

#[test]
fn audit_ranks_findings_and_counts_them() {
    // today = 2024-01-01 (19723 days after the epoch)
    let today = audit::parse_iso_days("2024-01-01").unwrap() as i64;
    let list = vec![
        domain("b.example", "2024-01-15", true),
        domain("a.example", "2024-03-01", false),
        domain("c.example", "2030-01-01", true),
    ];
    let probes = vec![
        DomainProbe { lock: Ok(LockStatus { domain: "b.example".into(), locked: true }), contacts: Ok(contacts("b.example", "Jane")) },
        DomainProbe { lock: Ok(LockStatus { domain: "a.example".into(), locked: false }), contacts: Ok(contacts("a.example", "Jim")) },
        DomainProbe { lock: Err(Error::Transport("down".into())), contacts: Ok(contacts("c.example", "Jane")) },
    ];
    let subs = vec![PrivacySubscription {
        id: "77".into(),
        domain_name: String::new(),
        created: String::new(),
        expires: String::new(),
        status: "disabled".into(),
    }];
    let report = audit::run(&list, &balances(), Some(false), &subs, &probes, today, 9);
    assert_eq!(
        findings(&report),
        vec![
            ("critical".into(), "balance_covers_auto_renew".into(), None),
            ("critical".into(), "expiry_horizon".into(), Some("b.example".into())),
            ("warning".into(), "privacy_subscription".into(), None),
            ("warning".into(), "expiry_horizon".into(), Some("a.example".into())),
            ("warning".into(), "auto_renew".into(), Some("a.example".into())),
            ("warning".into(), "transfer_lock".into(), Some("a.example".into())),
            ("warning".into(), "contact_consistency".into(), Some("a.example".into())),
            ("info".into(), "transfer_lock".into(), Some("c.example".into())),
        ]
    );
    assert_eq!(report.summary.domains, 3);
    assert_eq!(report.summary.critical, 2);
    assert_eq!(report.summary.warning, 5);
    assert_eq!(report.summary.info, 1);
    assert_eq!(report.summary.api_calls, 9);
    assert_eq!(
        report.findings[0].message,
        "available balance does not cover the 20.00 USD needed for auto-renew"
    );
    assert_eq!(report.findings[1].message, "expires 2024-01-15 (14 days)");
    assert_eq!(
        report.findings[3].message,
        "expires 2024-03-01 (60 days) and auto-renew is OFF"
    );
    assert_eq!(report.findings[2].message, "privacy subscription 77 is disabled");
    assert_eq!(
        report.findings[7].message,
        "could not read lock status: transport: down"
    );
}

#[test]
fn audit_of_a_clean_account_is_empty() {
    let today = audit::parse_iso_days("2024-01-01").unwrap() as i64;
    let list = vec![domain("ok.example", "2030-01-01", true)];
    let probes = vec![DomainProbe {
        lock: Ok(LockStatus { domain: "ok.example".into(), locked: true }),
        contacts: Ok(contacts("ok.example", "Jane")),
    }];
    let report = audit::run(&list, &balances(), Some(true), &vec![], &probes, today, 5);
    assert!(report.findings.is_empty());
    assert_eq!(
        audit::render(&report),
        "audit: 1 domains \u{2014} 0 critical, 0 warning, 0 info (5 API calls)\nno findings: all checks clean\n"
    );
}

#[test]
fn audit_flags_unparseable_expiry_as_info_and_uncovered_balance_as_warning() {
    let list = vec![domain("odd.example", "sometime", true)];
    let probes = vec![DomainProbe {
        lock: Ok(LockStatus { domain: "odd.example".into(), locked: true }),
        contacts: Err(Error::Parse("bad".into())),
    }];
    let report = audit::run(&list, &balances(), Some(false), &vec![], &probes, 0, 5);
    let f = findings(&report);
    assert_eq!(f[0], ("warning".into(), "balance_covers_auto_renew".into(), None));
    assert_eq!(report.findings[1].message, "unparseable expiry date \"sometime\"");
    assert_eq!(
        report.findings[2].message,
        "could not read contacts: unexpected API response: bad"
    );
    let text = audit::render(&report);
    assert!(text.contains("[WARNING] balance_covers_auto_renew (account): available balance"));
    assert!(text.contains("[INFO] expiry_horizon odd.example: unparseable expiry date \"sometime\"\n"));
}

#[test]
fn today_is_after_2020() {
    assert!(audit::today_days() > audit::parse_iso_days("2020-01-01").unwrap() as i64);
}

#[test]
fn doctor_is_ready_unless_a_check_fails() {
    let p = test_profile();
    let report = doctor::run(None, &p, None, Some(("/state".into(), Ok(()))), Ok(()));
    assert!(report.ready);
    let checks: Vec<(&str, &str)> = report.checks.iter().map(|c| (c.check, c.status)).collect();
    assert_eq!(
        checks,
        vec![
            ("config", "ok"),
            ("profile", "ok"),
            ("production_gate", "ok"),
            ("state_dir", "ok"),
            ("api_auth", "ok"),
        ]
    );
    assert_eq!(report.checks[1].detail, "active profile \"test\" (sandbox)");
    assert_eq!(report.checks[3].detail, "writable (/state)");

    let armed = Profile { sandbox: false, allow_production_mutations: true, ..test_profile() };
    let report = doctor::run(
        Some("/home/u/.config/ncheap/config.toml".into()),
        &armed,
        None,
        Some(("/state".into(), Err("permission denied".into()))),
        Err(Error::Api { code: "1011150".into(), message: "bad ip".into() }),
    );
    assert!(!report.ready);
    let checks: Vec<(&str, &str)> = report.checks.iter().map(|c| (c.check, c.status)).collect();
    assert_eq!(
        checks,
        vec![
            ("config", "ok"),
            ("profile", "ok"),
            ("production_gate", "warn"),
            ("spend_cap", "warn"),
            ("state_dir", "fail"),
            ("api_auth", "fail"),
        ]
    );
    assert_eq!(report.checks[5].detail, "IP whitelist: bad ip");
    assert_eq!(
        report.checks[4].detail,
        "not writable (permission denied); mutations will be refused (/state)"
    );
    let text = doctor::render(&report);
    assert!(text.starts_with("[OK] config: config file present, 0600 enforced (/home/u/.config/ncheap/config.toml)\n"));
    assert!(text.ends_with("doctor: NOT ready (2 failing)\n"));
}

#[test]
fn doctor_treats_rate_limits_as_a_warning() {
    let report = doctor::run(None, &test_profile(), None, None, Err(Error::RateLimited("HTTP 429".into())));
    assert!(report.ready);
    assert_eq!(report.checks[3].status, "warn");
    assert_eq!(report.checks[4].status, "warn");
    assert_eq!(
        report.checks[4].detail,
        "rate limited (HTTP 429); auth unconfirmed, retry later"
    );
    assert!(doctor::render(&report).ends_with("doctor: ready\n"));
}

fn host(name: &str, t: &str, address: &str) -> HostRecord {
    HostRecord {
        id: "1".into(),
        name: name.into(),
        record_type: t.into(),
        address: address.into(),
        mx_pref: "10".into(),
        ttl: "1800".into(),
    }
}

#[test]
fn adding_then_removing_a_record_restores_the_zone() {
    let zone = vec![host("@", "A", "192.0.2.1")];
    let t = dns::new_record_type("cname", None).ok().unwrap();
    assert_eq!(t, "CNAME");
    let added = dns::add_record(zone, "www", &t, "example.com.", Some(300), None)
        .ok()
        .unwrap();
    assert_eq!(added.len(), 2);
    assert_eq!(added[1].ttl, "300");
    let removal = dns::remove_record(added, "WWW", "cname", None).ok().unwrap();
    assert_eq!(removal.matched.len(), 1);
    assert_eq!(removal.remaining.len(), 1);
    assert_eq!(removal.remaining[0].address, "192.0.2.1");
}

#[test]
fn record_edits_refuse_duplicates_misses_and_empty_zones() {
    let zone = vec![host("@", "A", "192.0.2.1")];
    let e = dns::add_record(zone, "@", "A", "192.0.2.1", None, None).err().unwrap();
    assert_eq!(e.message(), "an identical A record for \"@\" already exists");
    let zone = vec![host("@", "A", "192.0.2.1")];
    let e = dns::remove_record(zone, "www", "A", None).err().unwrap();
    assert_eq!(e.message(), "no A record for \"www\" found");
    let zone = vec![host("@", "A", "192.0.2.1")];
    let e = dns::remove_record(zone, "@", "A", Some("192.0.2.1")).err().unwrap();
    assert_eq!(
        e.message(),
        "removal would leave the zone empty; refusing (clear the zone via the dashboard if intended)"
    );
    let e = dns::new_record_type("mx", None).err().unwrap();
    assert_eq!(e.exit_code(), 2);
    assert!(dns::new_record_type("MX", Some(10)).is_ok());
    let e = dns::validate_type("SPF").err().unwrap();
    assert_eq!(e.kind(), "usage");
}

#[test]
fn zone_rewrites_number_every_record_and_keep_email_type() {
    let zone = vec![host("@", "A", "192.0.2.1"), host("mail", "MX", "mx.example.net")];
    let params = dns::zone_params("example", "com", &zone, "MX");
    let get = |k: &str| params.iter().find(|(a, _)| a == k).map(|(_, v)| v.clone());
    assert_eq!(get("SLD").as_deref(), Some("example"));
    assert_eq!(get("TLD").as_deref(), Some("com"));
    assert_eq!(get("HostName1").as_deref(), Some("@"));
    assert_eq!(get("RecordType2").as_deref(), Some("MX"));
    assert_eq!(get("Address2").as_deref(), Some("mx.example.net"));
    assert_eq!(get("EmailType").as_deref(), Some("MX"));
}

#[test]
fn dns_renders_mode_nameservers_and_records() {
    let info = DnsInfo {
        domain: "example.com".into(),
        is_using_our_dns: true,
        nameservers: vec!["dns1.registrar-servers.com".into()],
        host_records: Some(vec![host("@", "A", "192.0.2.1")]),
    };
    let text = dns::render(&info);
    let lines: Vec<&str> = text.lines().collect();
    assert_eq!(lines[0], "domain: example.com");
    assert_eq!(lines[1], "dns: namecheap");
    assert_eq!(lines[2], "nameserver: dns1.registrar-servers.com");
    assert_eq!(lines[3], format!("{:<30} {:<8} {:<8} {:<6} ADDRESS", "NAME", "TYPE", "TTL", "MX"));
    assert_eq!(lines[4], format!("{:<30} {:<8} {:<8} {:<6} {}", "@", "A", "1800", "10", "192.0.2.1"));
    let external = DnsInfo {
        domain: "x.com".into(),
        is_using_our_dns: false,
        nameservers: vec![],
        host_records: None,
    };
    assert_eq!(
        dns::render(&external),
        "domain: x.com\ndns: external\n(host records not managed by Namecheap)\n"
    );
}

#[test]
fn dns_result_lines_strip_control_characters() {
    let set = SetResult {
        domain: "ex\u{1b}[31mample.com".into(),
        updated: true,
        nameservers: vec!["ns1.example.net".into(), "ns2.example.net".into()],
        previous_nameservers: vec![],
    };
    assert_eq!(
        dns::render_set(&set),
        "ex[31mample.com: nameservers updated (ns1.example.net, ns2.example.net)\n"
    );
    let edit = EditResult {
        domain: "example.com".into(),
        is_success: false,
        action: "added A www".into(),
        records_before: 3,
        records_after: 4,
    };
    assert_eq!(
        dns::render_edit(&edit),
        "example.com: added A www (NOT successful; records 3 -> 4)\n"
    );
}

#[test]
fn transfers_need_an_epp_code_and_a_registrable_domain() {
    let client = test_client(FakeTransport::new(vec![]));
    let e = transfer::prepare_create(&client, "example.com", "   ").err().unwrap();
    assert_eq!(
        e.message(),
        "an EPP/auth code from the current registrar is required (--epp-code)"
    );
    let (d, tld) = transfer::prepare_create(&client, "Example.CO.UK", "abc123").ok().unwrap();
    assert_eq!((d.as_str(), tld.as_str()), ("example.co.uk", "co.uk"));
    let e = transfer::prepare_create(&client, "www.example.com", "abc").err().unwrap();
    assert_eq!(e.exit_code(), 2);

    let prod = Client::new(FakeTransport::new(vec![]), Profile { sandbox: false, ..test_profile() });
    let e = transfer::prepare_create(&prod, "example.com", "abc").err().unwrap();
    assert!(matches!(e, Error::Policy(_)));
}

#[test]
fn transfer_results_fall_back_to_the_requested_domain() {
    let resp = CreateResponse {
        domain: String::new(),
        transfer: true,
        transfer_id: "15".into(),
        order_id: "100".into(),
        transaction_id: "200".into(),
        charged_amount: "9.48".into(),
        status_id: "1".into(),
    };
    let r = transfer::create_result("example.com".into(), resp, "9.48".into(), false);
    assert_eq!(r.domain, "example.com");
    assert!(r.accepted);
    assert_eq!(
        transfer::render_create(&r),
        "example.com: transfer accepted (id 15, status_id 1) \u{2014} listed 9.48, charged 9.48 (order 100, transaction 200)\n"
    );
    let s = transfer::status(StatusResponse {
        transfer_id: "15".into(),
        status: "Pending".into(),
        status_id: "7".into(),
    });
    assert_eq!(transfer::render_status(&s), "transfer 15: Pending (status_id 7)\n");
}

#[test]
fn privacy_ids_resolve_from_the_domain() {
    let subs = vec![PrivacySubscription {
        id: "42".into(),
        domain_name: "Example.com".into(),
        created: String::new(),
        expires: String::new(),
        status: "enabled".into(),
    }];
    assert_eq!(privacy::resolve_id(&subs, "example.com").ok().unwrap(), "42");
    let e = privacy::resolve_id(&subs, "other.com").err().unwrap();
    assert_eq!(
        e.message(),
        "no domain privacy subscription is associated with other.com"
    );
}

#[test]
fn pricing_cache_names_are_keyed_and_sanitized() {
    let q = PricingQuery {
        product_type: "DOMAIN".into(),
        category: Some("REGISTER".into()),
        action: None,
        product: Some("../COM".into()),
    };
    assert_eq!(
        q.cache_file_name(&test_profile()),
        "pricing-test-true-domain-register--com.json"
    );
}

#[test]
fn purchases_price_against_the_matching_row() {
    let price = |d: &str, p: &str| Price {
        duration: d.into(),
        duration_type: "YEAR".into(),
        price: p.into(),
        regular_price: p.into(),
        your_price: p.into(),
        coupon_price: String::new(),
        currency: "USD".into(),
    };
    let resp = GetPricingResponse {
        types: vec![ProductType {
            name: "DOMAIN".into(),
            categories: vec![ProductCategory {
                name: "register".into(),
                products: vec![Product { name: "com".into(), prices: vec![price("1", "9.58"), price("2", "19.16")] }],
            }],
        }],
    };
    let rows = account::pricing(&resp);
    assert_eq!(rows.len(), 2);
    assert_eq!(rows[1].product_type, "DOMAIN");
    assert_eq!(rows[1].duration, "2");
    let i = account::live_price_row(&rows, "COM", "REGISTER", 2).ok().unwrap();
    assert_eq!(rows[i].price, "19.16");
    let e = account::live_price_row(&rows, "net", "REGISTER", 1).err().unwrap();
    assert_eq!(
        e.message(),
        "no REGISTER pricing found for .net at 1 year(s); cannot price-guard the purchase"
    );
}

#[test]
fn contact_consistency_compares_all_four_sets() {
    assert!(domains::contacts_identical(&contacts("a.example", "Jane")));
    assert!(!domains::contacts_identical(&contacts("a.example", "Jim")));
}

#[test]
fn registration_refuses_taken_premium_and_eap_domains() {
    let result = |available: bool, premium: bool| CheckResult {
        domain: "x.com".into(),
        available,
        is_premium: premium,
        premium_registration_price: "0".into(),
        premium_renewal_price: "0".into(),
        premium_restore_price: "0".into(),
        premium_transfer_price: "0".into(),
        icann_fee: "0".into(),
        eap_fee: "25.00".into(),
        error_no: "0".into(),
        description: String::new(),
    };
    let e = domains::registration_guard("x.com", Some(&result(false, false)), false).err().unwrap();
    assert_eq!(e.message(), "x.com is not available for registration");
    let e = domains::registration_guard("x.com", Some(&result(true, true)), false).err().unwrap();
    assert_eq!(e.message(), "x.com is a premium domain; ncheap does not register premium domains");
    let e = domains::registration_guard("x.com", Some(&result(true, false)), true).err().unwrap();
    assert_eq!(
        e.message(),
        "x.com carries an Early Access Phase fee (25.00); ncheap does not register EAP domains"
    );
    assert!(domains::registration_guard("x.com", Some(&result(true, false)), false).is_ok());
    let e = domains::registration_guard("x.com", None, false).err().unwrap();
    assert_eq!(e.kind(), "parse");
}

#[test]
fn registration_copies_every_contact_role() {
    let params = domains::registration_params("x.com", 2, &contacts("src.example", "Jane"));
    let get = |k: &str| params.iter().find(|(a, _)| a == k).map(|(_, v)| v.clone());
    assert_eq!(get("DomainName").as_deref(), Some("x.com"));
    assert_eq!(get("Years").as_deref(), Some("2"));
    assert_eq!(get("RegistrantFirstName").as_deref(), Some("Jane"));
    assert_eq!(get("AuxBillingEmailAddress").as_deref(), Some("j@example.com"));
}

#[test]
fn domain_tables_pad_every_column() {
    let ds = vec![domain("a.example", "2030-01-01", true)];
    let text = domains::render_table(&ds);
    assert_eq!(
        text,
        format!(
            "{:<40} {:<12} {:<6} {:<6} {:<12} {:<7}\n{:<40} {:<12} {:<6} {:<6} {:<12} {:<7}\n",
            "NAME", "EXPIRES", "HOLD", "RENEW", "PRIVACY", "OURDNS",
            "a.example", "2030-01-01", "no", "yes", "ENABLED", "yes"
        )
    );
}

#[test]
fn check_tables_show_premium_prices_only() {
    let inner = r#"<DomainCheckResult Domain="fancy.example" Available="true" IsPremiumName="true" PremiumRegistrationPrice="13000.0000"/><DomainCheckResult Domain="plain.example" Available="false" IsPremiumName="false" PremiumRegistrationPrice="0"/>"#;
    let results = check_results(inner);
    let text = domains::render_check(&results);
    let lines: Vec<&str> = text.lines().collect();
    assert_eq!(lines[0], format!("{:<40} {:<10} {:<8} PRICE", "DOMAIN", "AVAILABLE", "PREMIUM"));
    assert_eq!(lines[1], format!("{:<40} {:<10} {:<8} {}", "fancy.example", "yes", "yes", "13000.0000"));
    assert_eq!(lines[2], format!("{:<40} {:<10} {:<8} {}", "plain.example", "no", "no", "-"));
}

#[test]
fn contact_views_redact_unless_full() {
    let c = contacts("a.example", "Jim");
    let short = domains::render_contacts(&c, false);
    assert_eq!(
        short,
        "domain: a.example\nall_contact_sets_identical: false\nregistrant: country US read_only false\ntech: country US read_only false\nadmin: country US read_only false\naux_billing: country US read_only false\n(contact details redacted; pass --full to show them)\n"
    );
    let full = domains::render_contacts(&c, true);
    assert!(full.contains("[tech]\n  name: Jim Doe\n  address: 1 Main St \n  locality: Town ST 12345 US\n  phone: +1.5555555555 email: j@example.com\n  read_only: false\n"));
    assert!(!full.contains("organization"));
}

#[test]
fn lock_and_purchase_lines() {
    let s = LockStatus { domain: "a.example".into(), locked: false };
    assert_eq!(domains::render_lock(&s), "a.example: registrar lock off\n");
    let r = domains::set_lock_result(
        "a.example".into(),
        true,
        domains::SetLockResponse { domain: String::new(), is_success: true },
        false,
    );
    assert_eq!(r.domain, "a.example");
    assert_eq!(
        domains::render_set_lock(&r),
        "a.example: registrar lock on (success; was off)\n"
    );
    let reg = domains::RegisterResult {
        domain: "x.com".into(),
        registered: true,
        years: 2,
        listed_price: "19.16".into(),
        charged_amount: "19.36".into(),
        charged_exceeded_max_price: false,
        domain_id: "9".into(),
        order_id: "100".into(),
        transaction_id: "200".into(),
    };
    assert_eq!(
        domains::render_register(&reg),
        "x.com: registered for 2 year(s) \u{2014} listed 19.16, charged 19.36 (order 100, transaction 200)\n"
    );
}

#[test]
fn balances_render_hides_amounts_unless_full() {
    let b = balances();
    assert_eq!(
        account::render(&b, false, Some(false)),
        "currency: USD\nfunds_required_for_auto_renew: 20.00\navailable_covers_auto_renew: no\n(amounts redacted; pass --full to show them)\n"
    );
    let full = account::render(&b, true, None);
    assert!(full.contains("available_covers_auto_renew: unknown\navailable_balance: 1.00\n"));
}

#[test]
fn privacy_lines_mark_unattached_subscriptions() {
    let subs = vec![PrivacySubscription {
        id: "1".into(),
        domain_name: String::new(),
        created: "2020-01-01".into(),
        expires: "2030-01-01".into(),
        status: "enabled".into(),
    }];
    let text = privacy::render_table(&subs);
    assert_eq!(
        text.lines().nth(1).unwrap(),
        format!("{:<12} {:<40} {:<12} {:<12} {}", "1", "-", "2020-01-01", "2030-01-01", "enabled")
    );
    let t = privacy::enable(
        privacy::EnableResponse { domain_name: "a.example".into(), is_success: true },
        "1".into(),
    );
    assert_eq!(privacy::render_toggle(&t), "a.example: privacy enabled (success)\n");
}

#[test]
fn an_unexpected_profile_is_refused() {
    let p = test_profile();
    assert!(expect_profile(None, &p).is_ok());
    assert!(expect_profile(Some("test"), &p).is_ok());
    let e = expect_profile(Some("production"), &p).err().unwrap();
    assert_eq!(
        e.message(),
        "resolved profile \"test\" is not the expected \"production\"; refusing before any API call"
    );
    assert_eq!(e.exit_code(), 3);
    assert!(matches!(confirm_mutation(true, false), Ok(Confirmation::Proceed)));
    assert!(matches!(confirm_mutation(false, true), Ok(Confirmation::Ask)));
    let e = confirm_mutation(false, false).err().unwrap();
    assert!(e.message().contains("--yes"));
    assert_eq!(e.kind(), "usage");
    assert!(accept_answer(" YES\n").is_ok());
    assert!(accept_answer("y").is_ok());
    assert!(accept_answer("no").is_err());
    assert!(accept_answer("").is_err());
}


fn sub(id: &str, domain: &str) -> PrivacySubscription {
    PrivacySubscription {
        id: id.into(),
        domain_name: domain.into(),
        created: String::new(),
        expires: String::new(),
        status: "enabled".into(),
    }
}

#[test]
fn privacy_search_stops_at_the_page_with_the_domain() {
    let mut pager = ncheap::commands::paging::Pager::new();
    let page1 = privacy::GetListResponse { subscriptions: vec![sub("1", "a.com")], total_items: 3 };
    assert_eq!(privacy::resolve_step(&mut pager, page1, "b.com").ok(), Some(None));
    let page2 = privacy::GetListResponse { subscriptions: vec![sub("2", "B.COM")], total_items: 3 };
    assert_eq!(
        privacy::resolve_step(&mut pager, page2, "b.com").ok(),
        Some(Some("2".to_owned()))
    );
    let mut pager = ncheap::commands::paging::Pager::new();
    let all = privacy::GetListResponse { subscriptions: vec![sub("1", "a.com")], total_items: 1 };
    let e = privacy::resolve_step(&mut pager, all, "b.com").err().unwrap();
    assert_eq!(e.message(), "no domain privacy subscription is associated with b.com");
}

#[test]
fn the_redacted_contacts_view_keeps_only_the_audit_signals() {
    let mut c = contacts("example.com", "John");
    c.admin.read_only = true;
    c.admin.country = "DE".into();
    let v = domains::contacts_redacted_view(&c);
    assert_eq!(v.domain, "example.com");
    assert!(!v.all_contact_sets_identical);
    assert_eq!(v.registrant.country, "US");
    assert_eq!(v.registrant.state_province, "ST");
    assert!(!v.registrant.read_only);
    assert_eq!(v.admin.country, "DE");
    assert!(v.admin.read_only);
    let same = domains::contacts_redacted_view(&contacts("example.com", "Jane"));
    assert!(same.all_contact_sets_identical);
}

#[test]
fn the_redacted_balances_view_hides_the_amounts() {
    let v = account::redacted_view(&balances(), Some(false));
    assert_eq!(v.currency, "USD");
    assert_eq!(v.funds_required_for_auto_renew, "20.00");
    assert_eq!(v.available_covers_auto_renew, Some(false));
    assert_eq!(account::redacted_view(&balances(), None).available_covers_auto_renew, None);
}

#[test]
fn cache_names_keep_profiles_apart() {
    let q = PricingQuery {
        product_type: "DOMAIN".into(),
        category: None,
        action: Some("REGISTER".into()),
        product: Some("com".into()),
    };
    let mut prod = test_profile();
    prod.sandbox = false;
    let mut other = test_profile();
    other.name = "test2".into();
    let sandbox_name = q.cache_file_name(&test_profile());
    assert_eq!(sandbox_name, "pricing-test-true-domain--register-com.json");
    assert_ne!(sandbox_name, q.cache_file_name(&prod));
    assert_ne!(sandbox_name, q.cache_file_name(&other));
    // Case, spaces and punctuation in a name are kept apart too.
    let named = |name: &str| {
        let mut p = test_profile();
        p.name = name.into();
        q.cache_file_name(&p)
    };
    assert_eq!(named("TE ST"), "pricing-x84xx69xx32xx83xx84x-true-domain--register-com.json");
    assert_ne!(named("Prod"), named("prod"));
    assert_ne!(named("a"), named("a_"));
    assert_ne!(named("a-b"), named("ab"));
    assert_eq!(named("box"), "pricing-box120x-true-domain--register-com.json");
    for name in ["TE ST", "a_", "a-b", "box", "Prod", "é"] {
        let f = named(name);
        let stem = f.strip_suffix(".json").unwrap();
        assert!(stem.chars().all(|c| c.is_ascii_lowercase() || c.is_ascii_digit() || c == '-'));
    }
}

#[test]
fn dns_edits_check_the_gate_before_the_record_type() {
    let mut prod = test_profile();
    prod.sandbox = false;
    let gated = test_client_with(FakeTransport::new(vec![]), prod);
    let e = dns::prepare_add(&gated, "bogus", None).err().unwrap();
    assert_eq!(e.kind(), "config");
    assert!(e.message().starts_with("mutations against production are disabled"));
    let e = dns::prepare_remove(&gated, "bogus").err().unwrap();
    assert_eq!(e.kind(), "config");
    assert!(dns::prepare_zone_mutation(&gated, "example.com").is_err());
    assert!(domains::prepare_domain_mutation(&gated, "example.com").is_err());

    let open = test_client(FakeTransport::new(vec![]));
    assert_eq!(dns::prepare_add(&open, "mx", Some(10)).ok().unwrap(), "MX");
    assert_eq!(dns::prepare_add(&open, "mx", None).err().unwrap().kind(), "usage");
    assert_eq!(dns::prepare_add(&open, "bogus", None).err().unwrap().kind(), "usage");
    assert_eq!(dns::prepare_remove(&open, "txt").ok().unwrap(), "TXT");
    let (sld, tld) = dns::prepare_zone_mutation(&open, "Example.CO.UK").ok().unwrap();
    assert_eq!((sld.as_str(), tld.as_str()), ("example", "co.uk"));
    assert_eq!(
        domains::prepare_domain_mutation(&open, "Example.COM.").ok().unwrap(),
        "example.com"
    );
    assert!(open.transport().requests.borrow().is_empty());
    assert!(gated.transport().requests.borrow().is_empty());
}

#[test]
fn listing_pages_carry_page_size_and_order() {
    let mut client = test_client(FakeTransport::new(vec!["a".into(), "b".into()]));
    let pager = Pager::<Domain>::new();
    assert_eq!(domains::list_page(&mut client, &pager).ok().unwrap(), "a");
    let privacy_pager = Pager::<PrivacySubscription>::new();
    assert_eq!(privacy::list_page(&mut client, &privacy_pager).ok().unwrap(), "b");
    let requests = client.transport().requests.borrow();
    assert_eq!(param(&requests[0], "Command"), Some("namecheap.domains.getList"));
    assert_eq!(param(&requests[0], "Page"), Some("1"));
    assert_eq!(param(&requests[0], "PageSize"), Some("100"));
    assert_eq!(param(&requests[0], "SortBy"), Some("NAME"));
    assert_eq!(param(&requests[1], "Command"), Some("namecheap.whoisguard.getList"));
    assert_eq!(param(&requests[1], "PageSize"), Some("100"));
    assert_eq!(param(&requests[1], "SortBy"), None);
}

#[test]
fn the_transfer_status_is_read_by_transfer_id() {
    let mut client = test_client(FakeTransport::new(vec!["<status/>".into()]));
    let body = transfer::status_request(&mut client, "123456").ok().unwrap();
    assert_eq!(body, "<status/>");
    let requests = client.transport().requests.borrow();
    assert_eq!(requests.len(), 1);
    assert_eq!(param(&requests[0], "Command"), Some("namecheap.domains.transfer.getStatus"));
    assert_eq!(param(&requests[0], "TransferID"), Some("123456"));
    assert_eq!(client.calls(), 1);
}

#[test]
fn nameserver_and_transfer_forms() {
    let ns = vec!["ns1.example.net".to_string(), "ns2.example.net".to_string()];
    let custom = dns::set_custom_params("example", "co.uk", &ns);
    assert_eq!(
        custom,
        vec![
            ("SLD".to_string(), "example".to_string()),
            ("TLD".to_string(), "co.uk".to_string()),
            ("NameServers".to_string(), "ns1.example.net,ns2.example.net".to_string()),
        ]
    );
    assert_eq!(
        dns::set_default_params("example", "com"),
        vec![("SLD".to_string(), "example".to_string()), ("TLD".to_string(), "com".to_string())]
    );
    assert_eq!(
        transfer::create_params("example.com", "abc123"),
        vec![
            ("DomainName".to_string(), "example.com".to_string()),
            ("Years".to_string(), "1".to_string()),
            ("EPPCode".to_string(), "abc123".to_string()),
        ]
    );
}

#[test]
fn cached_prices_are_served_for_a_day() {
    assert!(account::cache_fresh(0));
    assert!(account::cache_fresh(86_400_000));
    assert!(!account::cache_fresh(86_400_001));
}

use std::cell::RefCell;

use ncheap::api::xml::{interpret, to_iso_date, ApiError, ApiErrors, ApiResponse};
use ncheap::api::{Client, Error, Transport, TransportFailure};
use ncheap::commands::domains::{self, Domain, GetListResponse};
use ncheap::commands::paging::Pager;
use ncheap::config::{parse_bool, Profile, Secret};
use quick_xml::events::{BytesStart, Event};
use quick_xml::Reader;

struct FakeTransport {
    responses: RefCell<Vec<Result<String, TransportFailure>>>,
    requests: RefCell<Vec<Vec<(String, String)>>>,
}

impl FakeTransport {
    fn new(responses: Vec<String>) -> Self {
        Self {
            responses: RefCell::new(responses.into_iter().map(Ok).collect()),
            requests: RefCell::new(Vec::new()),
        }
    }
}

impl Transport for FakeTransport {
    fn send(&self, _endpoint: &str, params: &[(String, String)]) -> Result<String, TransportFailure> {
        self.requests.borrow_mut().push(params.to_vec());
        let mut responses = self.responses.borrow_mut();
        if responses.is_empty() {
            return Err(TransportFailure::Other("no more fixture responses".into()));
        }
        responses.remove(0)
    }

    fn pause(&self, _millis: u64) {}
}

fn test_profile() -> Profile {
    Profile {
        name: "test".into(),
        api_user: "testuser".into(),
        api_key: Secret::new("testkey".into()),
        username: "testuser".into(),
        client_ip: "192.0.2.1".into(),
        sandbox: true,
        allow_production_mutations: false,
    }
}

fn test_client(transport: FakeTransport) -> Client<FakeTransport> {
    let mut client = Client::new(transport, test_profile());
    client.set_timing(0, 0);
    client
}

fn page_xml(names: &[String], total: usize, page: usize) -> String {
    let domains: String = names
        .iter()
        .enumerate()
        .map(|(i, n)| {
            format!(
                r#"<Domain ID="{}" Name="{n}" User="testuser" Created="02/15/2020" Expires="02/15/2027" IsExpired="false" IsLocked="False" AutoRenew="true" WhoisGuard="ENABLED" IsPremium="false" IsOurDNS="false"/>"#,
                1000 + i
            )
        })
        .collect();
    format!(
        r#"<?xml version="1.0" encoding="UTF-8"?>
<ApiResponse xmlns="http://api.namecheap.com/xml.response" Status="OK">
  <Errors />
  <RequestedCommand>namecheap.domains.getList</RequestedCommand>
  <CommandResponse Type="namecheap.domains.getList">
    <DomainGetListResult>{domains}</DomainGetListResult>
    <Paging>
      <TotalItems>{total}</TotalItems>
      <CurrentPage>{page}</CurrentPage>
      <PageSize>20</PageSize>
    </Paging>
  </CommandResponse>
  <Server>TEST</Server>
  <GMTTimeDifference>+0</GMTTimeDifference>
  <ExecutionTime>0.01</ExecutionTime>
</ApiResponse>"#
    )
}

fn error_xml(number: &str, message: &str) -> String {
    format!(
        r#"<?xml version="1.0" encoding="UTF-8"?>
<ApiResponse xmlns="http://api.namecheap.com/xml.response" Status="ERROR">
  <Errors>
    <Error Number="{number}">{message}</Error>
  </Errors>
  <RequestedCommand>namecheap.domains.getList</RequestedCommand>
  <Server>TEST</Server>
</ApiResponse>"#
    )
}

fn param<'a>(request: &'a [(String, String)], key: &str) -> Option<&'a str> {
    request
        .iter()
        .find(|(k, _)| k == key)
        .map(|(_, v)| v.as_str())
}

/// Attributes and text of every element named `tag`.
fn elements(xml: &str, tag: &str) -> Vec<(Vec<(String, String)>, String)> {
    fn attrs(e: &BytesStart) -> Vec<(String, String)> {
        e.attributes()
            .map(|a| {
                let a = a.unwrap();
                (
                    String::from_utf8(a.key.as_ref().to_vec()).unwrap(),
                    a.unescape_value().unwrap().into_owned(),
                )
            })
            .collect()
    }
    let mut reader = Reader::from_str(xml);
    let mut out = Vec::new();
    let mut open: Option<(Vec<(String, String)>, String)> = None;
    loop {
        match reader.read_event().unwrap() {
            Event::Start(e) if e.name().as_ref() == tag.as_bytes() => open = Some((attrs(&e), String::new())),
            Event::Empty(e) if e.name().as_ref() == tag.as_bytes() => out.push((attrs(&e), String::new())),
            Event::Text(t) => {
                if let Some((_, text)) = open.as_mut() {
                    text.push_str(&t.unescape().unwrap());
                }
            }
            Event::End(e) if e.name().as_ref() == tag.as_bytes() => {
                if let Some(x) = open.take() {
                    out.push(x);
                }
            }
            Event::Eof => break,
            _ => {}
        }
    }
    out
}

fn attr(attrs: &[(String, String)], key: &str) -> String {
    attrs
        .iter()
        .find(|(k, _)| k == key)
        .map(|(_, v)| v.clone())
        .unwrap_or_default()
}

fn flag(attrs: &[(String, String)], key: &str) -> bool {
    parse_bool(&attr(attrs, key)).unwrap()
}

/// The envelope of a body, with `payload` as its command response.
fn envelope<T>(xml: &str, payload: Option<T>) -> ApiResponse<T> {
    let root = &elements(xml, "ApiResponse")[0].0;
    ApiResponse {
        status: attr(root, "Status"),
        errors: ApiErrors {
            errors: elements(xml, "Error")
                .into_iter()
                .map(|(a, text)| ApiError { number: attr(&a, "Number"), message: text })
                .collect(),
        },
        command_response: payload,
    }
}

fn domain_page(xml: &str) -> Result<GetListResponse, Error> {
    let payload = if elements(xml, "CommandResponse").is_empty() {
        None
    } else {
        Some(GetListResponse {
            domains: elements(xml, "Domain")
                .into_iter()
                .map(|(a, _)| Domain {
                    id: attr(&a, "ID"),
                    name: attr(&a, "Name"),
                    user: attr(&a, "User"),
                    created: to_iso_date(&attr(&a, "Created")),
                    expires: to_iso_date(&attr(&a, "Expires")),
                    is_expired: flag(&a, "IsExpired"),
                    registry_hold: flag(&a, "IsLocked"),
                    auto_renew: flag(&a, "AutoRenew"),
                    privacy: attr(&a, "WhoisGuard"),
                    is_premium: flag(&a, "IsPremium"),
                    is_our_dns: flag(&a, "IsOurDNS"),
                })
                .collect(),
            total_items: elements(xml, "TotalItems")[0].1.trim().parse().unwrap(),
        })
    };
    interpret(envelope(xml, payload))
}

/// Every domain of the account, page by page.
fn list(client: &mut Client<FakeTransport>) -> Result<Vec<Domain>, Error> {
    let mut pager = Pager::new();
    loop {
        let body = domains::list_page(client, &pager)?;
        let resp = domain_page(&body)?;
        if domains::list(&mut pager, resp)? {
            return Ok(pager.into_items());
        }
    }
}

/// The core fixture: 24 domains across two pages, exercising the >20-item
/// boundary where the API's default PageSize silently drops domains.
#[test]
fn paginates_beyond_default_page_size() {
    let names: Vec<String> = (0..24).map(|i| format!("domain{i:02}.example")).collect();
    let transport = FakeTransport::new(vec![
        page_xml(&names[..20], 24, 1),
        page_xml(&names[20..], 24, 2),
    ]);
    let mut client = test_client(transport);

    let domains = list(&mut client).ok().expect("list should succeed");

    assert_eq!(domains.len(), 24, "all 24 domains must survive pagination");
    assert_eq!(domains[0].name, "domain00.example");
    assert_eq!(domains[23].name, "domain23.example");
    assert!(!domains[5].registry_hold, "IsLocked=\"False\" must parse");
    assert_eq!(client.calls(), 2);
}

#[test]
fn requests_carry_auth_pagination_and_prefixed_command() {
    let names: Vec<String> = (0..24).map(|i| format!("domain{i:02}.example")).collect();
    let transport = FakeTransport::new(vec![
        page_xml(&names[..20], 24, 1),
        page_xml(&names[20..], 24, 2),
    ]);
    let mut client = test_client(transport);
    list(&mut client).ok().expect("list should succeed");

    let requests = client.transport().requests.borrow();
    assert_eq!(requests.len(), 2);
    let first = &requests[0];
    assert_eq!(param(first, "Command"), Some("namecheap.domains.getList"));
    assert_eq!(param(first, "ApiUser"), Some("testuser"));
    assert_eq!(param(first, "ApiKey"), Some("testkey"));
    assert_eq!(param(first, "UserName"), Some("testuser"));
    assert_eq!(param(first, "ClientIp"), Some("192.0.2.1"));
    assert_eq!(param(first, "Page"), Some("1"));
    assert_eq!(param(first, "PageSize"), Some("100"));
    assert_eq!(param(&requests[1], "Page"), Some("2"));
}

#[test]
fn ip_rejection_error_is_explained() {
    let transport =
        FakeTransport::new(vec![error_xml("1011150", "Parameter RequestIP is invalid")]);
    let mut client = test_client(transport);

    let err = list(&mut client).err().expect("should fail");
    assert_eq!(err.exit_code(), 1);
    assert_eq!(err.code(), Some("1011150"));
    let msg = err.message();
    assert!(
        msg.contains("whitelist"),
        "must explain the IP rejection: {msg}"
    );
}

#[test]
fn stalled_pagination_is_an_error_not_a_hang() {
    let names: Vec<String> = (0..20).map(|i| format!("domain{i:02}.example")).collect();
    let transport = FakeTransport::new(vec![
        page_xml(&names, 24, 1),
        page_xml(&[], 24, 2), // server claims 24 but returns an empty page
    ]);
    let mut client = test_client(transport);

    let err = list(&mut client).err().expect("should fail");
    assert_eq!(err.exit_code(), 1);
    assert!(err.message().contains("pagination stalled"));
}

#[test]
fn dates_in_listings_arrive_as_iso() {
    let names = vec!["a.example".to_owned()];
    let mut client = test_client(FakeTransport::new(vec![page_xml(&names, 1, 1)]));
    let domains = list(&mut client).ok().unwrap();
    assert_eq!(domains[0].created, "2020-02-15");
    assert_eq!(domains[0].expires, "2027-02-15");
}

#[test]
fn the_pager_stops_at_the_total_and_counts_pages() {
    let mut pager: Pager<u8> = Pager::new();
    assert_eq!(pager.page(), 1);
    assert_eq!(pager.absorb(vec![1, 2], 5).ok(), Some(false));
    assert_eq!(pager.page_param(), "2");
    assert_eq!(pager.absorb(vec![3, 4, 5], 5).ok(), Some(true));
    assert_eq!(pager.into_items(), vec![1, 2, 3, 4, 5]);
}

#[test]
fn the_pager_gives_up_after_the_last_page() {
    let mut pager: Pager<u8> = Pager::new();
    for _ in 1..100 {
        assert_eq!(pager.absorb(vec![0], 1_000_000).ok(), Some(false));
    }
    assert_eq!(pager.page(), 100);
    let e = pager.absorb(vec![0], 1_000_000).err().unwrap();
    assert_eq!(
        e.message(),
        "unexpected API response: pagination overflow: 100 pages fetched without completing the listing"
    );
}

#[test]
fn the_stall_message_names_the_total_and_the_page() {
    let mut pager: Pager<u8> = Pager::new();
    let e = pager.absorb(vec![], 24).err().unwrap();
    assert_eq!(
        e.message(),
        "unexpected API response: pagination stalled: server reports 24 total items but page 1 added none"
    );
}

#[test]
fn envelope_errors_are_classified() {
    let e = interpret::<()>(envelope(&error_xml("500000", "Too many requests"), None))
        .err()
        .unwrap();
    assert!(matches!(e, Error::RateLimited(ref m) if m == "API error 500000: Too many requests"));
    assert_eq!(e.exit_code(), 5);
    let e = interpret::<()>(envelope(&error_xml("2019166", "  Domain not found "), None))
        .err()
        .unwrap();
    assert!(matches!(e, Error::Api { ref code, ref message } if code == "2019166" && message == "Domain not found"));
    let e = interpret::<()>(ApiResponse {
        status: "ERROR".into(),
        errors: ApiErrors { errors: vec![] },
        command_response: None,
    })
    .err()
    .unwrap();
    assert_eq!(e.message(), "Namecheap API error unknown: no error detail in response");
    let e = interpret::<()>(ApiResponse {
        status: "ok".into(),
        errors: ApiErrors { errors: vec![] },
        command_response: None,
    })
    .err()
    .unwrap();
    assert_eq!(
        e.message(),
        "unexpected API response: Status=OK but no CommandResponse element"
    );
    assert_eq!(e.kind(), "parse");
}

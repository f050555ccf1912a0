use ncheap::api::Error;
use ncheap::config::{Profile, Secret};
use ncheap::output::{failure_envelope, success_envelope, Envelope, SCHEMA};

fn profile() -> Profile {
    Profile {
        name: "test".into(),
        api_user: "u".into(),
        api_key: Secret::new("k".into()),
        username: "u".into(),
        client_ip: "192.0.2.1".into(),
        sandbox: true,
        allow_production_mutations: false,
    }
}

#[test]
fn success_envelope_schema() {
    let v = success_envelope("domains.list", vec!["a", "b"], &profile(), 2);
    assert_eq!(v.schema, SCHEMA);
    assert!(v.ok);
    assert_eq!(v.command, "domains.list");
    assert_eq!(v.data.as_ref().unwrap().len(), 2);
    assert!(v.error.is_none());
    let meta = v.meta.as_ref().unwrap();
    assert_eq!(meta.profile, "test");
    assert!(meta.sandbox);
    assert_eq!(meta.api_calls, 2);
}

#[test]
fn failure_envelope_schema() {
    let err = Error::Api {
        code: "1011150".into(),
        message: "denied".into(),
    };
    let v: Envelope<()> = failure_envelope("domains.list", &err, None, 0);
    assert!(!v.ok);
    assert!(v.data.is_none());
    assert!(v.meta.is_none());
    let e = v.error.as_ref().unwrap();
    assert_eq!(e.kind, "api");
    assert_eq!(e.code.as_deref(), Some("1011150"));
    assert!(e.message.contains("1011150"));
}

#[test]
fn failure_envelope_code_is_null_for_non_api_errors() {
    let v: Envelope<()> = failure_envelope("raw", &Error::Usage("bad".into()), None, 0);
    let e = v.error.as_ref().unwrap();
    assert_eq!(e.kind, "usage");
    assert!(e.code.is_none());
}

#[test]
fn a_failure_after_the_profile_resolved_carries_its_meta() {
    let v: Envelope<()> =
        failure_envelope("dns.add", &Error::Policy("refused".into()), Some(&profile()), 1);
    assert_eq!(v.error.as_ref().unwrap().message, "refused");
    assert_eq!(v.error.as_ref().unwrap().kind, "config");
    let meta = v.meta.as_ref().unwrap();
    assert_eq!((meta.profile.as_str(), meta.sandbox, meta.api_calls), ("test", true, 1));
}

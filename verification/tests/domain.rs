use ncheap::domain::{normalize, split_sld_tld};

#[test]
fn simple_com_splits() {
    assert_eq!(
        split_sld_tld("example.com").ok().unwrap(),
        ("example".into(), "com".into())
    );
}

#[test]
fn multi_label_suffix_stays_whole() {
    assert_eq!(
        split_sld_tld("example.co.uk").ok().unwrap(),
        ("example".into(), "co.uk".into())
    );
}

#[test]
fn idn_input_is_punycoded() {
    assert_eq!(
        split_sld_tld("münchen.de").ok().unwrap(),
        ("xn--mnchen-3ya".into(), "de".into())
    );
}

#[test]
fn uppercase_and_trailing_dot_normalize() {
    assert_eq!(
        split_sld_tld("Example.COM.").ok().unwrap(),
        ("example".into(), "com".into())
    );
}

#[test]
fn subdomain_is_rejected_with_suggestion() {
    let err = split_sld_tld("www.example.co.uk").err().unwrap();
    assert_eq!(err.exit_code(), 2);
    assert!(err.message().contains("example.co.uk"));
}

#[test]
fn bare_suffix_is_rejected() {
    assert!(split_sld_tld("co.uk").is_err());
    assert!(split_sld_tld("localhost").is_err());
}

#[test]
fn subdomain_message_names_the_registrable_domain() {
    let err = split_sld_tld("www.example.com").err().unwrap();
    assert_eq!(
        err.message(),
        "\"www.example.com\" is not a registrable domain (did you mean example.com?)"
    );
}

#[test]
fn unregistrable_names_are_usage_errors() {
    let err = split_sld_tld("co.uk").err().unwrap();
    assert_eq!(err.kind(), "usage");
    assert_eq!(
        err.message(),
        "cannot determine a registrable domain in \"co.uk\""
    );
}

#[test]
fn normalize_joins_the_split_back_up() {
    assert_eq!(normalize("  Example.CO.UK.  ").ok().unwrap(), "example.co.uk");
    assert_eq!(normalize("münchen.de").ok().unwrap(), "xn--mnchen-3ya.de");
    assert!(normalize("www.example.com").is_err());
}

#[test]
fn normalizing_a_normal_form_is_stable() {
    for d in ["example.com", "Example.COM.", "münchen.de", "example.co.uk"] {
        let once = normalize(d).ok().unwrap();
        assert_eq!(normalize(&once).ok().unwrap(), once);
    }
}

#[test]
fn quoted_names_read_as_debug_output() {
    for s in [
        "plain",
        "a\"b\\c",
        "tab\there",
        "line\nbreak\r",
        "nul\0",
        "\x1b[0m",
        "\x01\x1f\x7f",
        "café",
        "",
    ] {
        assert_eq!(ncheap::text::debug_quoted(s), format!("{s:?}"));
    }
}

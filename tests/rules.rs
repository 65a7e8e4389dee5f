use race_dns_proxy::rules::{is_domain_match, matches_domain, DomainRules};

fn rules(includes: &[&str], excludes: &[&str]) -> DomainRules {
    DomainRules {
        includes: includes.iter().map(|s| s.to_string()).collect(),
        excludes: excludes.iter().map(|s| s.to_string()).collect(),
    }
}

#[test]
fn domain_match_equal_names() {
    assert!(is_domain_match("example.com", "example.com"));
}

#[test]
fn domain_match_subdomain() {
    assert!(is_domain_match("a.example.com", "example.com"));
    assert!(is_domain_match("x.y.example.com", "example.com"));
}

#[test]
fn domain_match_respects_label_boundary() {
    assert!(!is_domain_match("evil-example.com", "example.com"));
    assert!(!is_domain_match("aexample.com", "example.com"));
}

#[test]
fn domain_match_pattern_longer_than_query() {
    assert!(!is_domain_match("com", "example.com"));
}

#[test]
fn domain_match_ignores_ascii_case() {
    assert!(is_domain_match("WWW.Example.COM", "example.com"));
    assert!(is_domain_match("example.com", "EXAMPLE.com"));
}

#[test]
fn domain_match_unrelated() {
    assert!(!is_domain_match("example.org", "example.com"));
}

#[test]
fn empty_includes_match_everything() {
    let r = rules(&[], &["example.com"]);
    assert!(matches_domain("example.com.", &r));
    assert!(matches_domain("anything.net.", &r));
}

#[test]
fn include_matches_with_trailing_dot() {
    let r = rules(&["corp.internal"], &[]);
    assert!(matches_domain("host.corp.internal.", &r));
    assert!(matches_domain("corp.internal.", &r));
    assert!(matches_domain("corp.internal", &r));
    assert!(!matches_domain("host.corp.internal..", &r));
    assert!(!matches_domain("example.com.", &r));
}

#[test]
fn exclude_overrides_include() {
    let r = rules(&["example.com"], &["ads.example.com"]);
    assert!(matches_domain("www.example.com.", &r));
    assert!(!matches_domain("ads.example.com.", &r));
    assert!(!matches_domain("x.ads.example.com.", &r));
}

#[test]
fn exclude_respects_label_boundary() {
    let r = rules(&["example.com"], &["ads.example.com"]);
    assert!(matches_domain("badads.example.com.", &r));
}

#[test]
fn single_include_label_boundary() {
    let r = rules(&["example.com"], &[]);
    assert!(matches_domain("example.com", &r));
    assert!(matches_domain("a.example.com", &r));
    assert!(!matches_domain("evil-example.com", &r));
}

#[test]
fn repeated_lists_match_the_same() {
    let once = rules(&["example.com", "corp"], &["ads.example.com"]);
    let twice = rules(
        &["example.com", "corp", "example.com", "corp"],
        &["ads.example.com", "ads.example.com"],
    );
    for q in ["a.example.com.", "ads.example.com.", "x.corp.", "other.net.", "example.com"] {
        assert_eq!(matches_domain(q, &once), matches_domain(q, &twice));
    }
}

use load0::access::{is_whitelisted, whitelisted_urls};

#[test]
pub fn test_whitelisted_function() {
    let whitelisted_domains = vec![
        String::from("cloud.load.network"),
        String::from("localhost"),
        String::from("relic.bot"),
    ];

    assert!(is_whitelisted(
        Some("http://cloud.load.network".to_string()),
        &whitelisted_domains
    ));
    assert!(is_whitelisted(
        Some("http://localhost".to_string()),
        &whitelisted_domains
    ));
    assert!(is_whitelisted(
        Some("http://relic.bot".to_string()),
        &whitelisted_domains
    ));
    assert!(is_whitelisted(
        Some("https://relic.bot".to_string()),
        &whitelisted_domains
    ));
    assert!(is_whitelisted(
        Some("https://localhost".to_string()),
        &whitelisted_domains
    ));
    assert!(!is_whitelisted(
        Some("https://facebook.com".to_string()),
        &whitelisted_domains
    ));
    assert!(!is_whitelisted(None, &whitelisted_domains));

    let whitelisted_domains = whitelisted_urls(Some("facebook.com,google.com".to_string()));
    assert!(is_whitelisted(
        Some("https://facebook.com".to_string()),
        &whitelisted_domains
    ));
    assert!(is_whitelisted(
        Some("https://google.com".to_string()),
        &whitelisted_domains
    ));
    assert!(!is_whitelisted(
        Some("https://localhost".to_string()),
        &whitelisted_domains
    ));
}

#[test]
fn whitelist_host_is_normalized_by_url_parsing() {
    // the parsed hostname is lowercased and stripped of port and path, so a
    // whitelist entry matches however the Host header writes it
    let whitelisted_domains = vec![String::from("relic.bot"), String::from("localhost")];
    assert!(is_whitelisted(
        Some("HTTP://Relic.Bot".to_string()),
        &whitelisted_domains
    ));
    assert!(is_whitelisted(
        Some("http://localhost:8080".to_string()),
        &whitelisted_domains
    ));
    assert!(!is_whitelisted(
        Some("not a url".to_string()),
        &whitelisted_domains
    ));
}

#[test]
fn whitelist_parsing_trims_and_drops_empty_fields() {
    let wl = whitelisted_urls(Some(" a.example , ,b.example,".to_string()));
    assert_eq!(wl, vec!["a.example".to_string(), "b.example".to_string()]);

    let empty = whitelisted_urls(Some("   ".to_string()));
    assert!(empty.is_empty());

    let none = whitelisted_urls(None);
    assert!(none.is_empty());
}

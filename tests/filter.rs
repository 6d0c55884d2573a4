use gateau::filter::{filter_hosts, BaseDomain};
use http::Uri;

fn hosts_of(urls: &[&str]) -> Vec<String> {
    urls.iter()
        .map(|u| u.parse::<Uri>().unwrap().host().unwrap().to_string())
        .collect()
}

#[test]
fn app_test_filter_hosts() {
    let hosts = hosts_of(&["https://www.example.com", "https://www.example.org"]);

    assert!(filter_hosts("example.com", &hosts));
    assert!(filter_hosts("example.org", &hosts));
    assert!(filter_hosts(".example.com", &hosts));
    assert!(filter_hosts(".example.org", &hosts));
    assert!(!filter_hosts("example.net", &hosts));
    assert!(!filter_hosts(".example.net", &hosts));
}

#[test]
fn app_test_filter_with_empty_hosts() {
    let hosts: Vec<String> = vec![];

    assert!(filter_hosts("example.com", &hosts));
    assert!(filter_hosts("example.org", &hosts));
    assert!(filter_hosts(".example.com", &hosts));
    assert!(filter_hosts(".example.org", &hosts));
    assert!(filter_hosts("example.net", &hosts));
    assert!(filter_hosts(".example.net", &hosts));
}

#[test]
fn app_test_filter_with_empty_domain() {
    let hosts = hosts_of(&["https://www.example.com"]);

    assert!(!filter_hosts("", &hosts));
}

#[test]
fn app_test_filter_wildcard() {
    let hosts = hosts_of(&["https://www.example.com"]);

    assert!(filter_hosts("example.com", &hosts));
    assert!(filter_hosts(".example.com", &hosts));
    assert!(filter_hosts("www.example.com", &hosts));
    assert!(filter_hosts(".www.example.com", &hosts));
    assert!(!filter_hosts("example.org", &hosts));
    assert!(!filter_hosts(".example.org", &hosts));
    assert!(!filter_hosts("www.example.org", &hosts));
    assert!(!filter_hosts(".www.example.org", &hosts));
}

#[test]
fn filter_lone_dot_domain_never_matches() {
    assert!(!filter_hosts(".", &hosts_of(&["https://www.example.com"])));
    assert!(!filter_hosts(".", &[]));
}

#[test]
fn filter_matches_ip_host_by_equality_or_suffix() {
    let hosts = hosts_of(&["https://127.0.0.1/"]);
    assert!(filter_hosts("127.0.0.1", &hosts));
    assert!(filter_hosts("0.0.1", &hosts));
    assert!(!filter_hosts("127.0.0.2", &hosts));
}

#[test]
fn test_base_domain() {
    let uri = Uri::from_static("https://example.com");
    assert_eq!(uri.host().unwrap().base_domain(), Some(String::from("example.com")));
}

#[test]
fn test_base_domain_with_port() {
    let uri = Uri::from_static("https://www.example.com:8080");
    assert_eq!(uri.host().unwrap().base_domain(), Some(String::from("example.com")));
}

#[test]
fn test_base_domain_with_ipv4() {
    let url = Uri::from_static("https://127.0.0.1/");
    assert_eq!(url.host().unwrap().base_domain(), None);
}

#[test]
fn test_base_domain_with_ipv6() {
    let url = Uri::from_static("https://[::1]/");
    assert_eq!(url.host().unwrap().base_domain(), None);
}

#[test]
fn test_base_domain_with_subdomain() {
    let url = Uri::from_static("https://www.example.com");
    assert_eq!(url.host().unwrap().base_domain(), Some(String::from("example.com")));
}

#[test]
fn base_domain_of_single_label_is_none() {
    assert_eq!("localhost".base_domain(), None);
}

#[test]
fn base_domain_keeps_last_two_labels() {
    assert_eq!("a.b.example.co".base_domain(), Some(String::from("example.co")));
}

#[test]
fn base_domain_of_non_ipv4_dotted_numbers() {
    // Leading zeros, five parts and values over 255 are not IPv4 addresses.
    assert_eq!("127.0.0.01".base_domain(), Some(String::from("0.01")));
    assert_eq!("1.2.3.4.5".base_domain(), Some(String::from("4.5")));
    assert_eq!("256.1.1.1".base_domain(), Some(String::from("1.1")));
    assert_eq!("255.255.255.255".base_domain(), None);
    assert_eq!("0.0.0.0".base_domain(), None);
}

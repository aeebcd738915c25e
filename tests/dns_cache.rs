use trojan_config::addr::IpAddress;
use trojan_config::config::Opts;
use trojan_config::dns_cache::DnsCache;

fn proxy_opts() -> Opts {
    let mut o = Opts::new(
        None,
        None,
        None,
        "0.0.0.0:443".to_string(),
        "127.0.0.1:80".to_string(),
        vec!["secret".to_string()],
        2,
        300,
        255,
        "proxy".to_string(),
        Some("example.com".to_string()),
        300,
    );
    assert_eq!(o.setup(None, &vec![IpAddress::V4(1)]), Ok(()));
    o
}

#[test]
fn update_then_query_returns_address() {
    let mut o = proxy_opts();
    let d = "a.com".to_string();
    o.update_dns_at(d.clone(), IpAddress::V4(42), 1_000);
    assert_eq!(o.query_dns_at(&d, 1_000), Some(IpAddress::V4(42)));
    assert_eq!(o.query_dns_at(&d, 300_999), Some(IpAddress::V4(42)));
    assert_eq!(o.dns_cache.len(), 1);
}

#[test]
fn expired_entry_is_evicted() {
    let mut o = proxy_opts();
    let d = "a.com".to_string();
    o.update_dns_at(d.clone(), IpAddress::V4(42), 1_000);
    assert_eq!(o.query_dns_at(&d, 301_000), None);
    assert_eq!(o.dns_cache.len(), 0);
    assert_eq!(o.query_dns_at(&d, 1_000), None);
}

#[test]
fn second_update_replaces_first() {
    let mut o = proxy_opts();
    let d = "a.com".to_string();
    o.update_dns_at(d.clone(), IpAddress::V4(1), 0);
    o.update_dns_at(d.clone(), IpAddress::V6(2), 10_000);
    assert_eq!(o.dns_cache.len(), 1);
    assert_eq!(o.query_dns_at(&d, 305_000), Some(IpAddress::V6(2)));
    assert_eq!(o.query_dns_at(&d, 310_000), None);
}

#[test]
fn domains_are_case_sensitive_and_separate() {
    let mut o = proxy_opts();
    o.update_dns_at("a.com".to_string(), IpAddress::V4(1), 0);
    o.update_dns_at("b.com".to_string(), IpAddress::V4(2), 0);
    assert_eq!(o.dns_cache.len(), 2);
    assert_eq!(o.query_dns_at(&"A.com".to_string(), 0), None);
    assert_eq!(o.query_dns_at(&"a.com.".to_string(), 0), None);
    assert_eq!(o.query_dns_at(&"b.com".to_string(), 0), Some(IpAddress::V4(2)));
    assert_eq!(o.query_dns_at(&"missing".to_string(), 0), None);
}

#[test]
fn live_clock_update_then_query() {
    let mut o = proxy_opts();
    let d = "a.com".to_string();
    o.update_dns(d.clone(), IpAddress::V4(9));
    assert_eq!(o.query_dns(&d), Some(IpAddress::V4(9)));
}

#[test]
fn zero_lifetime_entry_is_never_served() {
    let mut c = DnsCache::new();
    let d = "a.com".to_string();
    c.update_at(d.clone(), IpAddress::V4(3), 500, 0);
    assert_eq!(c.query_at(&d, 500), None);
    assert_eq!(c.len(), 0);
}

#[test]
fn entry_expiry_is_now_plus_lifetime() {
    let mut c = DnsCache::new();
    let d = "x".to_string();
    c.update_at(d.clone(), IpAddress::V4(1), 2_000, 3);
    assert_eq!(c.query_at(&d, 4_999), Some(IpAddress::V4(1)));
    assert_eq!(c.query_at(&d, 5_000), None);
}

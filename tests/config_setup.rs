use trojan_config::addr::{IpAddress, SocketAddress};
use trojan_config::config::{Opts, SetupError};
use trojan_config::digest::digest;
use trojan_config::logging::{level_filter, LogLevel};

fn opts(mode: &str, cert: bool, key: bool, hostname: Option<&str>, passwords: &[&str]) -> Opts {
    Opts::new(
        if cert { Some("cert.pem".to_string()) } else { None },
        if key { Some("key.pem".to_string()) } else { None },
        None,
        "0.0.0.0:443".to_string(),
        "127.0.0.1:80".to_string(),
        passwords.iter().map(|p| p.to_string()).collect(),
        2,
        300,
        255,
        mode.to_string(),
        hostname.map(|h| h.to_string()),
        300,
    )
}

fn local_http() -> SocketAddress {
    SocketAddress { ip: IpAddress::V4(0x7f00_0001), port: 80 }
}

#[test]
fn server_setup_uses_literal_remote() {
    let mut o = opts("server", true, true, None, &["secret"]);
    assert_eq!(o.setup(Some(local_http()), &vec![]), Ok(()));
    assert_eq!(o.back_addr, Some(local_http()));
    assert_eq!(o.empty_addr, Some(SocketAddress { ip: IpAddress::V4(0), port: 0 }));
    assert_eq!(o.dns_cache_duration, 300);
    assert_eq!(o.idle_duration, 300);
}

#[test]
fn server_setup_without_cert_fails() {
    let mut o = opts("server", false, true, None, &["secret"]);
    assert_eq!(o.setup(Some(local_http()), &vec![]), Err(SetupError::MissingCertOrKey));
    assert_eq!(o.back_addr, None);
}

#[test]
fn server_setup_without_key_fails() {
    let mut o = opts("server", true, false, None, &["secret"]);
    assert_eq!(o.setup(Some(local_http()), &vec![]), Err(SetupError::MissingCertOrKey));
}

#[test]
fn server_setup_with_unparsed_remote_fails() {
    let mut o = opts("server", true, true, None, &["secret"]);
    assert_eq!(o.setup(None, &vec![]), Err(SetupError::BadRemoteAddress));
}

#[test]
fn proxy_setup_prefers_v4_after_v6() {
    let mut o = opts("proxy", false, false, Some("example.com"), &["secret"]);
    let c = vec![IpAddress::V6(1), IpAddress::V4(0x0a00_0001)];
    assert_eq!(o.setup(None, &c), Ok(()));
    assert_eq!(o.back_addr, Some(SocketAddress { ip: IpAddress::V4(0x0a00_0001), port: 443 }));
    assert_eq!(o.empty_addr, Some(SocketAddress { ip: IpAddress::V4(0), port: 0 }));
}

#[test]
fn proxy_setup_prefers_v4_before_v6() {
    let mut o = opts("proxy", false, false, Some("example.com"), &["secret"]);
    let c = vec![IpAddress::V4(0x0a00_0001), IpAddress::V6(1)];
    assert_eq!(o.setup(None, &c), Ok(()));
    assert_eq!(o.back_addr, Some(SocketAddress { ip: IpAddress::V4(0x0a00_0001), port: 443 }));
}

#[test]
fn proxy_setup_only_v6_takes_first() {
    let mut o = opts("proxy", false, false, Some("example.com"), &["secret"]);
    let c = vec![IpAddress::V6(7), IpAddress::V6(9)];
    assert_eq!(o.setup(None, &c), Ok(()));
    assert_eq!(o.back_addr, Some(SocketAddress { ip: IpAddress::V6(7), port: 443 }));
    assert_eq!(o.empty_addr, Some(SocketAddress { ip: IpAddress::V6(0), port: 0 }));
}

#[test]
fn proxy_setup_without_candidates_fails() {
    let mut o = opts("proxy", false, false, Some("example.com"), &["secret"]);
    assert_eq!(o.setup(None, &vec![]), Err(SetupError::ResolveFailed));
}

#[test]
fn proxy_setup_without_hostname_fails() {
    let mut o = opts("proxy", false, false, None, &["secret"]);
    assert_eq!(o.setup(None, &vec![IpAddress::V4(1)]), Err(SetupError::MissingHostname));
}

#[test]
fn lookup_host_adds_trailing_dot() {
    let o = opts("proxy", false, false, Some("example.com"), &["secret"]);
    assert_eq!(o.lookup_host(), Some("example.com.".to_string()));
    let o = opts("proxy", false, false, Some("example.com."), &["secret"]);
    assert_eq!(o.lookup_host(), Some("example.com.".to_string()));
    let o = opts("proxy", false, false, Some(""), &["secret"]);
    assert_eq!(o.lookup_host(), Some(".".to_string()));
    let o = opts("proxy", false, false, None, &["secret"]);
    assert_eq!(o.lookup_host(), None);
}

#[test]
fn server_mode_is_recognised() {
    assert!(opts("server", true, true, None, &["a"]).is_server_mode());
    assert!(!opts("proxy", true, true, None, &["a"]).is_server_mode());
    assert!(!opts("Server", true, true, None, &["a"]).is_server_mode());
}

#[test]
fn digest_is_sha224_hex() {
    assert_eq!(digest(""), "d14a028c2a3a2bc9476102bb288234c415a2b01f828ea62ac5b3e42f");
    assert_eq!(digest("abc"), "23097d223405d8228642a477bda255b32aadbce4bda0b3f7e36c9da7");
}

#[test]
fn own_digest_verifies_and_altered_is_refused() {
    let mut o = opts("server", true, true, None, &["alpha", "beta"]);
    assert_eq!(o.setup(Some(local_http()), &vec![]), Ok(()));
    for p in ["alpha", "beta"] {
        let d = digest(p);
        assert_eq!(o.check_pass(&d), Some(&p.to_string()));
        let mut bytes = d.clone().into_bytes();
        bytes[5] ^= 1;
        let altered = String::from_utf8(bytes).unwrap();
        assert_eq!(o.check_pass(&altered), None);
    }
    assert_eq!(o.check_pass("gamma"), None);
}

#[test]
fn digests_share_one_length() {
    let mut o = opts("server", true, true, None, &["a", "longer password", ""]);
    assert_eq!(o.setup(Some(local_http()), &vec![]), Ok(()));
    assert_eq!(o.pass_len, 56);
    assert_eq!(o.sha_pass.len(), 3);
    for d in &o.sha_pass {
        assert_eq!(d.len(), o.pass_len);
    }
    assert_eq!(o.get_pass(), &digest("a"));
}

#[test]
fn log_levels_map_in_order() {
    assert_eq!(level_filter(0), LogLevel::Trace);
    assert_eq!(level_filter(1), LogLevel::Debug);
    assert_eq!(level_filter(2), LogLevel::Info);
    assert_eq!(level_filter(3), LogLevel::Warn);
    assert_eq!(level_filter(4), LogLevel::Error);
    assert_eq!(level_filter(5), LogLevel::Off);
    assert_eq!(level_filter(200), LogLevel::Off);
}

use dnsd::addr::{IpAddress, SockAddr};
use dnsd::config::{config_from_resolv, NameServer, Protocol, ResolvConf};

fn conf(domain: Option<&str>, search: &[&str]) -> ResolvConf {
    ResolvConf {
        nameservers: vec![IpAddress::V4(0x01010101), IpAddress::V6(1)],
        system_domain: domain.map(|d| d.to_string()),
        last_search_or_domain: search.iter().map(|s| s.to_string()).collect(),
        ndots: 3,
        timeout: 7,
        attempts: 4,
    }
}

#[test]
fn name_servers_on_port_53_over_udp() {
    let s = config_from_resolv(conf(None, &[]));
    assert_eq!(s.name_servers.len(), 2);
    assert_eq!(
        s.name_servers[0],
        NameServer {
            socket_addr: SockAddr::V4 { ip: 0x01010101, port: 53 },
            protocol: Protocol::Udp,
            trust_negative_responses: false,
            bind_addr: None,
        }
    );
    assert_eq!(
        s.name_servers[1].socket_addr,
        SockAddr::V6 { ip: 1, port: 53, flowinfo: 0, scope_id: 0 }
    );
    assert_eq!(s.ndots, 3);
    assert_eq!(s.timeout_secs, 7);
    assert_eq!(s.attempts, 4);
    assert_eq!(s.domain, None);
    assert!(s.search.is_empty());
}

#[test]
fn search_drops_dashes_and_bad_names() {
    let long_label = "a".repeat(64);
    let bad = format!("{}.com", long_label);
    let s = config_from_resolv(conf(Some("example.com"), &["--", "corp.example.", bad.as_str(), "allow_in_.example.com."]));
    assert_eq!(s.domain, Some("example.com".to_string()));
    assert_eq!(s.search, vec!["corp.example.".to_string(), "allow_in_.example.com.".to_string()]);
}

#[test]
fn unparsable_domain_is_dropped() {
    let long_label = "b".repeat(64);
    let s = config_from_resolv(conf(Some(long_label.as_str()), &[]));
    assert_eq!(s.domain, None);
}

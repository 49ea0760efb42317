use nba_agent::limit::{read_networks, unknown_peer, IpAddress, Network};
use nba_agent::RateLimiter;

const SECOND: u128 = 1_000_000_000;

fn v4(a: u8, b: u8, c: u8, d: u8) -> IpAddress {
    IpAddress::V4(u32::from_be_bytes([a, b, c, d]))
}

fn proxied(list: &str) -> RateLimiter {
    RateLimiter::with_trusted_proxies(10, 60, read_networks(list))
}

#[test]
fn test_rate_limiter_allows_within_limit() {
    let mut limiter = RateLimiter::new(5, 60);
    let ip = v4(127, 0, 0, 1);
    for _ in 0..5 {
        assert!(limiter.check(ip), "Should allow request within limit");
    }
}

#[test]
fn test_rate_limiter_blocks_exceeding_limit() {
    let mut limiter = RateLimiter::new(3, 60);
    let ip = v4(127, 0, 0, 1);
    assert!(limiter.check(ip));
    assert!(limiter.check(ip));
    assert!(limiter.check(ip));
    assert!(!limiter.check(ip), "Should block 4th request from same IP");
}

#[test]
fn test_rate_limiter_per_ip_isolation() {
    let mut limiter = RateLimiter::new(2, 60);
    let a = v4(10, 0, 0, 1);
    let b = v4(10, 0, 0, 2);
    assert!(limiter.check(a));
    assert!(limiter.check(a));
    assert!(!limiter.check(a), "A exhausted");
    assert!(limiter.check(b), "B has its own bucket");
    assert!(limiter.check(b));
}

#[test]
fn lib_test_rate_limiter_window_expiry() {
    let mut limiter = RateLimiter::new(2, 0);
    let ip = v4(127, 0, 0, 1);
    assert!(limiter.check(ip));
    assert!(limiter.check(ip), "0s window should expire instantly");
    assert!(limiter.check(ip));
}

#[test]
fn coverage_gap_agent_and_handlers_test_rate_limiter_window_expiry() {
    let mut lim = RateLimiter::new(2, 0);
    let ip = v4(127, 0, 0, 1);
    assert!(lim.check(ip));
    assert!(lim.check(ip), "0s window should expire instantly");
    assert!(lim.check(ip));
}

#[test]
fn test_rate_limiter_checks() {
    let mut lim = RateLimiter::new(5, 60);
    let ip = v4(10, 0, 0, 42);
    for _ in 0..5 {
        assert!(lim.check(ip));
    }
    assert!(!lim.check(ip));
}

#[test]
fn test_rate_limiter_check_window_expiry() {
    let mut limiter = RateLimiter::new(2, 60);
    let ip = v4(1, 2, 3, 4);
    assert!(limiter.check(ip));
    assert!(limiter.check(ip));
    assert!(!limiter.check(ip), "third request in window should be rejected");
}

#[test]
fn test_rate_limiter_max_tracked_ips_cap() {
    let mut limiter = RateLimiter::new(1, 60);
    let ip = v4(9, 9, 9, 9);
    assert!(limiter.check(ip));
    assert!(!limiter.check(ip));
    let ip2 = v4(8, 8, 4, 4);
    assert!(limiter.check(ip2));
}

#[test]
fn test_rate_limiter_429_middleware() {
    let mut limiter = RateLimiter::new(1, 60);
    assert!(limiter.check(unknown_peer()));
    assert!(!limiter.check(unknown_peer()));
}

#[test]
fn test_rate_limit_with_connect_info() {
    let mut limiter = RateLimiter::new(1, 60);
    let peer = v4(127, 0, 0, 1);
    let client = limiter.client_ip_for(None, peer);
    assert!(limiter.check(client));
    assert!(!limiter.check(client));
}

#[test]
fn test_rate_limiter_xff_ignored_when_peer_untrusted() {
    let lim = RateLimiter::new(2, 60);
    let peer = v4(203, 0, 113, 7);
    let resolved = lim.client_ip_for(Some("10.0.0.5"), peer);
    assert_eq!(resolved, peer, "XFF must be ignored when peer is not a trusted proxy");
}

#[test]
fn test_rate_limiter_xff_honored_for_trusted_proxy() {
    let lim = RateLimiter::with_trusted_proxies(2, 60, read_networks("10.0.0.0/8"));
    let resolved = lim.client_ip_for(Some("203.0.113.99, 10.0.0.1"), v4(10, 0, 0, 1));
    assert_eq!(resolved, v4(203, 0, 113, 99));
}

#[test]
fn test_rate_limiter_xff_unparseable_falls_back_to_peer() {
    let lim = RateLimiter::with_trusted_proxies(2, 60, read_networks("10.0.0.0/8"));
    let peer = v4(10, 0, 0, 1);
    assert_eq!(lim.client_ip_for(Some("not-an-ip"), peer), peer);
}

#[test]
fn test_rate_limiter_trusted_proxy_xff() {
    let limiter = proxied("127.0.0.1/32");
    let resolved = limiter.client_ip_for(Some("203.0.113.5"), v4(127, 0, 0, 1));
    assert_eq!(resolved, v4(203, 0, 113, 5), "trusted proxy should honor XFF");
}

#[test]
fn test_rate_limiter_untrusted_peer_ignores_xff() {
    let limiter = proxied("10.0.0.0/8");
    let resolved = limiter.client_ip_for(Some("203.0.113.5"), v4(8, 8, 8, 8));
    assert_eq!(resolved, v4(8, 8, 8, 8), "untrusted peer must ignore XFF");
}

#[test]
fn test_client_ip_invalid_xff_falls_back() {
    let limiter = proxied("127.0.0.1/32");
    let ip = limiter.client_ip_for(Some("not-an-ip"), v4(127, 0, 0, 1));
    assert_eq!(ip, v4(127, 0, 0, 1));
}

#[test]
fn windows_slide() {
    let mut l = RateLimiter::new(2, 10);
    let ip = v4(1, 1, 1, 1);
    assert!(l.check_at(ip, 0));
    assert!(l.check_at(ip, 4 * SECOND));
    assert!(!l.check_at(ip, 10 * SECOND - 1));
    assert!(l.check_at(ip, 10 * SECOND));
    assert!(!l.check_at(ip, 13 * SECOND));
    assert!(l.check_at(ip, 14 * SECOND));
    let mut none = RateLimiter::new(0, 10);
    assert!(!none.check_at(ip, 0));
}

#[test]
fn only_so_many_addresses_are_known() {
    let mut l = RateLimiter::new(1, 60);
    for i in 0..9_999u32 {
        assert!(l.check_at(IpAddress::V4(i), 0));
    }
    assert!(l.check_at(IpAddress::V6(7), 0));
    assert!(!l.check_at(IpAddress::V6(8), 0));
    assert!(!l.check_at(v4(200, 0, 0, 1), 0));
    assert!(l.check_at(IpAddress::V6(7), 60 * SECOND));
}

#[test]
fn networks_hold_what_agrees_with_their_prefix() {
    let nets = read_networks(" 10.0.0.0/8 , nonsense,2001:db8::/32, 0.0.0.0/33, 1.2.3.4/32");
    assert_eq!(nets.len(), 3);
    let l = RateLimiter::with_trusted_proxies(1, 1, nets);
    let seen = |ip: IpAddress| l.client_ip_for(Some("9.9.9.9"), ip) == v4(9, 9, 9, 9);
    assert!(seen(v4(10, 255, 0, 3)));
    assert!(!seen(v4(11, 0, 0, 0)));
    assert!(seen(v4(1, 2, 3, 4)));
    assert!(!seen(v4(1, 2, 3, 5)));
    assert!(seen(IpAddress::V6(0x2001_0db8_0000_0000_0000_0000_0000_0001)));
    assert!(!seen(IpAddress::V6(0x2001_0db9_0000_0000_0000_0000_0000_0001)));
    assert!(!seen(IpAddress::V6(10 << 24)));
    let all = vec![Network { ip: v4(1, 1, 1, 1), prefix: 0 }];
    let l = RateLimiter::with_trusted_proxies(1, 1, all);
    assert_eq!(l.client_ip_for(Some("::1"), v4(200, 1, 1, 1)), IpAddress::V6(1));
    assert_eq!(l.client_ip_for(Some("::1"), IpAddress::V6(5)), IpAddress::V6(5));
    assert_eq!(l.client_ip_for(None, v4(200, 1, 1, 1)), v4(200, 1, 1, 1));
    assert_eq!(l.client_given(v4(2, 2, 2, 2), Some(v4(3, 3, 3, 3))), v4(3, 3, 3, 3));
    assert!(read_networks("").is_empty());
}

#[test]
fn a_request_passes_while_the_window_has_room() {
    let mut l = RateLimiter::new(2, 10);
    let ip = v4(1, 1, 1, 1);
    let mut passed: Vec<u128> = Vec::new();
    for s in [0u128, 4, 5, 9, 10, 11, 14, 14, 20, 30] {
        let now = s * SECOND;
        let room = passed.iter().filter(|t| now - **t < 10 * SECOND).count() < 2;
        assert_eq!(l.check_at(ip, now), room, "at {}", s);
        if room {
            passed.push(now);
        }
    }
    assert_eq!(passed, [0, 4, 10, 14, 20, 30].map(|s| s * SECOND));
}

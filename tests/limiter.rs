use faucet::{
    whole_to_fractions, Airdrop, AirdropCapExceeded, AirdropLimiter, AirdropLimiterError,
    HeaderText, IpAddress, RequestMeta, FRACTIONS_PER_TOKEN,
};

fn v4(a: u8, b: u8, c: u8, d: u8) -> IpAddress {
    IpAddress::V4(((a as u32) << 24) | ((b as u32) << 16) | ((c as u32) << 8) | (d as u32))
}

fn text(s: &str) -> Option<HeaderText> {
    Some(HeaderText::Visible(s.to_string()))
}

fn meta(peer: IpAddress, forwarded: Option<HeaderText>, xff: Option<HeaderText>) -> RequestMeta {
    RequestMeta { peer: Some(peer), forwarded, x_forwarded_for: xff }
}

fn fractions(amount: u64) -> Airdrop {
    Airdrop::new("0x4cEf46ef9064a6Ec7FfB9a5C1B7F7dC4e6a6Ca8B".to_string(), amount, true)
}

fn whole(amount: u64) -> Airdrop {
    Airdrop::new("0x4cEf46ef9064a6Ec7FfB9a5C1B7F7dC4e6a6Ca8B".to_string(), amount, false)
}

fn proxy() -> IpAddress {
    v4(10, 0, 0, 1)
}

fn limiter(blacklist: Vec<IpAddress>, per_request_cap: u64, per_time_cap: u64) -> AirdropLimiter {
    AirdropLimiter::new(vec![proxy()], blacklist, per_request_cap, per_time_cap)
}

fn denied() -> AirdropLimiterError {
    AirdropLimiterError::CapExceeded(AirdropCapExceeded { requested: 0, limit: 0 })
}

#[test]
fn untrusted_peer_ignores_headers() {
    let l = limiter(vec![], 10, 10);
    let p = v4(198, 51, 100, 7);
    let m = meta(p, text("for=203.0.113.5"), text("203.0.113.9"));
    assert_eq!(l.get_peer(&m), Ok(p));
    let m = meta(p, Some(HeaderText::Opaque), text("not an address"));
    assert_eq!(l.get_peer(&m), Ok(p));
}

#[test]
fn missing_peer_is_bad_request() {
    let l = limiter(vec![], 10, 10);
    let m = RequestMeta { peer: None, forwarded: None, x_forwarded_for: text("203.0.113.5") };
    assert_eq!(l.get_peer(&m), Err(AirdropLimiterError::BadRequest));
}

#[test]
fn trusted_proxy_without_headers_is_caller() {
    let l = limiter(vec![], 10, 10);
    assert_eq!(l.get_peer(&RequestMeta::direct(proxy())), Ok(proxy()));
}

#[test]
fn standard_header_gives_proximate_address() {
    let l = limiter(vec![], 10, 10);
    let m = meta(proxy(), text("for=192.0.2.60;proto=http, for=198.51.100.17;by=203.0.113.43"), None);
    assert_eq!(l.get_peer(&m), Ok(v4(198, 51, 100, 17)));
}

#[test]
fn standard_header_skips_stanzas_without_address() {
    let l = limiter(vec![], 10, 10);
    let m = meta(proxy(), text("for=192.0.2.60, for=_hidden, proto=https"), None);
    assert_eq!(l.get_peer(&m), Ok(v4(192, 0, 2, 60)));
}

#[test]
fn standard_header_with_socket_and_v6() {
    let l = limiter(vec![], 10, 10);
    let m = meta(proxy(), text("for=\"[2001:db8::17]:4711\""), None);
    assert_eq!(l.get_peer(&m), Ok(IpAddress::V6(0x2001_0db8_0000_0000_0000_0000_0000_0017)));
}

#[test]
fn standard_header_takes_priority_over_legacy() {
    let l = limiter(vec![], 10, 10);
    let m = meta(proxy(), text("for=192.0.2.60"), text("203.0.113.5"));
    assert_eq!(l.get_peer(&m), Ok(v4(192, 0, 2, 60)));
}

#[test]
fn legacy_header_gives_rightmost_address() {
    let l = limiter(vec![], 10, 10);
    let m = meta(proxy(), None, text("203.0.113.5, 198.51.100.17"));
    assert_eq!(l.get_peer(&m), Ok(v4(198, 51, 100, 17)));
}

#[test]
fn malformed_headers_are_bad_requests() {
    let l = limiter(vec![], 10, 10);
    let bad = [
        meta(proxy(), text("for"), None),
        meta(proxy(), text(""), None),
        meta(proxy(), text("proto=https"), None),
        meta(proxy(), None, text("not-an-ip")),
        meta(proxy(), None, text(" , ")),
        meta(proxy(), Some(HeaderText::Opaque), None),
        meta(proxy(), None, Some(HeaderText::Opaque)),
    ];
    for m in bad.iter() {
        assert_eq!(l.get_peer(m), Err(AirdropLimiterError::BadRequest));
    }
}

#[test]
fn blacklisted_direct_peer_is_denied() {
    let b = v4(192, 0, 2, 1);
    let l = limiter(vec![b], 10, 10);
    assert_eq!(l.get_peer(&RequestMeta::direct(b)), Err(denied()));
    assert_eq!(l.get_peer(&meta(b, text("for=203.0.113.5"), None)), Err(denied()));
}

#[test]
fn blacklisted_forwarded_address_is_denied() {
    let b = v4(192, 0, 2, 1);
    let l = limiter(vec![b], 10, 10);
    assert_eq!(l.get_peer(&meta(proxy(), text("for=192.0.2.1"), None)), Err(denied()));
    assert_eq!(l.get_peer(&meta(proxy(), None, text("192.0.2.1"))), Err(denied()));
}

#[test]
fn admit_forwarded_decides_on_claim() {
    let b = v4(192, 0, 2, 1);
    let l = limiter(vec![b], 10, 10);
    assert_eq!(l.admit_forwarded(None), Err(AirdropLimiterError::BadRequest));
    assert_eq!(l.admit_forwarded(Some(b)), Err(denied()));
    assert_eq!(l.admit_forwarded(Some(v4(192, 0, 2, 2))), Ok(v4(192, 0, 2, 2)));
}

#[test]
fn clear_twice_leaves_nothing() {
    let mut l = limiter(vec![], 100, 1000);
    let c = v4(203, 0, 113, 5);
    assert_eq!(l.charge(c, &fractions(40)), Ok(()));
    assert_eq!(l.usage_of(c), 40);
    l.clear_cache();
    l.clear_cache();
    assert_eq!(l.usage_of(c), 0);
    assert_eq!(l.charge(c, &fractions(40)), Ok(()));
    assert_eq!(l.usage_of(c), 40);
}

#[test]
fn running_total_grows_and_saturates() {
    let mut l = limiter(vec![], u64::MAX, u64::MAX);
    let c = v4(203, 0, 113, 5);
    let mut previous: u64 = 0;
    for a in [3u64, 0, 7, 11] {
        assert_eq!(l.charge(c, &fractions(a)), Ok(()));
        assert!(l.usage_of(c) >= previous);
        previous = l.usage_of(c);
    }
    assert_eq!(l.usage_of(c), 21);
    assert_eq!(l.charge(c, &fractions(u64::MAX - 1)), Ok(()));
    assert_eq!(l.usage_of(c), u64::MAX);
    assert_eq!(l.charge(c, &fractions(5)), Ok(()));
    assert_eq!(l.usage_of(c), u64::MAX);
}

#[test]
fn callers_are_counted_apart() {
    let mut l = limiter(vec![], 100, 1000);
    let a = v4(203, 0, 113, 5);
    let b = IpAddress::V6(0xcb00_7105);
    assert_eq!(l.charge(a, &fractions(30)), Ok(()));
    assert_eq!(l.charge(b, &fractions(50)), Ok(()));
    assert_eq!(l.usage_of(a), 30);
    assert_eq!(l.usage_of(b), 50);
    assert_eq!(l.usage_of(v4(203, 0, 113, 6)), 0);
}

#[test]
fn per_request_cap_leaves_ledger_unchanged() {
    let mut l = limiter(vec![], 100, 1000);
    let c = v4(203, 0, 113, 5);
    assert_eq!(l.charge(c, &fractions(60)), Ok(()));
    let m = meta(proxy(), None, text("203.0.113.5"));
    assert_eq!(
        l.check_cache(&m, &fractions(101)),
        Err(AirdropLimiterError::CapExceeded(AirdropCapExceeded { requested: 101, limit: 100 }))
    );
    assert_eq!(l.usage_of(c), 60);
    assert_eq!(l.check_cache(&m, &fractions(100)), Ok(()));
    assert_eq!(l.usage_of(c), 160);
}

#[test]
fn per_time_cap_keeps_rejected_amount() {
    let w: u64 = 5000;
    let mut l = limiter(vec![], w + 1, w);
    let c = v4(203, 0, 113, 5);
    assert_eq!(
        l.check_cache(&RequestMeta::direct(c), &fractions(w + 1)),
        Err(AirdropLimiterError::CapExceeded(AirdropCapExceeded { requested: w + 1, limit: w }))
    );
    assert_eq!(l.usage_of(c), w + 1);
    assert_eq!(
        l.check_cache(&RequestMeta::direct(c), &fractions(1)),
        Err(AirdropLimiterError::CapExceeded(AirdropCapExceeded { requested: w + 2, limit: w }))
    );
}

#[test]
fn whole_tokens_are_charged_in_fractions() {
    assert_eq!(AirdropLimiter::parse_amount(&whole(1)), Ok(FRACTIONS_PER_TOKEN));
    assert_eq!(AirdropLimiter::parse_amount(&fractions(1)), Ok(1));
    assert_eq!(FRACTIONS_PER_TOKEN, 1_000_000_000);
    let mut l = limiter(vec![], 10 * FRACTIONS_PER_TOKEN, 100 * FRACTIONS_PER_TOKEN);
    let c = v4(203, 0, 113, 5);
    assert_eq!(l.check_cache(&RequestMeta::direct(c), &whole(1)), Ok(()));
    assert_eq!(l.usage_of(c), FRACTIONS_PER_TOKEN);
}

#[test]
fn whole_token_overflow_is_bad_conversion() {
    let largest = u64::MAX / FRACTIONS_PER_TOKEN;
    assert_eq!(
        AirdropLimiter::parse_amount(&whole(largest)),
        Ok(largest * FRACTIONS_PER_TOKEN)
    );
    assert_eq!(
        AirdropLimiter::parse_amount(&whole(largest + 1)),
        Err(AirdropLimiterError::BadConversion)
    );
    let mut l = limiter(vec![], u64::MAX, u64::MAX);
    let c = v4(203, 0, 113, 5);
    assert_eq!(
        l.check_cache(&RequestMeta::direct(c), &whole(u64::MAX)),
        Err(AirdropLimiterError::BadConversion)
    );
    assert_eq!(l.usage_of(c), 0);
}

#[test]
fn rejected_resolution_leaves_ledger_unchanged() {
    let b = v4(192, 0, 2, 1);
    let mut l = limiter(vec![b], 100, 1000);
    assert_eq!(l.check_cache(&RequestMeta::direct(b), &fractions(5)), Err(denied()));
    assert_eq!(l.usage_of(b), 0);
    let m = meta(proxy(), text("for=unknown"), None);
    assert_eq!(l.check_cache(&m, &fractions(5)), Err(AirdropLimiterError::BadRequest));
    assert_eq!(l.usage_of(proxy()), 0);
}

#[test]
fn proxied_caller_end_to_end() {
    let mut l = limiter(vec![], 1000, 5000);
    let caller = v4(203, 0, 113, 5);
    let m = meta(proxy(), None, text("203.0.113.5"));
    assert_eq!(l.check_cache(&m, &fractions(500)), Ok(()));
    assert_eq!(l.usage_of(caller), 500);
    assert_eq!(l.check_cache(&m, &fractions(500)), Ok(()));
    assert_eq!(l.usage_of(caller), 1000);
    assert_eq!(l.check_cache(&m, &fractions(500)), Ok(()));
    assert_eq!(l.usage_of(caller), 1500);
    assert_eq!(l.usage_of(proxy()), 0);
}

#[test]
fn proxied_caller_pushed_over_window() {
    let mut l = limiter(vec![], 5000, 5000);
    let caller = v4(203, 0, 113, 5);
    let m = meta(proxy(), None, text("203.0.113.5"));
    assert_eq!(l.check_cache(&m, &fractions(500)), Ok(()));
    assert_eq!(l.check_cache(&m, &fractions(500)), Ok(()));
    assert_eq!(l.usage_of(caller), 1000);
    assert_eq!(
        l.check_cache(&m, &fractions(4500)),
        Err(AirdropLimiterError::CapExceeded(AirdropCapExceeded { requested: 5500, limit: 5000 }))
    );
    assert_eq!(l.usage_of(caller), 5500);
}

#[test]
fn blacklisted_trusted_proxy_is_denied() {
    let l = AirdropLimiter::new(vec![proxy()], vec![proxy()], 10, 10);
    assert_eq!(l.get_peer(&RequestMeta::direct(proxy())), Err(denied()));
    let m = meta(proxy(), None, text("203.0.113.5"));
    assert_eq!(l.get_peer(&m), Ok(v4(203, 0, 113, 5)));
}

#[test]
fn lone_quote_in_standard_header_is_bad_request() {
    let mut l = limiter(vec![], 10, 10);
    let bad = [
        "for=1.2.3.4;host=\"",
        "for=1.2.3.4;HOST=\"  , for=5.6.7.8",
        "host=\";for=1.2.3.4",
        "for=\"1.2.3.4",
    ];
    for h in bad.iter() {
        assert_eq!(l.get_peer(&meta(proxy(), text(h), None)), Err(AirdropLimiterError::BadRequest));
    }
    let m = meta(proxy(), text("for=1.2.3.4;host=\""), None);
    assert_eq!(l.check_cache(&m, &fractions(1)), Err(AirdropLimiterError::BadRequest));
    let m = meta(proxy(), text("for=1.2.3.4;host=\"example.com\""), None);
    assert_eq!(l.get_peer(&m), Ok(v4(1, 2, 3, 4)));
}

#[test]
fn trust_lists_hold_both_versions() {
    let six = IpAddress::V6(0x2001_0db8_0000_0000_0000_0000_0000_0001);
    let l = AirdropLimiter::new(vec![proxy(), six, proxy()], vec![v4(192, 0, 2, 1), v4(192, 0, 2, 1)], 10, 10);
    assert_eq!(l.get_peer(&meta(six, None, text("198.51.100.17"))), Ok(v4(198, 51, 100, 17)));
    assert_eq!(l.get_peer(&meta(six, None, text("192.0.2.1"))), Err(denied()));
    assert_eq!(l.get_peer(&meta(v4(0, 0, 0, 1), None, text("198.51.100.17"))), Ok(v4(0, 0, 0, 1)));
}

#[test]
fn whole_to_fractions_scales_or_fails() {
    assert_eq!(whole_to_fractions(0), Some(0));
    assert_eq!(whole_to_fractions(3), Some(3_000_000_000));
    assert_eq!(whole_to_fractions(18_446_744_073), Some(18_446_744_073_000_000_000));
    assert_eq!(whole_to_fractions(18_446_744_074), None);
}

#[test]
fn error_messages() {
    assert_eq!(AirdropLimiterError::BadRequest.message(), "Bad airdrop request");
    assert_eq!(
        AirdropLimiterError::BadConversion.message(),
        "Failed to convert to fractional token value"
    );
    let e = AirdropLimiterError::CapExceeded(AirdropCapExceeded { requested: 5500, limit: 5000 });
    assert_eq!(e.message(), "Requested value 5500 exceeds the limit 5000");
    assert_eq!(denied().message(), "Requested value 0 exceeds the limit 0");
}

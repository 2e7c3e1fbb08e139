use ephemeral_chat::limiter::{
    extract_request_ip, fail_open, parse_u16, step_admits, LimiterStep, RateLimiter,
};

#[test]
fn test_extract_request_ip_provide_needed_header() {
    let default_ip = "1.1.1.1";

    let result = extract_request_ip(Some(default_ip));

    assert_eq!(result, default_ip)
}

#[test]
fn test_extract_request_ip_epmty_header() {
    let result = extract_request_ip(None);

    assert_eq!(result, "127.0.0.1")
}

#[test]
fn extract_request_ip_takes_last_element_trimmed() {
    assert_eq!(extract_request_ip(Some("10.0.0.1, 10.0.0.2 , 10.0.0.3")), "10.0.0.3");
    assert_eq!(extract_request_ip(Some("  2.2.2.2  ")), "2.2.2.2");
    assert_eq!(extract_request_ip(Some("a,b,")), "");
}

#[test]
fn test_create_new_instance() {
    let default_key = "rate_limiter:127.0.0.1";
    let rate_limiter = RateLimiter::new(default_key.to_string(), 10, 10);

    assert_eq!(rate_limiter.key, default_key);
    assert_eq!(rate_limiter.limit, 10);
    assert_eq!(rate_limiter.seconds, 10);
}

#[test]
fn test_check_and_apply_for_exist_cache() {
    let rate_limiter = RateLimiter::new("rate_limiter:127.0.0.2".to_string(), 10, 10);

    let step = rate_limiter.check_decision(Some("10"));
    assert!(matches!(step, LimiterStep::Spend));
    assert!(step_admits(&step));
}

#[test]
fn test_check_and_apply_not_exist_cache() {
    let rate_limiter = RateLimiter::new("rate_limiter:127.0.0.3".to_string(), 10, 10);

    let step = rate_limiter.check_decision(None);
    match step {
        LimiterStep::StartWindow { ref value, ttl_seconds } => {
            assert_eq!(value, "10");
            assert_eq!(ttl_seconds, 10);
        },
        _ => panic!("expected a fresh window"),
    }
    assert!(step_admits(&step));
}

#[test]
fn test_check_and_apply_for_get_false_result() {
    let rate_limiter = RateLimiter::new("rate_limiter:127.0.0.4".to_string(), 0, 10);

    let step = rate_limiter.check_decision(Some("0"));
    assert!(matches!(step, LimiterStep::Deny));
    assert!(!step_admits(&step));
}

#[test]
fn test_run() {
    // one hit from a client with no counter yet is admitted
    let limiter = RateLimiter::new("rate_limiter:127.0.0.5".to_string(), 10, 10);
    let step = limiter.check_decision(None);
    assert!(step_admits(&step));
}

#[test]
fn malformed_counter_fails_open() {
    let limiter = RateLimiter::new("rate_limiter:x".to_string(), 10, 60);
    let step = limiter.check_decision(Some("not-a-number"));
    assert!(matches!(step, LimiterStep::Malformed));
    assert!(step_admits(&step));
    // and a cache fault admits outright
    assert!(fail_open(None));
    assert!(!fail_open(Some(false)));
}

#[test]
fn parse_u16_reads_counters() {
    assert_eq!(parse_u16("0"), Some(0));
    assert_eq!(parse_u16("10"), Some(10));
    assert_eq!(parse_u16("+10"), Some(10));
    assert_eq!(parse_u16("00010"), Some(10));
    assert_eq!(parse_u16("65535"), Some(65535));
    assert_eq!(parse_u16("65536"), None);
    assert_eq!(parse_u16(""), None);
    assert_eq!(parse_u16("+"), None);
    assert_eq!(parse_u16("-1"), None);
    assert_eq!(parse_u16("1 0"), None);
}

#[test]
fn window_spends_whole_budget_then_denies() {
    // drive the decision logic against a simulated cache for one window
    let limiter = RateLimiter::new("rate_limiter:10.0.0.9".to_string(), 3, 60);
    let mut counter: Option<u16> = None;
    let mut admitted = 0;
    for _ in 0..10 {
        let text = counter.map(|v| v.to_string());
        let step = limiter.check_decision(text.as_deref());
        match step {
            LimiterStep::StartWindow { value, .. } => {
                counter = Some(value.parse().unwrap());
                admitted += 1;
            },
            LimiterStep::Spend => {
                counter = Some(counter.unwrap() - 1);
                admitted += 1;
            },
            LimiterStep::Deny => {},
            LimiterStep::Malformed => panic!("counter text should parse"),
        }
    }
    // the opening hit writes the full budget, then the budget itself is spent
    assert_eq!(admitted, 4);
    assert_eq!(counter, Some(0));
}

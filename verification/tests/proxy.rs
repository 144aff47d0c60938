use rate_proxy::config::{ConfigError, ProxyConfig};
use rate_proxy::forward::{
    build_target_url, client_response, outbound_headers, plan_upstream_request, UpstreamResponse,
};
use rate_proxy::limiter::{
    counter_key, decision_response, extract_bearer_token, admission_begin, limit_decision, record_hit,
    rate_limit_message, AuthzDecision, RateLimitError, WindowState, WINDOW_SECS,
};
use rate_proxy::text::{format_u32, parse_u32};
use rate_proxy::token::{issue, TOKEN_TTL_SECS};

#[test]
fn window_counts_up_within_threshold() {
    let threshold: u32 = 2;
    let w1 = record_hit(None, 0, WINDOW_SECS);
    assert_eq!(w1, WindowState { count: 1, expires_at: 60 });
    assert_eq!(limit_decision(Ok(w1.count), threshold), AuthzDecision::Allow);

    let w2 = record_hit(Some(w1), 10, WINDOW_SECS);
    assert_eq!(w2, WindowState { count: 2, expires_at: 60 });
    assert_eq!(limit_decision(Ok(w2.count), threshold), AuthzDecision::Allow);

    let w3 = record_hit(Some(w2), 20, WINDOW_SECS);
    assert_eq!(w3, WindowState { count: 3, expires_at: 60 });
    assert_eq!(limit_decision(Ok(w3.count), threshold), AuthzDecision::DenyRateLimited);
}

#[test]
fn third_request_answered_429_naming_threshold() {
    let resp = decision_response(AuthzDecision::DenyRateLimited, 2).unwrap();
    assert_eq!(resp.0, 429);
    assert_eq!(resp.1, "Rate limit exceeded: 2 requests per minute");
    assert!(resp.1.contains("2"));
}

#[test]
fn expired_window_resets_to_one() {
    let w3 = WindowState { count: 3, expires_at: 60 };
    // 61 seconds after the last hit at t = 20: the window has expired.
    let w4 = record_hit(Some(w3), 81, WINDOW_SECS);
    assert_eq!(w4, WindowState { count: 1, expires_at: 141 });
    assert_eq!(limit_decision(Ok(w4.count), 2), AuthzDecision::Allow);
}

#[test]
fn expiry_boundary_starts_fresh_window() {
    let w = WindowState { count: 5, expires_at: 60 };
    let next = record_hit(Some(w), 60, WINDOW_SECS);
    assert_eq!(next, WindowState { count: 1, expires_at: 120 });
}

#[test]
fn hit_inside_window_keeps_expiry() {
    let w = WindowState { count: 1, expires_at: 60 };
    let next = record_hit(Some(w), 59, WINDOW_SECS);
    assert_eq!(next, WindowState { count: 2, expires_at: 60 });
}

#[test]
fn missing_header_is_denied() {
    assert_eq!(extract_bearer_token(None), "");
    match admission_begin(None) {
        Err(d) => assert_eq!(d, AuthzDecision::DenyMissingCredential),
        Ok(t) => panic!("admitted without a credential: {t}"),
    }
}

#[test]
fn empty_bearer_value_is_denied() {
    assert_eq!(extract_bearer_token(Some("Bearer ")), "");
    assert!(admission_begin(Some("Bearer ")).is_err());
    assert_eq!(extract_bearer_token(Some("")), "");
    assert!(admission_begin(Some("")).is_err());
    assert_eq!(extract_bearer_token(Some("Basic dXNlcg==")), "");
    assert!(admission_begin(Some("Basic dXNlcg==")).is_err());
}

#[test]
fn missing_credential_answered_401() {
    let resp = decision_response(AuthzDecision::DenyMissingCredential, 60).unwrap();
    assert_eq!(resp.0, 401);
    assert_eq!(resp.1, "Missing or invalid Authorization header");
}

#[test]
fn bearer_token_extracted() {
    assert_eq!(extract_bearer_token(Some("Bearer abc")), "abc");
    let t = admission_begin(Some("Bearer abc")).unwrap();
    assert_eq!(t, "abc");
}

#[test]
fn counter_key_prefixes_token() {
    assert_eq!(counter_key("abc"), "ratelimit:abc");
}

#[test]
fn store_failure_blocks_request() {
    assert_eq!(limit_decision(Err(RateLimitError::Connection), 60), AuthzDecision::Unavailable);
    assert_eq!(limit_decision(Err(RateLimitError::Operation), 60), AuthzDecision::Unavailable);
    let resp = decision_response(AuthzDecision::Unavailable, 60).unwrap();
    assert_eq!(resp.0, 500);
    assert_eq!(resp.1, "Rate limiting service unavailable");
}

#[test]
fn allow_produces_no_response() {
    assert_eq!(limit_decision(Ok(60), 60), AuthzDecision::Allow);
    assert!(decision_response(AuthzDecision::Allow, 60).is_none());
}

#[test]
fn caller_credential_never_forwarded() {
    let inbound = vec![
        ("authorization".to_string(), "Bearer caller-secret".to_string()),
        ("host".to_string(), "proxy.local".to_string()),
        ("x-trace".to_string(), "1".to_string()),
    ];
    let with_key = outbound_headers(&inbound, &Some("upstream-key".to_string()));
    assert_eq!(
        with_key,
        vec![
            ("x-trace".to_string(), "1".to_string()),
            ("authorization".to_string(), "Bearer upstream-key".to_string()),
        ]
    );

    let without_key = outbound_headers(&inbound, &None);
    assert_eq!(without_key, vec![("x-trace".to_string(), "1".to_string())]);
}

#[test]
fn header_exclusion_ignores_case() {
    let inbound = vec![
        ("Authorization".to_string(), "Bearer caller-secret".to_string()),
        ("Host".to_string(), "proxy.local".to_string()),
        ("X-Trace".to_string(), "1".to_string()),
    ];
    let out = outbound_headers(&inbound, &None);
    assert_eq!(out, vec![("X-Trace".to_string(), "1".to_string())]);
}

#[test]
fn upstream_response_copied_verbatim() {
    let upstream = UpstreamResponse {
        status: 201,
        headers: vec![("x-custom".to_string(), b"v1".to_vec())],
        body: b"{\"ok\":true}".to_vec(),
    };
    let resp = client_response(upstream);
    assert_eq!(resp.status, 201);
    assert_eq!(resp.headers, vec![("x-custom".to_string(), b"v1".to_vec())]);
    assert_eq!(resp.body, b"{\"ok\":true}".to_vec());
}

#[test]
fn duplicate_query_keys_preserved() {
    let query = vec![
        ("tag".to_string(), "a".to_string()),
        ("tag".to_string(), "b".to_string()),
    ];
    let url = build_target_url("https://api.example.com", "/api/items", &query);
    assert_eq!(url, "https://api.example.com/items?tag=a&tag=b");
}

#[test]
fn query_values_are_encoded() {
    let query = vec![("q".to_string(), "a b&c".to_string())];
    let url = build_target_url("http://u", "/api/search", &query);
    assert_eq!(url, "http://u/search?q=a+b%26c");
}

#[test]
fn empty_query_appends_nothing() {
    let url = build_target_url("http://u", "/api/items", &Vec::new());
    assert_eq!(url, "http://u/items");
}

#[test]
fn path_without_mount_point_kept_whole() {
    let url = build_target_url("http://u", "/other", &Vec::new());
    assert_eq!(url, "http://u/other");
}

#[test]
fn plan_preserves_method_and_drops_empty_body() {
    let config = ProxyConfig {
        target_base_url: "http://u".to_string(),
        api_key: Some("k".to_string()),
        rate_limit: 60,
    };
    let headers = vec![
        ("host".to_string(), "proxy.local".to_string()),
        ("accept".to_string(), "application/json".to_string()),
    ];
    let plan = plan_upstream_request(
        &config,
        "DELETE".to_string(),
        "/api/items/7",
        &Vec::new(),
        &headers,
        Vec::new(),
    );
    assert_eq!(plan.method, "DELETE");
    assert_eq!(plan.url, "http://u/items/7");
    assert_eq!(
        plan.headers,
        vec![
            ("accept".to_string(), "application/json".to_string()),
            ("authorization".to_string(), "Bearer k".to_string()),
        ]
    );
    assert!(plan.body.is_none());
}

#[test]
fn plan_carries_nonempty_body() {
    let config = ProxyConfig {
        target_base_url: "http://u".to_string(),
        api_key: None,
        rate_limit: 60,
    };
    let plan = plan_upstream_request(
        &config,
        "POST".to_string(),
        "/api/items",
        &Vec::new(),
        &Vec::new(),
        b"payload".to_vec(),
    );
    assert_eq!(plan.body, Some(b"payload".to_vec()));
}

#[test]
fn issued_token_recorded_active_with_ttl() {
    let (resp, write) = issue();
    assert_eq!(resp.token.len(), 36);
    assert_eq!(write.key, resp.token);
    assert_eq!(write.value, "active");
    assert_eq!(write.ttl_secs, TOKEN_TTL_SECS);
    assert_eq!(write.ttl_secs, 3600);
}

#[test]
fn issued_tokens_differ() {
    let (a, _) = issue();
    let (b, _) = issue();
    assert_ne!(a.token, b.token);
}

#[test]
fn config_defaults_applied() {
    let c = ProxyConfig::from_parts(None, None, None).unwrap();
    assert_eq!(c.target_base_url, "https://api.example.com");
    assert_eq!(c.api_key, None);
    assert_eq!(c.rate_limit, 60);
}

#[test]
fn config_accepts_explicit_settings() {
    let c = ProxyConfig::from_parts(
        Some("http://inside:8080".to_string()),
        Some("key".to_string()),
        Some("2".to_string()),
    )
    .unwrap();
    assert_eq!(c.target_base_url, "http://inside:8080");
    assert_eq!(c.api_key, Some("key".to_string()));
    assert_eq!(c.rate_limit, 2);
}

#[test]
fn config_rejects_bad_rate_limit() {
    let r = ProxyConfig::from_parts(None, None, Some("abc".to_string()));
    assert_eq!(r.unwrap_err(), ConfigError::InvalidRateLimit);
    let r = ProxyConfig::from_parts(None, None, Some("".to_string()));
    assert_eq!(r.unwrap_err(), ConfigError::InvalidRateLimit);
    let r = ProxyConfig::from_parts(None, None, Some("4294967296".to_string()));
    assert_eq!(r.unwrap_err(), ConfigError::InvalidRateLimit);
}

#[test]
fn config_rejects_bad_url() {
    let r = ProxyConfig::from_parts(Some("ftp://files".to_string()), None, None);
    assert_eq!(r.unwrap_err(), ConfigError::InvalidUrl);
}

#[test]
fn bad_rate_limit_reported_before_bad_url() {
    let r = ProxyConfig::from_parts(Some("ftp://files".to_string()), None, Some("x".to_string()));
    assert_eq!(r.unwrap_err(), ConfigError::InvalidRateLimit);
}

#[test]
fn config_error_messages() {
    assert_eq!(ConfigError::InvalidRateLimit.message(), "Invalid rate limit value");
    assert_eq!(ConfigError::InvalidUrl.message(), "Invalid URL format");
}

#[test]
fn decimal_parse_exact_values() {
    assert_eq!(parse_u32("0"), Some(0));
    assert_eq!(parse_u32("60"), Some(60));
    assert_eq!(parse_u32("4294967295"), Some(u32::MAX));
    assert_eq!(parse_u32("4294967296"), None);
    assert_eq!(parse_u32(""), None);
    assert_eq!(parse_u32("1a"), None);
    assert_eq!(parse_u32("-1"), None);
    assert_eq!(parse_u32("+1"), None);
}

#[test]
fn decimal_format_exact_values() {
    assert_eq!(format_u32(0), "0");
    assert_eq!(format_u32(2), "2");
    assert_eq!(format_u32(429), "429");
    assert_eq!(format_u32(u32::MAX), "4294967295");
}

#[test]
fn rate_limit_message_names_threshold() {
    assert_eq!(rate_limit_message(60), "Rate limit exceeded: 60 requests per minute");
}

#[test]
fn full_admission_scenario_threshold_two() {
    // Threshold 2; token `abc` issued; three requests in one minute, a
    // fourth after the window has lapsed.
    let threshold: u32 = 2;
    let token = admission_begin(Some("Bearer abc")).unwrap();
    let key = counter_key(&token);
    assert_eq!(key, "ratelimit:abc");

    let mut store: Option<WindowState> = None;
    let mut outcomes = Vec::new();
    for now in [0u64, 10, 20, 81] {
        let w = record_hit(store, now, WINDOW_SECS);
        store = Some(w);
        outcomes.push(limit_decision(Ok(w.count), threshold));
    }
    assert_eq!(
        outcomes,
        vec![
            AuthzDecision::Allow,
            AuthzDecision::Allow,
            AuthzDecision::DenyRateLimited,
            AuthzDecision::Allow,
        ]
    );
}

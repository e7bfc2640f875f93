use gateway::pipeline::{
    admission_action, health_body, is_bypass_path, outcome_of_store_reply, rate_key, tenant_of,
    AdmissionAction, RateOutcome,
};

#[test]
fn bypass_paths_intercepted() {
    assert!(is_bypass_path("/health"));
    assert!(is_bypass_path("/health/live"));
    assert!(!is_bypass_path("/"));
    assert!(!is_bypass_path("/healthz"));
    assert!(!is_bypass_path("/health/"));
    assert!(!is_bypass_path("/api/v1/items"));
}

#[test]
fn health_payload_fixed() {
    assert_eq!(
        health_body(),
        "{\"status\":\"ok\",\"service\":\"nexusai-gateway\",\"version\":\"3.0.0\"}"
    );
}

#[test]
fn bypass_answers_health_whatever_the_store_said() {
    // The liveness paths get the readiness payload whether the store
    // admitted, rejected, or was unreachable.
    let outcomes = [
        RateOutcome::Decided { admitted: true, remaining: 9 },
        RateOutcome::Decided { admitted: false, remaining: 0 },
        RateOutcome::StoreUnavailable,
    ];
    for o in outcomes {
        match admission_action("/health", &o) {
            AdmissionAction::RespondHealth { body } => assert_eq!(body, health_body()),
            _ => panic!("liveness path was not answered locally"),
        }
        assert!(matches!(
            admission_action("/health/live", &o),
            AdmissionAction::RespondHealth { .. }
        ));
    }
}

#[test]
fn anonymous_bucketing() {
    // Requests without a tenant header, or with an empty one, share one
    // bucket; a named tenant gets a different one.
    let anon_a = rate_key(&tenant_of(None));
    let anon_b = rate_key(&tenant_of(None));
    let anon_c = rate_key(&tenant_of(Some(String::new())));
    let foo = rate_key(&tenant_of(Some("foo".to_string())));
    assert_eq!(anon_a, anon_b);
    assert_eq!(anon_a, anon_c);
    assert_ne!(anon_a, foo);
    assert_eq!(anon_a, "nexus:ratelimit:anonymous");
    assert_eq!(foo, "nexus:ratelimit:foo");
}

#[test]
fn admitted_request_forwarded_with_remaining() {
    let a = admission_action("/api", &RateOutcome::Decided { admitted: true, remaining: 41 });
    match a {
        AdmissionAction::Forward { remaining } => assert_eq!(remaining, Some(41)),
        _ => panic!("admitted request was not forwarded"),
    }
}

#[test]
fn rejected_request_gets_429_with_fixed_body() {
    let a = admission_action("/api", &RateOutcome::Decided { admitted: false, remaining: 0 });
    match a {
        AdmissionAction::Reject { status, content_type, body } => {
            assert_eq!(status, 429);
            assert_eq!(content_type, "application/json");
            assert_eq!(body, "{\"detail\":\"Rate limit exceeded\",\"retry_after\":60}");
        },
        _ => panic!("rejected request was not answered with the quota rejection"),
    }
}

#[test]
fn store_outage_fails_open() {
    // With the store unreachable the request is still forwarded, only
    // without the remaining-quota telemetry.
    let a = admission_action("/api", &RateOutcome::StoreUnavailable);
    match a {
        AdmissionAction::Forward { remaining } => assert_eq!(remaining, None),
        _ => panic!("store outage did not fail open"),
    }
}

#[test]
fn store_reply_mapping() {
    assert_eq!(
        outcome_of_store_reply(Some(vec![1, 5])),
        RateOutcome::Decided { admitted: true, remaining: 5 }
    );
    assert_eq!(
        outcome_of_store_reply(Some(vec![0, 0])),
        RateOutcome::Decided { admitted: false, remaining: 0 }
    );
    assert_eq!(outcome_of_store_reply(Some(vec![1])), RateOutcome::StoreUnavailable);
    assert_eq!(outcome_of_store_reply(Some(vec![])), RateOutcome::StoreUnavailable);
    assert_eq!(outcome_of_store_reply(None), RateOutcome::StoreUnavailable);
}

#[test]
fn tenant_fallbacks() {
    assert_eq!(tenant_of(None), "anonymous");
    assert_eq!(tenant_of(Some(String::new())), "anonymous");
    assert_eq!(tenant_of(Some("acme".to_string())), "acme");
    assert_eq!(tenant_of(Some("anonymous".to_string())), "anonymous");
}

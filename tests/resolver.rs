use graph_core::resolver::{
    backoff, jittered_delay, next_action, FetchOutcome, FileLinkResolver, ResolverError,
    RetryAction,
};

#[test]
fn backoff_doubles_up_to_cap() {
    assert_eq!(backoff(0), 500);
    assert_eq!(backoff(1), 1000);
    assert_eq!(backoff(2), 2000);
    assert_eq!(backoff(5), 16000);
    assert_eq!(backoff(6), 30000);
    assert_eq!(backoff(u32::MAX), 30000);
}

#[test]
fn jitter_stays_within_backoff() {
    assert_eq!(jittered_delay(1, 2500), 2500 % 1001);
    assert_eq!(jittered_delay(0, 500), 500);
    assert!(jittered_delay(3, u64::MAX) <= 4000);
}

#[test]
fn transient_failures_retry_then_deliver() {
    let first = next_action(true, 0, FetchOutcome::Transient);
    assert_eq!(first, RetryAction::Retry { attempt: 1, max_delay_ms: 1000 });
    let second = next_action(true, 1, FetchOutcome::Transient);
    assert_eq!(second, RetryAction::Retry { attempt: 2, max_delay_ms: 2000 });
    assert_eq!(next_action(true, 2, FetchOutcome::Success), RetryAction::Deliver);
}

#[test]
fn terminal_and_unretried_failures_fail() {
    assert_eq!(next_action(true, 0, FetchOutcome::Terminal), RetryAction::Fail);
    assert_eq!(next_action(false, 0, FetchOutcome::Transient), RetryAction::Fail);
}

#[test]
fn for_deployment_rebases_on_build_dir() {
    let r = FileLinkResolver::new(None, vec![("QmHash".to_string(), "/tmp/sub/build".to_string())]);
    assert_eq!(r.resolve_path("schema.graphql"), "schema.graphql");
    let scoped = r.for_deployment(&"QmHash".to_string()).unwrap();
    assert_eq!(scoped.base_dir, Some("/tmp/sub/build".to_string()));
    assert_eq!(scoped.resolve_path("schema.graphql"), "/tmp/sub/build/schema.graphql");
    assert_eq!(
        r.for_deployment(&"QmOther".to_string()).unwrap_err(),
        ResolverError::UnknownDeployment
    );
}

#[test]
fn builders_return_new_resolvers() {
    let r = FileLinkResolver::new(Some("/base".to_string()), vec![]);
    let t = r.with_timeout(5);
    assert_eq!(t.timeout_ms, 5);
    assert!(!t.retries);
    let w = t.with_retries();
    assert!(w.retries);
    assert_eq!(w.timeout_ms, 5);
    assert!(!r.retries);
    assert_eq!(w.resolve_path("a.wasm"), "/base/a.wasm");
}

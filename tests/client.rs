use race_dns_proxy::client::{
    is_network_unreachable_error, query_retry_delay, Attempt, ClientHolder, ConnectError,
    QueryAction, QueryRetry, ReconnectAction, ReconnectBackoff, QUERY_MAX_ATTEMPTS,
    RECONNECT_MAX_DELAY_MS,
};

#[test]
fn holder_starts_empty() {
    let h: ClientHolder<u32> = ClientHolder::new();
    assert!(!h.is_connected());
    assert_eq!(h.version, 0);
}

#[test]
fn holder_install_and_invalidate() {
    let mut h: ClientHolder<u32> = ClientHolder::new();
    h.install(7);
    assert!(h.is_connected());
    assert_eq!(h.client, Some(7));
    assert_eq!(h.version, 1);
    assert!(h.invalidate(1));
    assert!(!h.is_connected());
    assert_eq!(h.version, 2);
}

#[test]
fn stale_invalidation_keeps_newer_connection() {
    let mut h: ClientHolder<u32> = ClientHolder::new();
    h.install(1);
    let observed = h.version;
    assert!(h.invalidate(observed));
    h.install(2);
    assert_eq!(h.version, 3);
    assert!(!h.invalidate(observed));
    assert_eq!(h.client, Some(2));
    assert_eq!(h.version, 3);
}

#[test]
fn concurrent_failures_invalidate_once() {
    let mut h: ClientHolder<u32> = ClientHolder::new();
    h.install(5);
    let seen = h.version;
    assert!(h.invalidate(seen));
    assert!(!h.invalidate(seen));
    assert_eq!(h.version, seen + 1);
}

#[test]
fn version_never_decreases() {
    let mut h: ClientHolder<u32> = ClientHolder::new();
    let mut last = h.version;
    for step in 0..10u32 {
        if step % 3 == 0 {
            h.install(step);
        } else {
            h.invalidate(last.saturating_sub(1));
            let v = h.version;
            h.invalidate(v);
        }
        assert!(h.version >= last);
        last = h.version;
    }
}

#[test]
fn query_delays_double_up_to_ceiling() {
    assert_eq!(query_retry_delay(0), 200);
    assert_eq!(query_retry_delay(1), 400);
    assert_eq!(query_retry_delay(2), 600);
    assert_eq!(query_retry_delay(5), 600);
    assert_eq!(query_retry_delay(40), 600);
}

#[test]
fn answered_attempt_delivers() {
    let mut q = QueryRetry::new();
    assert_eq!(q.on_attempt(Attempt::Answered), QueryAction::Deliver);
    assert_eq!(q.retries, 0);
}

#[test]
fn transient_failure_then_answer() {
    let mut q = QueryRetry::new();
    let a = q.on_attempt(Attempt::Failed);
    assert_eq!(
        a,
        QueryAction::Retry { invalidate: true, signal_reconnect: true, delay_ms: 200 }
    );
    q.reconnect_signalled();
    let b = q.on_attempt(Attempt::NoConnection);
    assert_eq!(
        b,
        QueryAction::Retry { invalidate: false, signal_reconnect: false, delay_ms: 400 }
    );
    assert_eq!(q.on_attempt(Attempt::Answered), QueryAction::Deliver);
    assert_eq!(q.retries, 2);
}

#[test]
fn unsent_signal_is_asked_again() {
    let mut q = QueryRetry::new();
    q.on_attempt(Attempt::NoConnection);
    let b = q.on_attempt(Attempt::NoConnection);
    assert_eq!(
        b,
        QueryAction::Retry { invalidate: false, signal_reconnect: true, delay_ms: 400 }
    );
}

#[test]
fn query_gives_up_on_sixth_failed_attempt() {
    let mut q = QueryRetry::new();
    let mut delays = Vec::new();
    for _ in 1..QUERY_MAX_ATTEMPTS {
        match q.on_attempt(Attempt::Failed) {
            QueryAction::Retry { delay_ms, .. } => delays.push(delay_ms),
            other => panic!("unexpected action {:?}", other),
        }
    }
    assert_eq!(delays, vec![200, 400, 600, 600, 600]);
    assert_eq!(delays.iter().sum::<u64>(), 2400);
    assert_eq!(q.retries, 5);
    assert_eq!(q.on_attempt(Attempt::Failed), QueryAction::GiveUp { invalidate: true });
    assert_eq!(q.on_attempt(Attempt::NoConnection), QueryAction::GiveUp { invalidate: false });
}

#[test]
fn query_answered_on_last_attempt() {
    let mut q = QueryRetry::new();
    for _ in 1..QUERY_MAX_ATTEMPTS {
        q.on_attempt(Attempt::NoConnection);
    }
    assert_eq!(q.on_attempt(Attempt::Answered), QueryAction::Deliver);
}

#[test]
fn reconnect_backoff_doubles_then_gives_up() {
    let mut b = ReconnectBackoff::new();
    assert_eq!(b.on_failure(false), ReconnectAction::Wait { delay_ms: 300 });
    assert_eq!(b.on_failure(false), ReconnectAction::Wait { delay_ms: 600 });
    assert_eq!(b.on_failure(false), ReconnectAction::Wait { delay_ms: 1200 });
    assert_eq!(b.on_failure(false), ReconnectAction::Wait { delay_ms: 2400 });
    assert_eq!(b.on_failure(false), ReconnectAction::GiveUp);
}

#[test]
fn reconnect_backoff_caps_at_ceiling() {
    let mut b = ReconnectBackoff { attempts: 0, delay_ms: 4000 };
    assert_eq!(b.on_failure(false), ReconnectAction::Wait { delay_ms: 4000 });
    assert_eq!(b.delay_ms, 5000);
    assert_eq!(b.on_failure(false), ReconnectAction::Wait { delay_ms: 5000 });
}

#[test]
fn unreachable_network_snaps_to_ceiling() {
    let mut b = ReconnectBackoff::new();
    assert_eq!(
        b.on_failure(true),
        ReconnectAction::Wait { delay_ms: RECONNECT_MAX_DELAY_MS }
    );
    assert_eq!(b.on_failure(false), ReconnectAction::Wait { delay_ms: 5000 });
}

#[test]
fn unreachable_classification() {
    let enet = ConnectError::Io { raw_os_error: Some(51), unexpected_eof: false };
    let eof = ConnectError::Io { raw_os_error: None, unexpected_eof: true };
    let refused = ConnectError::Io { raw_os_error: Some(111), unexpected_eof: false };
    assert!(is_network_unreachable_error(&enet));
    assert!(is_network_unreachable_error(&eof));
    assert!(!is_network_unreachable_error(&refused));
    assert!(!is_network_unreachable_error(&ConnectError::Other));
}

use race_dns_proxy::client::{
    is_network_unreachable_error, Attempt, ClientHolder, ConnectError, QueryAction, QueryRetry,
    ReconnectAction, ReconnectBackoff,
};
use race_dns_proxy::handler::{Arrival, Race, ReplyHeader, NO_ERROR, SERV_FAIL};

#[test]
fn transient_upstream_failure() {
    // the holder has a connection; the first attempt on it is reset
    let mut holder: ClientHolder<&str> = ClientHolder::new();
    holder.install("conn-1");
    let mut retry = QueryRetry::new();
    let observed = holder.version;
    match retry.on_attempt(Attempt::Failed) {
        QueryAction::Retry { invalidate, signal_reconnect, delay_ms } => {
            assert!(invalidate);
            assert!(signal_reconnect);
            assert_eq!(delay_ms, 200);
            assert!(holder.invalidate(observed));
            retry.reconnect_signalled();
        }
        other => panic!("unexpected action {:?}", other),
    }
    // the reconnection task fails once, then succeeds
    let mut backoff = ReconnectBackoff::new();
    assert_eq!(backoff.on_failure(false), ReconnectAction::Wait { delay_ms: 300 });
    holder.install("conn-2");
    assert_eq!(holder.version, 3);
    // the next attempt is answered
    assert_eq!(retry.on_attempt(Attempt::Answered), QueryAction::Deliver);
    let mut race = Race::new(0x4242);
    assert!(race.record(Arrival {
        code: NO_ERROR,
        message: "answer",
        upstream: "A".to_string(),
        elapsed_ms: 250,
    }));
    race.mark_sent(0);
    assert_eq!(race.outcome(), ReplyHeader { id: 0x4242, code: NO_ERROR });
}

#[test]
fn all_upstreams_unreachable() {
    let unreachable = ConnectError::Io { raw_os_error: Some(51), unexpected_eof: false };
    for _ in 0..2 {
        let mut backoff = ReconnectBackoff::new();
        assert!(is_network_unreachable_error(&unreachable));
        assert_eq!(backoff.on_failure(true), ReconnectAction::Wait { delay_ms: 5000 });
        assert_eq!(backoff.on_failure(true), ReconnectAction::Wait { delay_ms: 5000 });
    }
    let race: Race<&str> = Race::new(0x0101);
    assert_eq!(race.fallback(), None);
    assert_eq!(race.outcome(), ReplyHeader { id: 0x0101, code: SERV_FAIL });
}

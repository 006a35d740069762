use ws_benchmark::client::{ClientResult, ClientState};
use ws_benchmark::tokens::TokenPool;

fn frame(text: &str) -> Vec<u8> {
    text.as_bytes().to_vec()
}

fn established(state: &mut ClientState, pool: &TokenPool, now: u64) -> Vec<u8> {
    let out = state.on_text(pool, &frame(r#"{"event":"pusher:connection_established"}"#), now, false);
    out.reply.expect("established must trigger a subscribe frame")
}

fn ack(state: &mut ClientState, pool: &TokenPool, now: u64, gate: bool) {
    let out = state.on_text(
        pool,
        &frame(r#"{"event":"pusher_internal:subscription_succeeded"}"#),
        now,
        gate,
    );
    assert!(out.reply.is_none());
}

#[test]
fn handshake_records_subscribe_latency() {
    let pool = TokenPool::generate_fake(50);
    let mut state = ClientState::connected(1, b"chan".to_vec());
    let reply = established(&mut state, &pool, 100);
    assert!(reply.starts_with(br#"{"event":"pusher:subscribe","data":{"channel":"chan","filter":"#));
    assert_eq!(state.subscribe_time, Some(100));
    ack(&mut state, &pool, 117, false);
    let r = state.finish();
    assert!(r.connected);
    assert!(r.subscribe_success);
    assert_eq!(r.subscribe_latency_ms, Some(17));
}

#[test]
fn ack_without_subscribe_is_ignored() {
    let pool = TokenPool::generate_fake(5);
    let mut state = ClientState::connected(1, b"chan".to_vec());
    ack(&mut state, &pool, 50, true);
    let r = state.finish();
    assert!(!r.subscribe_success);
    assert_eq!(r.subscribe_latency_ms, None);
}

#[test]
fn raw_ping_gets_raw_pong() {
    let pool = TokenPool::generate_fake(5);
    let mut state = ClientState::connected(1, b"chan".to_vec());
    let out = state.on_text(&pool, &frame("ping"), 10, false);
    assert_eq!(out.reply, Some(b"pong".to_vec()));
    assert!(!out.delivered);
}

#[test]
fn control_ping_gets_control_pong() {
    let pool = TokenPool::generate_fake(5);
    let mut state = ClientState::connected(1, b"chan".to_vec());
    let out = state.on_text(&pool, &frame(r#"{"event":"pusher:ping"}"#), 10, false);
    assert_eq!(out.reply, Some(br#"{"event":"pusher:pong","data":{}}"#.to_vec()));
}

#[test]
fn pusher_error_changes_nothing() {
    let pool = TokenPool::generate_fake(5);
    let mut state = ClientState::connected(1, b"chan".to_vec());
    established(&mut state, &pool, 0);
    let out = state.on_text(&pool, &frame(r#"{"event":"pusher:error","data":"boom"}"#), 5, false);
    assert!(out.reply.is_none());
    assert!(!out.delivered);
    let r = state.finish();
    assert!(r.connected);
    assert!(!r.subscribe_success);
    assert!(!r.connection_error);
}

#[test]
fn delivery_after_gate_counts_and_samples() {
    let pool = TokenPool::generate_fake(5);
    let mut state = ClientState::connected(1, b"chan".to_vec());
    established(&mut state, &pool, 0);
    ack(&mut state, &pool, 3, false);
    let text = frame(r#"{"event":"pair","channel":"chan","tags":{"timestamp":983}}"#);
    let out = state.on_text(&pool, &text, 1000, true);
    assert!(out.delivered);
    let r = state.finish();
    assert_eq!(r.messages_received, 1);
    assert_eq!(r.warmup_messages, 0);
    assert_eq!(r.e2e_latencies, vec![17]);
}

#[test]
fn delivery_during_warmup_counts_but_never_samples() {
    let pool = TokenPool::generate_fake(5);
    let mut state = ClientState::connected(1, b"chan".to_vec());
    established(&mut state, &pool, 0);
    ack(&mut state, &pool, 3, false);
    let text = frame(r#"{"event":"pair","channel":"chan","tags":{"timestamp":983}}"#);
    let out = state.on_text(&pool, &text, 1000, false);
    assert!(out.delivered);
    let r = state.finish();
    assert_eq!(r.messages_received, 0);
    assert_eq!(r.warmup_messages, 1);
    assert!(r.e2e_latencies.is_empty());
    assert!(r.filter_update_latencies.is_empty());
}

#[test]
fn clock_behind_timestamp_saturates_to_zero() {
    let pool = TokenPool::generate_fake(5);
    let mut state = ClientState::connected(1, b"chan".to_vec());
    established(&mut state, &pool, 0);
    ack(&mut state, &pool, 1, false);
    let text = frame(r#"{"event":"pair","channel":"chan","tags":{"timestamp":5000}}"#);
    state.on_text(&pool, &text, 4000, true);
    let r = state.finish();
    assert_eq!(r.e2e_latencies, vec![0]);
}

#[test]
fn stale_timestamp_is_discarded_but_counted() {
    let pool = TokenPool::generate_fake(5);
    let mut state = ClientState::connected(1, b"chan".to_vec());
    established(&mut state, &pool, 0);
    ack(&mut state, &pool, 1, false);
    let text = frame(r#"{"event":"pair","channel":"chan","tags":{"timestamp":1000}}"#);
    state.on_text(&pool, &text, 61000, true);
    let r = state.finish();
    assert_eq!(r.messages_received, 1);
    assert!(r.e2e_latencies.is_empty());
}

#[test]
fn delivery_without_timestamp_is_counted_without_sample() {
    let pool = TokenPool::generate_fake(5);
    let mut state = ClientState::connected(1, b"chan".to_vec());
    established(&mut state, &pool, 0);
    ack(&mut state, &pool, 1, false);
    let text = frame(r#"{"event":"pair","channel":"chan","data":{"x":1}}"#);
    state.on_text(&pool, &text, 500, true);
    let r = state.finish();
    assert_eq!(r.messages_received, 1);
    assert!(r.e2e_latencies.is_empty());
}

#[test]
fn deliveries_before_subscription_or_off_channel_are_ignored() {
    let pool = TokenPool::generate_fake(5);
    let mut state = ClientState::connected(1, b"chan".to_vec());
    let text = frame(r#"{"event":"pair","channel":"chan","tags":{"timestamp":1}}"#);
    let out = state.on_text(&pool, &text, 10, true);
    assert!(!out.delivered);
    established(&mut state, &pool, 10);
    ack(&mut state, &pool, 12, true);
    let other = frame(r#"{"event":"pair","channel":"other","tags":{"timestamp":1}}"#);
    let out = state.on_text(&pool, &other, 20, true);
    assert!(!out.delivered);
    let r = state.finish();
    assert_eq!(r.messages_received, 0);
    assert_eq!(r.warmup_messages, 0);
}

#[test]
fn malformed_frames_are_dropped_silently() {
    let pool = TokenPool::generate_fake(5);
    let mut state = ClientState::connected(1, b"chan".to_vec());
    let out = state.on_text(&pool, &frame("{{{"), 10, false);
    assert!(out.reply.is_none());
    assert!(!out.delivered);
    let r = state.finish();
    assert!(r.connected);
}

#[test]
fn tick_issues_update_and_ack_records_under_gate() {
    let pool = TokenPool::generate_fake(20);
    let mut state = ClientState::connected(2, b"chan".to_vec());
    established(&mut state, &pool, 0);
    ack(&mut state, &pool, 2, false);
    let reply = state.on_tick(&pool, 1000).expect("tick after subscribe must send");
    assert!(reply.starts_with(br#"{"event":"pusher:subscribe""#));
    assert!(state.is_updating);
    assert_eq!(state.update_time, Some(1000));
    ack(&mut state, &pool, 1040, true);
    assert!(!state.is_updating);
    let r = state.finish();
    assert_eq!(r.filter_update_latencies, vec![40]);
    assert_eq!(r.subscribe_latency_ms, Some(2));
}

#[test]
fn update_ack_during_warmup_is_not_sampled() {
    let pool = TokenPool::generate_fake(20);
    let mut state = ClientState::connected(2, b"chan".to_vec());
    established(&mut state, &pool, 0);
    ack(&mut state, &pool, 2, false);
    state.on_tick(&pool, 100).expect("tick after subscribe must send");
    ack(&mut state, &pool, 150, false);
    assert!(!state.is_updating);
    let r = state.finish();
    assert!(r.filter_update_latencies.is_empty());
}

#[test]
fn tick_before_subscription_sends_nothing() {
    let pool = TokenPool::generate_fake(20);
    let mut state = ClientState::connected(2, b"chan".to_vec());
    assert!(state.on_tick(&pool, 100).is_none());
    established(&mut state, &pool, 200);
    assert!(state.on_tick(&pool, 300).is_none());
}

#[test]
fn transport_error_marks_the_record() {
    let pool = TokenPool::generate_fake(5);
    let mut state = ClientState::connected(1, b"chan".to_vec());
    established(&mut state, &pool, 0);
    state.on_transport_error();
    let r = state.finish();
    assert!(r.connected);
    assert!(r.connection_error);
}

#[test]
fn blank_records() {
    let e = ClientResult::empty();
    assert!(!e.connected && !e.subscribe_success && !e.connection_error);
    assert_eq!(e.messages_received, 0);
    let f = ClientResult::connect_failed();
    assert!(!f.connected && !f.subscribe_success && f.connection_error);
}

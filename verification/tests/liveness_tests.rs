use rusty_controller::constants::{POLL_INTERVAL_MS, TIMEOUT_THRESHOLD_MS};
use rusty_controller::liveness::{step, Action, Event, LivenessState, Mode};

#[test]
fn countdown_fires_once_past_threshold() {
    // timeout 10, poll 5: ticks reach 5, then 10 (not past), and the
    // third tick would reach 15 > 10, so it fires and resets.
    let mut s = LivenessState::new(10, 5);
    assert!(!s.tick());
    assert_eq!(s.elapsed_ms, 5);
    assert!(!s.tick());
    assert_eq!(s.elapsed_ms, 10);
    assert!(s.tick());
    assert_eq!(s.elapsed_ms, 0);
}

#[test]
fn datagram_resets_countdown() {
    let mut s = LivenessState::new(10, 5);
    assert!(!s.tick());
    assert!(!s.tick());
    s.on_datagram();
    assert_eq!(s.elapsed_ms, 0);
    // A full period is needed again before the next fire.
    assert!(!s.tick());
    assert!(!s.tick());
    assert!(s.tick());
}

#[test]
fn fires_exactly_once_per_period_at_real_rates() {
    // 30 s threshold at a 5 ms poll interval: the period is
    // 30000/5 + 1 = 6001 silent ticks.
    let mut s = LivenessState::new(TIMEOUT_THRESHOLD_MS, POLL_INTERVAL_MS);
    let mut fires = 0u32;
    for _ in 0..6001 {
        if s.tick() {
            fires += 1;
        }
    }
    assert_eq!(fires, 1);
    assert_eq!(s.elapsed_ms, 0);
    // And again: the next period also fires exactly once, on its last
    // tick.
    for _ in 0..6000 {
        assert!(!s.tick());
    }
    assert!(s.tick());
}

#[test]
fn handshake_completion_enters_streaming() {
    let mut s = LivenessState::new(30000, 5);
    let (mode, action) = step(Mode::AwaitingHandshake, &mut s, Event::Datagram(true));
    assert_eq!(mode, Mode::Streaming);
    assert_eq!(action, Action::RunHandshake);
    assert_eq!(s.elapsed_ms, 0);
}

#[test]
fn recv_error_abandons_handshake() {
    let mut s = LivenessState::new(30000, 5);
    let (mode, action) = step(Mode::AwaitingHandshake, &mut s, Event::RecvError);
    assert_eq!(mode, Mode::Streaming);
    assert_eq!(action, Action::Idle);
}

#[test]
fn streaming_datagram_applies_frame_and_resets() {
    let mut s = LivenessState::new(30000, 5);
    s.tick();
    let (mode, action) = step(Mode::Streaming, &mut s, Event::Datagram(true));
    assert_eq!(mode, Mode::Streaming);
    assert_eq!(action, Action::ApplyFrame);
    assert_eq!(s.elapsed_ms, 0);
}

#[test]
fn streaming_empty_datagram_resets_without_frame() {
    let mut s = LivenessState::new(30000, 5);
    s.tick();
    let (mode, action) = step(Mode::Streaming, &mut s, Event::Datagram(false));
    assert_eq!(mode, Mode::Streaming);
    assert_eq!(action, Action::Idle);
    assert_eq!(s.elapsed_ms, 0);
}

#[test]
fn streaming_recv_error_keeps_countdown() {
    let mut s = LivenessState::new(30000, 5);
    s.tick();
    let before = s.elapsed_ms;
    let (mode, action) = step(Mode::Streaming, &mut s, Event::RecvError);
    assert_eq!(mode, Mode::Streaming);
    assert_eq!(action, Action::Idle);
    assert_eq!(s.elapsed_ms, before);
}

#[test]
fn timeout_returns_to_awaiting_handshake() {
    let mut s = LivenessState::new(10, 5);
    assert_eq!(step(Mode::Streaming, &mut s, Event::PollTick).0, Mode::Streaming);
    assert_eq!(step(Mode::Streaming, &mut s, Event::PollTick).0, Mode::Streaming);
    let (mode, action) = step(Mode::Streaming, &mut s, Event::PollTick);
    assert_eq!(mode, Mode::AwaitingHandshake);
    assert_eq!(action, Action::RunHandshake);
    assert_eq!(s.elapsed_ms, 0);
}

#[test]
fn waiting_tick_stays_waiting() {
    let mut s = LivenessState::new(10, 5);
    let (mode, action) = step(Mode::AwaitingHandshake, &mut s, Event::PollTick);
    assert_eq!(mode, Mode::AwaitingHandshake);
    assert_eq!(action, Action::Idle);
}

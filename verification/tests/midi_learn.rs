use gled::midi::learn::{
    best_trigger, capture, count_message, finalize_session, match_data1_for_status,
    set_streaming_enabled, should_finalize, LearnFlags, LearnSession, LearnState, LearnStats,
    MidiLearnRequest, MidiLearnTarget,
};
use gled::pair_table::PairTable;

fn request() -> MidiLearnRequest {
    MidiLearnRequest { controller_id: 42, target: MidiLearnTarget::InputBinding(3) }
}

fn stats(entries: &[((u8, u8), u32, u8, u8)]) -> PairTable<LearnStats> {
    let mut t = PairTable::new();
    for &(key, count, min_value, max_value) in entries {
        t.insert(key, LearnStats { count, min_value, max_value });
    }
    t
}

#[test]
fn data1_matters_except_for_channel_wide_messages() {
    assert!(match_data1_for_status(0x90));
    assert!(match_data1_for_status(0xB3));
    assert!(!match_data1_for_status(0xC0));
    assert!(!match_data1_for_status(0xD5));
    assert!(!match_data1_for_status(0xEF));
}

#[test]
fn best_trigger_prefers_count_then_span() {
    assert_eq!(best_trigger(&stats(&[])), None);
    let t = stats(&[((0x90, 60), 2, 10, 10), ((0xB0, 7), 3, 0, 5), ((0xB0, 8), 3, 0, 90)]);
    assert_eq!(best_trigger(&t), Some((0xB0, 8)));
}

#[test]
fn fine_controller_half_counts_as_coarse_half() {
    // data1 39 on a control change is the low-resolution half of controller 7.
    let t = stats(&[((0xB0, 7), 2, 0, 1), ((0xB0, 39), 2, 0, 100), ((0x90, 1), 3, 0, 0)]);
    assert_eq!(best_trigger(&t), Some((0xB0, 7)));
}

#[test]
fn counting_messages_tracks_range() {
    let mut t = PairTable::new();
    count_message(&mut t, (0xB0, 1), 50);
    count_message(&mut t, (0xB0, 1), 20);
    count_message(&mut t, (0xB0, 1), 70);
    assert_eq!(t.get((0xB0, 1)), Some(LearnStats { count: 3, min_value: 20, max_value: 70 }));
}

#[test]
fn sessions_end_on_count_time_or_silence() {
    let mut session = LearnSession {
        request: request(),
        started_at_ns: 1_000,
        last_seen_at_ns: None,
        stats: stats(&[((0x90, 1), 1, 0, 0)]),
    };
    assert!(!should_finalize(&session, 1_000));
    assert!(should_finalize(&session, 1_000 + 2_000_000_000));
    session.last_seen_at_ns = Some(5_000);
    assert!(!should_finalize(&session, 5_000 + 179_999_999));
    assert!(should_finalize(&session, 5_000 + 180_000_000));
    session.stats = stats(&[((0x90, 1), 8, 0, 0)]);
    assert!(should_finalize(&session, 1_000));
    session.stats = PairTable::new();
    assert!(!should_finalize(&session, u64::MAX));
}

#[test]
fn finalizing_gives_the_request_and_best_trigger() {
    let session = LearnSession {
        request: request(),
        started_at_ns: 0,
        last_seen_at_ns: None,
        stats: stats(&[((0xC2, 5), 4, 0, 0)]),
    };
    let capture = finalize_session(session).expect("a capture");
    assert_eq!(capture.controller_id, 42);
    assert_eq!(capture.target, MidiLearnTarget::InputBinding(3));
    assert_eq!((capture.trigger.status, capture.trigger.data1), (0xC2, 5));
    assert!(!capture.trigger.match_data1);
    let empty = LearnSession { request: request(), started_at_ns: 0, last_seen_at_ns: None, stats: PairTable::new() };
    assert!(finalize_session(empty).is_none());
}

#[test]
fn capture_needs_streaming_and_learning() {
    let mut flags = LearnFlags::new();
    assert!(!capture(&flags, &[0x90, 1, 2]));
    flags.stream_enabled = true;
    flags.learn_active = true;
    assert!(capture(&flags, &[0x90, 1, 2]));
    assert!(!capture(&flags, &[0x90, 1]));
    set_streaming_enabled(&mut flags, false);
    assert!(!flags.learn_active);
    assert!(!capture(&flags, &[0x90, 1, 2]));
}

#[test]
fn learn_state_captures_after_eight_messages() {
    let mut state = LearnState::new();
    state.set_streaming_enabled(true);
    state.arm(request(), 0);
    assert!(state.flags.learn_active);
    assert_eq!(state.active_request(), Some(request()));
    for i in 0..7u8 {
        state.record_message([0xB0, 21, i], 10 + i as u64);
        assert!(state.active_request().is_some());
    }
    state.record_message([0xB0, 21, 99], 20);
    assert!(state.active_request().is_none());
    assert!(!state.flags.learn_active);
    let capture = state.pop_capture().expect("a capture");
    assert_eq!((capture.trigger.status, capture.trigger.data1, capture.trigger.match_data1), (0xB0, 21, true));
    assert!(state.pop_capture().is_none());
}

#[test]
fn learn_state_times_out_after_silence() {
    let mut state = LearnState::new();
    state.arm(request(), 0);
    state.record_message([0x90, 64, 127], 100);
    state.flush_timeouts(100 + 179_999_999);
    assert!(state.active_request().is_some());
    state.flush_timeouts(100 + 180_000_000);
    assert!(state.active_request().is_none());
    assert_eq!(state.pop_capture().map(|c| c.trigger.data1), Some(64));
}

#[test]
fn switching_streaming_off_drops_the_session() {
    let mut state = LearnState::new();
    state.arm(request(), 0);
    state.set_streaming_enabled(false);
    assert!(state.active_request().is_none());
    state.record_message([0x90, 1, 1], 5);
    assert!(state.pop_capture().is_none());
}

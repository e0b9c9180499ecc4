use gled::osc::feedback::Subscribers;
use gled::osc::parse::parse_message;
use gled::osc::{scene_color_name, ClientInterestCommand, OscArg, OscMessage};
use gled::ring_buffer::PrimitiveRingBuffer;
use gled::scene::SceneInstanceColor;
use gled::text::{chars_of, trim};

fn msg(addr: &str, args: Vec<OscArg>) -> OscMessage {
    OscMessage { addr: addr.to_string(), args }
}

#[test]
fn ring_buffer_reads_repeat_every_capacity() {
    let mut ring = PrimitiveRingBuffer::new(0u32, 3);
    for v in [5, 6, 7] {
        ring.progress();
        ring.insert(v);
    }
    for k in -4..4 {
        assert_eq!(ring.get_from_offset(k), ring.get_from_offset(k + 3));
    }
    assert_eq!(ring.get_from_offset(3), 7);
    assert_eq!(ring.get_from_offset(-6), 7);
}

#[test]
fn ring_buffer_progress_shifts_reads_and_slides_a_window() {
    let mut ring = PrimitiveRingBuffer::new(0u32, 4);
    for v in [1, 2, 3, 4] {
        ring.progress();
        ring.insert(v);
    }
    let before: Vec<u32> = (-4..4).map(|k| ring.get_from_offset(k + 1)).collect();
    ring.progress();
    let after: Vec<u32> = (-4..4).map(|k| ring.get_from_offset(k)).collect();
    assert_eq!(before, after);
    ring.insert(9);
    assert_eq!(ring.get_from_offset(0), 9);
    assert_eq!(ring.get_from_offset(-1), 4);
    // Four advances bring the write slot back.
    for _ in 0..4 {
        ring.progress();
    }
    assert_eq!(ring.get_from_offset(0), 9);
}

#[test]
fn subscription_follows_the_last_subscribe_and_unsubscribe() {
    let a = (1u128, 9000u16);
    let b = (2u128, 9000u16);
    let mut subs = Subscribers::new();
    subs.apply_command(ClientInterestCommand::Heartbeat, a, 1);
    assert!(!subs.has_subscribers());
    subs.apply_command(ClientInterestCommand::Subscribe, a, 2);
    subs.apply_command(ClientInterestCommand::Subscribe, b, 3);
    subs.apply_command(ClientInterestCommand::Unsubscribe, b, 4);
    subs.apply_command(ClientInterestCommand::Heartbeat, a, 5);
    subs.apply_command(ClientInterestCommand::Heartbeat, b, 6);
    assert_eq!(subs.table.get(a), Some(5));
    assert_eq!(subs.table.get(b), None);
    subs.apply_command(ClientInterestCommand::Unsubscribe, a, 7);
    assert!(!subs.has_subscribers());
}

#[test]
fn static_suffix_sets_like_the_plain_field() {
    let args = vec![OscArg::Float(0.5f32.to_bits())];
    for (plain, with_static) in [
        ("/scene/grid/1/2/opacity", "/scene/grid/1/2/opacity/static"),
        ("/scene/quick/3/beat_offset", "/scene/quick/3/beat_offset/static"),
        ("/scene/selected/effect/1/color_shift", "/scene/selected/effect/1/color_shift/static"),
    ] {
        let a = parse_message(&msg(plain, args.clone()));
        assert!(a.is_ok());
        assert_eq!(a, parse_message(&msg(with_static, args.clone())));
    }
}

#[test]
fn colour_names_are_distinct_and_read_back() {
    let colours = [
        SceneInstanceColor::Red,
        SceneInstanceColor::Green,
        SceneInstanceColor::Blue,
        SceneInstanceColor::White,
        SceneInstanceColor::Orange,
        SceneInstanceColor::Yellow,
        SceneInstanceColor::Purple,
        SceneInstanceColor::Pink,
        SceneInstanceColor::Black,
    ];
    for (i, a) in colours.iter().enumerate() {
        for (j, b) in colours.iter().enumerate() {
            assert_eq!(i == j, scene_color_name(*a) == scene_color_name(*b));
        }
        let m = msg("/scene/selected/color", vec![OscArg::Str(scene_color_name(*a).to_string())]);
        assert_eq!(
            parse_message(&m),
            parse_message(&msg("/scene/selected/color", vec![OscArg::Str(scene_color_name(*a).to_uppercase())]))
        );
    }
}

#[test]
fn trim_drops_unicode_white_space() {
    let text = chars_of("\u{3000}\u{00A0} pad\tx \u{2029}\u{85}");
    assert_eq!(trim(&text), chars_of("pad\tx"));
    let kept = chars_of("\u{200B}y");
    assert_eq!(trim(&kept), kept);
}

#[test]
fn feedback_ends_when_an_expiry_finds_the_client_silent() {
    let a = (1u128, 9000u16);
    let s = 1_000_000_000u64;
    let mut subs = Subscribers::new();
    subs.apply_command(ClientInterestCommand::Subscribe, a, 0);
    subs.expire(29 * s);
    assert_eq!(subs.table.get(a), Some(0));
    subs.apply_command(ClientInterestCommand::Heartbeat, a, 29 * s);
    subs.expire(58 * s);
    assert_eq!(subs.table.get(a), Some(29 * s));
    subs.expire(60 * s);
    assert!(!subs.has_subscribers());
    // A heartbeat after the drop does not bring the client back.
    subs.apply_command(ClientInterestCommand::Heartbeat, a, 61 * s);
    assert!(!subs.has_subscribers());
}

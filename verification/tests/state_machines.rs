use gled::adsr::{next_gate, next_phase, AdsrPhase, LevelMarks};
use gled::external_control::{ArtnetControlConfig, ExternalControlState};
use gled::input::{axis_action, ArtnetEvent, GamepadAction, InputState};
use gled::network_stats::NetworkStats;
use gled::osc::feedback::Subscribers;
use gled::osc::{scene_color_name, ClientInterestCommand, OscConfig};
use gled::output_routings::{OutputRouting, OutputRoutings};
use gled::ring_buffer::PrimitiveRingBuffer;
use gled::scene::SceneInstanceColor;
use gled::ui_action::{GamepadEvent, InputEvent};

#[test]
fn ring_buffer_reads_relative_to_write_slot() {
    let mut ring = PrimitiveRingBuffer::new(0u32, 3);
    ring.insert(7);
    assert_eq!(ring.get_from_offset(0), 7);
    ring.progress();
    ring.insert(8);
    assert_eq!(ring.get_from_offset(0), 8);
    assert_eq!(ring.get_from_offset(-1), 7);
    assert_eq!(ring.get_from_offset(2), 7);
    assert_eq!(ring.get_from_offset(1), 0);
    assert_eq!(ring.get_from_offset(-4), 7);
}

#[test]
fn ring_buffer_wraps_around() {
    let mut ring = PrimitiveRingBuffer::new(0u8, 2);
    for v in 1..=5u8 {
        ring.progress();
        ring.insert(v);
    }
    assert_eq!(ring.get_from_offset(0), 5);
    assert_eq!(ring.get_from_offset(-1), 4);
    assert_eq!(ring.get_from_offset(-2), 5);
}

#[test]
fn adsr_phases_follow_the_gate() {
    let none = LevelMarks { at_peak: false, at_or_below_sustain: false, at_or_below_zero: false };
    let peak = LevelMarks { at_peak: true, ..none };
    assert_eq!(next_phase(AdsrPhase::Idle, true, none), AdsrPhase::Attack);
    assert_eq!(next_phase(AdsrPhase::Idle, false, none), AdsrPhase::Idle);
    assert_eq!(next_phase(AdsrPhase::Attack, true, none), AdsrPhase::Attack);
    assert_eq!(next_phase(AdsrPhase::Attack, true, peak), AdsrPhase::Decay);
    assert_eq!(next_phase(AdsrPhase::Decay, true, LevelMarks { at_or_below_sustain: true, ..none }), AdsrPhase::Sustain);
    assert_eq!(next_phase(AdsrPhase::Sustain, false, none), AdsrPhase::Release);
    assert_eq!(next_phase(AdsrPhase::Release, true, none), AdsrPhase::Attack);
    assert_eq!(next_phase(AdsrPhase::Release, false, LevelMarks { at_or_below_zero: true, ..none }), AdsrPhase::Idle);
    assert!(next_gate(false, true, false));
    assert!(!next_gate(true, true, false));
    assert!(next_gate(true, false, true));
}

#[test]
fn input_state_tracks_live_and_new_inputs() {
    let mut input = InputState::new();
    input.begin_tick();
    input.artnet_event(ArtnetEvent { channel: 5, value: 200 });
    assert_eq!(input.event_live_value(&InputEvent::Artnet(5)), Some(200));
    input.artnet_event(ArtnetEvent { channel: 5, value: 0 });
    assert_eq!(input.event_live_value(&InputEvent::Artnet(5)), None);

    let south = GamepadEvent::South(0);
    input.apply_gamepad_action(GamepadAction::Press(south, 150));
    assert_eq!(input.event_live_value(&InputEvent::Gamepad(south)), Some(150));
    assert!(input.is_event_new(&InputEvent::Gamepad(south)));
    assert_eq!(input.first_new_event(), Some(InputEvent::Gamepad(south)));
    input.begin_tick();
    assert_eq!(input.first_new_event(), None);
    input.apply_gamepad_action(GamepadAction::Release(south));
    assert_eq!(input.event_live_value(&InputEvent::Gamepad(south)), None);

    input.set_keys_down(&vec![3, 4]);
    assert!(input.is_event_new(&InputEvent::Key(3)));
    assert_eq!(input.event_live_value(&InputEvent::Key(4)), Some(255));
    input.begin_tick();
    input.set_keys_down(&vec![4]);
    assert_eq!(input.event_live_value(&InputEvent::Key(3)), None);
    assert!(!input.is_event_new(&InputEvent::Key(4)));
}

#[test]
fn axes_press_one_side_at_a_time() {
    let min = GamepadEvent::LeftStickXMin(1);
    let max = GamepadEvent::LeftStickXMax(1);
    assert_eq!(axis_action(min, max, -150), GamepadAction::PressRelease { press: min, release: max, value: 150 });
    assert_eq!(axis_action(min, max, 256), GamepadAction::PressRelease { press: max, release: min, value: 0 });
    assert_eq!(axis_action(min, max, 100), GamepadAction::Release2(min, max));
    let mut input = InputState::new();
    input.apply_gamepad_action(axis_action(min, max, -150));
    assert_eq!(input.event_live_value(&InputEvent::Gamepad(min)), Some(150));
    input.apply_gamepad_action(axis_action(min, max, 200));
    assert_eq!(input.event_live_value(&InputEvent::Gamepad(min)), None);
    assert_eq!(input.event_live_value(&InputEvent::Gamepad(max)), Some(200));
    input.apply_gamepad_action(GamepadAction::Ignore);
    assert_eq!(input.event_live_value(&InputEvent::Gamepad(max)), Some(200));
}

#[test]
fn subscribers_expire_without_heartbeat() {
    let a = (0x7f00_0001u128, 9000u16);
    let b = (0x7f00_0001u128, 9001u16);
    let mut subs = Subscribers::new();
    assert!(!subs.has_subscribers());
    subs.apply_command(ClientInterestCommand::Heartbeat, a, 0);
    assert!(!subs.has_subscribers());
    subs.apply_command(ClientInterestCommand::Subscribe, a, 0);
    subs.apply_command(ClientInterestCommand::Subscribe, b, 10_000_000_000);
    assert!(subs.has_subscribers());
    subs.expire(30_000_000_000);
    assert_eq!(subs.table.get(a), None);
    assert_eq!(subs.table.get(b), Some(10_000_000_000));
    subs.apply_command(ClientInterestCommand::Heartbeat, b, 35_000_000_000);
    subs.expire(60_000_000_000);
    assert_eq!(subs.table.get(b), Some(35_000_000_000));
    subs.apply_command(ClientInterestCommand::Unsubscribe, b, 61_000_000_000);
    assert!(!subs.has_subscribers());
}

#[test]
fn artnet_scene_control_decodes_whole_slots() {
    assert_eq!(ArtnetControlConfig::default(), ArtnetControlConfig { active: false, universe: 1337 });
    let mut control = ExternalControlState::new();
    let mut dmx = vec![0u8; 50];
    dmx[0] = 3;
    dmx[2] = 255;
    dmx[4] = 127;
    dmx[23] = 0;
    dmx[25] = 0;
    let changes = control.process_dmx(&dmx);
    assert_eq!(changes.len(), 2);
    assert!(changes[0].scene_changed);
    assert!(changes[0].active);
    assert_eq!(changes[0].speed_exponent, 127);
    assert!(!changes[1].scene_changed);
    assert!(!changes[1].active);
    let again = control.process_dmx(&dmx);
    assert!(!again[0].scene_changed);
    assert_eq!(control.process_dmx(&dmx[..22]).len(), 0);
    assert_eq!(control.process_dmx(&vec![0u8; 512]).len(), 10);
}

#[test]
fn network_stats_count_and_reset() {
    let mut stats = NetworkStats::new();
    stats.add_incoming_bytes(10);
    stats.add_incoming_bytes(5);
    stats.add_outgoing_bytes(7);
    assert_eq!(stats.take_counts(), (15, 7));
    assert_eq!(stats.take_counts(), (0, 0));
    stats.add_outgoing_bytes(usize::MAX);
    stats.add_outgoing_bytes(2);
    assert_eq!(stats.take_counts(), (0, 1));
    stats.set_summary("In: 1.00 MBit/s".to_string());
    assert_eq!(stats.stats(), "In: 1.00 MBit/s");
}

#[test]
fn output_routing_defaults_once() {
    let mut routings = OutputRoutings::new();
    assert_eq!(routings.universe_output_routing(3), OutputRouting { device: None, universe: None });
    routings.set_universe_output_routing(3, OutputRouting { device: Some(9), universe: Some(1) });
    assert_eq!(routings.universe_output_routing(3), OutputRouting { device: Some(9), universe: Some(1) });
    assert_eq!(routings.universe_output_routing(4), OutputRouting::default());
}

#[test]
fn osc_defaults_and_color_names() {
    assert_eq!(OscConfig::default(), OscConfig { active: false, port: 8000 });
    assert_eq!(scene_color_name(SceneInstanceColor::Purple), "purple");
    assert_eq!(scene_color_name(SceneInstanceColor::Black), "black");
}

use gled::artnet_input::{port_address, ArtnetConfig};
use gled::input::ArtnetEvent;
use gled::output_routings::OutputRouting;

#[test]
fn input_universe_data_becomes_channel_events() {
    let mut config = ArtnetConfig::default();
    assert_eq!(config.universe, 18);
    let d = config.dispatch_output(18, &[0, 7, 255], 100);
    assert_eq!(
        d.events,
        vec![
            ArtnetEvent { channel: 0, value: 0 },
            ArtnetEvent { channel: 1, value: 7 },
            ArtnetEvent { channel: 2, value: 255 },
        ]
    );
    assert_eq!(d.control, None);
    assert_eq!(d.output_routing, OutputRouting { device: None, universe: None });
    assert!(!d.htp);
}

#[test]
fn control_universe_data_goes_to_scene_control() {
    let mut config = ArtnetConfig::default();
    let d = config.dispatch_output(1337, &[1, 2, 3], 5);
    assert!(d.events.is_empty());
    assert_eq!(d.control, Some(vec![1, 2, 3]));
}

#[test]
fn every_packet_is_counted_on_its_bridge() {
    let mut config = ArtnetConfig::default();
    config.dispatch_output(4, &[1], 10);
    let d = config.dispatch_output(4, &[2], 20);
    assert!(d.events.is_empty() && d.control.is_none());
    let b = config.bridge.get(4).unwrap();
    assert_eq!(b.updates, 2);
    assert_eq!(b.last_data_at_ms, 20);
    assert_eq!(config.bridge.get(5), None);
}

#[test]
fn universe_beyond_port_range_listens_on_zero() {
    assert_eq!(port_address(18), 18);
    assert_eq!(port_address(32767), 32767);
    assert_eq!(port_address(40000), 0);
    let mut config = ArtnetConfig::default();
    config.universe = 40000;
    assert_eq!(config.dispatch_output(0, &[9], 1).events, vec![ArtnetEvent { channel: 0, value: 9 }]);
}

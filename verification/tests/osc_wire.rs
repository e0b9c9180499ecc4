use gled::osc::wire::{receive_packet, ReceivedPacket};
use gled::osc::ClientInterestCommand;
use gled::scene::SceneInstanceUnion;
use gled::ui_action::{Number, UiAction};
use rosc::{encoder, OscBundle, OscMessage, OscPacket, OscTime, OscType};

fn datagram(addr: &str, args: Vec<OscType>) -> Vec<u8> {
    encoder::encode(&OscPacket::Message(OscMessage { addr: addr.to_string(), args })).unwrap()
}

#[test]
fn received_command_is_decoded_and_parsed() {
    let bytes = datagram("/project/main_dimmer", vec![OscType::Float(0.5)]);
    assert_eq!(
        receive_packet(&bytes),
        ReceivedPacket::Action(UiAction::SetMainDimmer(Number::F32Bits(0.5f32.to_bits())))
    );
    let bytes = datagram("/scene/selected/toggle", vec![]);
    assert_eq!(
        receive_packet(&bytes),
        ReceivedPacket::Action(UiAction::ToggleSceneActive(SceneInstanceUnion::Selected))
    );
}

#[test]
fn received_subscription_requests_never_reach_the_parser() {
    let bytes = datagram("/osc/state/subscribe", vec![]);
    assert_eq!(receive_packet(&bytes), ReceivedPacket::Interest(ClientInterestCommand::Subscribe));
    let bytes = datagram("/osc/state/heartbeat", vec![OscType::Int(1)]);
    assert_eq!(receive_packet(&bytes), ReceivedPacket::Interest(ClientInterestCommand::Heartbeat));
}

#[test]
fn received_unknown_message_is_reported_with_its_content() {
    let bytes = datagram("/nothing/here", vec![OscType::String("x".to_string())]);
    match receive_packet(&bytes) {
        ReceivedPacket::Invalid(m) => {
            assert_eq!(m.addr, "/nothing/here");
            assert_eq!(m.args, vec![gled::osc::OscArg::Str("x".to_string())]);
        }
        other => panic!("unexpected {other:?}"),
    }
}

#[test]
fn garbage_and_bundles_do_not_decode_as_messages() {
    assert_eq!(receive_packet(&[]), ReceivedPacket::Undecodable);
    assert_eq!(receive_packet(b"not osc"), ReceivedPacket::Undecodable);
    let bundle = encoder::encode(&OscPacket::Bundle(OscBundle {
        timetag: OscTime { seconds: 0, fractional: 1 },
        content: vec![],
    }))
    .unwrap();
    assert_eq!(receive_packet(&bundle), ReceivedPacket::Undecodable);
}

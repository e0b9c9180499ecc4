//! Received OSC packets: decoding the bytes of a UDP datagram into a
//! message, and what the receiver makes of it.
use vstd::prelude::*;

use super::parse::{parse_message, spec_parse_message};
use super::{parse_client_interest_command, spec_client_interest_command, ClientInterestCommand, OscArg, OscMessage};
use crate::ui_action::UiAction;

verus! {

/// The message that `rosc::decoder::decode_udp` decodes from a datagram,
/// with its arguments converted; `None` for a bundle or bytes that are not
/// an OSC packet.
pub uninterp spec fn decoded_osc_message(bytes: Seq<u8>) -> Option<OscMessage>;

/// Decodes a UDP datagram with `rosc::decoder::decode_udp`. The contract
/// names the result: it depends on the bytes alone. A bundle, or bytes
/// that do not decode, give `None`; the arguments of a message are
/// converted one for one (floats by their bit patterns, kinds without a
/// counterpart as `Other`).
#[verifier::external_body]
pub(crate) fn decode_osc_message(bytes: &[u8]) -> (r: Option<OscMessage>)
    ensures
        r == decoded_osc_message(bytes@),
{
    let Ok((_, rosc::OscPacket::Message(m))) = rosc::decoder::decode_udp(bytes) else { return None };
    let args = m.args.into_iter().map(|a| match a {
        rosc::OscType::Int(x) => OscArg::Int(x),
        rosc::OscType::Long(x) => OscArg::Long(x),
        rosc::OscType::Float(x) => OscArg::Float(x.to_bits()),
        rosc::OscType::Double(x) => OscArg::Double(x.to_bits()),
        rosc::OscType::Bool(x) => OscArg::Bool(x),
        rosc::OscType::String(s) => OscArg::Str(s),
        _ => OscArg::Other,
    });
    Some(OscMessage { addr: m.addr, args: args.collect() })
}

/// What the receiver makes of a datagram.
#[derive(Clone, Debug, PartialEq)]
pub enum ReceivedPacket {
    /// Not an OSC message (undecodable bytes or a bundle).
    Undecodable,
    /// A request about state feedback.
    Interest(ClientInterestCommand),
    /// A command of the control API.
    Action(UiAction),
    /// A message that is neither.
    Invalid(OscMessage),
}

/// The outcome for a decoded message (or none).
pub open spec fn spec_received(m: Option<OscMessage>) -> ReceivedPacket {
    match m {
        None => ReceivedPacket::Undecodable,
        Some(msg) => match spec_client_interest_command(msg.addr@) {
            Some(c) => ReceivedPacket::Interest(c),
            None => match spec_parse_message(msg) {
                Ok(a) => ReceivedPacket::Action(a),
                Err(()) => ReceivedPacket::Invalid(msg),
            },
        },
    }
}

/// Read a message from its decoded form: a feedback request goes to the
/// subscriptions and never to the command parser; anything else is parsed
/// as a command.
pub fn receive_message(m: Option<OscMessage>) -> (r: ReceivedPacket)
    ensures
        r == spec_received(m),
{
    match m {
        None => ReceivedPacket::Undecodable,
        Some(msg) => match parse_client_interest_command(&msg) {
            Some(c) => ReceivedPacket::Interest(c),
            None => match parse_message(&msg) {
                Ok(a) => ReceivedPacket::Action(a),
                Err(()) => ReceivedPacket::Invalid(msg),
            },
        },
    }
}

/// Decode a received datagram and read it.
pub fn receive_packet(bytes: &[u8]) -> (r: ReceivedPacket)
    ensures
        r == spec_received(decoded_osc_message(bytes@)),
{
    receive_message(decode_osc_message(bytes))
}

} // verus!

//! The MIDI monitor: events shown in the user interface for the traffic
//! and the connection changes of each port.
use vstd::prelude::*;

use crate::text::{chars_of, is_text};

verus! {

/// What the monitor shows for one port.
#[derive(Clone, Debug)]
pub struct MidiPortDiagnostics {
    pub port_name: String,
    pub input_connected: bool,
    pub output_connected: bool,
    pub input_connect_failed: u32,
    pub output_connect_failed: u32,
    pub message_count: u64,
}

impl MidiPortDiagnostics {
    /// A port with nothing connected and nothing counted.
    pub fn new(port_name: &str) -> (r: Self)
        ensures
            r.port_name@ == port_name@,
            !r.input_connected,
            !r.output_connected,
            r.input_connect_failed == 0,
            r.output_connect_failed == 0,
            r.message_count == 0,
    {
        MidiPortDiagnostics {
            port_name: port_name.to_owned(),
            input_connected: false,
            output_connected: false,
            input_connect_failed: 0,
            output_connect_failed: 0,
            message_count: 0,
        }
    }
}

/// One monitor event: when (milliseconds since the Unix epoch), on which
/// port, what kind, and the message bytes if any.
#[derive(Clone, Debug)]
pub struct MidiMonitorEvent {
    pub timestamp_ms: u128,
    pub port_name: String,
    pub label: String,
    pub bytes: Vec<u8>,
}

/// Switch the live stream of raw MIDI traffic on or off.
pub fn set_streaming_enabled(stream_enabled: &mut bool, enabled: bool)
    ensures
        *final(stream_enabled) == enabled,
{
    *stream_enabled = enabled;
}

/// The label of raw MIDI traffic.
pub open spec fn is_traffic_label(label: Seq<char>) -> bool {
    label == "midi"@
}

/// The event to send for a port: raw traffic only while the live stream is
/// on; connection events always.
pub fn push_event(
    stream_enabled: bool,
    timestamp_ms: u128,
    port_name: &str,
    label: &str,
    bytes: &[u8],
) -> (r: Option<MidiMonitorEvent>)
    ensures
        r is None <==> (is_traffic_label(label@) && !stream_enabled),
        r matches Some(e) ==> e.timestamp_ms == timestamp_ms && e.port_name@ == port_name@
            && e.label@ == label@ && e.bytes@ == bytes@,
{
    let l = chars_of(label);
    if is_text(l.as_slice(), "midi") && !stream_enabled {
        return None;
    }
    Some(
        MidiMonitorEvent {
            timestamp_ms,
            port_name: port_name.to_owned(),
            label: label.to_owned(),
            bytes: vstd::slice::slice_to_vec(bytes),
        },
    )
}

} // verus!

//! Art-Net input: where the channel data of a received Art-Net output
//! packet goes. The input universe feeds channel events, the control
//! universe feeds scene control, and every universe is counted on its
//! bridge, whose routing forwards the data to an output device.
use vstd::prelude::*;

use crate::external_control::ArtnetControlConfig;
use crate::input::ArtnetEvent;
use crate::output_routings::OutputRouting;
use crate::pair_table::KeyTable;

verus! {

/// The largest Art-Net port address (15 bits).
pub const PORT_ADDRESS_MAX: u16 = 32767;

/// The port address a configured universe listens on: the universe
/// itself, or 0 when it is out of the port-address range.
pub open spec fn spec_port_address(universe: u16) -> u16 {
    if universe <= PORT_ADDRESS_MAX {
        universe
    } else {
        0
    }
}

/// The port address a configured universe listens on.
pub fn port_address(universe: u16) -> (r: u16)
    ensures
        r == spec_port_address(universe),
{
    if universe <= PORT_ADDRESS_MAX {
        universe
    } else {
        0
    }
}

/// What is known of the Art-Net data on one universe: when it last came
/// (milliseconds), how many packets came, where it is forwarded, and
/// whether it merges highest-takes-precedence.
#[derive(Clone, Copy, Debug, PartialEq, Eq, Structural)]
pub struct Bridge {
    pub last_data_at_ms: u64,
    pub updates: usize,
    pub output_routing: OutputRouting,
    pub htp: bool,
}

/// A bridge that has seen nothing and forwards nowhere.
pub open spec fn empty_bridge() -> Bridge {
    Bridge {
        last_data_at_ms: 0,
        updates: 0,
        output_routing: OutputRouting { device: None, universe: None },
        htp: false,
    }
}

/// The Art-Net input settings: the input universe, scene control, and
/// the bridges by port address.
pub struct ArtnetConfig {
    pub universe: u16,
    pub artnet_control_config: ArtnetControlConfig,
    pub bridge: KeyTable<u16, Bridge>,
}

/// Where one packet's data goes: channel events (input universe only),
/// the control data (control universe only), and the routing and merge
/// mode of the bridge of its universe.
pub struct ArtnetDispatch {
    pub events: Vec<ArtnetEvent>,
    pub control: Option<Vec<u8>>,
    pub output_routing: OutputRouting,
    pub htp: bool,
}

/// The channel events for the data of the input universe.
pub open spec fn channel_events(data: Seq<u8>) -> Seq<ArtnetEvent> {
    Seq::new(data.len(), |i: int| ArtnetEvent { channel: i as u16, value: data[i] })
}

/// The bridge of a universe after a packet at `now_ms`.
pub open spec fn bridge_after(previous: Option<Bridge>, now_ms: u64) -> Bridge {
    let b = match previous {
        Some(b) => b,
        None => empty_bridge(),
    };
    Bridge { last_data_at_ms: now_ms, updates: (b.updates + 1) as usize, ..b }
}

impl ArtnetConfig {
    /// Input universe 18, scene control off on universe 1337, no bridges.
    pub fn default() -> (r: Self)
        ensures
            r.universe == 18,
            r.artnet_control_config == (ArtnetControlConfig { active: false, universe: 1337 }),
            r.bridge.well_formed(),
            forall|u: u16| r.bridge.spec_get(u) is None,
    {
        ArtnetConfig {
            universe: 18,
            artnet_control_config: ArtnetControlConfig::default(),
            bridge: KeyTable::new(),
        }
    }

    /// Take in the data of an Art-Net output packet for `port` at `now_ms`.
    pub fn dispatch_output(&mut self, port: u16, data: &[u8], now_ms: u64) -> (r: ArtnetDispatch)
        requires
            old(self).bridge.well_formed(),
            old(self).artnet_control_config.universe <= PORT_ADDRESS_MAX,
            data@.len() <= 65536,
            match old(self).bridge.spec_get(port) {
                Some(b) => b.updates < usize::MAX,
                None => true,
            },
        ensures
            final(self).bridge.well_formed(),
            final(self).universe == old(self).universe,
            final(self).artnet_control_config == old(self).artnet_control_config,
            final(self).bridge.spec_get(port) == Some(bridge_after(old(self).bridge.spec_get(port), now_ms)),
            forall|u: u16| u != port ==> #[trigger] final(self).bridge.spec_get(u) == old(self).bridge.spec_get(u),
            r.events@ == (if port == spec_port_address(old(self).universe) {
                channel_events(data@)
            } else {
                Seq::empty()
            }),
            r.control is Some <==> port == old(self).artnet_control_config.universe,
            r.control matches Some(c) ==> c@ == data@,
            r.output_routing == bridge_after(old(self).bridge.spec_get(port), now_ms).output_routing,
            r.htp == bridge_after(old(self).bridge.spec_get(port), now_ms).htp,
    {
        let mut events: Vec<ArtnetEvent> = Vec::new();
        if port == port_address(self.universe) {
            let mut i: usize = 0;
            while i < data.len()
                invariant
                    i <= data@.len(),
                    data@.len() <= 65536,
                    events@ == channel_events(data@).take(i as int),
                decreases data@.len() - i,
            {
                events.push(ArtnetEvent { channel: i as u16, value: data[i] });
                assert(channel_events(data@).take(i as int + 1) =~= channel_events(data@).take(i as int).push(
                    ArtnetEvent { channel: i as u16, value: data@[i as int] },
                ));
                i = i + 1;
            }
            assert(channel_events(data@).take(data@.len() as int) =~= channel_events(data@));
        } else {
            assert(events@ =~= Seq::<ArtnetEvent>::empty());
        }
        let control = if port == self.artnet_control_config.universe {
            let mut copy: Vec<u8> = Vec::new();
            let mut i: usize = 0;
            while i < data.len()
                invariant
                    i <= data@.len(),
                    copy@ == data@.take(i as int),
                decreases data@.len() - i,
            {
                copy.push(data[i]);
                assert(data@.take(i as int + 1) =~= data@.take(i as int).push(data@[i as int]));
                i = i + 1;
            }
            assert(data@.take(data@.len() as int) =~= data@);
            Some(copy)
        } else {
            None
        };
        let previous = match self.bridge.get(port) {
            Some(b) => b,
            None => Bridge {
                last_data_at_ms: 0,
                updates: 0,
                output_routing: OutputRouting::default(),
                htp: false,
            },
        };
        let updated = Bridge { last_data_at_ms: now_ms, updates: previous.updates + 1, ..previous };
        let _ = self.bridge.insert(port, updated);
        ArtnetDispatch { events, control, output_routing: updated.output_routing, htp: updated.htp }
    }
}

} // verus!

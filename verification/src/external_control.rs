//! Control of grid scenes over an Art-Net universe: each of the first ten
//! grid slots is driven by a block of DMX channels, decoded here, and
//! compared with the previous block to see what changed.
use vstd::prelude::*;

verus! {

/// Grid slots driven over Art-Net.
pub const ARTNET_CONTROL_SLOTS: usize = 10;

/// DMX channels per slot.
pub const SLOT_SIZE: usize = 23;

/// Whether Art-Net scene control is on, and on which universe.
#[derive(Clone, Copy, Debug, PartialEq, Eq, Structural)]
pub struct ArtnetControlConfig {
    pub active: bool,
    pub universe: u16,
}

impl ArtnetControlConfig {
    /// Off, on universe 1337.
    pub fn default() -> (r: Self)
        ensures
            r == (ArtnetControlConfig { active: false, universe: 1337 }),
    {
        ArtnetControlConfig { active: false, universe: 1337 }
    }
}

/// One slot's channels: scene (0 for none), group, opacity, offset, speed
/// multiplier, colour mode, palette override, six unused channels and ten
/// scene-specific parameters.
#[derive(Clone, Copy, Debug)]
pub struct ArtnetSceneControlState {
    pub scene_index: u8,
    pub group_index: u8,
    pub opacity: u8,
    pub offset: u8,
    pub speed_multiplier: u8,
    pub color_mode: u8,
    pub pallet_override: u8,
    pub dummy: [u8; 6],
    pub scene_specific_parameters: [u8; 10],
}

/// Whether `s` is the decoding of the channels `b`, in declaration order.
pub open spec fn decodes(s: ArtnetSceneControlState, b: Seq<u8>) -> bool {
    &&& b.len() == SLOT_SIZE
    &&& s.scene_index == b[0]
    &&& s.group_index == b[1]
    &&& s.opacity == b[2]
    &&& s.offset == b[3]
    &&& s.speed_multiplier == b[4]
    &&& s.color_mode == b[5]
    &&& s.pallet_override == b[6]
    &&& s.dummy@ == b.subrange(7, 13)
    &&& s.scene_specific_parameters@ == b.subrange(13, 23)
}

/// The number of whole slots in `len` channels, at most the slot count.
pub open spec fn slot_count(len: int) -> int {
    if len / (SLOT_SIZE as int) < ARTNET_CONTROL_SLOTS {
        len / (SLOT_SIZE as int)
    } else {
        ARTNET_CONTROL_SLOTS as int
    }
}

impl ArtnetSceneControlState {
    /// All channels zero.
    pub fn zero() -> (r: Self)
        ensures
            decodes(r, Seq::new(23, |i: int| 0u8)),
    {
        let r = ArtnetSceneControlState {
            scene_index: 0,
            group_index: 0,
            opacity: 0,
            offset: 0,
            speed_multiplier: 0,
            color_mode: 0,
            pallet_override: 0,
            dummy: [0; 6],
            scene_specific_parameters: [0; 10],
        };
        assert(r.dummy@ =~= Seq::new(23, |i: int| 0u8).subrange(7, 13));
        assert(r.scene_specific_parameters@ =~= Seq::new(23, |i: int| 0u8).subrange(13, 23));
        r
    }

    /// Decode the slot that starts at channel `at`.
    pub fn decode(dmx: &[u8], at: usize) -> (r: Self)
        requires
            at + SLOT_SIZE <= dmx@.len(),
        ensures
            decodes(r, dmx@.subrange(at as int, at + SLOT_SIZE)),
    {
        let r = ArtnetSceneControlState {
            scene_index: dmx[at],
            group_index: dmx[at + 1],
            opacity: dmx[at + 2],
            offset: dmx[at + 3],
            speed_multiplier: dmx[at + 4],
            color_mode: dmx[at + 5],
            pallet_override: dmx[at + 6],
            dummy: [dmx[at + 7], dmx[at + 8], dmx[at + 9], dmx[at + 10], dmx[at + 11], dmx[at + 12]],
            scene_specific_parameters: [
                dmx[at + 13],
                dmx[at + 14],
                dmx[at + 15],
                dmx[at + 16],
                dmx[at + 17],
                dmx[at + 18],
                dmx[at + 19],
                dmx[at + 20],
                dmx[at + 21],
                dmx[at + 22],
            ],
        };
        let ghost b = dmx@.subrange(at as int, at + SLOT_SIZE);
        assert(r.dummy@ =~= b.subrange(7, 13));
        assert(r.scene_specific_parameters@ =~= b.subrange(13, 23));
        r
    }
}

/// What a slot's new channels ask of its grid cell.
#[derive(Clone, Copy, Debug)]
pub struct SlotChange {
    /// The slot, which is also the continuous grid index.
    pub slot: usize,
    pub state: ArtnetSceneControlState,
    /// Whether the scene differs from the slot's previous one, so that the
    /// instance is set up anew.
    pub scene_changed: bool,
    /// Whether the scene is on: it is when its opacity is not zero.
    pub active: bool,
    /// The speed exponent of the scene's effects.
    pub speed_exponent: i32,
}

/// The Art-Net scene control: the channels each slot had last.
pub struct ExternalControlState {
    pub prev_values: [ArtnetSceneControlState; 10],
}

impl ExternalControlState {
    /// All slots as if they had received zeros.
    pub fn new() -> (r: Self)
        ensures
            forall|i: int| 0 <= i < 10 ==> decodes(#[trigger] r.prev_values@[i], Seq::new(23, |j: int| 0u8)),
    {
        let z = ArtnetSceneControlState::zero();
        ExternalControlState { prev_values: [z; 10] }
    }

    /// Take in one DMX frame of the control universe: the whole slots it
    /// holds (at most ten), each decoded and compared with the slot's last
    /// channels, which it then replaces.
    pub fn process_dmx(&mut self, dmx: &[u8]) -> (r: Vec<SlotChange>)
        ensures
            r@.len() == slot_count(dmx@.len() as int),
            forall|i: int|
                0 <= i < r@.len() ==> {
                    let c = #[trigger] r@[i];
                    &&& c.slot == i
                    &&& decodes(c.state, dmx@.subrange(i * 23, i * 23 + 23))
                    &&& c.scene_changed == (old(self).prev_values@[i].scene_index != c.state.scene_index)
                    &&& c.active == (c.state.opacity != 0)
                    &&& c.speed_exponent == c.state.speed_multiplier as i32
                    &&& final(self).prev_values@[i] == c.state
                },
            forall|i: int|
                r@.len() <= i < 10 ==> #[trigger] final(self).prev_values@[i] == old(self).prev_values@[i],
    {
        let mut out: Vec<SlotChange> = Vec::new();
        let mut i: usize = 0;
        let mut at: usize = 0;
        while i < ARTNET_CONTROL_SLOTS && at + SLOT_SIZE <= dmx.len()
            invariant
                i <= ARTNET_CONTROL_SLOTS,
                at == i * 23,
                at <= dmx@.len(),
                i <= dmx@.len() / 23,
                out@.len() == i,
                forall|k: int|
                    0 <= k < i ==> {
                        let c = #[trigger] out@[k];
                        &&& c.slot == k
                        &&& decodes(c.state, dmx@.subrange(k * 23, k * 23 + 23))
                        &&& c.scene_changed == (old(self).prev_values@[k].scene_index != c.state.scene_index)
                        &&& c.active == (c.state.opacity != 0)
                        &&& c.speed_exponent == c.state.speed_multiplier as i32
                        &&& self.prev_values@[k] == c.state
                    },
                forall|k: int| i <= k < 10 ==> #[trigger] self.prev_values@[k] == old(self).prev_values@[k],
            decreases ARTNET_CONTROL_SLOTS - i,
        {
            let state = ArtnetSceneControlState::decode(dmx, at);
            let prev = self.prev_values[i];
            let change = SlotChange {
                slot: i,
                state,
                scene_changed: prev.scene_index != state.scene_index,
                active: state.opacity != 0,
                speed_exponent: state.speed_multiplier as i32,
            };
            out.push(change);
            self.prev_values[i] = state;
            i = i + 1;
            at = at + SLOT_SIZE;
        }
        proof {
            assert(out@.len() == slot_count(dmx@.len() as int));
        }
        out
    }
}

} // verus!

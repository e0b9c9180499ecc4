//! The Akai APC40 mkII controller: decoding its buttons and knobs into user
//! actions, and the light messages that show the scene grid on its pads.
use vstd::prelude::*;

use super::runtime::{color_at, color_in, contains_location, speed_delta};
use crate::scene::{
    grid_scene_instance_index, quick_scene_instance_index, GridLocation, QuickSceneInstanceIndex,
    SceneInstanceColor, SceneInstanceUnion,
};
use crate::ui_action::{Number, UiAction, HALF_F32_BITS, TWO_F32_BITS};

verus! {

/// Columns of the scene grid the pads show.
pub const GRID_WIDTH: usize = 6;

/// Rows of the scene grid the pads show.
pub const GRID_HEIGHT: usize = 4;

/// The row of the grid that holds the quick scenes.
pub const QUICK_ROW_INDEX: usize = 3;

/// Pads whose lights show the scene grid.
pub const GRID_PADS: usize = 48;

/// The grid cell of pad number `index`: column `index % GRID_HEIGHT`, row
/// `index / GRID_WIDTH`.
pub open spec fn spec_location_from_peripheral_id(index: usize) -> GridLocation {
    GridLocation { col: index % GRID_HEIGHT, row: index / GRID_WIDTH }
}

/// The grid cell of pad number `index`.
pub fn location_from_peripheral_id(index: usize) -> (r: GridLocation)
    ensures
        r == spec_location_from_peripheral_id(index),
{
    let col = index % GRID_HEIGHT;
    let row = index / GRID_WIDTH;
    GridLocation { col, row }
}

/// The pad number of a scene-launch button: the five rows of eight are
/// numbered bottom row first.
pub open spec fn launch_pad_index(data1: u8) -> usize {
    if data1 < 8 {
        (data1 + 32) as usize
    } else if data1 < 16 {
        (data1 + 16) as usize
    } else if data1 < 24 {
        data1 as usize
    } else if data1 < 32 {
        (data1 - 16) as usize
    } else {
        (data1 - 32) as usize
    }
}

/// The action a three-byte message from the controller asks for; `None`
/// for messages without one.
pub open spec fn spec_handle_input(message: Seq<u8>) -> Option<UiAction> {
    if message.len() != 3 {
        None
    } else {
        let status = message[0];
        let data1 = message[1];
        let value = message[2];
        if status == 144 && data1 < 40 && value == 127 {
            Some(
                UiAction::ToggleSceneActive(
                    SceneInstanceUnion::Grid(
                        spec_location_from_peripheral_id(launch_pad_index(data1)),
                    ),
                ),
            )
        } else if 144 <= status < 152 && data1 == 48 && value == 127 {
            Some(
                UiAction::ToggleSceneActive(
                    SceneInstanceUnion::Quick(
                        QuickSceneInstanceIndex { index: (status - 144) as usize },
                    ),
                ),
            )
        } else if 144 <= status < 152 && data1 == 52 && value == 127 {
            Some(
                UiAction::SetSceneActive(
                    SceneInstanceUnion::Quick(
                        QuickSceneInstanceIndex { index: (status - 144) as usize },
                    ),
                    true,
                ),
            )
        } else if 128 <= status < 136 && data1 == 52 && value == 0 {
            Some(
                UiAction::SetSceneActive(
                    SceneInstanceUnion::Quick(
                        QuickSceneInstanceIndex { index: (status - 128) as usize },
                    ),
                    false,
                ),
            )
        } else if status == 144 && data1 == 91 && value == 127 {
            Some(UiAction::SetBlackout(false))
        } else if status == 128 && data1 == 91 && value == 127 {
            Some(UiAction::SetBlackout(true))
        } else if status == 144 && ((82 <= data1 <= 85) || data1 == 99) && value == 127 {
            Some(UiAction::Tap)
        } else if status == 176 && data1 == 13 {
            Some(UiAction::SpeedAdd(Number::I32(speed_delta(value))))
        } else if status == 176 && data1 == 14 {
            Some(UiAction::SetMainDimmer(Number::MidiFraction(value)))
        } else if 176 <= status < 184 && data1 == 7 {
            Some(
                UiAction::SetSceneOpacity(
                    SceneInstanceUnion::Quick(
                        QuickSceneInstanceIndex { index: (status - 176) as usize },
                    ),
                    Number::MidiFraction(value),
                ),
            )
        } else if status == 144 && (data1 == 100 || data1 == 101) && value == 127 {
            Some(
                UiAction::SpeedMultiply(
                    Number::F32Bits(
                        if data1 == 100 {
                            HALF_F32_BITS
                        } else {
                            TWO_F32_BITS
                        },
                    ),
                ),
            )
        } else if status == 176 && data1 == 48 && value < 120 {
            Some(
                UiAction::SelectScene(
                    SceneInstanceUnion::Grid(
                        spec_location_from_peripheral_id((value as usize / 3) / 3),
                    ),
                ),
            )
        } else if status == 176 && data1 == 49 {
            Some(UiAction::SetSelectedSceneOpacity(Number::MidiFraction(value)))
        } else {
            None
        }
    }
}

/// Decode a message from the controller into the action it asks for.
pub fn handle_input(_stamp: u64, message: &[u8]) -> (r: Option<UiAction>)
    ensures
        r == spec_handle_input(message@),
{
    if message.len() != 3 {
        return None;
    }
    let status = message[0];
    let data1 = message[1];
    let value = message[2];
    if status == 144 && data1 < 40 && value == 127 {
        let index: usize = if data1 < 8 {
            data1 as usize + 32
        } else if data1 < 16 {
            data1 as usize + 16
        } else if data1 < 24 {
            data1 as usize
        } else if data1 < 32 {
            data1 as usize - 16
        } else {
            data1 as usize - 32
        };
        Some(UiAction::ToggleSceneActive(grid_scene_instance_index(location_from_peripheral_id(index))))
    } else if 144 <= status && status < 152 && data1 == 48 && value == 127 {
        Some(UiAction::ToggleSceneActive(quick_scene_instance_index(status as usize - 144)))
    } else if 144 <= status && status < 152 && data1 == 52 && value == 127 {
        Some(UiAction::SetSceneActive(quick_scene_instance_index(status as usize - 144), true))
    } else if 128 <= status && status < 136 && data1 == 52 && value == 0 {
        Some(UiAction::SetSceneActive(quick_scene_instance_index(status as usize - 128), false))
    } else if status == 144 && data1 == 91 && value == 127 {
        Some(UiAction::SetBlackout(false))
    } else if status == 128 && data1 == 91 && value == 127 {
        Some(UiAction::SetBlackout(true))
    } else if status == 144 && ((82 <= data1 && data1 <= 85) || data1 == 99) && value == 127 {
        Some(UiAction::Tap)
    } else if status == 176 && data1 == 13 {
        let delta: i32 = if value > 64 { value as i32 - 128 } else { value as i32 };
        Some(UiAction::SpeedAdd(Number::I32(delta)))
    } else if status == 176 && data1 == 14 {
        Some(UiAction::SetMainDimmer(Number::MidiFraction(value)))
    } else if 176 <= status && status < 184 && data1 == 7 {
        Some(
            UiAction::SetSceneOpacity(
                quick_scene_instance_index(status as usize - 176),
                Number::MidiFraction(value),
            ),
        )
    } else if status == 144 && (data1 == 100 || data1 == 101) && value == 127 {
        let factor = if data1 == 100 { HALF_F32_BITS } else { TWO_F32_BITS };
        Some(UiAction::SpeedMultiply(Number::F32Bits(factor)))
    } else if status == 176 && data1 == 48 && value < 120 {
        let third = value as usize / 3;
        Some(UiAction::SelectScene(grid_scene_instance_index(location_from_peripheral_id(third / 3))))
    } else if status == 176 && data1 == 49 {
        Some(UiAction::SetSelectedSceneOpacity(Number::MidiFraction(value)))
    } else {
        None
    }
}

/// The dim pad colour code of a scene colour.
pub open spec fn spec_dark(color: SceneInstanceColor) -> u8 {
    match color {
        SceneInstanceColor::Red => 7,
        SceneInstanceColor::Green => 19,
        SceneInstanceColor::Blue => 47,
        SceneInstanceColor::White => 1,
        SceneInstanceColor::Orange => 62,
        SceneInstanceColor::Yellow => 15,
        SceneInstanceColor::Purple => 53,
        SceneInstanceColor::Pink => 59,
        SceneInstanceColor::Black => 0,
    }
}

/// The bright pad colour code of a scene colour.
pub open spec fn spec_light(color: SceneInstanceColor) -> u8 {
    match color {
        SceneInstanceColor::Red => 5,
        SceneInstanceColor::Green => 17,
        SceneInstanceColor::Blue => 45,
        SceneInstanceColor::White => 3,
        SceneInstanceColor::Orange => 60,
        SceneInstanceColor::Yellow => 13,
        SceneInstanceColor::Purple => 51,
        SceneInstanceColor::Pink => 57,
        SceneInstanceColor::Black => 0,
    }
}

/// The dim pad colour code of a scene colour.
pub fn dark(color: SceneInstanceColor) -> (r: u8)
    ensures
        r == spec_dark(color),
{
    match color {
        SceneInstanceColor::Red => 7,
        SceneInstanceColor::Green => 19,
        SceneInstanceColor::Blue => 47,
        SceneInstanceColor::White => 1,
        SceneInstanceColor::Orange => 62,
        SceneInstanceColor::Yellow => 15,
        SceneInstanceColor::Purple => 53,
        SceneInstanceColor::Pink => 59,
        SceneInstanceColor::Black => 0,
    }
}

/// The bright pad colour code of a scene colour.
pub fn light(color: SceneInstanceColor) -> (r: u8)
    ensures
        r == spec_light(color),
{
    match color {
        SceneInstanceColor::Red => 5,
        SceneInstanceColor::Green => 17,
        SceneInstanceColor::Blue => 45,
        SceneInstanceColor::White => 3,
        SceneInstanceColor::Orange => 60,
        SceneInstanceColor::Yellow => 13,
        SceneInstanceColor::Purple => 51,
        SceneInstanceColor::Pink => 57,
        SceneInstanceColor::Black => 0,
    }
}

/// The light of a beat-flank pad: lit on the current flank, blinking on
/// all four (when `blink_on`) during a blackout.
pub open spec fn spec_flank_light(flank: u8, beat_flank: u8, blackout: bool, blink_on: bool) -> u8 {
    if beat_flank == flank && !blackout {
        30
    } else if blackout && blink_on {
        120
    } else {
        0
    }
}

/// The light of a beat-flank pad.
pub fn flank_light(flank: u8, beat_flank: u8, blackout: bool, blink_on: bool) -> (r: u8)
    ensures
        r == spec_flank_light(flank, beat_flank, blackout, blink_on),
{
    if beat_flank == flank && !blackout {
        30
    } else if blackout && blink_on {
        120
    } else {
        0
    }
}

/// The light of a grid pad: the quick row shows only whether its scene is
/// active; other rows show white while flashed, else the scene colour,
/// bright when active and dim when not, and black without a scene.
pub open spec fn spec_scene_light_value(
    location: GridLocation,
    active: bool,
    flashed: bool,
    color: Option<SceneInstanceColor>,
) -> u8 {
    if location.row == QUICK_ROW_INDEX {
        if active {
            30
        } else {
            0
        }
    } else if flashed {
        spec_light(SceneInstanceColor::White)
    } else {
        match color {
            Some(c) => if active {
                spec_light(c)
            } else {
                spec_dark(c)
            },
            None => spec_dark(SceneInstanceColor::Black),
        }
    }
}

/// The light of a grid pad.
pub fn scene_light_value(
    location: GridLocation,
    active: bool,
    flashed: bool,
    color: Option<SceneInstanceColor>,
) -> (r: u8)
    ensures
        r == spec_scene_light_value(location, active, flashed, color),
{
    if location.row == QUICK_ROW_INDEX {
        if active {
            30
        } else {
            0
        }
    } else if flashed {
        light(SceneInstanceColor::White)
    } else {
        match color {
            Some(c) => if active {
                light(c)
            } else {
                dark(c)
            },
            None => dark(SceneInstanceColor::Black),
        }
    }
}

/// The note-on message that sets the light of the pad showing grid cell
/// `location` (rows 0 to 7) to `value`.
pub open spec fn spec_scene_light_message(location: GridLocation, value: u8) -> [u8; 4] {
    [0x90, (location.col + location.row * 8 + 32) as u8, value, 127]
}

/// The message that sets the light of the pad showing `location`.
pub fn scene_light_message(location: GridLocation, value: u8) -> (r: [u8; 4])
    requires
        location.col < GRID_HEIGHT,
        location.row < 8,
    ensures
        r == spec_scene_light_message(location, value),
{
    let note: u8 = (location.col + location.row * 8) as u8 + 32;
    [0x90, note, value, 127]
}

/// The light message of pad `index`, given the active and flashed scenes
/// and the colours of the scenes in the grid.
pub open spec fn spec_pad_light(
    index: usize,
    active: Seq<GridLocation>,
    flashed: Seq<GridLocation>,
    colors: Seq<(GridLocation, SceneInstanceColor)>,
) -> [u8; 4] {
    let location = spec_location_from_peripheral_id(index);
    spec_scene_light_message(
        location,
        spec_scene_light_value(
            location,
            active.contains(location),
            flashed.contains(location),
            color_at(colors, location),
        ),
    )
}

/// The light messages of all grid pads, pad 0 first.
pub fn scene_lights(
    active: &Vec<GridLocation>,
    flashed: &Vec<GridLocation>,
    colors: &Vec<(GridLocation, SceneInstanceColor)>,
) -> (r: Vec<[u8; 4]>)
    ensures
        r@.len() == GRID_PADS,
        forall|i: int|
            0 <= i < GRID_PADS ==> #[trigger] r@[i] == spec_pad_light(
                i as usize,
                active@,
                flashed@,
                colors@,
            ),
{
    let mut out: Vec<[u8; 4]> = Vec::new();
    let mut index: usize = 0;
    while index < GRID_PADS
        invariant
            index <= GRID_PADS,
            out@.len() == index,
            forall|i: int|
                0 <= i < index ==> #[trigger] out@[i] == spec_pad_light(
                    i as usize,
                    active@,
                    flashed@,
                    colors@,
                ),
        decreases GRID_PADS - index,
    {
        let location = location_from_peripheral_id(index);
        let value = scene_light_value(
            location,
            contains_location(active, location),
            contains_location(flashed, location),
            color_in(colors, location),
        );
        out.push(scene_light_message(location, value));
        index = index + 1;
    }
    out
}

/// The quick-scene activate buttons: pressing the button of track `n`
/// (note on, velocity 127) activates quick scene `n`, and its note-off
/// deactivates it.
pub proof fn law_quick_activate_buttons(n: u8)
    requires
        n < 8,
    ensures
        spec_handle_input(seq![(144 + n) as u8, 52u8, 127u8]) == Some(
            UiAction::SetSceneActive(SceneInstanceUnion::Quick(QuickSceneInstanceIndex { index: n as usize }), true),
        ),
        spec_handle_input(seq![(128 + n) as u8, 52u8, 0u8]) == Some(
            UiAction::SetSceneActive(SceneInstanceUnion::Quick(QuickSceneInstanceIndex { index: n as usize }), false),
        ),
{
}

/// Any message that sets a scene's activity comes from an activate button
/// (data byte 52): a press (velocity 127) activates and only a release
/// (velocity 0) deactivates.
pub proof fn law_activity_follows_the_press(message: Seq<u8>)
    ensures
        spec_handle_input(message) matches Some(UiAction::SetSceneActive(_, active)) ==> message.len() == 3
            && message[1] == 52 && (active <==> message[2] == 127) && (!active <==> message[2] == 0),
{
}

/// The fader of track `n` sets quick scene `n`'s opacity to the fader
/// position, and the master fader sets the main dimmer.
pub proof fn law_faders(n: u8, value: u8)
    requires
        n < 8,
    ensures
        spec_handle_input(seq![(176 + n) as u8, 7u8, value]) == Some(
            UiAction::SetSceneOpacity(
                SceneInstanceUnion::Quick(QuickSceneInstanceIndex { index: n as usize }),
                Number::MidiFraction(value),
            ),
        ),
        spec_handle_input(seq![176u8, 14u8, value]) == Some(UiAction::SetMainDimmer(Number::MidiFraction(value))),
{
}

} // verus!

//! The APC40 mkII controller in its scene-path layout: decoding its
//! buttons and knobs into user actions, and the messages that light its
//! pads.
use vstd::prelude::*;

use super::runtime::speed_delta;
use crate::scene::{DeckPath, SceneInstancePathIndex, SceneInstanceUnion};
use crate::ui_action::{Number, UiAction, HALF_F32_BITS, TWO_F32_BITS};

verus! {

/// The grid scene index of a scene-launch pad.
pub open spec fn launch_pad_scene_index(data1: u8) -> usize {
    if data1 < 4 {
        (data1 + 16) as usize
    } else if data1 < 8 {
        (data1 + 32) as usize
    } else if data1 < 12 {
        (data1 + 4) as usize
    } else if data1 < 16 {
        (data1 + 20) as usize
    } else if data1 < 20 {
        (data1 - 8) as usize
    } else if data1 < 24 {
        (data1 + 8) as usize
    } else if data1 < 28 {
        (data1 - 20) as usize
    } else if data1 < 32 {
        (data1 - 4) as usize
    } else if data1 < 36 {
        (data1 - 32) as usize
    } else {
        (data1 - 16) as usize
    }
}

/// The scene at position `index` of `deck`.
pub open spec fn path_of(deck: DeckPath, index: usize) -> SceneInstanceUnion {
    SceneInstanceUnion::Path(SceneInstancePathIndex { deck, index })
}

/// The action a three-byte message from the controller asks for; `None`
/// for messages without one.
pub open spec fn spec_handle_input(message: Seq<u8>) -> Option<UiAction> {
    if message.len() != 3 {
        None
    } else {
        let status = message[0];
        let data1 = message[1];
        let value = message[2];
        if status == 144 && data1 < 40 && value == 127 {
            Some(UiAction::ToggleSceneActive(path_of(DeckPath::Grid, launch_pad_scene_index(data1))))
        } else if 128 <= status < 136 && (data1 == 48 || data1 == 52) {
            Some(UiAction::SetSceneActive(path_of(DeckPath::Quick, (status - 128) as usize), false))
        } else if 144 <= status < 152 && (data1 == 48 || data1 == 52) && value == 127 {
            Some(UiAction::SetSceneActive(path_of(DeckPath::Quick, (status - 144) as usize), true))
        } else if status == 144 && data1 == 91 && value == 127 {
            Some(UiAction::SetBlackout(false))
        } else if status == 128 && data1 == 91 && value == 127 {
            Some(UiAction::SetBlackout(true))
        } else if status == 144 && ((82 <= data1 <= 85) || data1 == 99) && value == 127 {
            Some(UiAction::Tap)
        } else if status == 176 && data1 == 13 {
            Some(UiAction::SpeedAdd(Number::I32(speed_delta(value))))
        } else if status == 176 && data1 == 14 {
            Some(UiAction::SetMainDimmer(Number::MidiFraction(value)))
        } else if 176 <= status < 184 && data1 == 7 {
            Some(
                UiAction::SetSceneOpacity(
                    path_of(DeckPath::Quick, (status - 176) as usize),
                    Number::MidiFraction(value),
                ),
            )
        } else if status == 144 && (data1 == 100 || data1 == 101) && value == 127 {
            Some(
                UiAction::SpeedMultiply(
                    Number::F32Bits(
                        if data1 == 100 {
                            HALF_F32_BITS
                        } else {
                            TWO_F32_BITS
                        },
                    ),
                ),
            )
        } else {
            None
        }
    }
}

fn scene_path(deck: DeckPath, index: usize) -> (r: SceneInstanceUnion)
    ensures
        r == path_of(deck, index),
{
    SceneInstanceUnion::Path(SceneInstancePathIndex::new(deck, index))
}

/// Decode a message from the controller into the action it asks for.
pub fn handle_input(_stamp: u64, message: &[u8]) -> (r: Option<UiAction>)
    ensures
        r == spec_handle_input(message@),
{
    if message.len() != 3 {
        return None;
    }
    let status = message[0];
    let data1 = message[1];
    let value = message[2];
    if status == 144 && data1 < 40 && value == 127 {
        let index: usize = if data1 < 4 {
            data1 as usize + 16
        } else if data1 < 8 {
            data1 as usize + 32
        } else if data1 < 12 {
            data1 as usize + 4
        } else if data1 < 16 {
            data1 as usize + 20
        } else if data1 < 20 {
            data1 as usize - 8
        } else if data1 < 24 {
            data1 as usize + 8
        } else if data1 < 28 {
            data1 as usize - 20
        } else if data1 < 32 {
            data1 as usize - 4
        } else if data1 < 36 {
            data1 as usize - 32
        } else {
            data1 as usize - 16
        };
        Some(UiAction::ToggleSceneActive(scene_path(DeckPath::Grid, index)))
    } else if 128 <= status && status < 136 && (data1 == 48 || data1 == 52) {
        Some(UiAction::SetSceneActive(scene_path(DeckPath::Quick, status as usize - 128), false))
    } else if 144 <= status && status < 152 && (data1 == 48 || data1 == 52) && value == 127 {
        Some(UiAction::SetSceneActive(scene_path(DeckPath::Quick, status as usize - 144), true))
    } else if status == 144 && data1 == 91 && value == 127 {
        Some(UiAction::SetBlackout(false))
    } else if status == 128 && data1 == 91 && value == 127 {
        Some(UiAction::SetBlackout(true))
    } else if status == 144 && ((82 <= data1 && data1 <= 85) || data1 == 99) && value == 127 {
        Some(UiAction::Tap)
    } else if status == 176 && data1 == 13 {
        let delta: i32 = if value > 64 { value as i32 - 128 } else { value as i32 };
        Some(UiAction::SpeedAdd(Number::I32(delta)))
    } else if status == 176 && data1 == 14 {
        Some(UiAction::SetMainDimmer(Number::MidiFraction(value)))
    } else if 176 <= status && status < 184 && data1 == 7 {
        Some(
            UiAction::SetSceneOpacity(
                scene_path(DeckPath::Quick, status as usize - 176),
                Number::MidiFraction(value),
            ),
        )
    } else if status == 144 && (data1 == 100 || data1 == 101) && value == 127 {
        let factor = if data1 == 100 { HALF_F32_BITS } else { TWO_F32_BITS };
        Some(UiAction::SpeedMultiply(Number::F32Bits(factor)))
    } else {
        None
    }
}

/// The pad note that shows grid scene `index` (0 to 39).
pub open spec fn grid_light_note(index: usize) -> int {
    if index < 4 {
        index + 32
    } else if index < 8 {
        index + 20
    } else if index < 12 {
        index + 8
    } else if index < 16 {
        index + 4
    } else if index < 20 {
        index - 16
    } else if index < 24 {
        index + 16
    } else if index < 28 {
        index + 4
    } else if index < 32 {
        index - 8
    } else if index < 36 {
        index - 20
    } else {
        index - 32
    }
}

/// The message that lights the pad of a scene: a grid scene's pad by its
/// note, a quick scene's clip-stop button on its channel.
pub open spec fn spec_scene_light_message(path: SceneInstancePathIndex, value: u8) -> [u8; 4] {
    match path.deck {
        DeckPath::Grid => [0x90, grid_light_note(path.index) as u8, value, 127],
        DeckPath::Quick => [(0x90 + path.index) as u8, 48, value, 127],
    }
}

/// The message that lights the pad of a scene.
pub fn scene_light_message(path: SceneInstancePathIndex, value: u8) -> (r: [u8; 4])
    requires
        path.deck == DeckPath::Grid ==> path.index < 40,
        path.deck == DeckPath::Quick ==> path.index < 8,
    ensures
        r == spec_scene_light_message(path, value),
{
    match path.deck {
        DeckPath::Grid => {
            let i = path.index as u8;
            let note: u8 = if i < 4 {
                i + 32
            } else if i < 8 {
                i + 20
            } else if i < 12 {
                i + 8
            } else if i < 16 {
                i + 4
            } else if i < 20 {
                i - 16
            } else if i < 24 {
                i + 16
            } else if i < 28 {
                i + 4
            } else if i < 32 {
                i - 8
            } else if i < 36 {
                i - 20
            } else {
                i - 32
            };
            [0x90, note, value, 127]
        },
        DeckPath::Quick => [0x90 + path.index as u8, 48, value, 127],
    }
}

/// Track `n`'s clip-stop and activate buttons: a press (note on,
/// velocity 127) activates quick scene `n` and the note-off deactivates
/// it; its fader sets that scene's opacity to the fader position.
pub proof fn law_quick_track_controls(n: u8, button: u8, value: u8)
    requires
        n < 8,
        button == 48 || button == 52,
    ensures
        spec_handle_input(seq![(144 + n) as u8, button, 127u8]) == Some(
            UiAction::SetSceneActive(SceneInstanceUnion::Path(SceneInstancePathIndex { deck: DeckPath::Quick, index: n as usize }), true),
        ),
        spec_handle_input(seq![(128 + n) as u8, button, value]) == Some(
            UiAction::SetSceneActive(SceneInstanceUnion::Path(SceneInstancePathIndex { deck: DeckPath::Quick, index: n as usize }), false),
        ),
        spec_handle_input(seq![(176 + n) as u8, 7u8, value]) == Some(
            UiAction::SetSceneOpacity(
                SceneInstanceUnion::Path(SceneInstancePathIndex { deck: DeckPath::Quick, index: n as usize }),
                Number::MidiFraction(value),
            ),
        ),
{
}

/// Any message that sets a scene's activity is a button of a track: a
/// note on activates, a note off deactivates.
pub proof fn law_activity_follows_note_on(message: Seq<u8>)
    ensures
        spec_handle_input(message) matches Some(UiAction::SetSceneActive(_, active)) ==> message.len() == 3
            && (message[1] == 48 || message[1] == 52) && (active <==> message[0] >= 144),
{
}

} // verus!

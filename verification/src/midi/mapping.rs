use vstd::prelude::*;

verus! {

/// The MIDI message a binding reacts to: its status byte and, when
/// `match_data1` is set, its first data byte.
#[derive(Clone, Copy, Debug, PartialEq, Eq, Structural)]
pub struct MidiTrigger {
    pub status: u8,
    pub data1: u8,
    pub match_data1: bool,
}

/// The scene a controller binding refers to.
#[derive(Clone, Copy, Debug, PartialEq, Eq, Structural)]
pub enum MidiSceneTarget {
    Selected,
    Quick { index: u8 },
    Grid { row: u8, col: u8 },
}

/// What an incoming controller message bound to a trigger does.
#[derive(Clone, Copy, Debug, PartialEq, Eq, Structural)]
pub enum MidiInputAction {
    Tap,
    SetMainDimmer,
    SetBlackout,
    SetSpeedAdd,
    SetSpeedMultiply,
    SelectScene { target: MidiSceneTarget },
    ToggleSceneActive { target: MidiSceneTarget },
    SetSceneActive { target: MidiSceneTarget },
    SetSceneOpacity { target: MidiSceneTarget },
    SetSceneInputDimmer { target: MidiSceneTarget },
    SetSceneBeatOffset { target: MidiSceneTarget },
    SetSceneIgnoreMainDimmer { target: MidiSceneTarget },
    SetSceneSetOffsetOnFlash { target: MidiSceneTarget },
    SetSceneEffectSettingF32 { target: MidiSceneTarget, effect_index: u8, setting_index: u8 },
}

/// One input binding of a controller mapping.
#[derive(Clone, Copy, Debug, PartialEq, Eq, Structural)]
pub struct MidiInputBinding {
    pub trigger: MidiTrigger,
    pub action: MidiInputAction,
}

/// The input bindings of a MIDI controller.
#[derive(Clone, Debug, PartialEq)]
pub struct MidiControllerMapping {
    pub input_bindings: Vec<MidiInputBinding>,
}

} // verus!

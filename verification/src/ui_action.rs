use vstd::prelude::*;

use crate::scene::{ArgumentKindId, GridLocation, SceneInstanceColor, SceneInstanceUnion};

verus! {

/// Bit pattern of the `f32` value one half.
pub const HALF_F32_BITS: u32 = 0x3F00_0000u32;

/// Bit pattern of the `f32` value two.
pub const TWO_F32_BITS: u32 = 0x4000_0000u32;

/// A number handed on to the user interface, kept exactly as it arrived;
/// it is read as an `f32` where the action is applied.
#[derive(Clone, Copy, Debug, PartialEq, Eq, Structural, Hash)]
pub enum Number {
    /// An `f32`, by its bit pattern.
    F32Bits(u32),
    /// An `f64`, by its bit pattern.
    F64Bits(u64),
    I32(i32),
    I64(i64),
    /// A 7-bit MIDI value `v`, standing for `v / 127`.
    MidiFraction(u8),
}

/// A colour given as three numbers.
#[derive(Clone, Copy, Debug, PartialEq, Eq, Structural, Hash)]
pub struct Rgb {
    pub r: Number,
    pub g: Number,
    pub b: Number,
}

/// A button or axis event of a game pad, with the pad number.
#[derive(Clone, Copy, Debug, PartialEq, Eq, Structural, Hash, PartialOrd, Ord)]
pub enum GamepadEvent {
    South(usize),
    East(usize),
    North(usize),
    West(usize),
    C(usize),
    Z(usize),
    LeftTrigger(usize),
    LeftTrigger2(usize),
    RightTrigger(usize),
    RightTrigger2(usize),
    Select(usize),
    Start(usize),
    Mode(usize),
    LeftThumb(usize),
    RightThumb(usize),
    DPadUp(usize),
    DPadDown(usize),
    DPadLeft(usize),
    DPadRight(usize),
    Unknown(usize),
    LeftStickXMin(usize),
    LeftStickXMax(usize),
    LeftStickYMin(usize),
    LeftStickYMax(usize),
    LeftZMin(usize),
    LeftZMax(usize),
    RightStickXMin(usize),
    RightStickXMax(usize),
    RightStickYMin(usize),
    RightStickYMax(usize),
    RightZMin(usize),
    RightZMax(usize),
    DPadXMin(usize),
    DPadXMax(usize),
    DPadYMin(usize),
    DPadYMax(usize),
}

/// An input that can trigger a scene or project function.
#[derive(Clone, Copy, Debug, PartialEq, Eq, Structural, Hash)]
pub enum InputEvent {
    /// A keyboard key, by its position in the user interface's key list.
    Key(u32),
    Gamepad(GamepadEvent),
    /// An Art-Net control channel.
    Artnet(u16),
}

/// A user-interface action produced by a controller or network command.
/// Identifiers of assets (palettes, scenes, animations, curves) are UUIDs
/// given as 128-bit numbers.
#[derive(Clone, Debug, PartialEq)]
pub enum UiAction {
    SetMainDimmer(Number),
    SetBlackout(bool),
    SetProjectPaletteFromAsset(Option<u128>),
    SetProjectPalettePrimary(Rgb),
    SetProjectPaletteSecondary(Rgb),
    SetProjectPaletteGradient(usize, Rgb),
    SetProjectArtnetControlActive(bool),
    SetProjectArtnetControlUniverse(u16),
    ClearProjectGroups,
    RemoveProjectGroup(usize),
    SetProjectGroup(usize, String),
    ClearProjectTapInput,
    ClearProjectBlackoutInput,
    ClearProjectBlackoutHoldInput,
    ClearProjectHalfInput,
    ClearProjectDoubleInput,
    AddProjectTapInputArtnet(u16),
    AddProjectBlackoutInputArtnet(u16),
    AddProjectBlackoutHoldInputArtnet(u16),
    AddProjectHalfInputArtnet(u16),
    AddProjectDoubleInputArtnet(u16),
    RemoveProjectTapInputArtnet(u16),
    RemoveProjectBlackoutInputArtnet(u16),
    RemoveProjectBlackoutHoldInputArtnet(u16),
    RemoveProjectHalfInputArtnet(u16),
    RemoveProjectDoubleInputArtnet(u16),
    SetAnimationShaderCode(u128, String),
    AddAnimationArgument(u128),
    RemoveAnimationArgument(u128, usize),
    SetAnimationArgumentName(u128, usize, String),
    SetAnimationArgumentKind(u128, usize, ArgumentKindId),
    Tap,
    SpeedAdd(Number),
    SpeedMultiply(Number),
    AddScene(GridLocation, u128),
    SwapScenes(GridLocation, GridLocation),
    AddSceneEffect(SceneInstanceUnion),
    RemoveSceneEffect(SceneInstanceUnion, usize),
    CloneSceneEffect(SceneInstanceUnion, usize),
    SetSceneEffectOpacity(SceneInstanceUnion, usize, Number),
    SetSceneEffectOpacityMultiplier(SceneInstanceUnion, usize, Number),
    SetSceneEffectOpacityCurve(SceneInstanceUnion, usize, Option<u128>),
    SetSceneEffectColorShift(SceneInstanceUnion, usize, Number),
    SetSceneEffectColorShiftMultiplier(SceneInstanceUnion, usize, Number),
    SetSceneEffectColorShiftCurve(SceneInstanceUnion, usize, Option<u128>),
    SetSceneEffectBeatProgression(SceneInstanceUnion, usize, Number),
    SetSceneEffectBeatProgressionMultiplier(SceneInstanceUnion, usize, Number),
    SetSceneEffectBeatProgressionCurve(SceneInstanceUnion, usize, Option<u128>),
    SetSceneEffectBeatOffset(SceneInstanceUnion, usize, Number),
    SetSceneEffectBeatOffsetMultiplier(SceneInstanceUnion, usize, Number),
    SetSceneEffectBeatOffsetCurve(SceneInstanceUnion, usize, Option<u128>),
    SetSceneEffectSpeedExponent(SceneInstanceUnion, usize, i32),
    SetSceneEffectGroupIndex(SceneInstanceUnion, usize, usize),
    SetSceneEffectAnimation(SceneInstanceUnion, usize, Option<u128>),
    SetSceneEffectAnimationConfigU32(SceneInstanceUnion, usize, usize, u32),
    SetSceneEffectAnimationConfigF32(SceneInstanceUnion, usize, usize, Number),
    ClearSceneGroupsOverwrite(SceneInstanceUnion),
    RemoveSceneGroupsOverwriteEntry(SceneInstanceUnion, usize),
    SetSceneGroupsOverwriteEntry(SceneInstanceUnion, usize, String),
    SetScenePaletteOverwriteFromAsset(SceneInstanceUnion, Option<Option<u128>>),
    SetScenePaletteOverwritePrimary(SceneInstanceUnion, Rgb),
    SetScenePaletteOverwriteSecondary(SceneInstanceUnion, Rgb),
    SetScenePaletteOverwriteGradient(SceneInstanceUnion, usize, Rgb),
    SetSceneActivationInput(SceneInstanceUnion, Option<InputEvent>),
    SetSceneFlashInput(SceneInstanceUnion, Option<InputEvent>),
    SetSceneDimmerInput(SceneInstanceUnion, Option<InputEvent>),
    SetSceneOpacity(SceneInstanceUnion, Number),
    SetSceneOpacityMultiplier(SceneInstanceUnion, Number),
    SetSceneOpacityCurve(SceneInstanceUnion, Option<u128>),
    SetSceneActive(SceneInstanceUnion, bool),
    ToggleSceneActive(SceneInstanceUnion),
    SelectScene(SceneInstanceUnion),
    SetSceneName(SceneInstanceUnion, String),
    SetSceneColor(SceneInstanceUnion, SceneInstanceColor),
    SetSceneInputDimmer(SceneInstanceUnion, Number),
    SetSceneIgnoreMainDimmer(SceneInstanceUnion, bool),
    SetSceneBeatOffset(SceneInstanceUnion, Number),
    SetSceneBeatOffsetMultiplier(SceneInstanceUnion, Number),
    SetSceneBeatOffsetCurve(SceneInstanceUnion, Option<u128>),
    SetSceneSetOffsetOnFlash(SceneInstanceUnion, bool),
    DeleteSceneInstancePath(SceneInstanceUnion),
    CloneSceneInstancePath(SceneInstanceUnion),
    ToggleSelectedSceneActive,
    SetSelectedSceneActive(bool),
    SetSelectedSceneOpacity(Number),
    SetSelectedSceneInputDimmer(Number),
    SetSelectedSceneBeatOffset(Number),
    SetSelectedSceneIgnoreMainDimmer(bool),
    SetSelectedSceneSetOffsetOnFlash(bool),
    SetSelectedSceneEffectAnimationConfigF32(usize, usize, Number),
}

} // verus!

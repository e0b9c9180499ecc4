use vstd::prelude::*;

use super::args::{
    parse_argument_kind, parse_bool, parse_f32, parse_i32, parse_optional_uuid, parse_rgb,
    parse_scene_color, parse_scene_palette_overwrite, parse_string, parse_u16, parse_u32,
    parse_usize, parse_uuid, spec_argument_kind, spec_bool, spec_i32, spec_number,
    spec_optional_uuid, spec_rgb, spec_scene_color, spec_scene_palette_overwrite, spec_string,
    spec_u16, spec_u32, spec_usize, spec_uuid,
};
use super::{OscArg, OscMessage};
use crate::ids::{parse_uuid_str, parsed_uuid};
use crate::scene::{GridLocation, QuickSceneInstanceIndex, SceneInstanceUnion};
use crate::text::{chars_of, is_text, parse_decimal_usize, parsed_usize, string_from_chars};
use crate::ui_action::{InputEvent, UiAction};

verus! {

// ---------------------------------------------------------------------------
// Address segmentation
// ---------------------------------------------------------------------------
/// Scanning state after reading `s`: the finished non-empty segments and the
/// segment being read.
pub open spec fn split_state(s: Seq<char>) -> (Seq<Seq<char>>, Seq<char>)
    decreases s.len(),
{
    if s.len() == 0 {
        (Seq::empty(), Seq::empty())
    } else {
        let (done, cur) = split_state(s.drop_last());
        if s.last() == '/' {
            (if cur.len() > 0 { done.push(cur) } else { done }, Seq::empty())
        } else {
            (done, cur.push(s.last()))
        }
    }
}

/// The non-empty pieces of an address between `/` separators, in order.
pub open spec fn path_segments(addr: Seq<char>) -> Seq<Seq<char>> {
    let (done, cur) = split_state(addr);
    if cur.len() > 0 {
        done.push(cur)
    } else {
        done
    }
}

/// The characters of each segment.
pub open spec fn seg_view(p: Seq<Vec<char>>) -> Seq<Seq<char>> {
    Seq::new(p.len(), |i: int| p[i]@)
}

/// Split an address into its non-empty `/`-separated segments.
pub fn split_address(addr: &str) -> (r: Vec<Vec<char>>)
    ensures
        seg_view(r@) == path_segments(addr@),
{
    let chars = chars_of(addr);
    let mut done: Vec<Vec<char>> = Vec::new();
    let mut cur: Vec<char> = Vec::new();
    let mut i: usize = 0;
    while i < chars.len()
        invariant
            i <= chars@.len(),
            chars@ == addr@,
            (seg_view(done@), cur@) == split_state(chars@.take(i as int)),
        decreases chars@.len() - i,
    {
        let c = chars[i];
        proof {
            assert(chars@.take(i as int + 1).drop_last() =~= chars@.take(i as int));
        }
        if c == '/' {
            if cur.len() > 0 {
                let finished = cur;
                cur = Vec::new();
                let ghost before = done@;
                done.push(finished);
                proof {
                    assert(seg_view(done@) =~= seg_view(before).push(finished@));
                }
            } else {
                cur = Vec::new();
            }
        } else {
            cur.push(c);
        }
        i = i + 1;
    }
    proof {
        assert(chars@.take(chars@.len() as int) =~= chars@);
    }
    if cur.len() > 0 {
        let ghost before = done@;
        done.push(cur);
        proof {
            assert(seg_view(done@) =~= seg_view(before).push(done@.last()@));
        }
    }
    done
}

// ---------------------------------------------------------------------------
// Grammar
// ---------------------------------------------------------------------------
/// Continue with `f` on success; any failure stays a failure.
pub open spec fn ok_then<A>(r: Result<A, ()>, f: spec_fn(A) -> Result<UiAction, ()>) -> Result<
    UiAction,
    (),
> {
    match r {
        Ok(a) => f(a),
        Err(_) => Err(()),
    }
}

/// A path segment read as an index.
pub open spec fn spec_index(seg: Seq<char>) -> Result<usize, ()> {
    match parsed_usize(seg) {
        Some(v) => Ok(v),
        None => Err(()),
    }
}

/// A path segment read as a UUID.
pub open spec fn spec_path_uuid(seg: Seq<char>) -> Result<u128, ()> {
    match parsed_uuid(seg) {
        Some(v) => Ok(v),
        None => Err(()),
    }
}

/// Two path segments read as grid column and row.
pub open spec fn spec_grid_location(col: Seq<char>, row: Seq<char>) -> Result<GridLocation, ()> {
    match (parsed_usize(col), parsed_usize(row)) {
        (Some(c), Some(r)) => Ok(GridLocation { col: c, row: r }),
        _ => Err(()),
    }
}

/// Clearing one of the project's input lists.
pub open spec fn spec_project_input_clear(kind: Seq<char>) -> Result<UiAction, ()> {
    if kind == "tap"@ {
        Ok(UiAction::ClearProjectTapInput)
    } else if kind == "blackout"@ {
        Ok(UiAction::ClearProjectBlackoutInput)
    } else if kind == "blackout_hold"@ {
        Ok(UiAction::ClearProjectBlackoutHoldInput)
    } else if kind == "half"@ {
        Ok(UiAction::ClearProjectHalfInput)
    } else if kind == "double"@ {
        Ok(UiAction::ClearProjectDoubleInput)
    } else {
        Err(())
    }
}

/// Adding an Art-Net channel to one of the project's input lists.
pub open spec fn spec_project_input_add_artnet(kind: Seq<char>, channel: u16) -> Result<UiAction, ()> {
    if kind == "tap"@ {
        Ok(UiAction::AddProjectTapInputArtnet(channel))
    } else if kind == "blackout"@ {
        Ok(UiAction::AddProjectBlackoutInputArtnet(channel))
    } else if kind == "blackout_hold"@ {
        Ok(UiAction::AddProjectBlackoutHoldInputArtnet(channel))
    } else if kind == "half"@ {
        Ok(UiAction::AddProjectHalfInputArtnet(channel))
    } else if kind == "double"@ {
        Ok(UiAction::AddProjectDoubleInputArtnet(channel))
    } else {
        Err(())
    }
}

/// Removing an Art-Net channel from one of the project's input lists.
pub open spec fn spec_project_input_remove_artnet(kind: Seq<char>, channel: u16) -> Result<
    UiAction,
    (),
> {
    if kind == "tap"@ {
        Ok(UiAction::RemoveProjectTapInputArtnet(channel))
    } else if kind == "blackout"@ {
        Ok(UiAction::RemoveProjectBlackoutInputArtnet(channel))
    } else if kind == "blackout_hold"@ {
        Ok(UiAction::RemoveProjectBlackoutHoldInputArtnet(channel))
    } else if kind == "half"@ {
        Ok(UiAction::RemoveProjectHalfInputArtnet(channel))
    } else if kind == "double"@ {
        Ok(UiAction::RemoveProjectDoubleInputArtnet(channel))
    } else {
        Err(())
    }
}

/// `/project/...` commands.
pub open spec fn spec_project_command(p: Seq<Seq<char>>, args: Seq<OscArg>) -> Result<UiAction, ()> {
    let n = p.len();
    if n == 2 && p[1] == "main_dimmer"@ {
        ok_then(spec_number(args, 0), |v| Ok(UiAction::SetMainDimmer(v)))
    } else if n == 2 && p[1] == "blackout"@ {
        ok_then(spec_bool(args, 0), |v| Ok(UiAction::SetBlackout(v)))
    } else if n == 2 && p[1] == "palette"@ {
        ok_then(spec_optional_uuid(args, 0), |v| Ok(UiAction::SetProjectPaletteFromAsset(v)))
    } else if n == 3 && p[1] == "palette"@ && p[2] == "primary"@ {
        ok_then(spec_rgb(args), |c| Ok(UiAction::SetProjectPalettePrimary(c)))
    } else if n == 3 && p[1] == "palette"@ && p[2] == "secondary"@ {
        ok_then(spec_rgb(args), |c| Ok(UiAction::SetProjectPaletteSecondary(c)))
    } else if n == 4 && p[1] == "palette"@ && p[2] == "gradient"@ {
        ok_then(
            spec_index(p[3]),
            |i| ok_then(spec_rgb(args), |c| Ok(UiAction::SetProjectPaletteGradient(i, c))),
        )
    } else if n == 3 && p[1] == "artnet_control"@ && p[2] == "active"@ {
        ok_then(spec_bool(args, 0), |v| Ok(UiAction::SetProjectArtnetControlActive(v)))
    } else if n == 3 && p[1] == "artnet_control"@ && p[2] == "universe"@ {
        ok_then(spec_u16(args, 0), |v| Ok(UiAction::SetProjectArtnetControlUniverse(v)))
    } else if n == 3 && p[1] == "groups"@ && p[2] == "clear"@ {
        Ok(UiAction::ClearProjectGroups)
    } else if n == 4 && p[1] == "groups"@ && p[2] == "remove"@ {
        ok_then(spec_index(p[3]), |i| Ok(UiAction::RemoveProjectGroup(i)))
    } else if n == 3 && p[1] == "groups"@ {
        ok_then(
            spec_index(p[2]),
            |i| ok_then(spec_string(args, 0), |s| Ok(UiAction::SetProjectGroup(i, s))),
        )
    } else if n == 4 && p[1] == "input"@ && p[3] == "clear"@ {
        spec_project_input_clear(p[2])
    } else if n == 5 && p[1] == "input"@ && p[3] == "add"@ && p[4] == "artnet"@ {
        ok_then(spec_u16(args, 0), |c| spec_project_input_add_artnet(p[2], c))
    } else if n == 5 && p[1] == "input"@ && p[3] == "remove"@ && p[4] == "artnet"@ {
        ok_then(spec_u16(args, 0), |c| spec_project_input_remove_artnet(p[2], c))
    } else {
        Err(())
    }
}

/// `/asset/animation/{id}/...` commands.
pub open spec fn spec_asset_command(p: Seq<Seq<char>>, args: Seq<OscArg>) -> Result<UiAction, ()> {
    let n = p.len();
    if n == 4 && p[1] == "animation"@ && p[3] == "shader_code"@ {
        ok_then(
            spec_path_uuid(p[2]),
            |id| ok_then(spec_string(args, 0), |s| Ok(UiAction::SetAnimationShaderCode(id, s))),
        )
    } else if n == 5 && p[1] == "animation"@ && p[3] == "argument"@ && p[4] == "add"@ {
        ok_then(spec_path_uuid(p[2]), |id| Ok(UiAction::AddAnimationArgument(id)))
    } else if n == 6 && p[1] == "animation"@ && p[3] == "argument"@ && p[5] == "remove"@ {
        ok_then(
            spec_path_uuid(p[2]),
            |id| ok_then(spec_index(p[4]), |i| Ok(UiAction::RemoveAnimationArgument(id, i))),
        )
    } else if n == 6 && p[1] == "animation"@ && p[3] == "argument"@ && p[5] == "name"@ {
        ok_then(
            spec_path_uuid(p[2]),
            |id|
                ok_then(
                    spec_index(p[4]),
                    |i|
                        ok_then(
                            spec_string(args, 0),
                            |s| Ok(UiAction::SetAnimationArgumentName(id, i, s)),
                        ),
                ),
        )
    } else if n == 6 && p[1] == "animation"@ && p[3] == "argument"@ && p[5] == "kind"@ {
        ok_then(
            spec_path_uuid(p[2]),
            |id|
                ok_then(
                    spec_index(p[4]),
                    |i|
                        ok_then(
                            spec_argument_kind(args, 0),
                            |k| Ok(UiAction::SetAnimationArgumentKind(id, i, k)),
                        ),
                ),
        )
    } else {
        Err(())
    }
}

/// `/timing/...` commands.
pub open spec fn spec_timing_command(p: Seq<Seq<char>>, args: Seq<OscArg>) -> Result<UiAction, ()> {
    let n = p.len();
    if n == 2 && p[1] == "tap"@ {
        Ok(UiAction::Tap)
    } else if n == 3 && p[1] == "speed"@ && p[2] == "add"@ {
        ok_then(spec_number(args, 0), |v| Ok(UiAction::SpeedAdd(v)))
    } else if n == 3 && p[1] == "speed"@ && p[2] == "multiply"@ {
        ok_then(spec_number(args, 0), |v| Ok(UiAction::SpeedMultiply(v)))
    } else {
        Err(())
    }
}

/// A scene-instance command that reads a field of an effect.
pub open spec fn spec_target_effect_action(
    args: Seq<OscArg>,
    t: SceneInstanceUnion,
    e: usize,
    action: Seq<char>,
) -> Result<UiAction, ()> {
    if action == "opacity"@ {
        ok_then(spec_number(args, 0), |v| Ok(UiAction::SetSceneEffectOpacity(t, e, v)))
    } else if action == "color_shift"@ {
        ok_then(spec_number(args, 0), |v| Ok(UiAction::SetSceneEffectColorShift(t, e, v)))
    } else if action == "beat_progression"@ {
        ok_then(spec_number(args, 0), |v| Ok(UiAction::SetSceneEffectBeatProgression(t, e, v)))
    } else if action == "beat_offset"@ {
        ok_then(spec_number(args, 0), |v| Ok(UiAction::SetSceneEffectBeatOffset(t, e, v)))
    } else if action == "speed_exponent"@ {
        ok_then(spec_i32(args, 0), |v| Ok(UiAction::SetSceneEffectSpeedExponent(t, e, v)))
    } else if action == "group_index"@ {
        ok_then(spec_usize(args, 0), |v| Ok(UiAction::SetSceneEffectGroupIndex(t, e, v)))
    } else if action == "animation"@ {
        ok_then(spec_optional_uuid(args, 0), |v| Ok(UiAction::SetSceneEffectAnimation(t, e, v)))
    } else if action == "delete"@ {
        Ok(UiAction::RemoveSceneEffect(t, e))
    } else if action == "clone"@ {
        Ok(UiAction::CloneSceneEffect(t, e))
    } else {
        Err(())
    }
}

/// Effect fields that take a value, a static value or a curve.
pub open spec fn is_effect_curve_field(f: Seq<char>) -> bool {
    f == "opacity"@ || f == "color_shift"@ || f == "beat_progression"@ || f == "beat_offset"@
}

/// Scene fields that take a value, a static value or a curve.
pub open spec fn is_scene_curve_field(f: Seq<char>) -> bool {
    f == "opacity"@ || f == "beat_offset"@
}

/// Scene input lists.
pub open spec fn is_input_kind(f: Seq<char>) -> bool {
    f == "activation_input"@ || f == "flash_input"@ || f == "dimmer_input"@
}

/// `.../{field}/{value|static|curve}` for an effect.
pub open spec fn spec_target_effect_curve_action(
    args: Seq<OscArg>,
    t: SceneInstanceUnion,
    e: usize,
    field: Seq<char>,
    sub: Seq<char>,
) -> Result<UiAction, ()> {
    if field == "opacity"@ && sub == "value"@ {
        ok_then(spec_number(args, 0), |v| Ok(UiAction::SetSceneEffectOpacityMultiplier(t, e, v)))
    } else if field == "opacity"@ && sub == "static"@ {
        ok_then(spec_number(args, 0), |v| Ok(UiAction::SetSceneEffectOpacity(t, e, v)))
    } else if field == "opacity"@ && sub == "curve"@ {
        ok_then(spec_optional_uuid(args, 0), |v| Ok(UiAction::SetSceneEffectOpacityCurve(t, e, v)))
    } else if field == "color_shift"@ && sub == "value"@ {
        ok_then(
            spec_number(args, 0),
            |v| Ok(UiAction::SetSceneEffectColorShiftMultiplier(t, e, v)),
        )
    } else if field == "color_shift"@ && sub == "static"@ {
        ok_then(spec_number(args, 0), |v| Ok(UiAction::SetSceneEffectColorShift(t, e, v)))
    } else if field == "color_shift"@ && sub == "curve"@ {
        ok_then(
            spec_optional_uuid(args, 0),
            |v| Ok(UiAction::SetSceneEffectColorShiftCurve(t, e, v)),
        )
    } else if field == "beat_progression"@ && sub == "value"@ {
        ok_then(
            spec_number(args, 0),
            |v| Ok(UiAction::SetSceneEffectBeatProgressionMultiplier(t, e, v)),
        )
    } else if field == "beat_progression"@ && sub == "static"@ {
        ok_then(spec_number(args, 0), |v| Ok(UiAction::SetSceneEffectBeatProgression(t, e, v)))
    } else if field == "beat_progression"@ && sub == "curve"@ {
        ok_then(
            spec_optional_uuid(args, 0),
            |v| Ok(UiAction::SetSceneEffectBeatProgressionCurve(t, e, v)),
        )
    } else if field == "beat_offset"@ && sub == "value"@ {
        ok_then(
            spec_number(args, 0),
            |v| Ok(UiAction::SetSceneEffectBeatOffsetMultiplier(t, e, v)),
        )
    } else if field == "beat_offset"@ && sub == "static"@ {
        ok_then(spec_number(args, 0), |v| Ok(UiAction::SetSceneEffectBeatOffset(t, e, v)))
    } else if field == "beat_offset"@ && sub == "curve"@ {
        ok_then(
            spec_optional_uuid(args, 0),
            |v| Ok(UiAction::SetSceneEffectBeatOffsetCurve(t, e, v)),
        )
    } else {
        Err(())
    }
}

/// `.../{field}/{value|static|curve}` for a scene.
pub open spec fn spec_target_curve_action(
    args: Seq<OscArg>,
    t: SceneInstanceUnion,
    field: Seq<char>,
    sub: Seq<char>,
) -> Result<UiAction, ()> {
    if field == "opacity"@ && sub == "value"@ {
        ok_then(spec_number(args, 0), |v| Ok(UiAction::SetSceneOpacityMultiplier(t, v)))
    } else if field == "opacity"@ && sub == "static"@ {
        ok_then(spec_number(args, 0), |v| Ok(UiAction::SetSceneOpacity(t, v)))
    } else if field == "opacity"@ && sub == "curve"@ {
        ok_then(spec_optional_uuid(args, 0), |v| Ok(UiAction::SetSceneOpacityCurve(t, v)))
    } else if field == "beat_offset"@ && sub == "value"@ {
        ok_then(spec_number(args, 0), |v| Ok(UiAction::SetSceneBeatOffsetMultiplier(t, v)))
    } else if field == "beat_offset"@ && sub == "static"@ {
        ok_then(spec_number(args, 0), |v| Ok(UiAction::SetSceneBeatOffset(t, v)))
    } else if field == "beat_offset"@ && sub == "curve"@ {
        ok_then(spec_optional_uuid(args, 0), |v| Ok(UiAction::SetSceneBeatOffsetCurve(t, v)))
    } else {
        Err(())
    }
}

/// The input a scene input list is set to: cleared, or an Art-Net channel.
pub open spec fn spec_input_mode(args: Seq<OscArg>, mode: Seq<char>) -> Result<Option<InputEvent>, ()> {
    if mode == "clear"@ {
        Ok(None)
    } else if mode == "artnet"@ {
        match spec_u16(args, 0) {
            Ok(c) => Ok(Some(InputEvent::Artnet(c))),
            Err(_) => Err(()),
        }
    } else {
        Err(())
    }
}

/// `.../{activation_input|flash_input|dimmer_input}/{clear|artnet}`.
pub open spec fn spec_target_input_action(
    args: Seq<OscArg>,
    t: SceneInstanceUnion,
    kind: Seq<char>,
    mode: Seq<char>,
) -> Result<UiAction, ()> {
    match spec_input_mode(args, mode) {
        Ok(input) => if kind == "activation_input"@ {
            Ok(UiAction::SetSceneActivationInput(t, input))
        } else if kind == "flash_input"@ {
            Ok(UiAction::SetSceneFlashInput(t, input))
        } else if kind == "dimmer_input"@ {
            Ok(UiAction::SetSceneDimmerInput(t, input))
        } else {
            Err(())
        },
        Err(_) => Err(()),
    }
}

/// `.../palette_overwrite/{primary|secondary}`.
pub open spec fn spec_target_palette_overwrite_action(
    args: Seq<OscArg>,
    t: SceneInstanceUnion,
    action: Seq<char>,
) -> Result<UiAction, ()> {
    if action == "primary"@ {
        ok_then(spec_rgb(args), |c| Ok(UiAction::SetScenePaletteOverwritePrimary(t, c)))
    } else if action == "secondary"@ {
        ok_then(spec_rgb(args), |c| Ok(UiAction::SetScenePaletteOverwriteSecondary(t, c)))
    } else {
        Err(())
    }
}

/// `.../{action}` for a scene.
pub open spec fn spec_target_action(args: Seq<OscArg>, t: SceneInstanceUnion, action: Seq<char>) -> Result<
    UiAction,
    (),
> {
    if action == "opacity"@ {
        ok_then(spec_number(args, 0), |v| Ok(UiAction::SetSceneOpacity(t, v)))
    } else if action == "active"@ {
        ok_then(spec_bool(args, 0), |v| Ok(UiAction::SetSceneActive(t, v)))
    } else if action == "toggle"@ {
        Ok(UiAction::ToggleSceneActive(t))
    } else if action == "select"@ {
        Ok(UiAction::SelectScene(t))
    } else if action == "name"@ {
        ok_then(spec_string(args, 0), |v| Ok(UiAction::SetSceneName(t, v)))
    } else if action == "color"@ {
        ok_then(spec_scene_color(args, 0), |v| Ok(UiAction::SetSceneColor(t, v)))
    } else if action == "input_dimmer"@ {
        ok_then(spec_number(args, 0), |v| Ok(UiAction::SetSceneInputDimmer(t, v)))
    } else if action == "ignore_main_dimmer"@ {
        ok_then(spec_bool(args, 0), |v| Ok(UiAction::SetSceneIgnoreMainDimmer(t, v)))
    } else if action == "beat_offset"@ {
        ok_then(spec_number(args, 0), |v| Ok(UiAction::SetSceneBeatOffset(t, v)))
    } else if action == "set_offset_on_flash"@ {
        ok_then(spec_bool(args, 0), |v| Ok(UiAction::SetSceneSetOffsetOnFlash(t, v)))
    } else if action == "palette_overwrite"@ {
        ok_then(
            spec_scene_palette_overwrite(args, 0),
            |v| Ok(UiAction::SetScenePaletteOverwriteFromAsset(t, v)),
        )
    } else if action == "delete"@ {
        Ok(UiAction::DeleteSceneInstancePath(t))
    } else if action == "clone"@ {
        Ok(UiAction::CloneSceneInstancePath(t))
    } else {
        Err(())
    }
}

/// The part of a scene command after the scene selector. `grid` is the
/// selected cell when the selector is a grid cell (only there can a scene
/// be added).
pub open spec fn spec_scene_suffix(
    args: Seq<OscArg>,
    t: SceneInstanceUnion,
    grid: Option<GridLocation>,
    r: Seq<Seq<char>>,
) -> Result<UiAction, ()> {
    let n = r.len();
    if n == 1 && r[0] == "add"@ && grid is Some {
        ok_then(spec_uuid(args, 0), |id| Ok(UiAction::AddScene(grid->0, id)))
    } else if n == 2 && r[0] == "effect"@ && r[1] == "add"@ {
        Ok(UiAction::AddSceneEffect(t))
    } else if n == 3 && r[0] == "effect"@ {
        ok_then(spec_index(r[1]), |e| spec_target_effect_action(args, t, e, r[2]))
    } else if n == 4 && r[0] == "effect"@ && is_effect_curve_field(r[2]) {
        ok_then(spec_index(r[1]), |e| spec_target_effect_curve_action(args, t, e, r[2], r[3]))
    } else if n == 5 && r[0] == "effect"@ && r[2] == "config"@ && r[3] == "u32"@ {
        ok_then(
            spec_index(r[1]),
            |e|
                ok_then(
                    spec_index(r[4]),
                    |c|
                        ok_then(
                            spec_u32(args, 0),
                            |v| Ok(UiAction::SetSceneEffectAnimationConfigU32(t, e, c, v)),
                        ),
                ),
        )
    } else if n == 5 && r[0] == "effect"@ && r[2] == "config"@ && r[3] == "f32"@ {
        ok_then(
            spec_index(r[1]),
            |e|
                ok_then(
                    spec_index(r[4]),
                    |c|
                        ok_then(
                            spec_number(args, 0),
                            |v| Ok(UiAction::SetSceneEffectAnimationConfigF32(t, e, c, v)),
                        ),
                ),
        )
    } else if n == 2 && r[0] == "groups_overwrite"@ && r[1] == "clear"@ {
        Ok(UiAction::ClearSceneGroupsOverwrite(t))
    } else if n == 3 && r[0] == "groups_overwrite"@ && r[1] == "remove"@ {
        ok_then(spec_index(r[2]), |g| Ok(UiAction::RemoveSceneGroupsOverwriteEntry(t, g)))
    } else if n == 2 && r[0] == "groups_overwrite"@ {
        ok_then(
            spec_index(r[1]),
            |g| ok_then(spec_string(args, 0), |s| Ok(UiAction::SetSceneGroupsOverwriteEntry(t, g, s))),
        )
    } else if n == 2 && r[0] == "palette_overwrite"@ {
        spec_target_palette_overwrite_action(args, t, r[1])
    } else if n == 3 && r[0] == "palette_overwrite"@ && r[1] == "gradient"@ {
        ok_then(
            spec_index(r[2]),
            |g| ok_then(spec_rgb(args), |c| Ok(UiAction::SetScenePaletteOverwriteGradient(t, g, c))),
        )
    } else if n == 2 && is_input_kind(r[0]) {
        spec_target_input_action(args, t, r[0], r[1])
    } else if n == 2 && is_scene_curve_field(r[0]) {
        spec_target_curve_action(args, t, r[0], r[1])
    } else if n == 1 {
        spec_target_action(args, t, r[0])
    } else {
        Err(())
    }
}

/// `/scene/...` commands.
pub open spec fn spec_scene_command(p: Seq<Seq<char>>, args: Seq<OscArg>) -> Result<UiAction, ()> {
    let n = p.len();
    if n == 6 && p[1] == "reorder"@ {
        ok_then(
            spec_grid_location(p[2], p[3]),
            |from| ok_then(spec_grid_location(p[4], p[5]), |to| Ok(UiAction::SwapScenes(from, to))),
        )
    } else if n >= 2 && p[1] == "selected"@ {
        spec_scene_suffix(args, SceneInstanceUnion::Selected, None, p.skip(2))
    } else if n >= 4 && p[1] == "grid"@ {
        ok_then(
            spec_grid_location(p[2], p[3]),
            |l| spec_scene_suffix(args, SceneInstanceUnion::Grid(l), Some(l), p.skip(4)),
        )
    } else if n >= 3 && p[1] == "quick"@ {
        ok_then(
            spec_index(p[2]),
            |i|
                spec_scene_suffix(
                    args,
                    SceneInstanceUnion::Quick(QuickSceneInstanceIndex { index: i }),
                    None,
                    p.skip(3),
                ),
        )
    } else {
        Err(())
    }
}

/// The user action an OSC message asks for, by its address segments and
/// arguments; `Err` for any address or argument the API does not accept.
pub open spec fn spec_parse_segments(p: Seq<Seq<char>>, args: Seq<OscArg>) -> Result<UiAction, ()> {
    if p.len() >= 1 && p[0] == "project"@ {
        spec_project_command(p, args)
    } else if p.len() >= 1 && p[0] == "asset"@ {
        spec_asset_command(p, args)
    } else if p.len() >= 1 && p[0] == "timing"@ {
        spec_timing_command(p, args)
    } else if p.len() >= 1 && p[0] == "scene"@ {
        spec_scene_command(p, args)
    } else {
        Err(())
    }
}

/// The user action an OSC message asks for.
pub open spec fn spec_parse_message(msg: OscMessage) -> Result<UiAction, ()> {
    spec_parse_segments(path_segments(msg.addr@), msg.args@)
}

/// The scene commands are the same on every selector: a command suffix
/// asks for the command of that suffix on the selected scene.
pub proof fn law_selected_selector(rest: Seq<Seq<char>>, args: Seq<OscArg>)
    ensures
        spec_parse_segments(seq!["scene"@, "selected"@] + rest, args) == spec_scene_suffix(
            args,
            SceneInstanceUnion::Selected,
            None,
            rest,
        ),
{
    reveal_strlit("scene");
    reveal_strlit("project");
    reveal_strlit("asset");
    reveal_strlit("timing");
    reveal_strlit("reorder");
    reveal_strlit("selected");
    assert("scene"@ != "asset"@) by {
        assert("scene"@[0] != "asset"@[0]);
    }
    let p = seq!["scene"@, "selected"@] + rest;
    assert(p.skip(2) =~= rest);
    assert(p[0] == "scene"@ && p[1] == "selected"@);
}

/// A command suffix (other than the grid-only `add`) on a grid cell asks
/// for the same command as on the selected scene, for that cell.
pub proof fn law_grid_selector(rest: Seq<Seq<char>>, args: Seq<OscArg>, col: Seq<char>, row: Seq<char>)
    requires
        !(rest.len() == 1 && rest[0] == "add"@),
        spec_grid_location(col, row) is Ok,
    ensures
        spec_parse_segments(seq!["scene"@, "grid"@, col, row] + rest, args) == spec_scene_suffix(
            args,
            SceneInstanceUnion::Grid(spec_grid_location(col, row)->Ok_0),
            None,
            rest,
        ),
{
    reveal_strlit("scene");
    reveal_strlit("project");
    reveal_strlit("asset");
    reveal_strlit("timing");
    reveal_strlit("reorder");
    reveal_strlit("selected");
    reveal_strlit("grid");
    assert("scene"@ != "asset"@) by {
        assert("scene"@[0] != "asset"@[0]);
    }
    let l = spec_grid_location(col, row)->Ok_0;
    let p = seq!["scene"@, "grid"@, col, row] + rest;
    assert(p.skip(4) =~= rest);
    assert(p[0] == "scene"@ && p[1] == "grid"@ && p[2] == col && p[3] == row);
    assert(spec_scene_suffix(args, SceneInstanceUnion::Grid(l), Some(l), rest) == spec_scene_suffix(
        args,
        SceneInstanceUnion::Grid(l),
        None,
        rest,
    ));
}

/// A command suffix on a quick-row scene asks for the same command as on
/// the selected scene, for that quick-row scene.
pub proof fn law_quick_selector(rest: Seq<Seq<char>>, args: Seq<OscArg>, index: Seq<char>)
    requires
        spec_index(index) is Ok,
    ensures
        spec_parse_segments(seq!["scene"@, "quick"@, index] + rest, args) == spec_scene_suffix(
            args,
            SceneInstanceUnion::Quick(QuickSceneInstanceIndex { index: spec_index(index)->Ok_0 }),
            None,
            rest,
        ),
{
    reveal_strlit("scene");
    reveal_strlit("project");
    reveal_strlit("asset");
    reveal_strlit("timing");
    reveal_strlit("reorder");
    reveal_strlit("selected");
    reveal_strlit("grid");
    reveal_strlit("quick");
    assert("scene"@ != "asset"@) by {
        assert("scene"@[0] != "asset"@[0]);
    }
    let p = seq!["scene"@, "quick"@, index] + rest;
    assert(p.skip(3) =~= rest);
    assert(p[0] == "scene"@ && p[1] == "quick"@ && p[2] == index);
}

// ---------------------------------------------------------------------------
// Executable grammar
// ---------------------------------------------------------------------------
fn seg(p: &Vec<Vec<char>>, i: usize) -> (r: &[char])
    requires
        i < p@.len(),
    ensures
        r@ == seg_view(p@)[i as int],
{
    p[i].as_slice()
}

fn index_chars(s: &[char]) -> (r: Result<usize, ()>)
    ensures
        r == spec_index(s@),
{
    match parse_decimal_usize(s) {
        Some(v) => Ok(v),
        None => Err(()),
    }
}

/// Read a path segment as an index (`str::parse::<usize>`).
pub fn parse_index(value: &str) -> (r: Result<usize, ()>)
    ensures
        r == spec_index(value@),
{
    let chars = chars_of(value);
    index_chars(chars.as_slice())
}

/// Read a path segment as a quick-row index.
pub fn parse_quick_index(index: &str) -> (r: Result<usize, ()>)
    ensures
        r == spec_index(index@),
{
    parse_index(index)
}

fn path_uuid_chars(s: &[char]) -> (r: Result<u128, ()>)
    ensures
        r == spec_path_uuid(s@),
{
    let text = string_from_chars(s);
    match parse_uuid_str(text.as_str()) {
        Some(id) => Ok(id),
        None => Err(()),
    }
}

fn grid_location_chars(col: &[char], row: &[char]) -> (r: Result<GridLocation, ()>)
    ensures
        r == spec_grid_location(col@, row@),
{
    let c = match parse_decimal_usize(col) {
        Some(v) => v,
        None => return Err(()),
    };
    let r = match parse_decimal_usize(row) {
        Some(v) => v,
        None => return Err(()),
    };
    Ok(GridLocation::new(c, r))
}

/// Read two path segments as grid column and row.
pub fn parse_grid_location(col: &str, row: &str) -> (r: Result<GridLocation, ()>)
    ensures
        r == spec_grid_location(col@, row@),
{
    let c = chars_of(col);
    let r = chars_of(row);
    grid_location_chars(c.as_slice(), r.as_slice())
}

fn project_input_clear_chars(kind: &[char]) -> (r: Result<UiAction, ()>)
    ensures
        r == spec_project_input_clear(kind@),
{
    if is_text(kind, "tap") {
        Ok(UiAction::ClearProjectTapInput)
    } else if is_text(kind, "blackout") {
        Ok(UiAction::ClearProjectBlackoutInput)
    } else if is_text(kind, "blackout_hold") {
        Ok(UiAction::ClearProjectBlackoutHoldInput)
    } else if is_text(kind, "half") {
        Ok(UiAction::ClearProjectHalfInput)
    } else if is_text(kind, "double") {
        Ok(UiAction::ClearProjectDoubleInput)
    } else {
        Err(())
    }
}

fn project_input_add_chars(kind: &[char], channel: u16) -> (r: Result<UiAction, ()>)
    ensures
        r == spec_project_input_add_artnet(kind@, channel),
{
    if is_text(kind, "tap") {
        Ok(UiAction::AddProjectTapInputArtnet(channel))
    } else if is_text(kind, "blackout") {
        Ok(UiAction::AddProjectBlackoutInputArtnet(channel))
    } else if is_text(kind, "blackout_hold") {
        Ok(UiAction::AddProjectBlackoutHoldInputArtnet(channel))
    } else if is_text(kind, "half") {
        Ok(UiAction::AddProjectHalfInputArtnet(channel))
    } else if is_text(kind, "double") {
        Ok(UiAction::AddProjectDoubleInputArtnet(channel))
    } else {
        Err(())
    }
}

fn project_input_remove_chars(kind: &[char], channel: u16) -> (r: Result<UiAction, ()>)
    ensures
        r == spec_project_input_remove_artnet(kind@, channel),
{
    if is_text(kind, "tap") {
        Ok(UiAction::RemoveProjectTapInputArtnet(channel))
    } else if is_text(kind, "blackout") {
        Ok(UiAction::RemoveProjectBlackoutInputArtnet(channel))
    } else if is_text(kind, "blackout_hold") {
        Ok(UiAction::RemoveProjectBlackoutHoldInputArtnet(channel))
    } else if is_text(kind, "half") {
        Ok(UiAction::RemoveProjectHalfInputArtnet(channel))
    } else if is_text(kind, "double") {
        Ok(UiAction::RemoveProjectDoubleInputArtnet(channel))
    } else {
        Err(())
    }
}

/// The action that clears the project input list `event_kind`.
pub fn parse_project_input_clear(event_kind: &str) -> (r: Result<UiAction, ()>)
    ensures
        r == spec_project_input_clear(event_kind@),
{
    let k = chars_of(event_kind);
    project_input_clear_chars(k.as_slice())
}

/// The action that adds Art-Net `channel` to the project input list
/// `event_kind`.
pub fn parse_project_input_add_artnet(event_kind: &str, channel: u16) -> (r: Result<UiAction, ()>)
    ensures
        r == spec_project_input_add_artnet(event_kind@, channel),
{
    let k = chars_of(event_kind);
    project_input_add_chars(k.as_slice(), channel)
}

/// The action that removes Art-Net `channel` from the project input list
/// `event_kind`.
pub fn parse_project_input_remove_artnet(event_kind: &str, channel: u16) -> (r: Result<
    UiAction,
    (),
>)
    ensures
        r == spec_project_input_remove_artnet(event_kind@, channel),
{
    let k = chars_of(event_kind);
    project_input_remove_chars(k.as_slice(), channel)
}

fn parse_project_command(msg: &OscMessage, p: &Vec<Vec<char>>) -> (r: Result<UiAction, ()>)
    ensures
        r == spec_project_command(seg_view(p@), msg.args@),
{
    let n = p.len();
    if n == 2 && is_text(seg(p, 1), "main_dimmer") {
        Ok(UiAction::SetMainDimmer(parse_f32(msg, 0)?))
    } else if n == 2 && is_text(seg(p, 1), "blackout") {
        Ok(UiAction::SetBlackout(parse_bool(msg, 0)?))
    } else if n == 2 && is_text(seg(p, 1), "palette") {
        Ok(UiAction::SetProjectPaletteFromAsset(parse_optional_uuid(msg, 0)?))
    } else if n == 3 && is_text(seg(p, 1), "palette") && is_text(seg(p, 2), "primary") {
        Ok(UiAction::SetProjectPalettePrimary(parse_rgb(msg)?))
    } else if n == 3 && is_text(seg(p, 1), "palette") && is_text(seg(p, 2), "secondary") {
        Ok(UiAction::SetProjectPaletteSecondary(parse_rgb(msg)?))
    } else if n == 4 && is_text(seg(p, 1), "palette") && is_text(seg(p, 2), "gradient") {
        let i = index_chars(seg(p, 3))?;
        Ok(UiAction::SetProjectPaletteGradient(i, parse_rgb(msg)?))
    } else if n == 3 && is_text(seg(p, 1), "artnet_control") && is_text(seg(p, 2), "active") {
        Ok(UiAction::SetProjectArtnetControlActive(parse_bool(msg, 0)?))
    } else if n == 3 && is_text(seg(p, 1), "artnet_control") && is_text(seg(p, 2), "universe") {
        Ok(UiAction::SetProjectArtnetControlUniverse(parse_u16(msg, 0)?))
    } else if n == 3 && is_text(seg(p, 1), "groups") && is_text(seg(p, 2), "clear") {
        Ok(UiAction::ClearProjectGroups)
    } else if n == 4 && is_text(seg(p, 1), "groups") && is_text(seg(p, 2), "remove") {
        Ok(UiAction::RemoveProjectGroup(index_chars(seg(p, 3))?))
    } else if n == 3 && is_text(seg(p, 1), "groups") {
        let i = index_chars(seg(p, 2))?;
        Ok(UiAction::SetProjectGroup(i, parse_string(msg, 0)?))
    } else if n == 4 && is_text(seg(p, 1), "input") && is_text(seg(p, 3), "clear") {
        project_input_clear_chars(seg(p, 2))
    } else if n == 5 && is_text(seg(p, 1), "input") && is_text(seg(p, 3), "add") && is_text(
        seg(p, 4),
        "artnet",
    ) {
        let c = parse_u16(msg, 0)?;
        project_input_add_chars(seg(p, 2), c)
    } else if n == 5 && is_text(seg(p, 1), "input") && is_text(seg(p, 3), "remove") && is_text(
        seg(p, 4),
        "artnet",
    ) {
        let c = parse_u16(msg, 0)?;
        project_input_remove_chars(seg(p, 2), c)
    } else {
        Err(())
    }
}

fn parse_asset_command(msg: &OscMessage, p: &Vec<Vec<char>>) -> (r: Result<UiAction, ()>)
    ensures
        r == spec_asset_command(seg_view(p@), msg.args@),
{
    let n = p.len();
    if n == 4 && is_text(seg(p, 1), "animation") && is_text(seg(p, 3), "shader_code") {
        let id = path_uuid_chars(seg(p, 2))?;
        Ok(UiAction::SetAnimationShaderCode(id, parse_string(msg, 0)?))
    } else if n == 5 && is_text(seg(p, 1), "animation") && is_text(seg(p, 3), "argument") && is_text(
        seg(p, 4),
        "add",
    ) {
        Ok(UiAction::AddAnimationArgument(path_uuid_chars(seg(p, 2))?))
    } else if n == 6 && is_text(seg(p, 1), "animation") && is_text(seg(p, 3), "argument") && is_text(
        seg(p, 5),
        "remove",
    ) {
        let id = path_uuid_chars(seg(p, 2))?;
        Ok(UiAction::RemoveAnimationArgument(id, index_chars(seg(p, 4))?))
    } else if n == 6 && is_text(seg(p, 1), "animation") && is_text(seg(p, 3), "argument") && is_text(
        seg(p, 5),
        "name",
    ) {
        let id = path_uuid_chars(seg(p, 2))?;
        let i = index_chars(seg(p, 4))?;
        Ok(UiAction::SetAnimationArgumentName(id, i, parse_string(msg, 0)?))
    } else if n == 6 && is_text(seg(p, 1), "animation") && is_text(seg(p, 3), "argument") && is_text(
        seg(p, 5),
        "kind",
    ) {
        let id = path_uuid_chars(seg(p, 2))?;
        let i = index_chars(seg(p, 4))?;
        Ok(UiAction::SetAnimationArgumentKind(id, i, parse_argument_kind(msg, 0)?))
    } else {
        Err(())
    }
}

fn parse_timing_command(msg: &OscMessage, p: &Vec<Vec<char>>) -> (r: Result<UiAction, ()>)
    ensures
        r == spec_timing_command(seg_view(p@), msg.args@),
{
    let n = p.len();
    if n == 2 && is_text(seg(p, 1), "tap") {
        Ok(UiAction::Tap)
    } else if n == 3 && is_text(seg(p, 1), "speed") && is_text(seg(p, 2), "add") {
        Ok(UiAction::SpeedAdd(parse_f32(msg, 0)?))
    } else if n == 3 && is_text(seg(p, 1), "speed") && is_text(seg(p, 2), "multiply") {
        Ok(UiAction::SpeedMultiply(parse_f32(msg, 0)?))
    } else {
        Err(())
    }
}

fn parse_target_effect_action(
    msg: &OscMessage,
    t: SceneInstanceUnion,
    e: usize,
    action: &[char],
) -> (r: Result<UiAction, ()>)
    ensures
        r == spec_target_effect_action(msg.args@, t, e, action@),
{
    if is_text(action, "opacity") {
        Ok(UiAction::SetSceneEffectOpacity(t, e, parse_f32(msg, 0)?))
    } else if is_text(action, "color_shift") {
        Ok(UiAction::SetSceneEffectColorShift(t, e, parse_f32(msg, 0)?))
    } else if is_text(action, "beat_progression") {
        Ok(UiAction::SetSceneEffectBeatProgression(t, e, parse_f32(msg, 0)?))
    } else if is_text(action, "beat_offset") {
        Ok(UiAction::SetSceneEffectBeatOffset(t, e, parse_f32(msg, 0)?))
    } else if is_text(action, "speed_exponent") {
        Ok(UiAction::SetSceneEffectSpeedExponent(t, e, parse_i32(msg, 0)?))
    } else if is_text(action, "group_index") {
        Ok(UiAction::SetSceneEffectGroupIndex(t, e, parse_usize(msg, 0)?))
    } else if is_text(action, "animation") {
        Ok(UiAction::SetSceneEffectAnimation(t, e, parse_optional_uuid(msg, 0)?))
    } else if is_text(action, "delete") {
        Ok(UiAction::RemoveSceneEffect(t, e))
    } else if is_text(action, "clone") {
        Ok(UiAction::CloneSceneEffect(t, e))
    } else {
        Err(())
    }
}

fn effect_curve_field(f: &[char]) -> (r: bool)
    ensures
        r == is_effect_curve_field(f@),
{
    is_text(f, "opacity") || is_text(f, "color_shift") || is_text(f, "beat_progression")
        || is_text(f, "beat_offset")
}

fn scene_curve_field(f: &[char]) -> (r: bool)
    ensures
        r == is_scene_curve_field(f@),
{
    is_text(f, "opacity") || is_text(f, "beat_offset")
}

fn input_kind(f: &[char]) -> (r: bool)
    ensures
        r == is_input_kind(f@),
{
    is_text(f, "activation_input") || is_text(f, "flash_input") || is_text(f, "dimmer_input")
}

fn parse_target_effect_curve_action(
    msg: &OscMessage,
    t: SceneInstanceUnion,
    e: usize,
    field: &[char],
    sub: &[char],
) -> (r: Result<UiAction, ()>)
    ensures
        r == spec_target_effect_curve_action(msg.args@, t, e, field@, sub@),
{
    if is_text(field, "opacity") && is_text(sub, "value") {
        Ok(UiAction::SetSceneEffectOpacityMultiplier(t, e, parse_f32(msg, 0)?))
    } else if is_text(field, "opacity") && is_text(sub, "static") {
        Ok(UiAction::SetSceneEffectOpacity(t, e, parse_f32(msg, 0)?))
    } else if is_text(field, "opacity") && is_text(sub, "curve") {
        Ok(UiAction::SetSceneEffectOpacityCurve(t, e, parse_optional_uuid(msg, 0)?))
    } else if is_text(field, "color_shift") && is_text(sub, "value") {
        Ok(UiAction::SetSceneEffectColorShiftMultiplier(t, e, parse_f32(msg, 0)?))
    } else if is_text(field, "color_shift") && is_text(sub, "static") {
        Ok(UiAction::SetSceneEffectColorShift(t, e, parse_f32(msg, 0)?))
    } else if is_text(field, "color_shift") && is_text(sub, "curve") {
        Ok(UiAction::SetSceneEffectColorShiftCurve(t, e, parse_optional_uuid(msg, 0)?))
    } else if is_text(field, "beat_progression") && is_text(sub, "value") {
        Ok(UiAction::SetSceneEffectBeatProgressionMultiplier(t, e, parse_f32(msg, 0)?))
    } else if is_text(field, "beat_progression") && is_text(sub, "static") {
        Ok(UiAction::SetSceneEffectBeatProgression(t, e, parse_f32(msg, 0)?))
    } else if is_text(field, "beat_progression") && is_text(sub, "curve") {
        Ok(UiAction::SetSceneEffectBeatProgressionCurve(t, e, parse_optional_uuid(msg, 0)?))
    } else if is_text(field, "beat_offset") && is_text(sub, "value") {
        Ok(UiAction::SetSceneEffectBeatOffsetMultiplier(t, e, parse_f32(msg, 0)?))
    } else if is_text(field, "beat_offset") && is_text(sub, "static") {
        Ok(UiAction::SetSceneEffectBeatOffset(t, e, parse_f32(msg, 0)?))
    } else if is_text(field, "beat_offset") && is_text(sub, "curve") {
        Ok(UiAction::SetSceneEffectBeatOffsetCurve(t, e, parse_optional_uuid(msg, 0)?))
    } else {
        Err(())
    }
}

fn parse_target_curve_action(
    msg: &OscMessage,
    t: SceneInstanceUnion,
    field: &[char],
    sub: &[char],
) -> (r: Result<UiAction, ()>)
    ensures
        r == spec_target_curve_action(msg.args@, t, field@, sub@),
{
    if is_text(field, "opacity") && is_text(sub, "value") {
        Ok(UiAction::SetSceneOpacityMultiplier(t, parse_f32(msg, 0)?))
    } else if is_text(field, "opacity") && is_text(sub, "static") {
        Ok(UiAction::SetSceneOpacity(t, parse_f32(msg, 0)?))
    } else if is_text(field, "opacity") && is_text(sub, "curve") {
        Ok(UiAction::SetSceneOpacityCurve(t, parse_optional_uuid(msg, 0)?))
    } else if is_text(field, "beat_offset") && is_text(sub, "value") {
        Ok(UiAction::SetSceneBeatOffsetMultiplier(t, parse_f32(msg, 0)?))
    } else if is_text(field, "beat_offset") && is_text(sub, "static") {
        Ok(UiAction::SetSceneBeatOffset(t, parse_f32(msg, 0)?))
    } else if is_text(field, "beat_offset") && is_text(sub, "curve") {
        Ok(UiAction::SetSceneBeatOffsetCurve(t, parse_optional_uuid(msg, 0)?))
    } else {
        Err(())
    }
}

fn parse_target_input_action(
    msg: &OscMessage,
    t: SceneInstanceUnion,
    kind: &[char],
    mode: &[char],
) -> (r: Result<UiAction, ()>)
    ensures
        r == spec_target_input_action(msg.args@, t, kind@, mode@),
{
    let input = if is_text(mode, "clear") {
        None
    } else if is_text(mode, "artnet") {
        Some(InputEvent::Artnet(parse_u16(msg, 0)?))
    } else {
        return Err(());
    };
    if is_text(kind, "activation_input") {
        Ok(UiAction::SetSceneActivationInput(t, input))
    } else if is_text(kind, "flash_input") {
        Ok(UiAction::SetSceneFlashInput(t, input))
    } else if is_text(kind, "dimmer_input") {
        Ok(UiAction::SetSceneDimmerInput(t, input))
    } else {
        Err(())
    }
}

fn parse_target_palette_overwrite_action(
    msg: &OscMessage,
    t: SceneInstanceUnion,
    action: &[char],
) -> (r: Result<UiAction, ()>)
    ensures
        r == spec_target_palette_overwrite_action(msg.args@, t, action@),
{
    if is_text(action, "primary") {
        Ok(UiAction::SetScenePaletteOverwritePrimary(t, parse_rgb(msg)?))
    } else if is_text(action, "secondary") {
        Ok(UiAction::SetScenePaletteOverwriteSecondary(t, parse_rgb(msg)?))
    } else {
        Err(())
    }
}

fn parse_target_action(msg: &OscMessage, t: SceneInstanceUnion, action: &[char]) -> (r: Result<
    UiAction,
    (),
>)
    ensures
        r == spec_target_action(msg.args@, t, action@),
{
    if is_text(action, "opacity") {
        Ok(UiAction::SetSceneOpacity(t, parse_f32(msg, 0)?))
    } else if is_text(action, "active") {
        Ok(UiAction::SetSceneActive(t, parse_bool(msg, 0)?))
    } else if is_text(action, "toggle") {
        Ok(UiAction::ToggleSceneActive(t))
    } else if is_text(action, "select") {
        Ok(UiAction::SelectScene(t))
    } else if is_text(action, "name") {
        Ok(UiAction::SetSceneName(t, parse_string(msg, 0)?))
    } else if is_text(action, "color") {
        Ok(UiAction::SetSceneColor(t, parse_scene_color(msg, 0)?))
    } else if is_text(action, "input_dimmer") {
        Ok(UiAction::SetSceneInputDimmer(t, parse_f32(msg, 0)?))
    } else if is_text(action, "ignore_main_dimmer") {
        Ok(UiAction::SetSceneIgnoreMainDimmer(t, parse_bool(msg, 0)?))
    } else if is_text(action, "beat_offset") {
        Ok(UiAction::SetSceneBeatOffset(t, parse_f32(msg, 0)?))
    } else if is_text(action, "set_offset_on_flash") {
        Ok(UiAction::SetSceneSetOffsetOnFlash(t, parse_bool(msg, 0)?))
    } else if is_text(action, "palette_overwrite") {
        Ok(UiAction::SetScenePaletteOverwriteFromAsset(t, parse_scene_palette_overwrite(msg, 0)?))
    } else if is_text(action, "delete") {
        Ok(UiAction::DeleteSceneInstancePath(t))
    } else if is_text(action, "clone") {
        Ok(UiAction::CloneSceneInstancePath(t))
    } else {
        Err(())
    }
}

fn parse_scene_suffix(
    msg: &OscMessage,
    t: SceneInstanceUnion,
    grid: Option<GridLocation>,
    p: &Vec<Vec<char>>,
    k: usize,
) -> (r: Result<UiAction, ()>)
    requires
        k <= p@.len(),
    ensures
        r == spec_scene_suffix(msg.args@, t, grid, seg_view(p@).skip(k as int)),
{
    let ghost rs = seg_view(p@).skip(k as int);
    let n = p.len() - k;
    proof {
        assert(rs.len() == n);
        assert forall|j: int| 0 <= j < n implies rs[j] == #[trigger] seg_view(p@)[k + j] by {}
    }
    if n == 1 && is_text(seg(p, k), "add") && grid.is_some() {
        let id = parse_uuid(msg, 0)?;
        match grid {
            Some(l) => Ok(UiAction::AddScene(l, id)),
            None => Err(()),
        }
    } else if n == 2 && is_text(seg(p, k), "effect") && is_text(seg(p, k + 1), "add") {
        Ok(UiAction::AddSceneEffect(t))
    } else if n == 3 && is_text(seg(p, k), "effect") {
        let e = index_chars(seg(p, k + 1))?;
        parse_target_effect_action(msg, t, e, seg(p, k + 2))
    } else if n == 4 && is_text(seg(p, k), "effect") && effect_curve_field(seg(p, k + 2)) {
        let e = index_chars(seg(p, k + 1))?;
        parse_target_effect_curve_action(msg, t, e, seg(p, k + 2), seg(p, k + 3))
    } else if n == 5 && is_text(seg(p, k), "effect") && is_text(seg(p, k + 2), "config") && is_text(
        seg(p, k + 3),
        "u32",
    ) {
        let e = index_chars(seg(p, k + 1))?;
        let c = index_chars(seg(p, k + 4))?;
        Ok(UiAction::SetSceneEffectAnimationConfigU32(t, e, c, parse_u32(msg, 0)?))
    } else if n == 5 && is_text(seg(p, k), "effect") && is_text(seg(p, k + 2), "config") && is_text(
        seg(p, k + 3),
        "f32",
    ) {
        let e = index_chars(seg(p, k + 1))?;
        let c = index_chars(seg(p, k + 4))?;
        Ok(UiAction::SetSceneEffectAnimationConfigF32(t, e, c, parse_f32(msg, 0)?))
    } else if n == 2 && is_text(seg(p, k), "groups_overwrite") && is_text(seg(p, k + 1), "clear") {
        Ok(UiAction::ClearSceneGroupsOverwrite(t))
    } else if n == 3 && is_text(seg(p, k), "groups_overwrite") && is_text(seg(p, k + 1), "remove") {
        Ok(UiAction::RemoveSceneGroupsOverwriteEntry(t, index_chars(seg(p, k + 2))?))
    } else if n == 2 && is_text(seg(p, k), "groups_overwrite") {
        let g = index_chars(seg(p, k + 1))?;
        Ok(UiAction::SetSceneGroupsOverwriteEntry(t, g, parse_string(msg, 0)?))
    } else if n == 2 && is_text(seg(p, k), "palette_overwrite") {
        parse_target_palette_overwrite_action(msg, t, seg(p, k + 1))
    } else if n == 3 && is_text(seg(p, k), "palette_overwrite") && is_text(
        seg(p, k + 1),
        "gradient",
    ) {
        let g = index_chars(seg(p, k + 2))?;
        Ok(UiAction::SetScenePaletteOverwriteGradient(t, g, parse_rgb(msg)?))
    } else if n == 2 && input_kind(seg(p, k)) {
        parse_target_input_action(msg, t, seg(p, k), seg(p, k + 1))
    } else if n == 2 && scene_curve_field(seg(p, k)) {
        parse_target_curve_action(msg, t, seg(p, k), seg(p, k + 1))
    } else if n == 1 {
        parse_target_action(msg, t, seg(p, k))
    } else {
        Err(())
    }
}

fn parse_scene_command(msg: &OscMessage, p: &Vec<Vec<char>>) -> (r: Result<UiAction, ()>)
    ensures
        r == spec_scene_command(seg_view(p@), msg.args@),
{
    let n = p.len();
    if n == 6 && is_text(seg(p, 1), "reorder") {
        let from = grid_location_chars(seg(p, 2), seg(p, 3))?;
        let to = grid_location_chars(seg(p, 4), seg(p, 5))?;
        Ok(UiAction::SwapScenes(from, to))
    } else if n >= 2 && is_text(seg(p, 1), "selected") {
        parse_scene_suffix(msg, SceneInstanceUnion::Selected, None, p, 2)
    } else if n >= 4 && is_text(seg(p, 1), "grid") {
        let l = grid_location_chars(seg(p, 2), seg(p, 3))?;
        parse_scene_suffix(msg, SceneInstanceUnion::Grid(l), Some(l), p, 4)
    } else if n >= 3 && is_text(seg(p, 1), "quick") {
        let i = index_chars(seg(p, 2))?;
        parse_scene_suffix(
            msg,
            SceneInstanceUnion::Quick(QuickSceneInstanceIndex { index: i }),
            None,
            p,
            3,
        )
    } else {
        Err(())
    }
}

/// Decode the user action that an OSC message asks for, following the
/// control API's address grammar; `Err(())` for unknown addresses and for
/// arguments of the wrong kind or range.
pub fn parse_message(msg: &OscMessage) -> (r: Result<UiAction, ()>)
    ensures
        r == spec_parse_message(*msg),
{
    let p = split_address(msg.addr.as_str());
    let n = p.len();
    if n >= 1 && is_text(seg(&p, 0), "project") {
        parse_project_command(msg, &p)
    } else if n >= 1 && is_text(seg(&p, 0), "asset") {
        parse_asset_command(msg, &p)
    } else if n >= 1 && is_text(seg(&p, 0), "timing") {
        parse_timing_command(msg, &p)
    } else if n >= 1 && is_text(seg(&p, 0), "scene") {
        parse_scene_command(msg, &p)
    } else {
        Err(())
    }
}

/// Setting a scene field through `.../{field}/static` asks for the same
/// command as `.../{field}`, for the scene fields and the effect fields
/// that also take a multiplier or a curve.
pub proof fn law_static_like_plain(
    args: Seq<OscArg>,
    t: SceneInstanceUnion,
    grid: Option<GridLocation>,
    field: Seq<char>,
    effect: Seq<char>,
)
    ensures
        is_scene_curve_field(field) ==> spec_scene_suffix(args, t, grid, seq![field, "static"@])
            == spec_scene_suffix(args, t, grid, seq![field]),
        is_effect_curve_field(field) ==> spec_scene_suffix(
            args,
            t,
            grid,
            seq!["effect"@, effect, field, "static"@],
        ) == spec_scene_suffix(args, t, grid, seq!["effect"@, effect, field]),
{
    reveal_strlit("opacity");
    reveal_strlit("beat_offset");
    reveal_strlit("color_shift");
    reveal_strlit("beat_progression");
    reveal_strlit("static");
    reveal_strlit("value");
    reveal_strlit("add");
    reveal_strlit("effect");
    reveal_strlit("config");
    reveal_strlit("groups_overwrite");
    reveal_strlit("palette_overwrite");
    reveal_strlit("activation_input");
    reveal_strlit("flash_input");
    reveal_strlit("dimmer_input");
    assert("static"@ != "value"@) by {
        assert("static"@[0] != "value"@[0]);
    }
    if is_scene_curve_field(field) {
        let r2 = seq![field, "static"@];
        let r1 = seq![field];
        assert(r2[0] == field && r1[0] == field && r2[1] == "static"@);
        assert(field != "effect"@ && field != "groups_overwrite"@ && field != "palette_overwrite"@) by {
            assert(field[0] != 'e' || field.len() != 6);
            assert(field[0] != 'g' && field[0] != 'p');
        }
        assert(!is_input_kind(field)) by {
            assert(field[0] != 'a' && field[0] != 'f' && field[0] != 'd');
        }
        assert(field != "add"@) by {
            assert(field[0] != 'a');
        }
        assert(spec_scene_suffix(args, t, grid, r2) == spec_target_curve_action(args, t, field, "static"@));
        assert(spec_scene_suffix(args, t, grid, r1) == spec_target_action(args, t, field));
        if field == "opacity"@ {
            assert(spec_target_curve_action(args, t, field, "static"@) == spec_target_action(args, t, field));
        } else {
            assert(field != "opacity"@) by {
                assert(field[0] != "opacity"@[0]);
            }
            reveal_strlit("active");
            reveal_strlit("toggle");
            reveal_strlit("select");
            reveal_strlit("name");
            reveal_strlit("color");
            reveal_strlit("input_dimmer");
            reveal_strlit("ignore_main_dimmer");
            assert(field == "beat_offset"@);
            assert(field != "active"@ && field != "toggle"@ && field != "select"@ && field != "name"@
                && field != "color"@ && field != "input_dimmer"@ && field != "ignore_main_dimmer"@) by {
                assert(field[0] == 'b');
            }
            assert(spec_target_curve_action(args, t, field, "static"@) == spec_target_action(args, t, field));
        }
    }
    if is_effect_curve_field(field) {
        let r4 = seq!["effect"@, effect, field, "static"@];
        let r3 = seq!["effect"@, effect, field];
        assert(r4[0] == "effect"@ && r4[1] == effect && r4[2] == field && r4[3] == "static"@);
        assert(r3[0] == "effect"@ && r3[1] == effect && r3[2] == field);
        assert(field != "config"@) by {
            assert(field[0] != 'c' || field.len() != 6);
        }
    }
}

/// An address written as `/w0/w1/...`.
pub open spec fn slash_joined(words: Seq<Seq<char>>) -> Seq<char>
    decreases words.len(),
{
    if words.len() == 0 {
        Seq::empty()
    } else {
        slash_joined(words.drop_last()) + seq!['/'] + words.last()
    }
}

/// A word that can stand between two `/`: not empty, without `/`.
pub open spec fn plain_word(w: Seq<char>) -> bool {
    w.len() > 0 && forall|k: int| 0 <= k < w.len() ==> w[k] != '/'
}

proof fn lemma_split_word(s: Seq<char>, w: Seq<char>)
    requires
        forall|k: int| 0 <= k < w.len() ==> w[k] != '/',
    ensures
        split_state(s + w) == (split_state(s).0, split_state(s).1 + w),
    decreases w.len(),
{
    if w.len() == 0 {
        assert(s + w =~= s);
        assert(split_state(s).1 + w =~= split_state(s).1);
    } else {
        let w0 = w.drop_last();
        lemma_split_word(s, w0);
        assert((s + w).drop_last() =~= s + w0);
        assert((s + w).last() == w.last());
        assert(split_state(s).1 + w0 + seq![w.last()] =~= split_state(s).1 + w);
    }
}

proof fn lemma_split_joined(words: Seq<Seq<char>>)
    requires
        forall|j: int| 0 <= j < words.len() ==> plain_word(#[trigger] words[j]),
    ensures
        words.len() == 0 ==> split_state(slash_joined(words)) == (Seq::<Seq<char>>::empty(), Seq::<char>::empty()),
        words.len() > 0 ==> split_state(slash_joined(words)) == (words.drop_last(), words.last()),
    decreases words.len(),
{
    if words.len() > 0 {
        let rest = words.drop_last();
        assert forall|j: int| 0 <= j < rest.len() implies plain_word(#[trigger] rest[j]) by {
            assert(rest[j] == words[j]);
        }
        lemma_split_joined(rest);
        let s = slash_joined(rest) + seq!['/'];
        assert(s.drop_last() =~= slash_joined(rest));
        assert(plain_word(words[words.len() - 1]));
        lemma_split_word(s, words.last());
        assert(split_state(s).1 + words.last() =~= words.last());
        if rest.len() > 0 {
            assert(rest.drop_last().push(rest.last()) =~= rest);
        } else {
            assert(rest =~= Seq::<Seq<char>>::empty());
        }
    }
}

/// The segments of `/w0/w1/...` are the words, for plain words.
pub proof fn law_segments_of_joined(words: Seq<Seq<char>>)
    requires
        forall|j: int| 0 <= j < words.len() ==> plain_word(#[trigger] words[j]),
    ensures
        path_segments(slash_joined(words)) == words,
{
    lemma_split_joined(words);
    if words.len() > 0 {
        assert(words.drop_last().push(words.last()) =~= words);
    }
}

proof fn lemma_joined_three(a: Seq<char>, b: Seq<char>, c: Seq<char>)
    ensures
        slash_joined(seq![a, b, c]) == seq!['/'] + a + seq!['/'] + b + seq!['/'] + c,
{
    let w = seq![a, b, c];
    assert(w.drop_last() =~= seq![a, b]);
    assert(w.drop_last().drop_last() =~= seq![a]);
    assert(w.drop_last().drop_last().drop_last() =~= Seq::<Seq<char>>::empty());
    assert(seq![a].drop_last() =~= Seq::<Seq<char>>::empty());
    assert(slash_joined(Seq::<Seq<char>>::empty()) == Seq::<char>::empty());
    assert(slash_joined(seq![a]) == slash_joined(Seq::<Seq<char>>::empty()) + seq!['/'] + a);
    assert(slash_joined(seq![a]) =~= seq!['/'] + a);
    assert(seq![a, b].drop_last() =~= seq![a]);
    assert(slash_joined(seq![a, b]) =~= seq!['/'] + a + seq!['/'] + b);
    assert(slash_joined(w) =~= seq!['/'] + a + seq!['/'] + b + seq!['/'] + c);
}

proof fn lemma_speed_paths()
    ensures
        path_segments("/timing/speed/add"@) == seq!["timing"@, "speed"@, "add"@],
        path_segments("/timing/speed/multiply"@) == seq!["timing"@, "speed"@, "multiply"@],
{
    reveal_strlit("/timing/speed/add");
    reveal_strlit("/timing/speed/multiply");
    reveal_strlit("timing");
    reveal_strlit("speed");
    reveal_strlit("add");
    reveal_strlit("multiply");
    let add = seq!["timing"@, "speed"@, "add"@];
    let mul = seq!["timing"@, "speed"@, "multiply"@];
    assert forall|j: int| 0 <= j < add.len() implies plain_word(#[trigger] add[j]) by {}
    assert forall|j: int| 0 <= j < mul.len() implies plain_word(#[trigger] mul[j]) by {}
    lemma_joined_three("timing"@, "speed"@, "add"@);
    lemma_joined_three("timing"@, "speed"@, "multiply"@);
    assert(slash_joined(add) =~= "/timing/speed/add"@);
    assert(slash_joined(mul) =~= "/timing/speed/multiply"@);
    law_segments_of_joined(add);
    law_segments_of_joined(mul);
}

proof fn lemma_speed_segments(args: Seq<OscArg>)
    ensures
        spec_parse_segments(seq!["timing"@, "speed"@, "add"@], args) == match spec_number(args, 0) {
            Ok(x) => Ok::<UiAction, ()>(UiAction::SpeedAdd(x)),
            Err(_) => Err(()),
        },
        spec_parse_segments(seq!["timing"@, "speed"@, "multiply"@], args) == match spec_number(args, 0) {
            Ok(x) => Ok::<UiAction, ()>(UiAction::SpeedMultiply(x)),
            Err(_) => Err(()),
        },
{
    reveal_strlit("timing");
    reveal_strlit("speed");
    reveal_strlit("add");
    reveal_strlit("multiply");
    reveal_strlit("project");
    reveal_strlit("asset");
    reveal_strlit("tap");
    assert("timing"@ != "project"@ && "timing"@ != "asset"@) by {
        assert("timing"@[0] != "project"@[0] && "timing"@[0] != "asset"@[0]);
    }
    assert("speed"@ != "tap"@) by {
        assert("speed"@[0] != "tap"@[0]);
    }
    assert("add"@ != "multiply"@) by {
        assert("add"@[0] != "multiply"@[0]);
    }
    let add = seq!["timing"@, "speed"@, "add"@];
    let mul = seq!["timing"@, "speed"@, "multiply"@];
    assert(spec_parse_segments(add, args) == spec_timing_command(add, args));
    assert(spec_parse_segments(mul, args) == spec_timing_command(mul, args));
}

/// `/timing/speed/add` adds its number to the speed and
/// `/timing/speed/multiply` multiplies the speed by it; without a number
/// argument neither parses.
pub proof fn law_speed_commands(msg: OscMessage)
    ensures
        msg.addr@ == "/timing/speed/add"@ ==> spec_parse_message(msg) == match spec_number(msg.args@, 0) {
            Ok(x) => Ok::<UiAction, ()>(UiAction::SpeedAdd(x)),
            Err(_) => Err(()),
        },
        msg.addr@ == "/timing/speed/multiply"@ ==> spec_parse_message(msg) == match spec_number(msg.args@, 0) {
            Ok(x) => Ok::<UiAction, ()>(UiAction::SpeedMultiply(x)),
            Err(_) => Err(()),
        },
{
    lemma_speed_paths();
    lemma_speed_segments(msg.args@);
}

proof fn lemma_joined_two(a: Seq<char>, b: Seq<char>)
    ensures
        slash_joined(seq![a, b]) == seq!['/'] + a + seq!['/'] + b,
{
    assert(seq![a, b].drop_last() =~= seq![a]);
    assert(seq![a].drop_last() =~= Seq::<Seq<char>>::empty());
    assert(slash_joined(Seq::<Seq<char>>::empty()) == Seq::<char>::empty());
    assert(slash_joined(seq![a]) == slash_joined(Seq::<Seq<char>>::empty()) + seq!['/'] + a);
    assert(slash_joined(seq![a]) =~= seq!['/'] + a);
    assert(slash_joined(seq![a, b]) =~= seq!['/'] + a + seq!['/'] + b);
}

proof fn lemma_project_paths()
    ensures
        path_segments("/project/main_dimmer"@) == seq!["project"@, "main_dimmer"@],
        path_segments("/project/blackout"@) == seq!["project"@, "blackout"@],
{
    reveal_strlit("/project/main_dimmer");
    reveal_strlit("/project/blackout");
    reveal_strlit("project");
    reveal_strlit("main_dimmer");
    reveal_strlit("blackout");
    let d = seq!["project"@, "main_dimmer"@];
    let b = seq!["project"@, "blackout"@];
    assert forall|j: int| 0 <= j < d.len() implies plain_word(#[trigger] d[j]) by {}
    assert forall|j: int| 0 <= j < b.len() implies plain_word(#[trigger] b[j]) by {}
    lemma_joined_two("project"@, "main_dimmer"@);
    lemma_joined_two("project"@, "blackout"@);
    assert(slash_joined(d) =~= "/project/main_dimmer"@);
    assert(slash_joined(b) =~= "/project/blackout"@);
    law_segments_of_joined(d);
    law_segments_of_joined(b);
}

proof fn lemma_project_segments(args: Seq<OscArg>)
    ensures
        spec_parse_segments(seq!["project"@, "main_dimmer"@], args) == match spec_number(args, 0) {
            Ok(x) => Ok::<UiAction, ()>(UiAction::SetMainDimmer(x)),
            Err(_) => Err(()),
        },
        spec_parse_segments(seq!["project"@, "blackout"@], args) == match spec_bool(args, 0) {
            Ok(x) => Ok::<UiAction, ()>(UiAction::SetBlackout(x)),
            Err(_) => Err(()),
        },
{
    reveal_strlit("project");
    reveal_strlit("main_dimmer");
    reveal_strlit("blackout");
    assert("main_dimmer"@ != "blackout"@) by {
        assert("main_dimmer"@[0] != "blackout"@[0]);
    }
    let d = seq!["project"@, "main_dimmer"@];
    let b = seq!["project"@, "blackout"@];
    assert(spec_parse_segments(d, args) == spec_project_command(d, args));
    assert(spec_parse_segments(b, args) == spec_project_command(b, args));
}

/// `/project/main_dimmer` sets the main dimmer to its number argument and
/// `/project/blackout` sets blackout to its boolean argument; without
/// such an argument neither parses.
pub proof fn law_project_dimmer_and_blackout(msg: OscMessage)
    ensures
        msg.addr@ == "/project/main_dimmer"@ ==> spec_parse_message(msg) == match spec_number(msg.args@, 0) {
            Ok(x) => Ok::<UiAction, ()>(UiAction::SetMainDimmer(x)),
            Err(_) => Err(()),
        },
        msg.addr@ == "/project/blackout"@ ==> spec_parse_message(msg) == match spec_bool(msg.args@, 0) {
            Ok(x) => Ok::<UiAction, ()>(UiAction::SetBlackout(x)),
            Err(_) => Err(()),
        },
{
    lemma_project_paths();
    lemma_project_segments(msg.args@);
}

} // verus!

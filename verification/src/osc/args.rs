use vstd::prelude::*;

use super::{OscArg, OscMessage};
use crate::ids::{parse_uuid_str, parsed_uuid};
use crate::scene::{ArgumentKindId, SceneInstanceColor};
use crate::text::{eq_ignore_ascii_case, eq_ignore_ascii_case_spec, lowercased, to_lowercase};
use crate::ui_action::{Number, Rgb};

verus! {

/// The argument at `index`, if there is one.
pub open spec fn arg_at(args: Seq<OscArg>, index: int) -> Option<OscArg> {
    if 0 <= index < args.len() {
        Some(args[index])
    } else {
        None
    }
}

/// A numeric argument, to be read as `f32`.
pub open spec fn spec_number(args: Seq<OscArg>, index: int) -> Result<Number, ()> {
    match arg_at(args, index) {
        Some(OscArg::Float(bits)) => Ok(Number::F32Bits(bits)),
        Some(OscArg::Double(bits)) => Ok(Number::F64Bits(bits)),
        Some(OscArg::Int(v)) => Ok(Number::I32(v)),
        Some(OscArg::Long(v)) => Ok(Number::I64(v)),
        _ => Err(()),
    }
}

/// An integer argument that fits a `u16`.
pub open spec fn spec_u16(args: Seq<OscArg>, index: int) -> Result<u16, ()> {
    match arg_at(args, index) {
        Some(OscArg::Int(v)) => if 0 <= v <= u16::MAX { Ok(v as u16) } else { Err(()) },
        Some(OscArg::Long(v)) => if 0 <= v <= u16::MAX { Ok(v as u16) } else { Err(()) },
        _ => Err(()),
    }
}

/// An integer argument that fits a `u32`.
pub open spec fn spec_u32(args: Seq<OscArg>, index: int) -> Result<u32, ()> {
    match arg_at(args, index) {
        Some(OscArg::Int(v)) => if 0 <= v { Ok(v as u32) } else { Err(()) },
        Some(OscArg::Long(v)) => if 0 <= v <= u32::MAX { Ok(v as u32) } else { Err(()) },
        _ => Err(()),
    }
}

/// An integer argument that fits an `i32`.
pub open spec fn spec_i32(args: Seq<OscArg>, index: int) -> Result<i32, ()> {
    match arg_at(args, index) {
        Some(OscArg::Int(v)) => Ok(v),
        Some(OscArg::Long(v)) => if i32::MIN <= v <= i32::MAX { Ok(v as i32) } else { Err(()) },
        _ => Err(()),
    }
}

/// An integer argument that fits a `usize`.
pub open spec fn spec_usize(args: Seq<OscArg>, index: int) -> Result<usize, ()> {
    match arg_at(args, index) {
        Some(OscArg::Int(v)) => if 0 <= v { Ok(v as usize) } else { Err(()) },
        Some(OscArg::Long(v)) => if 0 <= v <= usize::MAX { Ok(v as usize) } else { Err(()) },
        _ => Err(()),
    }
}

/// A boolean argument: a bool, or an integer 0 or 1.
pub open spec fn spec_bool(args: Seq<OscArg>, index: int) -> Result<bool, ()> {
    match arg_at(args, index) {
        Some(OscArg::Bool(b)) => Ok(b),
        Some(OscArg::Int(v)) => if v == 0 { Ok(false) } else if v == 1 { Ok(true) } else { Err(()) },
        Some(OscArg::Long(v)) => if v == 0 { Ok(false) } else if v == 1 { Ok(true) } else { Err(()) },
        _ => Err(()),
    }
}

/// A string argument.
pub open spec fn spec_string(args: Seq<OscArg>, index: int) -> Result<String, ()> {
    match arg_at(args, index) {
        Some(OscArg::Str(s)) => Ok(s),
        _ => Err(()),
    }
}

/// Three numeric arguments from the first on: red, green, blue.
pub open spec fn spec_rgb(args: Seq<OscArg>) -> Result<Rgb, ()> {
    match (spec_number(args, 0), spec_number(args, 1), spec_number(args, 2)) {
        (Ok(r), Ok(g), Ok(b)) => Ok(Rgb { r, g, b }),
        _ => Err(()),
    }
}

/// A string argument that names a UUID.
pub open spec fn spec_uuid(args: Seq<OscArg>, index: int) -> Result<u128, ()> {
    match spec_string(args, index) {
        Ok(s) => match parsed_uuid(s@) {
            Some(id) => Ok(id),
            None => Err(()),
        },
        Err(_) => Err(()),
    }
}

/// A string argument that is `none` (any ASCII case) or names a UUID.
pub open spec fn spec_optional_uuid(args: Seq<OscArg>, index: int) -> Result<Option<u128>, ()> {
    match spec_string(args, index) {
        Ok(s) => if eq_ignore_ascii_case_spec(s@, "none"@) {
            Ok(None)
        } else {
            match parsed_uuid(s@) {
                Some(id) => Ok(Some(id)),
                None => Err(()),
            }
        },
        Err(_) => Err(()),
    }
}

/// A palette override argument: `inherit` keeps the inherited palette
/// (`None`), `none` disables it (`Some(None)`), a UUID selects a palette.
pub open spec fn spec_scene_palette_overwrite(args: Seq<OscArg>, index: int) -> Result<
    Option<Option<u128>>,
    (),
> {
    match spec_string(args, index) {
        Ok(s) => if eq_ignore_ascii_case_spec(s@, "inherit"@) {
            Ok(None)
        } else if eq_ignore_ascii_case_spec(s@, "none"@) {
            Ok(Some(None))
        } else {
            match parsed_uuid(s@) {
                Some(id) => Ok(Some(Some(id))),
                None => Err(()),
            }
        },
        Err(_) => Err(()),
    }
}

/// An animation argument kind, named in any case.
pub open spec fn spec_argument_kind(args: Seq<OscArg>, index: int) -> Result<ArgumentKindId, ()> {
    match spec_string(args, index) {
        Ok(s) => {
            let l = lowercased(s@);
            if l == "center"@ {
                Ok(ArgumentKindId::Center)
            } else if l == "selection"@ {
                Ok(ArgumentKindId::Selection)
            } else if l == "slider"@ {
                Ok(ArgumentKindId::Slider)
            } else if l == "checkbox"@ {
                Ok(ArgumentKindId::Checkbox)
            } else if l == "percentage"@ {
                Ok(ArgumentKindId::Percentage)
            } else if l == "degrees"@ {
                Ok(ArgumentKindId::Degrees)
            } else {
                Err(())
            }
        },
        Err(_) => Err(()),
    }
}

/// A scene colour, named in any case.
pub open spec fn spec_scene_color(args: Seq<OscArg>, index: int) -> Result<SceneInstanceColor, ()> {
    match spec_string(args, index) {
        Ok(s) => {
            let l = lowercased(s@);
            if l == "red"@ {
                Ok(SceneInstanceColor::Red)
            } else if l == "green"@ {
                Ok(SceneInstanceColor::Green)
            } else if l == "blue"@ {
                Ok(SceneInstanceColor::Blue)
            } else if l == "white"@ {
                Ok(SceneInstanceColor::White)
            } else if l == "orange"@ {
                Ok(SceneInstanceColor::Orange)
            } else if l == "yellow"@ {
                Ok(SceneInstanceColor::Yellow)
            } else if l == "purple"@ {
                Ok(SceneInstanceColor::Purple)
            } else if l == "pink"@ {
                Ok(SceneInstanceColor::Pink)
            } else if l == "black"@ {
                Ok(SceneInstanceColor::Black)
            } else {
                Err(())
            }
        },
        Err(_) => Err(()),
    }
}

/// Read argument `index` as a number.
pub fn parse_f32(msg: &OscMessage, index: usize) -> (r: Result<Number, ()>)
    ensures
        r == spec_number(msg.args@, index as int),
{
    if index >= msg.args.len() {
        return Err(());
    }
    match &msg.args[index] {
        OscArg::Float(bits) => Ok(Number::F32Bits(*bits)),
        OscArg::Double(bits) => Ok(Number::F64Bits(*bits)),
        OscArg::Int(v) => Ok(Number::I32(*v)),
        OscArg::Long(v) => Ok(Number::I64(*v)),
        _ => Err(()),
    }
}

/// Read argument `index` as a `u16`.
pub fn parse_u16(msg: &OscMessage, index: usize) -> (r: Result<u16, ()>)
    ensures
        r == spec_u16(msg.args@, index as int),
{
    if index >= msg.args.len() {
        return Err(());
    }
    match &msg.args[index] {
        OscArg::Int(v) => if 0 <= *v && *v <= 65535 { Ok(*v as u16) } else { Err(()) },
        OscArg::Long(v) => if 0 <= *v && *v <= 65535 { Ok(*v as u16) } else { Err(()) },
        _ => Err(()),
    }
}

/// Read argument `index` as a `u32`.
pub fn parse_u32(msg: &OscMessage, index: usize) -> (r: Result<u32, ()>)
    ensures
        r == spec_u32(msg.args@, index as int),
{
    if index >= msg.args.len() {
        return Err(());
    }
    match &msg.args[index] {
        OscArg::Int(v) => if 0 <= *v { Ok(*v as u32) } else { Err(()) },
        OscArg::Long(v) => if 0 <= *v && *v <= 0xFFFF_FFFF { Ok(*v as u32) } else { Err(()) },
        _ => Err(()),
    }
}

/// Read argument `index` as an `i32`.
pub fn parse_i32(msg: &OscMessage, index: usize) -> (r: Result<i32, ()>)
    ensures
        r == spec_i32(msg.args@, index as int),
{
    if index >= msg.args.len() {
        return Err(());
    }
    match &msg.args[index] {
        OscArg::Int(v) => Ok(*v),
        OscArg::Long(v) => if -2147483648 <= *v && *v <= 2147483647 {
            Ok(*v as i32)
        } else {
            Err(())
        },
        _ => Err(()),
    }
}

/// Read argument `index` as a `usize`.
pub fn parse_usize(msg: &OscMessage, index: usize) -> (r: Result<usize, ()>)
    ensures
        r == spec_usize(msg.args@, index as int),
{
    if index >= msg.args.len() {
        return Err(());
    }
    match &msg.args[index] {
        OscArg::Int(v) => if 0 <= *v { Ok(*v as usize) } else { Err(()) },
        OscArg::Long(v) => if 0 <= *v && (*v as u64) <= (usize::MAX as u64) {
            Ok(*v as usize)
        } else {
            Err(())
        },
        _ => Err(()),
    }
}

/// Read argument `index` as a boolean.
pub fn parse_bool(msg: &OscMessage, index: usize) -> (r: Result<bool, ()>)
    ensures
        r == spec_bool(msg.args@, index as int),
{
    if index >= msg.args.len() {
        return Err(());
    }
    match &msg.args[index] {
        OscArg::Bool(b) => Ok(*b),
        OscArg::Int(v) => if *v == 0 { Ok(false) } else if *v == 1 { Ok(true) } else { Err(()) },
        OscArg::Long(v) => if *v == 0 { Ok(false) } else if *v == 1 { Ok(true) } else { Err(()) },
        _ => Err(()),
    }
}

/// Read argument `index` as a string.
pub fn parse_string(msg: &OscMessage, index: usize) -> (r: Result<String, ()>)
    ensures
        r == spec_string(msg.args@, index as int),
{
    if index >= msg.args.len() {
        return Err(());
    }
    match &msg.args[index] {
        OscArg::Str(s) => Ok(s.clone()),
        _ => Err(()),
    }
}

/// Read the first three arguments as a colour.
pub fn parse_rgb(msg: &OscMessage) -> (r: Result<Rgb, ()>)
    ensures
        r == spec_rgb(msg.args@),
{
    let r = parse_f32(msg, 0)?;
    let g = parse_f32(msg, 1)?;
    let b = parse_f32(msg, 2)?;
    Ok(Rgb { r, g, b })
}

/// Read argument `index` as a UUID.
pub fn parse_uuid(msg: &OscMessage, index: usize) -> (r: Result<u128, ()>)
    ensures
        r == spec_uuid(msg.args@, index as int),
{
    let raw = parse_string(msg, index)?;
    match parse_uuid_str(raw.as_str()) {
        Some(id) => Ok(id),
        None => Err(()),
    }
}

/// Read argument `index` as `none` or a UUID.
pub fn parse_optional_uuid(msg: &OscMessage, index: usize) -> (r: Result<Option<u128>, ()>)
    ensures
        r == spec_optional_uuid(msg.args@, index as int),
{
    let raw = parse_string(msg, index)?;
    let chars = crate::text::chars_of(raw.as_str());
    if eq_ignore_ascii_case(chars.as_slice(), "none") {
        return Ok(None);
    }
    match parse_uuid_str(raw.as_str()) {
        Some(id) => Ok(Some(id)),
        None => Err(()),
    }
}

/// Read argument `index` as a scene palette override.
pub fn parse_scene_palette_overwrite(msg: &OscMessage, index: usize) -> (r: Result<
    Option<Option<u128>>,
    (),
>)
    ensures
        r == spec_scene_palette_overwrite(msg.args@, index as int),
{
    let raw = parse_string(msg, index)?;
    let chars = crate::text::chars_of(raw.as_str());
    if eq_ignore_ascii_case(chars.as_slice(), "inherit") {
        return Ok(None);
    }
    if eq_ignore_ascii_case(chars.as_slice(), "none") {
        return Ok(Some(None));
    }
    match parse_uuid_str(raw.as_str()) {
        Some(id) => Ok(Some(Some(id))),
        None => Err(()),
    }
}

/// Read argument `index` as an animation argument kind.
pub fn parse_argument_kind(msg: &OscMessage, index: usize) -> (r: Result<ArgumentKindId, ()>)
    ensures
        r == spec_argument_kind(msg.args@, index as int),
{
    let value = parse_string(msg, index)?;
    let lower = to_lowercase(value.as_str());
    let l = crate::text::chars_of(lower.as_str());
    let l = l.as_slice();
    if crate::text::is_text(l, "center") {
        Ok(ArgumentKindId::Center)
    } else if crate::text::is_text(l, "selection") {
        Ok(ArgumentKindId::Selection)
    } else if crate::text::is_text(l, "slider") {
        Ok(ArgumentKindId::Slider)
    } else if crate::text::is_text(l, "checkbox") {
        Ok(ArgumentKindId::Checkbox)
    } else if crate::text::is_text(l, "percentage") {
        Ok(ArgumentKindId::Percentage)
    } else if crate::text::is_text(l, "degrees") {
        Ok(ArgumentKindId::Degrees)
    } else {
        Err(())
    }
}

/// Read argument `index` as a scene colour.
pub fn parse_scene_color(msg: &OscMessage, index: usize) -> (r: Result<SceneInstanceColor, ()>)
    ensures
        r == spec_scene_color(msg.args@, index as int),
{
    let value = parse_string(msg, index)?;
    let lower = to_lowercase(value.as_str());
    let l = crate::text::chars_of(lower.as_str());
    let l = l.as_slice();
    if crate::text::is_text(l, "red") {
        Ok(SceneInstanceColor::Red)
    } else if crate::text::is_text(l, "green") {
        Ok(SceneInstanceColor::Green)
    } else if crate::text::is_text(l, "blue") {
        Ok(SceneInstanceColor::Blue)
    } else if crate::text::is_text(l, "white") {
        Ok(SceneInstanceColor::White)
    } else if crate::text::is_text(l, "orange") {
        Ok(SceneInstanceColor::Orange)
    } else if crate::text::is_text(l, "yellow") {
        Ok(SceneInstanceColor::Yellow)
    } else if crate::text::is_text(l, "purple") {
        Ok(SceneInstanceColor::Purple)
    } else if crate::text::is_text(l, "pink") {
        Ok(SceneInstanceColor::Pink)
    } else if crate::text::is_text(l, "black") {
        Ok(SceneInstanceColor::Black)
    } else {
        Err(())
    }
}

} // verus!

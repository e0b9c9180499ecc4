//! The state a subscribed OSC client is sent: the messages that describe
//! the project, the timing and the selected scene, built from a snapshot
//! of the show state. Floating-point values travel as their bit patterns.
use vstd::prelude::*;

use super::{scene_color_name, spec_scene_color_name, OscArg, OscMessage};
use crate::scene::{GridLocation, SceneInstanceColor};
use crate::text::{chars_of, decimal_chars, push_decimal, string_from_chars};

verus! {

/// The bit pattern of the `f32` value 1.0.
pub const ONE_F32_BITS: u32 = 0x3F80_0000;

/// A colour as red, green and blue `f32` bit patterns.
#[derive(Clone, Copy, Debug, PartialEq, Eq, Structural)]
pub struct RgbBits {
    pub r: u32,
    pub g: u32,
    pub b: u32,
}

/// The project palette.
#[derive(Clone, Debug)]
pub struct PaletteSnapshot {
    pub primary: RgbBits,
    pub secondary: RgbBits,
    pub gradient: Vec<RgbBits>,
}

/// An effect of a scene: its multipliers as bit patterns, its speed
/// exponent and the group it plays on.
#[derive(Clone, Copy, Debug, PartialEq, Eq, Structural)]
pub struct EffectSnapshot {
    pub opacity: u32,
    pub color_shift: u32,
    pub beat_progression: u32,
    pub beat_offset: u32,
    pub speed_exponent: i32,
    pub group_index: usize,
}

/// A scene instance of the grid, as far as feedback reports it.
#[derive(Clone, Debug)]
pub struct SceneSnapshot {
    pub active: bool,
    pub opacity: u32,
    pub name: String,
    pub color: SceneInstanceColor,
    pub input_dimmer: u32,
    pub ignore_main_dimmer: bool,
    pub beat_offset: u32,
    pub set_offset_on_flash: bool,
    pub effects: Vec<EffectSnapshot>,
}

/// Which line of the grid doubles as the quick row.
#[derive(Clone, Copy, Debug, PartialEq, Eq, Structural)]
pub enum GridHighlight {
    Off,
    Row,
    Column,
}

/// The project, as far as feedback reports it. `groups` and `scenes` are
/// in the order the project lists them; no grid location occurs twice in
/// `scenes`.
#[derive(Clone, Debug)]
pub struct ProjectSnapshot {
    pub main_dimmer: u32,
    pub palette: Option<PaletteSnapshot>,
    pub groups: Vec<(usize, String)>,
    pub scenes: Vec<(GridLocation, SceneSnapshot)>,
    pub grid_highlight: GridHighlight,
    pub quick_row_index: usize,
    pub grid_width: usize,
}

/// The show state that feedback reports.
#[derive(Clone, Debug)]
pub struct OscStateSnapshot {
    pub project: Option<ProjectSnapshot>,
    pub selected_scene_instance: GridLocation,
    pub blackout: bool,
    pub beats_per_minute: u32,
    pub beat_progression: u32,
}

/// An OSC argument as the contracts see it: a string by its characters.
pub enum ArgView {
    Int(i32),
    Long(i64),
    Float(u32),
    Double(u64),
    Bool(bool),
    Str(Seq<char>),
    Other,
}

/// An argument as the contracts see it.
pub open spec fn arg_view(a: OscArg) -> ArgView {
    match a {
        OscArg::Int(x) => ArgView::Int(x),
        OscArg::Long(x) => ArgView::Long(x),
        OscArg::Float(x) => ArgView::Float(x),
        OscArg::Double(x) => ArgView::Double(x),
        OscArg::Bool(x) => ArgView::Bool(x),
        OscArg::Str(s) => ArgView::Str(s@),
        OscArg::Other => ArgView::Other,
    }
}

/// A message as the contracts see it: its address and arguments.
pub type MessageView = (Seq<char>, Seq<ArgView>);

/// A message as the contracts see it.
pub open spec fn message_view(m: OscMessage) -> MessageView {
    (m.addr@, m.args@.map_values(|a: OscArg| arg_view(a)))
}

/// A list of messages as the contracts see it.
pub open spec fn messages_view(ms: Seq<OscMessage>) -> Seq<MessageView> {
    ms.map_values(|m: OscMessage| message_view(m))
}

/// The three arguments of a colour.
pub open spec fn rgb_args(c: RgbBits) -> Seq<ArgView> {
    seq![ArgView::Float(c.r), ArgView::Float(c.g), ArgView::Float(c.b)]
}

/// `n` as an `i32`, or `i32::MAX` when it does not fit.
pub open spec fn saturating_i32(n: usize) -> i32 {
    if n <= i32::MAX {
        n as i32
    } else {
        i32::MAX
    }
}

/// The messages that describe a scene instance under `prefix`: its own
/// fields, its effect count, then the fields of each effect. Grid cells,
/// quick-row positions and the selected scene all get these.
pub open spec fn scene_messages(prefix: Seq<char>, s: SceneSnapshot) -> Seq<MessageView> {
    seq![
        (prefix + "/active"@, seq![ArgView::Bool(s.active)]),
        (prefix + "/opacity"@, seq![ArgView::Float(s.opacity)]),
        (prefix + "/name"@, seq![ArgView::Str(s.name@)]),
        (prefix + "/color"@, seq![ArgView::Str(spec_scene_color_name(s.color))]),
        (prefix + "/input_dimmer"@, seq![ArgView::Float(s.input_dimmer)]),
        (prefix + "/ignore_main_dimmer"@, seq![ArgView::Bool(s.ignore_main_dimmer)]),
        (prefix + "/beat_offset"@, seq![ArgView::Float(s.beat_offset)]),
        (prefix + "/set_offset_on_flash"@, seq![ArgView::Bool(s.set_offset_on_flash)]),
        (prefix + "/effect/count"@, seq![ArgView::Int(saturating_i32(s.effects.len()))]),
    ] + effects_messages(prefix, s.effects@)
}

/// The address prefix of a grid cell.
pub open spec fn grid_prefix(loc: GridLocation) -> Seq<char> {
    "/scene/grid/"@ + decimal_chars(loc.col as nat) + "/"@ + decimal_chars(loc.row as nat)
}

/// The address prefix of position `n` of the quick row.
pub open spec fn quick_prefix(n: usize) -> Seq<char> {
    "/scene/quick/"@ + decimal_chars(n as nat)
}

/// The position in the quick row of the scene at `loc`, when the
/// highlighted line passes through it.
pub open spec fn quick_position(p: ProjectSnapshot, loc: GridLocation) -> Option<usize> {
    match p.grid_highlight {
        GridHighlight::Row => if loc.row == p.quick_row_index {
            Some(loc.col)
        } else {
            None
        },
        GridHighlight::Column => if loc.col == (if p.grid_width == 0 {
            0
        } else {
            p.grid_width - 1
        }) {
            Some(loc.row)
        } else {
            None
        },
        GridHighlight::Off => None,
    }
}

/// The messages for one grid scene: under its cell, and again under its
/// quick-row position when it has one.
pub open spec fn grid_entry_messages(p: ProjectSnapshot, loc: GridLocation, s: SceneSnapshot) -> Seq<
    MessageView,
> {
    scene_messages(grid_prefix(loc), s) + match quick_position(p, loc) {
        Some(n) => scene_messages(quick_prefix(n), s),
        None => Seq::empty(),
    }
}

/// The messages for the grid scenes `scenes`, in order.
pub open spec fn grid_messages(p: ProjectSnapshot, scenes: Seq<(GridLocation, SceneSnapshot)>) -> Seq<
    MessageView,
>
    decreases scenes.len(),
{
    if scenes.len() == 0 {
        Seq::empty()
    } else {
        grid_messages(p, scenes.drop_last()) + grid_entry_messages(
            p,
            scenes.last().0,
            scenes.last().1,
        )
    }
}

/// The six messages of effect `i` of the scene under `prefix`.
pub open spec fn effect_messages(prefix: Seq<char>, i: int, e: EffectSnapshot) -> Seq<MessageView> {
    let p = prefix + "/effect/"@ + decimal_chars(i as nat);
    seq![
        (p + "/opacity"@, seq![ArgView::Float(e.opacity)]),
        (p + "/color_shift"@, seq![ArgView::Float(e.color_shift)]),
        (p + "/beat_progression"@, seq![ArgView::Float(e.beat_progression)]),
        (p + "/beat_offset"@, seq![ArgView::Float(e.beat_offset)]),
        (p + "/speed_exponent"@, seq![ArgView::Int(e.speed_exponent)]),
        (p + "/group_index"@, seq![ArgView::Int(saturating_i32(e.group_index))]),
    ]
}

/// The messages of the effects `es` of the scene under `prefix`, numbered
/// from 0.
pub open spec fn effects_messages(prefix: Seq<char>, es: Seq<EffectSnapshot>) -> Seq<MessageView>
    decreases es.len(),
{
    if es.len() == 0 {
        Seq::empty()
    } else {
        effects_messages(prefix, es.drop_last()) + effect_messages(prefix, es.len() - 1, es.last())
    }
}

/// The messages that describe the selected scene.
pub open spec fn selected_messages(s: SceneSnapshot) -> Seq<MessageView> {
    scene_messages("/scene/selected"@, s)
}

/// The scene at `loc`: the first entry of `scenes` at that location.
pub open spec fn scene_at(scenes: Seq<(GridLocation, SceneSnapshot)>, loc: GridLocation) -> Option<
    SceneSnapshot,
>
    decreases scenes.len(),
{
    if scenes.len() == 0 {
        None
    } else if scenes[0].0 == loc {
        Some(scenes[0].1)
    } else {
        scene_at(scenes.drop_first(), loc)
    }
}

/// The messages for the palette: its two colours and its gradient.
pub open spec fn palette_messages(pal: PaletteSnapshot) -> Seq<MessageView> {
    seq![
        ("/project/palette/primary"@, rgb_args(pal.primary)),
        ("/project/palette/secondary"@, rgb_args(pal.secondary)),
    ] + Seq::new(
        pal.gradient@.len(),
        |n: int| ("/project/palette/gradient/"@ + decimal_chars(n as nat), rgb_args(pal.gradient@[n])),
    )
}

/// The messages for the project groups, by index and name.
pub open spec fn group_messages(groups: Seq<(usize, String)>) -> Seq<MessageView> {
    Seq::new(
        groups.len(),
        |i: int| ("/project/groups/"@ + decimal_chars(groups[i].0 as nat), seq![ArgView::Str(groups[i].1@)]),
    )
}

/// The messages that describe a loaded project.
pub open spec fn project_messages(p: ProjectSnapshot, selected: GridLocation) -> Seq<MessageView> {
    seq![("/project/palette/enabled"@, seq![ArgView::Bool(p.palette is Some)])] + match p.palette {
        Some(pal) => palette_messages(pal),
        None => Seq::empty(),
    } + group_messages(p.groups@) + grid_messages(p, p.scenes@) + match scene_at(p.scenes@, selected) {
        Some(s) => selected_messages(s),
        None => Seq::empty(),
    }
}

/// Everything a subscriber is sent for a snapshot, in order: main dimmer
/// (1.0 without a project), blackout, tempo and beat position, then the
/// project.
pub open spec fn spec_feedback_messages(s: OscStateSnapshot) -> Seq<MessageView> {
    seq![
        ("/project/main_dimmer"@, seq![ArgView::Float(match s.project {
            Some(p) => p.main_dimmer,
            None => ONE_F32_BITS,
        })]),
        ("/project/blackout"@, seq![ArgView::Bool(s.blackout)]),
        ("/timing/bpm"@, seq![ArgView::Float(s.beats_per_minute)]),
        ("/timing/beat_progression"@, seq![ArgView::Float(s.beat_progression)]),
    ] + match s.project {
        Some(p) => project_messages(p, s.selected_scene_instance),
        None => Seq::empty(),
    }
}


fn text(lit: &str) -> (r: String)
    ensures
        r@ == lit@,
{
    let chars = chars_of(lit);
    string_from_chars(chars.as_slice())
}

fn append_text(out: &mut Vec<char>, lit: &str)
    ensures
        final(out)@ == old(out)@ + lit@,
{
    let chars = chars_of(lit);
    let ghost start = out@;
    let mut i: usize = 0;
    while i < chars.len()
        invariant
            i <= chars@.len(),
            chars@ == lit@,
            out@ == start + chars@.take(i as int),
        decreases chars@.len() - i,
    {
        out.push(chars[i]);
        assert(chars@.take(i as int + 1) =~= chars@.take(i as int).push(chars@[i as int]));
        i = i + 1;
    }
    assert(chars@.take(chars@.len() as int) =~= chars@);
}

fn chars_then(prefix: &Vec<char>, lit: &str) -> (r: String)
    ensures
        r@ == prefix@ + lit@,
{
    let mut out: Vec<char> = Vec::new();
    let mut i: usize = 0;
    while i < prefix.len()
        invariant
            i <= prefix@.len(),
            out@ == prefix@.take(i as int),
        decreases prefix@.len() - i,
    {
        out.push(prefix[i]);
        assert(prefix@.take(i as int + 1) =~= prefix@.take(i as int).push(prefix@[i as int]));
        i = i + 1;
    }
    assert(prefix@.take(prefix@.len() as int) =~= prefix@);
    append_text(&mut out, lit);
    string_from_chars(out.as_slice())
}

fn push_message(out: &mut Vec<OscMessage>, addr: String, args: Vec<OscArg>)
    ensures
        messages_view(final(out)@) == messages_view(old(out)@).push(
            (addr@, args@.map_values(|a: OscArg| arg_view(a))),
        ),
{
    let ghost before = out@;
    out.push(OscMessage { addr, args });
    assert(messages_view(out@) =~= messages_view(before).push(
        (addr@, args@.map_values(|a: OscArg| arg_view(a))),
    ));
}

fn push_one(out: &mut Vec<OscMessage>, addr: String, arg: OscArg)
    ensures
        messages_view(final(out)@) == messages_view(old(out)@).push((addr@, seq![arg_view(arg)])),
{
    let ghost a = arg;
    let mut args: Vec<OscArg> = Vec::new();
    args.push(arg);
    assert(args@.map_values(|x: OscArg| arg_view(x)) =~= seq![arg_view(a)]);
    push_message(out, addr, args);
}

fn push_rgb(out: &mut Vec<OscMessage>, addr: String, c: RgbBits)
    ensures
        messages_view(final(out)@) == messages_view(old(out)@).push((addr@, rgb_args(c))),
{
    let mut args: Vec<OscArg> = Vec::new();
    args.push(OscArg::Float(c.r));
    args.push(OscArg::Float(c.g));
    args.push(OscArg::Float(c.b));
    assert(args@.map_values(|x: OscArg| arg_view(x)) =~= rgb_args(c));
    push_message(out, addr, args);
}

fn to_i32_saturating(n: usize) -> (r: i32)
    ensures
        r == saturating_i32(n),
{
    if n <= 2147483647usize {
        n as i32
    } else {
        i32::MAX
    }
}

fn push_scene(out: &mut Vec<OscMessage>, prefix: &Vec<char>, s: &SceneSnapshot)
    ensures
        messages_view(final(out)@) == messages_view(old(out)@) + scene_messages(prefix@, *s),
{
    let ghost before = messages_view(out@);
    push_one(out, chars_then(prefix, "/active"), OscArg::Bool(s.active));
    push_one(out, chars_then(prefix, "/opacity"), OscArg::Float(s.opacity));
    push_one(out, chars_then(prefix, "/name"), OscArg::Str(s.name.clone()));
    push_one(out, chars_then(prefix, "/color"), OscArg::Str(text(scene_color_name(s.color))));
    push_one(out, chars_then(prefix, "/input_dimmer"), OscArg::Float(s.input_dimmer));
    push_one(out, chars_then(prefix, "/ignore_main_dimmer"), OscArg::Bool(s.ignore_main_dimmer));
    push_one(out, chars_then(prefix, "/beat_offset"), OscArg::Float(s.beat_offset));
    push_one(out, chars_then(prefix, "/set_offset_on_flash"), OscArg::Bool(s.set_offset_on_flash));
    push_one(out, chars_then(prefix, "/effect/count"), OscArg::Int(to_i32_saturating(s.effects.len())));
    push_effects(out, prefix, &s.effects);
    assert(messages_view(out@) =~= before + scene_messages(prefix@, *s));
}

fn push_grid(out: &mut Vec<OscMessage>, p: &ProjectSnapshot)
    ensures
        messages_view(final(out)@) == messages_view(old(out)@) + grid_messages(*p, p.scenes@),
{
    let ghost before = messages_view(out@);
    let mut i: usize = 0;
    while i < p.scenes.len()
        invariant
            i <= p.scenes@.len(),
            messages_view(out@) == before + grid_messages(*p, p.scenes@.take(i as int)),
        decreases p.scenes@.len() - i,
    {
        let entry = &p.scenes[i];
        let loc = entry.0;
        let s = &entry.1;
        let ghost mid = messages_view(out@);
        let mut prefix: Vec<char> = Vec::new();
        append_text(&mut prefix, "/scene/grid/");
        push_decimal(&mut prefix, loc.col);
        append_text(&mut prefix, "/");
        push_decimal(&mut prefix, loc.row);
        assert(prefix@ =~= grid_prefix(loc));
        push_scene(out, &prefix, s);
        let quick: Option<usize> = match p.grid_highlight {
            GridHighlight::Row => if loc.row == p.quick_row_index {
                Some(loc.col)
            } else {
                None
            },
            GridHighlight::Column => {
                let last_col = if p.grid_width == 0 {
                    0
                } else {
                    p.grid_width - 1
                };
                if loc.col == last_col {
                    Some(loc.row)
                } else {
                    None
                }
            },
            GridHighlight::Off => None,
        };
        assert(quick == quick_position(*p, loc));
        match quick {
            Some(n) => {
                let mut qp: Vec<char> = Vec::new();
                append_text(&mut qp, "/scene/quick/");
                push_decimal(&mut qp, n);
                assert(qp@ =~= quick_prefix(n));
                push_scene(out, &qp, s);
            },
            None => {},
        }
        proof {
            let taken = p.scenes@.take(i as int + 1);
            assert(taken.drop_last() =~= p.scenes@.take(i as int));
            assert(taken.last() == p.scenes@[i as int]);
            assert(messages_view(out@) =~= mid + grid_entry_messages(*p, loc, *s));
            assert(grid_messages(*p, taken) == grid_messages(*p, p.scenes@.take(i as int))
                + grid_entry_messages(*p, loc, *s));
            assert(messages_view(out@) =~= before + grid_messages(*p, taken));
        }
        i = i + 1;
    }
    assert(p.scenes@.take(p.scenes@.len() as int) =~= p.scenes@);
}

fn push_effects(out: &mut Vec<OscMessage>, scene_prefix: &Vec<char>, effects: &Vec<EffectSnapshot>)
    ensures
        messages_view(final(out)@) == messages_view(old(out)@) + effects_messages(scene_prefix@, effects@),
{
    let ghost before = messages_view(out@);
    let mut i: usize = 0;
    while i < effects.len()
        invariant
            i <= effects@.len(),
            messages_view(out@) == before + effects_messages(scene_prefix@, effects@.take(i as int)),
        decreases effects@.len() - i,
    {
        let e = effects[i];
        let ghost mid = messages_view(out@);
        let mut prefix: Vec<char> = copy_chars(scene_prefix);
        append_text(&mut prefix, "/effect/");
        push_decimal(&mut prefix, i);
        push_one(out, chars_then(&prefix, "/opacity"), OscArg::Float(e.opacity));
        push_one(out, chars_then(&prefix, "/color_shift"), OscArg::Float(e.color_shift));
        push_one(out, chars_then(&prefix, "/beat_progression"), OscArg::Float(e.beat_progression));
        push_one(out, chars_then(&prefix, "/beat_offset"), OscArg::Float(e.beat_offset));
        push_one(out, chars_then(&prefix, "/speed_exponent"), OscArg::Int(e.speed_exponent));
        push_one(out, chars_then(&prefix, "/group_index"), OscArg::Int(to_i32_saturating(e.group_index)));
        proof {
            let taken = effects@.take(i as int + 1);
            assert(taken.drop_last() =~= effects@.take(i as int));
            assert(taken.last() == e);
            assert(prefix@ =~= scene_prefix@ + "/effect/"@ + decimal_chars(i as nat));
            assert(messages_view(out@) =~= mid + effect_messages(scene_prefix@, i as int, e));
            assert(effects_messages(scene_prefix@, taken) == effects_messages(scene_prefix@, effects@.take(i as int))
                + effect_messages(scene_prefix@, i as int, e));
            assert(messages_view(out@) =~= before + effects_messages(scene_prefix@, taken));
        }
        i = i + 1;
    }
    assert(effects@.take(effects@.len() as int) =~= effects@);
}

fn copy_chars(chars: &Vec<char>) -> (r: Vec<char>)
    ensures
        r@ == chars@,
{
    let mut out: Vec<char> = Vec::new();
    let mut i: usize = 0;
    while i < chars.len()
        invariant
            i <= chars@.len(),
            out@ == chars@.take(i as int),
        decreases chars@.len() - i,
    {
        out.push(chars[i]);
        assert(chars@.take(i as int + 1) =~= chars@.take(i as int).push(chars@[i as int]));
        i = i + 1;
    }
    assert(chars@.take(chars@.len() as int) =~= chars@);
    out
}

proof fn lemma_scene_at_skips(scenes: Seq<(GridLocation, SceneSnapshot)>, loc: GridLocation, i: int)
    requires
        0 <= i <= scenes.len(),
        forall|j: int| 0 <= j < i ==> scenes[j].0 != loc,
    ensures
        scene_at(scenes, loc) == scene_at(scenes.skip(i), loc),
    decreases i,
{
    if i > 0 {
        let rest = scenes.drop_first();
        assert forall|j: int| 0 <= j < i - 1 implies rest[j].0 != loc by {
            assert(rest[j] == scenes[j + 1]);
        }
        lemma_scene_at_skips(rest, loc, i - 1);
        assert(rest.skip(i - 1) =~= scenes.skip(i));
        assert(scenes[0].0 != loc);
    } else {
        assert(scenes.skip(0) =~= scenes);
    }
}

fn find_scene(scenes: &Vec<(GridLocation, SceneSnapshot)>, loc: GridLocation) -> (r: Option<usize>)
    ensures
        match r {
            Some(i) => i < scenes@.len() && scene_at(scenes@, loc) == Some(scenes@[i as int].1),
            None => scene_at(scenes@, loc) is None,
        },
{
    let mut i: usize = 0;
    while i < scenes.len()
        invariant
            i <= scenes@.len(),
            forall|j: int| 0 <= j < i ==> scenes@[j].0 != loc,
        decreases scenes@.len() - i,
    {
        if scenes[i].0 == loc {
            proof {
                lemma_scene_at_skips(scenes@, loc, i as int);
                assert(scenes@.skip(i as int)[0] == scenes@[i as int]);
            }
            return Some(i);
        }
        i = i + 1;
    }
    proof {
        lemma_scene_at_skips(scenes@, loc, i as int);
        assert(scenes@.skip(i as int).len() == 0);
    }
    None
}

fn push_selected(out: &mut Vec<OscMessage>, s: &SceneSnapshot)
    ensures
        messages_view(final(out)@) == messages_view(old(out)@) + selected_messages(*s),
{
    let mut prefix: Vec<char> = Vec::new();
    append_text(&mut prefix, "/scene/selected");
    push_scene(out, &prefix, s);
}

fn push_palette(out: &mut Vec<OscMessage>, pal: &PaletteSnapshot)
    ensures
        messages_view(final(out)@) == messages_view(old(out)@) + palette_messages(*pal),
{
    let ghost before = messages_view(out@);
    push_rgb(out, text("/project/palette/primary"), pal.primary);
    push_rgb(out, text("/project/palette/secondary"), pal.secondary);
    let ghost head = messages_view(out@);
    let ghost f = |n: int| ("/project/palette/gradient/"@ + decimal_chars(n as nat), rgb_args(pal.gradient@[n]));
    let mut n: usize = 0;
    while n < pal.gradient.len()
        invariant
            n <= pal.gradient@.len(),
            f == (|n: int| ("/project/palette/gradient/"@ + decimal_chars(n as nat), rgb_args(pal.gradient@[n]))),
            messages_view(out@) == head + Seq::new(n as nat, f),
        decreases pal.gradient@.len() - n,
    {
        let mut addr: Vec<char> = Vec::new();
        append_text(&mut addr, "/project/palette/gradient/");
        push_decimal(&mut addr, n);
        let c = pal.gradient[n];
        push_rgb(out, string_from_chars(addr.as_slice()), c);
        assert(Seq::new((n + 1) as nat, f) =~= Seq::new(n as nat, f).push(f(n as int)));
        n = n + 1;
    }
    assert(messages_view(out@) =~= before + palette_messages(*pal));
}

fn push_groups(out: &mut Vec<OscMessage>, groups: &Vec<(usize, String)>)
    ensures
        messages_view(final(out)@) == messages_view(old(out)@) + group_messages(groups@),
{
    let ghost before = messages_view(out@);
    let mut i: usize = 0;
    while i < groups.len()
        invariant
            i <= groups@.len(),
            messages_view(out@) == before + group_messages(groups@.take(i as int)),
        decreases groups@.len() - i,
    {
        let mut addr: Vec<char> = Vec::new();
        append_text(&mut addr, "/project/groups/");
        push_decimal(&mut addr, groups[i].0);
        push_one(out, string_from_chars(addr.as_slice()), OscArg::Str(groups[i].1.clone()));
        assert(group_messages(groups@.take(i as int + 1)) =~= group_messages(groups@.take(i as int)).push(
            ("/project/groups/"@ + decimal_chars(groups@[i as int].0 as nat), seq![ArgView::Str(groups@[i as int].1@)]),
        ));
        i = i + 1;
    }
    assert(groups@.take(groups@.len() as int) =~= groups@);
}

/// The messages a subscriber is sent for `snapshot`, in the order they
/// go out.
pub fn feedback_messages(snapshot: &OscStateSnapshot) -> (r: Vec<OscMessage>)
    ensures
        messages_view(r@) == spec_feedback_messages(*snapshot),
{
    let mut out: Vec<OscMessage> = Vec::new();
    let main_dimmer = match &snapshot.project {
        Some(p) => p.main_dimmer,
        None => ONE_F32_BITS,
    };
    push_one(&mut out, text("/project/main_dimmer"), OscArg::Float(main_dimmer));
    push_one(&mut out, text("/project/blackout"), OscArg::Bool(snapshot.blackout));
    push_one(&mut out, text("/timing/bpm"), OscArg::Float(snapshot.beats_per_minute));
    push_one(&mut out, text("/timing/beat_progression"), OscArg::Float(snapshot.beat_progression));
    let ghost core = messages_view(out@);
    match &snapshot.project {
        Some(p) => {
            push_one(&mut out, text("/project/palette/enabled"), OscArg::Bool(p.palette.is_some()));
            let ghost s1 = messages_view(out@);
            match &p.palette {
                Some(pal) => push_palette(&mut out, pal),
                None => {},
            }
            let ghost s2 = messages_view(out@);
            push_groups(&mut out, &p.groups);
            let ghost s3 = messages_view(out@);
            push_grid(&mut out, p);
            let ghost s4 = messages_view(out@);
            match find_scene(&p.scenes, snapshot.selected_scene_instance) {
                Some(i) => push_selected(&mut out, &p.scenes[i].1),
                None => {},
            }
            assert(messages_view(out@) =~= core + project_messages(*p, snapshot.selected_scene_instance));
        },
        None => {},
    }
    assert(messages_view(out@) =~= spec_feedback_messages(*snapshot));
    out
}

/// The address prefix of effect `i` of the scene under `prefix`.
pub open spec fn effect_prefix(prefix: Seq<char>, i: int) -> Seq<char> {
    prefix + "/effect/"@ + decimal_chars(i as nat)
}

proof fn lemma_decimal_first_digit(n: nat)
    ensures
        decimal_chars(n).len() >= 1,
        '0' <= decimal_chars(n)[0] <= '9',
    decreases n,
{
    if n >= 10 {
        lemma_decimal_first_digit(n / 10);
    }
}

/// Whether `addr` is an address under `prefix + "/effect/"` whose next
/// character is a digit.
pub open spec fn is_effect_address(prefix: Seq<char>, addr: Seq<char>) -> bool {
    &&& addr.len() > prefix.len() + 8
    &&& addr.subrange(0, prefix.len() + 8 as int) == prefix + "/effect/"@
    &&& '0' <= addr[prefix.len() + 8 as int] <= '9'
}

proof fn lemma_effect_address(prefix: Seq<char>, i: int, suffix: Seq<char>)
    requires
        i >= 0,
        suffix.len() > 0,
    ensures
        is_effect_address(prefix, effect_prefix(prefix, i) + suffix),
{
    reveal_strlit("/effect/");
    lemma_decimal_first_digit(i as nat);
    let a = effect_prefix(prefix, i) + suffix;
    assert(a.subrange(0, prefix.len() + 8 as int) =~= prefix + "/effect/"@);
    assert(a[prefix.len() + 8 as int] == decimal_chars(i as nat)[0]);
}

proof fn lemma_effects_messages(prefix: Seq<char>, es: Seq<EffectSnapshot>)
    ensures
        effects_messages(prefix, es).len() == 6 * es.len(),
        forall|i: int, f: int|
            0 <= i < es.len() && 0 <= f < 6 ==> #[trigger] effects_messages(prefix, es)[6 * i + f]
                == effect_messages(prefix, i, es[i])[f],
        forall|k: int|
            0 <= k < effects_messages(prefix, es).len() ==> is_effect_address(
                prefix,
                #[trigger] effects_messages(prefix, es)[k].0,
            ),
    decreases es.len(),
{
    reveal_strlit("/opacity");
    reveal_strlit("/color_shift");
    reveal_strlit("/beat_progression");
    reveal_strlit("/beat_offset");
    reveal_strlit("/speed_exponent");
    reveal_strlit("/group_index");
    if es.len() > 0 {
        let rest = es.drop_last();
        let n = es.len() - 1;
        lemma_effects_messages(prefix, rest);
        let head = effects_messages(prefix, rest);
        let tail = effect_messages(prefix, n, es.last());
        assert(effects_messages(prefix, es) == head + tail);
        assert(head.len() == 6 * n);
        assert forall|i: int, f: int|
            0 <= i < es.len() && 0 <= f < 6 implies #[trigger] effects_messages(prefix, es)[6 * i + f]
                == effect_messages(prefix, i, es[i])[f] by {
            if i < n {
                assert(6 * i + f < 6 * n) by (nonlinear_arith)
                    requires
                        i < n,
                        0 <= f < 6,
                ;
                assert(rest[i] == es[i]);
                assert(head[6 * i + f] == effect_messages(prefix, i, rest[i])[f]);
            } else {
                assert(6 * i + f == 6 * n + f);
            }
        }
        assert forall|k: int|
            0 <= k < effects_messages(prefix, es).len() implies is_effect_address(
                prefix,
                #[trigger] effects_messages(prefix, es)[k].0,
            ) by {
            if k < 6 * n {
                assert(effects_messages(prefix, es)[k] == head[k]);
            } else {
                let f = k - 6 * n;
                assert(effects_messages(prefix, es)[k] == tail[f]);
                let p = effect_prefix(prefix, n);
                if f == 0 {
                    lemma_effect_address(prefix, n, "/opacity"@);
                } else if f == 1 {
                    lemma_effect_address(prefix, n, "/color_shift"@);
                } else if f == 2 {
                    lemma_effect_address(prefix, n, "/beat_progression"@);
                } else if f == 3 {
                    lemma_effect_address(prefix, n, "/beat_offset"@);
                } else if f == 4 {
                    lemma_effect_address(prefix, n, "/speed_exponent"@);
                } else {
                    lemma_effect_address(prefix, n, "/group_index"@);
                }
            }
        }
    }
}

/// Effect `i` of a scene is reported by six messages in a row, each
/// under the effect's prefix and carrying its own field of that effect.
pub proof fn law_effect_fields(prefix: Seq<char>, es: Seq<EffectSnapshot>, i: int)
    requires
        0 <= i < es.len(),
    ensures
        effects_messages(prefix, es).len() == 6 * es.len(),
        effects_messages(prefix, es)[6 * i] == (
            effect_prefix(prefix, i) + "/opacity"@,
            seq![ArgView::Float(es[i].opacity)],
        ),
        effects_messages(prefix, es)[6 * i + 1] == (
            effect_prefix(prefix, i) + "/color_shift"@,
            seq![ArgView::Float(es[i].color_shift)],
        ),
        effects_messages(prefix, es)[6 * i + 2] == (
            effect_prefix(prefix, i) + "/beat_progression"@,
            seq![ArgView::Float(es[i].beat_progression)],
        ),
        effects_messages(prefix, es)[6 * i + 3] == (
            effect_prefix(prefix, i) + "/beat_offset"@,
            seq![ArgView::Float(es[i].beat_offset)],
        ),
        effects_messages(prefix, es)[6 * i + 4] == (
            effect_prefix(prefix, i) + "/speed_exponent"@,
            seq![ArgView::Int(es[i].speed_exponent)],
        ),
        effects_messages(prefix, es)[6 * i + 5] == (
            effect_prefix(prefix, i) + "/group_index"@,
            seq![ArgView::Int(if es[i].group_index <= i32::MAX { es[i].group_index as i32 } else { i32::MAX })],
        ),
{
    lemma_effects_messages(prefix, es);
    assert(effects_messages(prefix, es)[6 * i + 0] == effect_messages(prefix, i, es[i])[0]);
    assert(6 * i + 0 == 6 * i);
    assert(effects_messages(prefix, es)[6 * i + 1] == effect_messages(prefix, i, es[i])[1]);
    assert(effects_messages(prefix, es)[6 * i + 2] == effect_messages(prefix, i, es[i])[2]);
    assert(effects_messages(prefix, es)[6 * i + 3] == effect_messages(prefix, i, es[i])[3]);
    assert(effects_messages(prefix, es)[6 * i + 4] == effect_messages(prefix, i, es[i])[4]);
    assert(effects_messages(prefix, es)[6 * i + 5] == effect_messages(prefix, i, es[i])[5]);
}

proof fn lemma_differ_at(prefix: Seq<char>, x: Seq<char>, y: Seq<char>, j: int)
    requires
        0 <= j < x.len(),
        j < y.len(),
        x[j] != y[j],
    ensures
        prefix + x != prefix + y,
{
    assert((prefix + x)[prefix.len() + j] == x[j]);
    assert((prefix + y)[prefix.len() + j] == y[j]);
}

/// Each message that describes a scene under `prefix` carries the field
/// its address names, of that scene: a message at `prefix/opacity`
/// carries the scene's opacity, and so on for every scene field; and each
/// of these messages is sent.
pub proof fn law_scene_fields(prefix: Seq<char>, s: SceneSnapshot)
    ensures
        forall|k: int| 0 <= k < scene_messages(prefix, s).len() ==> {
            let m = #[trigger] scene_messages(prefix, s)[k];
            &&& m.0 == prefix + "/active"@ ==> m.1 == seq![ArgView::Bool(s.active)]
            &&& m.0 == prefix + "/opacity"@ ==> m.1 == seq![ArgView::Float(s.opacity)]
            &&& m.0 == prefix + "/name"@ ==> m.1 == seq![ArgView::Str(s.name@)]
            &&& m.0 == prefix + "/color"@ ==> m.1 == seq![ArgView::Str(spec_scene_color_name(s.color))]
            &&& m.0 == prefix + "/input_dimmer"@ ==> m.1 == seq![ArgView::Float(s.input_dimmer)]
            &&& m.0 == prefix + "/ignore_main_dimmer"@ ==> m.1 == seq![ArgView::Bool(s.ignore_main_dimmer)]
            &&& m.0 == prefix + "/beat_offset"@ ==> m.1 == seq![ArgView::Float(s.beat_offset)]
            &&& m.0 == prefix + "/set_offset_on_flash"@ ==> m.1 == seq![ArgView::Bool(s.set_offset_on_flash)]
            &&& m.0 == prefix + "/effect/count"@ ==> m.1 == seq![ArgView::Int(
                if s.effects.len() <= i32::MAX { s.effects.len() as i32 } else { i32::MAX },
            )]
        },
        scene_messages(prefix, s).contains((prefix + "/active"@, seq![ArgView::Bool(s.active)])),
        scene_messages(prefix, s).contains((prefix + "/opacity"@, seq![ArgView::Float(s.opacity)])),
        scene_messages(prefix, s).contains((prefix + "/name"@, seq![ArgView::Str(s.name@)])),
        scene_messages(prefix, s).contains(
            (prefix + "/color"@, seq![ArgView::Str(spec_scene_color_name(s.color))]),
        ),
        scene_messages(prefix, s).contains((prefix + "/input_dimmer"@, seq![ArgView::Float(s.input_dimmer)])),
        scene_messages(prefix, s).contains(
            (prefix + "/ignore_main_dimmer"@, seq![ArgView::Bool(s.ignore_main_dimmer)]),
        ),
        scene_messages(prefix, s).contains((prefix + "/beat_offset"@, seq![ArgView::Float(s.beat_offset)])),
        scene_messages(prefix, s).contains(
            (prefix + "/set_offset_on_flash"@, seq![ArgView::Bool(s.set_offset_on_flash)]),
        ),
{
    reveal_strlit("/active");
    reveal_strlit("/opacity");
    reveal_strlit("/name");
    reveal_strlit("/color");
    reveal_strlit("/input_dimmer");
    reveal_strlit("/ignore_main_dimmer");
    reveal_strlit("/beat_offset");
    reveal_strlit("/set_offset_on_flash");
    reveal_strlit("/effect/count");
    reveal_strlit("/effect/");
    let ms = scene_messages(prefix, s);
    let es = effects_messages(prefix, s.effects@);
    lemma_effects_messages(prefix, s.effects@);
    assert(ms[0].0 == prefix + "/active"@);
    assert(ms[1].0 == prefix + "/opacity"@);
    assert(ms[2].0 == prefix + "/name"@);
    assert(ms[3].0 == prefix + "/color"@);
    assert(ms[4].0 == prefix + "/input_dimmer"@);
    assert(ms[5].0 == prefix + "/ignore_main_dimmer"@);
    assert(ms[6].0 == prefix + "/beat_offset"@);
    assert(ms[7].0 == prefix + "/set_offset_on_flash"@);
    // The two fields whose addresses have the same length differ in their
    // second character.
    lemma_differ_at(prefix, "/input_dimmer"@, "/effect/count"@, 1);
    assert forall|k: int| 0 <= k < ms.len() implies {
        let m = #[trigger] ms[k];
        &&& m.0 == prefix + "/active"@ ==> m.1 == seq![ArgView::Bool(s.active)]
        &&& m.0 == prefix + "/opacity"@ ==> m.1 == seq![ArgView::Float(s.opacity)]
        &&& m.0 == prefix + "/name"@ ==> m.1 == seq![ArgView::Str(s.name@)]
        &&& m.0 == prefix + "/color"@ ==> m.1 == seq![ArgView::Str(spec_scene_color_name(s.color))]
        &&& m.0 == prefix + "/input_dimmer"@ ==> m.1 == seq![ArgView::Float(s.input_dimmer)]
        &&& m.0 == prefix + "/ignore_main_dimmer"@ ==> m.1 == seq![ArgView::Bool(s.ignore_main_dimmer)]
        &&& m.0 == prefix + "/beat_offset"@ ==> m.1 == seq![ArgView::Float(s.beat_offset)]
        &&& m.0 == prefix + "/set_offset_on_flash"@ ==> m.1 == seq![ArgView::Bool(s.set_offset_on_flash)]
        &&& m.0 == prefix + "/effect/count"@ ==> m.1 == seq![ArgView::Int(
            if s.effects.len() <= i32::MAX { s.effects.len() as i32 } else { i32::MAX },
        )]
    } by {
        if k >= 9 {
            let a = ms[k].0;
            assert(ms[k] == es[k - 9]);
            assert(is_effect_address(prefix, a));
            assert(a[prefix.len() + 1 as int] == (prefix + "/effect/"@)[prefix.len() + 1 as int]);
            assert(a[prefix.len() + 1 as int] == 'e');
            let fixed = seq![
                "/active"@,
                "/opacity"@,
                "/name"@,
                "/color"@,
                "/input_dimmer"@,
                "/ignore_main_dimmer"@,
                "/beat_offset"@,
                "/set_offset_on_flash"@,
            ];
            assert forall|q: int| 0 <= q < 8 implies a != prefix + #[trigger] fixed[q] by {
                assert((prefix + fixed[q])[prefix.len() + 1 as int] == fixed[q][1]);
            }
            assert(a != prefix + "/active"@ && a != prefix + "/opacity"@ && a != prefix + "/name"@ && a != prefix
                + "/color"@ && a != prefix + "/input_dimmer"@ && a != prefix + "/ignore_main_dimmer"@ && a != prefix
                + "/beat_offset"@ && a != prefix + "/set_offset_on_flash"@) by {
                assert(fixed[0] == "/active"@);
                assert(fixed[1] == "/opacity"@);
                assert(fixed[2] == "/name"@);
                assert(fixed[3] == "/color"@);
                assert(fixed[4] == "/input_dimmer"@);
                assert(fixed[5] == "/ignore_main_dimmer"@);
                assert(fixed[6] == "/beat_offset"@);
                assert(fixed[7] == "/set_offset_on_flash"@);
            }
            assert(a != prefix + "/effect/count"@) by {
                assert((prefix + "/effect/count"@)[prefix.len() + 8 as int] == 'c');
            }
        }
    }
    assert(ms[0] == (prefix + "/active"@, seq![ArgView::Bool(s.active)]));
    assert(ms[1] == (prefix + "/opacity"@, seq![ArgView::Float(s.opacity)]));
    assert(ms[2] == (prefix + "/name"@, seq![ArgView::Str(s.name@)]));
    assert(ms[3] == (prefix + "/color"@, seq![ArgView::Str(spec_scene_color_name(s.color))]));
    assert(ms[4] == (prefix + "/input_dimmer"@, seq![ArgView::Float(s.input_dimmer)]));
    assert(ms[5] == (prefix + "/ignore_main_dimmer"@, seq![ArgView::Bool(s.ignore_main_dimmer)]));
    assert(ms[6] == (prefix + "/beat_offset"@, seq![ArgView::Float(s.beat_offset)]));
    assert(ms[7] == (prefix + "/set_offset_on_flash"@, seq![ArgView::Bool(s.set_offset_on_flash)]));
}

} // verus!

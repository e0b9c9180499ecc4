use gled::osc::state_feedback::{
    feedback_messages, EffectSnapshot, GridHighlight, OscStateSnapshot, PaletteSnapshot,
    ProjectSnapshot, RgbBits, SceneSnapshot, ONE_F32_BITS,
};
use gled::osc::{OscArg, OscMessage};
use gled::scene::{GridLocation, SceneInstanceColor};

fn find<'a>(messages: &'a [OscMessage], addr: &str) -> Option<&'a OscMessage> {
    messages.iter().find(|m| m.addr == addr)
}

fn count(messages: &[OscMessage], addr: &str) -> usize {
    messages.iter().filter(|m| m.addr == addr).count()
}

fn scene(name: &str, active: bool, color: SceneInstanceColor) -> SceneSnapshot {
    SceneSnapshot {
        active,
        opacity: 0.5f32.to_bits(),
        name: name.to_string(),
        color,
        input_dimmer: 1.0f32.to_bits(),
        ignore_main_dimmer: false,
        beat_offset: 0.0f32.to_bits(),
        set_offset_on_flash: true,
        effects: Vec::new(),
    }
}

fn project() -> ProjectSnapshot {
    ProjectSnapshot {
        main_dimmer: 0.75f32.to_bits(),
        palette: None,
        groups: Vec::new(),
        scenes: Vec::new(),
        grid_highlight: GridHighlight::Off,
        quick_row_index: 0,
        grid_width: 8,
    }
}

fn snapshot(project: Option<ProjectSnapshot>) -> OscStateSnapshot {
    OscStateSnapshot {
        project,
        selected_scene_instance: GridLocation { col: 0, row: 0 },
        blackout: true,
        beats_per_minute: 120.0f32.to_bits(),
        beat_progression: 0.25f32.to_bits(),
    }
}

#[test]
fn feedback_without_project_reports_core_fields() {
    let messages = feedback_messages(&snapshot(None));
    let addrs: Vec<&str> = messages.iter().map(|m| m.addr.as_str()).collect();
    assert_eq!(
        addrs,
        vec!["/project/main_dimmer", "/project/blackout", "/timing/bpm", "/timing/beat_progression"]
    );
    assert_eq!(messages[0].args, vec![OscArg::Float(ONE_F32_BITS)]);
    assert_eq!(messages[1].args, vec![OscArg::Bool(true)]);
    assert_eq!(messages[2].args, vec![OscArg::Float(120.0f32.to_bits())]);
    assert_eq!(messages[3].args, vec![OscArg::Float(0.25f32.to_bits())]);
    assert_eq!(ONE_F32_BITS, 1.0f32.to_bits());
}

#[test]
fn feedback_reports_palette_colours_and_gradient() {
    let mut p = project();
    p.palette = Some(PaletteSnapshot {
        primary: RgbBits { r: 1.0f32.to_bits(), g: 0, b: 0 },
        secondary: RgbBits { r: 0, g: 0, b: 1.0f32.to_bits() },
        gradient: vec![RgbBits { r: 1, g: 2, b: 3 }, RgbBits { r: 4, g: 5, b: 6 }],
    });
    let messages = feedback_messages(&snapshot(Some(p)));
    assert_eq!(messages[0].args, vec![OscArg::Float(0.75f32.to_bits())]);
    assert_eq!(
        find(&messages, "/project/palette/enabled").unwrap().args,
        vec![OscArg::Bool(true)]
    );
    assert_eq!(
        find(&messages, "/project/palette/primary").unwrap().args,
        vec![OscArg::Float(1.0f32.to_bits()), OscArg::Float(0), OscArg::Float(0)]
    );
    assert_eq!(
        find(&messages, "/project/palette/gradient/1").unwrap().args,
        vec![OscArg::Float(4), OscArg::Float(5), OscArg::Float(6)]
    );
    assert_eq!(messages.len(), 4 + 1 + 2 + 2);
}

#[test]
fn feedback_without_palette_only_says_so() {
    let messages = feedback_messages(&snapshot(Some(project())));
    assert_eq!(messages.len(), 5);
    assert_eq!(messages[4].addr, "/project/palette/enabled");
    assert_eq!(messages[4].args, vec![OscArg::Bool(false)]);
}

#[test]
fn feedback_reports_groups_by_index() {
    let mut p = project();
    p.groups = vec![(0, "front".to_string()), (12, "wash".to_string())];
    let messages = feedback_messages(&snapshot(Some(p)));
    assert_eq!(
        find(&messages, "/project/groups/12").unwrap().args,
        vec![OscArg::Str("wash".to_string())]
    );
    assert_eq!(
        find(&messages, "/project/groups/0").unwrap().args,
        vec![OscArg::Str("front".to_string())]
    );
}

#[test]
fn feedback_reports_grid_scenes_and_highlighted_row_as_quick_row() {
    let mut p = project();
    p.grid_highlight = GridHighlight::Row;
    p.quick_row_index = 1;
    p.scenes = vec![
        (GridLocation { col: 2, row: 1 }, scene("one", true, SceneInstanceColor::Red)),
        (GridLocation { col: 3, row: 0 }, scene("two", false, SceneInstanceColor::Blue)),
    ];
    let messages = feedback_messages(&snapshot(Some(p)));
    assert_eq!(
        find(&messages, "/scene/grid/2/1/name").unwrap().args,
        vec![OscArg::Str("one".to_string())]
    );
    assert_eq!(
        find(&messages, "/scene/grid/3/0/color").unwrap().args,
        vec![OscArg::Str("blue".to_string())]
    );
    assert_eq!(
        find(&messages, "/scene/quick/2/active").unwrap().args,
        vec![OscArg::Bool(true)]
    );
    assert_eq!(count(&messages, "/scene/quick/3/active"), 0);
    assert_eq!(
        find(&messages, "/scene/quick/2/input_dimmer").unwrap().args,
        vec![OscArg::Float(1.0f32.to_bits())]
    );
    assert_eq!(
        find(&messages, "/scene/grid/3/0/effect/count").unwrap().args,
        vec![OscArg::Int(0)]
    );
    // No scene at the selected cell (0, 0): nothing about the selection.
    assert_eq!(count(&messages, "/scene/selected/name"), 0);
}

#[test]
fn feedback_reports_last_column_as_quick_row() {
    let mut p = project();
    p.grid_highlight = GridHighlight::Column;
    p.grid_width = 4;
    p.scenes = vec![
        (GridLocation { col: 3, row: 2 }, scene("edge", false, SceneInstanceColor::Green)),
        (GridLocation { col: 2, row: 1 }, scene("inner", false, SceneInstanceColor::Green)),
    ];
    let messages = feedback_messages(&snapshot(Some(p)));
    assert_eq!(
        find(&messages, "/scene/quick/2/name").unwrap().args,
        vec![OscArg::Str("edge".to_string())]
    );
    assert_eq!(count(&messages, "/scene/quick/1/name"), 0);
}

#[test]
fn feedback_reports_selected_scene_and_its_effects() {
    let mut p = project();
    let mut s = scene("sel", true, SceneInstanceColor::Purple);
    s.effects = vec![
        EffectSnapshot {
            opacity: 1,
            color_shift: 2,
            beat_progression: 3,
            beat_offset: 4,
            speed_exponent: -2,
            group_index: 5,
        },
        EffectSnapshot {
            opacity: 0,
            color_shift: 0,
            beat_progression: 0,
            beat_offset: 0,
            speed_exponent: 0,
            group_index: usize::MAX,
        },
    ];
    p.scenes = vec![(GridLocation { col: 0, row: 0 }, s)];
    let messages = feedback_messages(&snapshot(Some(p)));
    assert_eq!(
        find(&messages, "/scene/selected/color").unwrap().args,
        vec![OscArg::Str("purple".to_string())]
    );
    assert_eq!(
        find(&messages, "/scene/selected/set_offset_on_flash").unwrap().args,
        vec![OscArg::Bool(true)]
    );
    assert_eq!(
        find(&messages, "/scene/selected/effect/count").unwrap().args,
        vec![OscArg::Int(2)]
    );
    assert_eq!(
        find(&messages, "/scene/selected/effect/0/speed_exponent").unwrap().args,
        vec![OscArg::Int(-2)]
    );
    assert_eq!(
        find(&messages, "/scene/selected/effect/1/group_index").unwrap().args,
        vec![OscArg::Int(i32::MAX)]
    );
    // The grid cell gets the same families as the selection.
    assert_eq!(
        find(&messages, "/scene/grid/0/0/effect/1/group_index").unwrap().args,
        vec![OscArg::Int(i32::MAX)]
    );
    assert_eq!(
        find(&messages, "/scene/grid/0/0/set_offset_on_flash").unwrap().args,
        vec![OscArg::Bool(true)]
    );
    // Core 4, palette flag 1, then grid cell and selection each 9 + 2 * 6.
    assert_eq!(messages.len(), 4 + 1 + 21 + 21);
}

#[test]
fn broadcast_snapshot_sends_core_fields_to_subscriber() {
    let snapshot = OscStateSnapshot {
        project: None,
        selected_scene_instance: GridLocation { col: 0, row: 0 },
        blackout: true,
        beats_per_minute: 120.0f32.to_bits(),
        beat_progression: 0.25f32.to_bits(),
    };
    let messages = feedback_messages(&snapshot);
    assert_eq!(find(&messages, "/project/blackout").unwrap().args, vec![OscArg::Bool(true)]);
    assert_eq!(
        find(&messages, "/timing/bpm").unwrap().args,
        vec![OscArg::Float(120.0f32.to_bits())]
    );
}

#[test]
fn broadcast_snapshot_sends_palette_fields() {
    let mut p = project();
    p.palette = Some(PaletteSnapshot {
        primary: RgbBits { r: 1.0f32.to_bits(), g: 0.0f32.to_bits(), b: 0.0f32.to_bits() },
        secondary: RgbBits { r: 0, g: 0, b: 0 },
        gradient: Vec::new(),
    });
    let snapshot = OscStateSnapshot {
        project: Some(p),
        selected_scene_instance: GridLocation { col: 0, row: 0 },
        blackout: false,
        beats_per_minute: 90.0f32.to_bits(),
        beat_progression: 0.0f32.to_bits(),
    };
    let messages = feedback_messages(&snapshot);
    assert_eq!(
        find(&messages, "/project/palette/primary").unwrap().args,
        vec![
            OscArg::Float(1.0f32.to_bits()),
            OscArg::Float(0.0f32.to_bits()),
            OscArg::Float(0.0f32.to_bits())
        ]
    );
}

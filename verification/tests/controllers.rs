use gled::midi::akai_apc40_mk2 as akai;
use gled::midi::apc40_mk2 as apc;
use gled::scene::{
    DeckPath, GridLocation, QuickSceneInstanceIndex, SceneInstanceColor, SceneInstancePathIndex,
    SceneInstanceUnion,
};
use gled::ui_action::{Number, UiAction, HALF_F32_BITS, TWO_F32_BITS};

#[test]
fn akai_pads_map_to_grid_cells() {
    assert_eq!(akai::location_from_peripheral_id(0), GridLocation { col: 0, row: 0 });
    assert_eq!(akai::location_from_peripheral_id(7), GridLocation { col: 3, row: 1 });
    assert_eq!(akai::location_from_peripheral_id(47), GridLocation { col: 3, row: 7 });
    // Bottom row of launch pads (0..8) are pads 32..40.
    assert_eq!(
        akai::handle_input(0, &[144, 0, 127]),
        Some(UiAction::ToggleSceneActive(SceneInstanceUnion::Grid(GridLocation { col: 0, row: 5 })))
    );
    assert_eq!(
        akai::handle_input(0, &[144, 33, 127]),
        Some(UiAction::ToggleSceneActive(SceneInstanceUnion::Grid(GridLocation { col: 1, row: 0 })))
    );
    assert_eq!(akai::handle_input(0, &[144, 0, 100]), None);
}

#[test]
fn akai_buttons_and_knobs() {
    assert_eq!(
        akai::handle_input(0, &[146, 48, 127]),
        Some(UiAction::ToggleSceneActive(SceneInstanceUnion::Quick(QuickSceneInstanceIndex { index: 2 })))
    );
    assert_eq!(
        akai::handle_input(0, &[129, 52, 0]),
        Some(UiAction::SetSceneActive(SceneInstanceUnion::Quick(QuickSceneInstanceIndex { index: 1 }), false))
    );
    assert_eq!(akai::handle_input(0, &[144, 91, 127]), Some(UiAction::SetBlackout(false)));
    assert_eq!(akai::handle_input(0, &[128, 91, 127]), Some(UiAction::SetBlackout(true)));
    assert_eq!(akai::handle_input(0, &[144, 99, 127]), Some(UiAction::Tap));
    assert_eq!(akai::handle_input(0, &[176, 13, 65]), Some(UiAction::SpeedAdd(Number::I32(-63))));
    assert_eq!(akai::handle_input(0, &[176, 13, 3]), Some(UiAction::SpeedAdd(Number::I32(3))));
    assert_eq!(akai::handle_input(0, &[176, 14, 127]), Some(UiAction::SetMainDimmer(Number::MidiFraction(127))));
    assert_eq!(akai::handle_input(0, &[144, 100, 127]), Some(UiAction::SpeedMultiply(Number::F32Bits(HALF_F32_BITS))));
    assert_eq!(akai::handle_input(0, &[144, 101, 127]), Some(UiAction::SpeedMultiply(Number::F32Bits(TWO_F32_BITS))));
    assert_eq!(f32::from_bits(HALF_F32_BITS), 0.5);
    assert_eq!(f32::from_bits(TWO_F32_BITS), 2.0);
    // The cue knob selects every ninth value's pad.
    assert_eq!(
        akai::handle_input(0, &[176, 48, 27]),
        Some(UiAction::SelectScene(SceneInstanceUnion::Grid(GridLocation { col: 3, row: 0 })))
    );
    assert_eq!(akai::handle_input(0, &[176, 48, 120]), None);
    assert_eq!(akai::handle_input(0, &[176, 49, 5]), Some(UiAction::SetSelectedSceneOpacity(Number::MidiFraction(5))));
    assert_eq!(akai::handle_input(0, &[176, 49]), None);
}

#[test]
fn akai_lights() {
    assert_eq!(akai::dark(SceneInstanceColor::Red), 7);
    assert_eq!(akai::light(SceneInstanceColor::Red), 5);
    assert_eq!(akai::flank_light(2, 2, false, false), 30);
    assert_eq!(akai::flank_light(1, 2, true, true), 120);
    assert_eq!(akai::flank_light(1, 2, false, true), 0);
    let quick = GridLocation { col: 1, row: 3 };
    assert_eq!(akai::scene_light_value(quick, true, true, Some(SceneInstanceColor::Red)), 30);
    let cell = GridLocation { col: 1, row: 0 };
    assert_eq!(akai::scene_light_value(cell, false, true, Some(SceneInstanceColor::Red)), 3);
    assert_eq!(akai::scene_light_value(cell, true, false, Some(SceneInstanceColor::Blue)), 45);
    assert_eq!(akai::scene_light_value(cell, false, false, Some(SceneInstanceColor::Blue)), 47);
    assert_eq!(akai::scene_light_value(cell, false, false, None), 0);
    assert_eq!(akai::scene_light_message(GridLocation { col: 2, row: 1 }, 9), [0x90, 42, 9, 127]);
    let lights = akai::scene_lights(
        &vec![GridLocation { col: 0, row: 0 }],
        &vec![],
        &vec![(GridLocation { col: 0, row: 0 }, SceneInstanceColor::Green)],
    );
    assert_eq!(lights.len(), 48);
    assert_eq!(lights[0], [0x90, 32, 17, 127]);
    assert_eq!(lights[1], [0x90, 33, 0, 127]);
}

#[test]
fn apc_pads_map_to_scene_paths() {
    let path = |deck, index| SceneInstanceUnion::Path(SceneInstancePathIndex { deck, index });
    assert_eq!(apc::handle_input(0, &[144, 0, 127]), Some(UiAction::ToggleSceneActive(path(DeckPath::Grid, 16))));
    assert_eq!(apc::handle_input(0, &[144, 39, 127]), Some(UiAction::ToggleSceneActive(path(DeckPath::Grid, 23))));
    assert_eq!(apc::handle_input(0, &[130, 48, 5]), Some(UiAction::SetSceneActive(path(DeckPath::Quick, 2), false)));
    assert_eq!(apc::handle_input(0, &[151, 52, 127]), Some(UiAction::SetSceneActive(path(DeckPath::Quick, 7), true)));
    assert_eq!(apc::handle_input(0, &[151, 52, 1]), None);
    assert_eq!(
        apc::handle_input(0, &[177, 7, 64]),
        Some(UiAction::SetSceneOpacity(path(DeckPath::Quick, 1), Number::MidiFraction(64)))
    );
    assert_eq!(apc::handle_input(0, &[176, 48, 0]), None);
}

#[test]
fn apc_light_messages() {
    assert_eq!(apc::scene_light_message(SceneInstancePathIndex { deck: DeckPath::Grid, index: 0 }, 30), [0x90, 32, 30, 127]);
    assert_eq!(apc::scene_light_message(SceneInstancePathIndex { deck: DeckPath::Grid, index: 17 }, 11), [0x90, 1, 11, 127]);
    assert_eq!(apc::scene_light_message(SceneInstancePathIndex { deck: DeckPath::Quick, index: 3 }, 0), [0x93, 48, 0, 127]);
}

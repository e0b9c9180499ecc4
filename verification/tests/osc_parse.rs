use gled::osc::parse::parse_message;
use gled::osc::{parse_client_interest_command, ClientInterestCommand, OscArg, OscMessage};
use gled::scene::{ArgumentKindId, SceneInstanceUnion};
use gled::ui_action::{InputEvent, Number, Rgb, UiAction};

fn msg(addr: &str, args: Vec<OscArg>) -> OscMessage {
    OscMessage { addr: addr.to_string(), args }
}

fn float(v: f32) -> OscArg {
    OscArg::Float(v.to_bits())
}

fn number(v: f32) -> Number {
    Number::F32Bits(v.to_bits())
}

fn rgb(r: f32, g: f32, b: f32) -> Rgb {
    Rgb { r: number(r), g: number(g), b: number(b) }
}

#[test]
fn parses_project_main_dimmer() {
    let msg = msg("/project/main_dimmer", vec![float(0.5)]);
    let action = parse_message(&msg).expect("main dimmer should parse");
    match action {
        UiAction::SetMainDimmer(value) => assert_eq!(value, number(0.5)),
        _ => panic!("wrong action variant"),
    }
}

#[test]
fn parses_scene_grid_opacity() {
    let msg = msg("/scene/grid/2/1/opacity", vec![float(0.7)]);
    let action = parse_message(&msg).expect("grid opacity should parse");
    match action {
        UiAction::SetSceneOpacity(SceneInstanceUnion::Grid(location), value) => {
            assert_eq!(location.col, 2);
            assert_eq!(location.row, 1);
            assert_eq!(value, number(0.7));
        }
        _ => panic!("wrong action variant"),
    }
}

#[test]
fn parses_scene_quick_active() {
    let msg = msg("/scene/quick/3/active", vec![OscArg::Int(1)]);
    let action = parse_message(&msg).expect("quick active should parse");
    match action {
        UiAction::SetSceneActive(SceneInstanceUnion::Quick(index), value) => {
            assert_eq!(index.index, 3);
            assert!(value);
        }
        _ => panic!("wrong action variant"),
    }
}

#[test]
fn parses_selected_scene_toggle() {
    let msg = msg("/scene/selected/toggle", vec![]);
    let action = parse_message(&msg).expect("selected toggle should parse");
    assert!(matches!(action, UiAction::ToggleSceneActive(SceneInstanceUnion::Selected)));
}

#[test]
fn parses_large_grid_location_without_static_bounds_check() {
    let msg = msg("/scene/grid/999/777/opacity", vec![float(0.2)]);
    match parse_message(&msg).expect("large grid location should parse") {
        UiAction::SetSceneOpacity(SceneInstanceUnion::Grid(location), value) => {
            assert_eq!(location.col, 999);
            assert_eq!(location.row, 777);
            assert_eq!(value, number(0.2));
        }
        _ => panic!("wrong action variant"),
    }
}

#[test]
fn parses_project_palette_none() {
    let msg = msg("/project/palette", vec![OscArg::Str("none".to_string())]);
    let action = parse_message(&msg).expect("palette none should parse");
    match action {
        UiAction::SetProjectPaletteFromAsset(value) => assert!(value.is_none()),
        _ => panic!("wrong action variant"),
    }
}

#[test]
fn parses_scene_effect_config_f32() {
    let msg = msg("/scene/grid/1/2/effect/0/config/f32/3", vec![float(0.25)]);
    let action = parse_message(&msg).expect("effect config should parse");
    match action {
        UiAction::SetSceneEffectAnimationConfigF32(
            SceneInstanceUnion::Grid(location),
            effect_index,
            config_index,
            value,
        ) => {
            assert_eq!(location.col, 1);
            assert_eq!(location.row, 2);
            assert_eq!(effect_index, 0);
            assert_eq!(config_index, 3);
            assert_eq!(value, number(0.25));
        }
        _ => panic!("wrong action variant"),
    }
}

#[test]
fn parses_selected_scene_effect_speed_exponent() {
    let msg = msg("/scene/selected/effect/2/speed_exponent", vec![OscArg::Int(-1)]);
    let action = parse_message(&msg).expect("selected effect speed should parse");
    match action {
        UiAction::SetSceneEffectSpeedExponent(SceneInstanceUnion::Selected, effect_index, value) => {
            assert_eq!(effect_index, 2);
            assert_eq!(value, -1);
        }
        _ => panic!("wrong action variant"),
    }
}

#[test]
fn parses_project_palette_gradient_edit() {
    let msg = msg("/project/palette/gradient/4", vec![float(0.1), float(0.2), float(0.3)]);
    let action = parse_message(&msg).expect("palette gradient should parse");
    match action {
        UiAction::SetProjectPaletteGradient(index, color) => {
            assert_eq!(index, 4);
            assert_eq!(color, rgb(0.1, 0.2, 0.3));
        }
        _ => panic!("wrong action variant"),
    }
}

#[test]
fn parses_scene_effect_add() {
    let msg = msg("/scene/grid/3/1/effect/add", vec![]);
    let action = parse_message(&msg).expect("effect add should parse");
    match action {
        UiAction::AddSceneEffect(SceneInstanceUnion::Grid(location)) => {
            assert_eq!(location.col, 3);
            assert_eq!(location.row, 1);
        }
        _ => panic!("wrong action variant"),
    }
}

#[test]
fn parses_selected_scene_effect_delete() {
    let msg = msg("/scene/selected/effect/5/delete", vec![]);
    let action = parse_message(&msg).expect("effect delete should parse");
    match action {
        UiAction::RemoveSceneEffect(SceneInstanceUnion::Selected, index) => assert_eq!(index, 5),
        _ => panic!("wrong action variant"),
    }
}

#[test]
fn parses_grid_activation_input_artnet() {
    let msg = msg("/scene/grid/0/0/activation_input/artnet", vec![OscArg::Int(77)]);
    let action = parse_message(&msg).expect("activation input should parse");
    match action {
        UiAction::SetSceneActivationInput(
            SceneInstanceUnion::Grid(location),
            Some(InputEvent::Artnet(channel)),
        ) => {
            assert_eq!(location.col, 0);
            assert_eq!(location.row, 0);
            assert_eq!(channel, 77);
        }
        _ => panic!("wrong action variant"),
    }
}

#[test]
fn parses_selected_palette_overwrite_none() {
    let msg = msg("/scene/selected/palette_overwrite", vec![OscArg::Str("none".to_string())]);
    let action = parse_message(&msg).expect("palette overwrite should parse");
    match action {
        UiAction::SetScenePaletteOverwriteFromAsset(SceneInstanceUnion::Selected, value) => {
            assert!(matches!(value, Some(None)));
        }
        _ => panic!("wrong action variant"),
    }
}

#[test]
fn parses_selected_palette_overwrite_primary_edit() {
    let msg = msg(
        "/scene/selected/palette_overwrite/primary",
        vec![float(0.2), float(0.4), float(0.6)],
    );
    let action = parse_message(&msg).expect("selected palette primary should parse");
    match action {
        UiAction::SetScenePaletteOverwritePrimary(SceneInstanceUnion::Selected, color) => {
            assert_eq!(color, rgb(0.2, 0.4, 0.6));
        }
        _ => panic!("wrong action variant"),
    }
}

#[test]
fn parses_grid_palette_overwrite_gradient_edit() {
    let msg = msg(
        "/scene/grid/4/2/palette_overwrite/gradient/3",
        vec![float(0.3), float(0.5), float(0.7)],
    );
    let action = parse_message(&msg).expect("grid palette gradient should parse");
    match action {
        UiAction::SetScenePaletteOverwriteGradient(SceneInstanceUnion::Grid(location), index, color) => {
            assert_eq!(location.col, 4);
            assert_eq!(location.row, 2);
            assert_eq!(index, 3);
            assert_eq!(color, rgb(0.3, 0.5, 0.7));
        }
        _ => panic!("wrong action variant"),
    }
}

#[test]
fn parses_project_artnet_control_universe() {
    let msg = msg("/project/artnet_control/universe", vec![OscArg::Int(1337)]);
    let action = parse_message(&msg).expect("artnet control universe should parse");
    match action {
        UiAction::SetProjectArtnetControlUniverse(universe) => assert_eq!(universe, 1337),
        _ => panic!("wrong action variant"),
    }
}

#[test]
fn parses_selected_groups_overwrite_set() {
    let msg = msg("/scene/selected/groups_overwrite/2", vec![OscArg::Str("front".to_string())]);
    let action = parse_message(&msg).expect("groups overwrite set should parse");
    match action {
        UiAction::SetSceneGroupsOverwriteEntry(SceneInstanceUnion::Selected, index, group_name) => {
            assert_eq!(index, 2);
            assert_eq!(group_name, "front");
        }
        _ => panic!("wrong action variant"),
    }
}

#[test]
fn parses_animation_argument_kind_edit() {
    let animation_id = "11111111-1111-1111-1111-111111111111";
    let msg = msg(
        &format!("/asset/animation/{animation_id}/argument/1/kind"),
        vec![OscArg::Str("degrees".to_string())],
    );
    let action = parse_message(&msg).expect("animation argument kind should parse");
    match action {
        UiAction::SetAnimationArgumentKind(_, argument_index, kind) => {
            assert_eq!(argument_index, 1);
            assert_eq!(kind, ArgumentKindId::Degrees);
        }
        _ => panic!("wrong action variant"),
    }
}

#[test]
fn parses_project_group_set() {
    let msg = msg("/project/groups/3", vec![OscArg::Str("wash".to_string())]);
    let action = parse_message(&msg).expect("project group set should parse");
    match action {
        UiAction::SetProjectGroup(index, group_name) => {
            assert_eq!(index, 3);
            assert_eq!(group_name, "wash");
        }
        _ => panic!("wrong action variant"),
    }
}

#[test]
fn parses_project_input_add_artnet() {
    let msg = msg("/project/input/tap/add/artnet", vec![OscArg::Int(12)]);
    let action = parse_message(&msg).expect("project input add should parse");
    match action {
        UiAction::AddProjectTapInputArtnet(channel) => assert_eq!(channel, 12),
        _ => panic!("wrong action variant"),
    }
}

#[test]
fn parses_client_interest_subscribe_command() {
    let msg = msg("/osc/state/subscribe", vec![]);
    assert_eq!(parse_client_interest_command(&msg), Some(ClientInterestCommand::Subscribe));
}

#[test]
fn parses_client_interest_unsubscribe_command() {
    let msg = msg("/osc/state/unsubscribe", vec![]);
    assert_eq!(parse_client_interest_command(&msg), Some(ClientInterestCommand::Unsubscribe));
}

#[test]
fn parses_client_interest_heartbeat_command() {
    let msg = msg("/osc/state/heartbeat", vec![]);
    assert_eq!(parse_client_interest_command(&msg), Some(ClientInterestCommand::Heartbeat));
}

#[test]
fn animation_id_is_read_as_uuid() {
    let msg = msg(
        "/asset/animation/11111111-1111-1111-1111-111111111111/argument/1/kind",
        vec![OscArg::Str("degrees".to_string())],
    );
    match parse_message(&msg) {
        Ok(UiAction::SetAnimationArgumentKind(id, _, _)) => {
            assert_eq!(id, 0x1111_1111_1111_1111_1111_1111_1111_1111u128)
        }
        _ => panic!("wrong action variant"),
    }
}

#[test]
fn malformed_animation_id_is_refused() {
    let msg = msg("/asset/animation/not-a-uuid/argument/1/kind", vec![OscArg::Str("degrees".to_string())]);
    assert!(parse_message(&msg).is_err());
}

#[test]
fn unknown_address_is_refused() {
    assert!(parse_message(&msg("/nothing/here", vec![])).is_err());
    assert!(parse_message(&msg("", vec![])).is_err());
    assert_eq!(parse_client_interest_command(&msg("/osc/state", vec![])), None);
}

#[test]
fn missing_argument_is_refused() {
    assert!(parse_message(&msg("/project/main_dimmer", vec![])).is_err());
    assert!(parse_message(&msg("/scene/quick/3/active", vec![OscArg::Str("x".to_string())])).is_err());
}

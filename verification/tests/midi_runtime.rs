use gled::midi::mapping::{
    MidiControllerMapping, MidiInputAction, MidiInputBinding, MidiSceneTarget, MidiTrigger,
};
use gled::midi::output_eval::{
    binary_output_value, distributed_scene_index_from_midi, value_for_distributed_scene_index,
};
use gled::midi::runtime::{
    ActiveRuntimeMapping, MidiRuntimeSnapshot, Runtime, RuntimeControllerKey,
    RuntimeTestExecutionState, RuntimeTestState, RuntimeTestStates, TestCommand,
    TestCommandReport, handle_input_from_snapshot, resolve_mapping_for_port,
    selected_scene_color,
};
use gled::midi::{
    is_midi_through, is_own_port, normalize_controller_key, output_activity_change,
    should_connect_port,
};
use gled::scene::{GridLocation, QuickSceneInstanceIndex, SceneInstanceColor, SceneInstanceUnion};
use gled::ui_action::{Number, UiAction};

#[test]
fn test_command_enum_creation() {
    let cmd_send = TestCommand::SendOutput { status: 144, data1: 60, value: 100 };
    assert!(matches!(cmd_send, TestCommand::SendOutput { status: 144, data1: 60, value: 100 }));

    let cmd_clear = TestCommand::ClearOutput { status: 144, data1: 60 };
    assert!(matches!(cmd_clear, TestCommand::ClearOutput { status: 144, data1: 60 }));

    let cmd_set = TestCommand::SetTestDevice { port_name: "Device1".to_string() };
    assert!(matches!(cmd_set, TestCommand::SetTestDevice { .. }));

    let cmd_unset = TestCommand::UnsetTestDevice;
    assert!(matches!(cmd_unset, TestCommand::UnsetTestDevice));
}

#[test]
fn test_runtime_test_execution_state_active_outputs() {
    let mut exec_state = RuntimeTestExecutionState::new();

    // Initially empty
    assert!(exec_state.active_outputs.is_empty());
    assert!(exec_state.selected_test_device.is_none());

    // Add outputs
    exec_state.active_outputs.insert((144, 60), 100);
    exec_state.active_outputs.insert((176, 7), 64);
    assert_eq!(exec_state.active_outputs.len(), 2);

    // Update value
    exec_state.active_outputs.insert((144, 60), 127);
    assert_eq!(exec_state.active_outputs.get((144, 60)), Some(127));

    // Remove output
    exec_state.active_outputs.remove((144, 60));
    assert_eq!(exec_state.active_outputs.len(), 1);

    // Clear all
    exec_state.active_outputs.clear();
    assert!(exec_state.active_outputs.is_empty());
}

#[test]
fn test_runtime_test_execution_state_device_management() {
    let mut exec_state = RuntimeTestExecutionState::new();

    // Clear from any previous test
    exec_state.selected_test_device = None;
    exec_state.active_outputs.clear();

    // Set device
    exec_state.selected_test_device = Some("MidiOut1".to_string());
    assert_eq!(exec_state.selected_test_device, Some("MidiOut1".to_string()));

    // Add outputs while device is set
    exec_state.active_outputs.insert((144, 60), 100);
    assert_eq!(exec_state.active_outputs.len(), 1);

    // Clear device and outputs
    exec_state.selected_test_device = None;
    exec_state.active_outputs.clear();
    assert!(exec_state.selected_test_device.is_none());
    assert!(exec_state.active_outputs.is_empty());
}

#[test]
fn distributed_index_covers_first_and_last_scene() {
    assert_eq!(distributed_scene_index_from_midi(0, 5), Some(0));
    assert_eq!(distributed_scene_index_from_midi(127, 5), Some(4));
}

#[test]
fn distributed_value_round_trips_for_reachable_indices() {
    let scene_count = 24;
    for index in 0..scene_count {
        let value = value_for_distributed_scene_index(index, scene_count);
        assert_eq!(distributed_scene_index_from_midi(value, scene_count), Some(index));
    }
}

#[test]
fn distributed_index_without_scenes_is_none() {
    assert_eq!(distributed_scene_index_from_midi(64, 0), None);
    assert_eq!(value_for_distributed_scene_index(3, 0), 0);
}

#[test]
fn distributed_value_exact_values() {
    // ((v + 1) * 5 - 1) / 128 for five scenes: 0..=24 select scene 0.
    assert_eq!(distributed_scene_index_from_midi(24, 5), Some(0));
    assert_eq!(distributed_scene_index_from_midi(25, 5), Some(1));
    // The middle of the run of values that select a scene.
    assert_eq!(value_for_distributed_scene_index(0, 5), 12);
    assert_eq!(value_for_distributed_scene_index(4, 5), 114);
}

#[test]
fn binary_output_value_exact() {
    assert_eq!(binary_output_value(true, 99), 99);
    assert_eq!(binary_output_value(false, 99), 0);
}

#[test]
fn controller_key_drops_port_numbering() {
    assert_eq!(normalize_controller_key("  APC40 mkII [2] "), "APC40 mkII");
    assert_eq!(normalize_controller_key("APC40 mkII"), "APC40 mkII");
    assert_eq!(normalize_controller_key("Launchpad [x2]"), "Launchpad [x2]");
    assert_eq!(normalize_controller_key(" [3]"), "[3]");
    assert_eq!(normalize_controller_key("Pad []"), "Pad []");
}

#[test]
fn own_and_loopback_ports_are_recognised() {
    assert!(is_own_port("gled_read_input:in 128:0"));
    assert!(is_own_port("x gled_write_output"));
    assert!(!is_own_port("APC40"));
    assert!(is_midi_through("Midi Through:Midi Through Port-0 14:0"));
    assert!(!is_midi_through("midi through"));
    assert!(should_connect_port("APC40", false));
    assert!(!should_connect_port("APC40", true));
    assert!(!should_connect_port("Midi Through Port", false));
    assert!(!should_connect_port("gled_read_input", false));
}

#[test]
fn output_activity_changes_only_on_edges() {
    assert_eq!(output_activity_change(true, true), Some(false));
    assert_eq!(output_activity_change(false, false), Some(true));
    assert_eq!(output_activity_change(true, false), None);
    assert_eq!(output_activity_change(false, true), None);
}

fn mapping_with(bindings: Vec<MidiInputBinding>) -> MidiControllerMapping {
    MidiControllerMapping { input_bindings: bindings }
}

fn snapshot_for(port: &str, mapping: MidiControllerMapping) -> MidiRuntimeSnapshot {
    let mut snapshot = MidiRuntimeSnapshot::new();
    snapshot.mappings_by_controller.push((
        RuntimeControllerKey::TestOnly(7),
        ActiveRuntimeMapping { controller_id: 7, mapping: mapping.clone() },
    ));
    snapshot.mappings_by_controller.push((
        RuntimeControllerKey::PortName(port.to_string()),
        ActiveRuntimeMapping { controller_id: 1, mapping },
    ));
    snapshot
}

#[test]
fn input_fires_matching_bindings_in_order() {
    let mapping = mapping_with(vec![
        MidiInputBinding {
            trigger: MidiTrigger { status: 176, data1: 14, match_data1: true },
            action: MidiInputAction::SetMainDimmer,
        },
        MidiInputBinding {
            trigger: MidiTrigger { status: 176, data1: 0, match_data1: false },
            action: MidiInputAction::SetSpeedAdd,
        },
        MidiInputBinding {
            trigger: MidiTrigger { status: 144, data1: 14, match_data1: true },
            action: MidiInputAction::Tap,
        },
    ]);
    let snapshot = snapshot_for("APC40 mkII", mapping);
    assert_eq!(resolve_mapping_for_port(&snapshot.mappings_by_controller, "APC40 mkII [1]"), Some(1));
    let actions = handle_input_from_snapshot(&snapshot, "APC40 mkII [1]", &[176, 14, 127]);
    assert_eq!(
        actions,
        vec![
            UiAction::SetMainDimmer(Number::MidiFraction(127)),
            UiAction::SpeedAdd(Number::I32(-1)),
        ]
    );
    assert!(handle_input_from_snapshot(&snapshot, "Other", &[176, 14, 127]).is_empty());
    assert!(handle_input_from_snapshot(&snapshot, "APC40 mkII", &[176, 14]).is_empty());
}

#[test]
fn scene_bindings_name_their_targets() {
    let mapping = mapping_with(vec![
        MidiInputBinding {
            trigger: MidiTrigger { status: 144, data1: 1, match_data1: true },
            action: MidiInputAction::SelectScene { target: MidiSceneTarget::Selected },
        },
        MidiInputBinding {
            trigger: MidiTrigger { status: 144, data1: 1, match_data1: true },
            action: MidiInputAction::ToggleSceneActive { target: MidiSceneTarget::Quick { index: 2 } },
        },
        MidiInputBinding {
            trigger: MidiTrigger { status: 144, data1: 1, match_data1: true },
            action: MidiInputAction::SetSceneActive { target: MidiSceneTarget::Grid { row: 3, col: 4 } },
        },
    ]);
    let snapshot = snapshot_for("Pad", mapping);
    let actions = handle_input_from_snapshot(&snapshot, "Pad", &[144, 1, 0]);
    assert_eq!(
        actions,
        vec![
            UiAction::ToggleSceneActive(SceneInstanceUnion::Quick(QuickSceneInstanceIndex { index: 2 })),
            UiAction::SetSceneActive(SceneInstanceUnion::Grid(GridLocation { col: 4, row: 3 }), false),
        ]
    );
}

#[test]
fn runtime_remembers_input_values_and_sent_outputs() {
    let mapping = mapping_with(vec![MidiInputBinding {
        trigger: MidiTrigger { status: 176, data1: 20, match_data1: true },
        action: MidiInputAction::SetMainDimmer,
    }]);
    let mut runtime = Runtime::new();
    runtime.snapshot = snapshot_for("Knobs", mapping);
    runtime.snapshot.scene_locations_row_major =
        vec![GridLocation { col: 0, row: 0 }, GridLocation { col: 1, row: 0 }, GridLocation { col: 0, row: 1 }];
    // Before any input, the distributed value stands for the selected scene.
    assert_eq!(runtime.distributed_output_value(176, 20, GridLocation { col: 0, row: 1 }), 106);
    assert_eq!(runtime.distributed_output_value(176, 20, GridLocation { col: 9, row: 9 }), 20);
    let actions = runtime.handle_input("Knobs", &[176, 20, 33]);
    assert_eq!(actions.len(), 1);
    assert_eq!(runtime.distributed_output_value(176, 20, GridLocation { col: 0, row: 1 }), 33);
    // An unbound message is not remembered.
    assert!(runtime.handle_input("Knobs", &[176, 21, 5]).is_empty());
    assert_eq!(runtime.last_input_values.get((176, 21)), None);

    assert!(runtime.output_changed(144, 1, 10));
    runtime.record_sent_output(144, 1, 10);
    assert!(!runtime.output_changed(144, 1, 10));
    assert!(runtime.output_changed(144, 1, 11));
}

#[test]
fn test_commands_report_changes_to_the_monitor() {
    let mut state = RuntimeTestExecutionState::new();
    assert_eq!(
        state.apply_test_command(TestCommand::SendOutput { status: 144, data1: 60, value: 100 }),
        TestCommandReport::Nothing
    );
    state.apply_test_command(TestCommand::SetTestDevice { port_name: "Out [1]".to_string() });
    assert_eq!(
        state.apply_test_command(TestCommand::SendOutput { status: 144, data1: 60, value: 101 }),
        TestCommandReport::OutputSent { port_name: "Out [1]".to_string(), status: 144, data1: 60, value: 101 }
    );
    assert_eq!(
        state.apply_test_command(TestCommand::SendOutput { status: 144, data1: 60, value: 101 }),
        TestCommandReport::Nothing
    );
    assert_eq!(state.test_outputs_for_port("Out"), vec![(144, 60, 101)]);
    assert!(state.test_outputs_for_port("Elsewhere").is_empty());
    assert_eq!(
        state.apply_test_command(TestCommand::ClearOutput { status: 144, data1: 60 }),
        TestCommandReport::OutputCleared { port_name: "Out [1]".to_string(), status: 144, data1: 60 }
    );
    assert_eq!(
        state.apply_test_command(TestCommand::ClearOutput { status: 144, data1: 60 }),
        TestCommandReport::Nothing
    );
    state.apply_test_command(TestCommand::SendOutput { status: 176, data1: 1, value: 2 });
    state.apply_test_command(TestCommand::UnsetTestDevice);
    assert!(state.selected_test_device.is_none());
    assert!(state.active_outputs.is_empty());
}

#[test]
fn controller_test_states_are_set_and_cleared() {
    let mut states = RuntimeTestStates::new();
    let mut s = RuntimeTestState::new();
    s.selected_output_port = Some("A".to_string());
    states.set_controller_test_state(1, Some(s));
    states.set_controller_test_state(2, Some(RuntimeTestState::new()));
    states.set_controller_test_state(1, None);
    states.clear_all_test_states();
}

#[test]
fn selected_scene_color_falls_back() {
    let scenes = vec![
        (GridLocation { col: 1, row: 1 }, SceneInstanceColor::Red),
        (GridLocation { col: 2, row: 1 }, SceneInstanceColor::Blue),
    ];
    assert_eq!(
        selected_scene_color(Some(&scenes), SceneInstanceColor::Black, GridLocation { col: 2, row: 1 }),
        SceneInstanceColor::Blue
    );
    assert_eq!(
        selected_scene_color(Some(&scenes), SceneInstanceColor::Black, GridLocation { col: 0, row: 0 }),
        SceneInstanceColor::Black
    );
    assert_eq!(
        selected_scene_color(None, SceneInstanceColor::Pink, GridLocation { col: 1, row: 1 }),
        SceneInstanceColor::Pink
    );
}

#[test]
fn exact_port_name_is_preferred_over_a_normalized_match() {
    let mut snapshot = MidiRuntimeSnapshot::new();
    snapshot.mappings_by_controller.push((
        RuntimeControllerKey::PortName("APC40 mkII [2]".to_string()),
        ActiveRuntimeMapping { controller_id: 1, mapping: MidiControllerMapping { input_bindings: vec![] } },
    ));
    snapshot.mappings_by_controller.push((
        RuntimeControllerKey::PortName("APC40 mkII [1]".to_string()),
        ActiveRuntimeMapping { controller_id: 2, mapping: MidiControllerMapping { input_bindings: vec![] } },
    ));
    assert_eq!(resolve_mapping_for_port(&snapshot.mappings_by_controller, "APC40 mkII [1]"), Some(1));
    assert_eq!(resolve_mapping_for_port(&snapshot.mappings_by_controller, "APC40 mkII [3]"), Some(0));
    assert_eq!(resolve_mapping_for_port(&snapshot.mappings_by_controller, "Other"), None);
}

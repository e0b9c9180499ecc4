use gled::midi::monitor::{push_event, set_streaming_enabled, MidiPortDiagnostics};
use gled::opts::{log_level, LogLevel, Opts};
use gled::pipeline::group::{group_color, Group, Groups};
use gled::pipeline::{Pipeline, RenderDeactivatedScenes};
use gled::positions::{Lamp, Positions, POSITIONS_BUFFER_SIZE};
use gled::project::Project;
use std::collections::BTreeMap;

#[test]
fn positions_are_little_endian_pairs() {
    let mut positions = Positions::new();
    positions.universes[0].lamps[1] = Lamp::Position { x: 0x0102, y: 0x0304 };
    positions.universes[1].lamps[0] = Lamp::Position { x: 7, y: 9 };
    let bytes = positions.to_bytes();
    assert_eq!(bytes.len(), POSITIONS_BUFFER_SIZE);
    assert_eq!(&bytes[0..4], &[0, 0, 0, 0]);
    assert_eq!(&bytes[4..8], &[0x02, 0x01, 0x04, 0x03]);
    assert_eq!(&bytes[170 * 4..170 * 4 + 4], &[7, 0, 9, 0]);
}

fn groups() -> Groups {
    let mut map = BTreeMap::new();
    map.insert(0, Group("front".to_string()));
    map.insert(2, Group("back".to_string()));
    map.insert(5, Group("gone".to_string()));
    Groups::new(map)
}

#[test]
fn groups_keep_only_existing_names() {
    let mut g = groups();
    assert!(!g.is_empty());
    assert_eq!(g.get(2).map(|x| x.0.clone()), Some("back".to_string()));
    assert!(g.get(1).is_none());
    g.remove_nonexistant_groups(&vec![Group("back".to_string()), Group("front".to_string())]);
    assert_eq!(g.0.keys().copied().collect::<Vec<_>>(), vec![0, 2]);
    g.remove_nonexistant_groups(&vec![]);
    assert!(g.is_empty());
}

#[test]
fn group_colors_cycle_by_position() {
    let all: Vec<Group> = (0..12).map(|i| Group(format!("g{i}"))).collect();
    assert_eq!(group_color(&all, &Group("g0".to_string())), (175, 213, 129));
    assert_eq!(group_color(&all, &Group("g9".to_string())), (255, 255, 255));
    assert_eq!(group_color(&all, &Group("g11".to_string())), (177, 152, 221));
    assert_eq!(group_color(&all, &Group("unknown".to_string())), (175, 213, 129));
}

#[test]
fn pipeline_scene_bookkeeping() {
    let mut pipeline: Pipeline<&str> = Pipeline::new();
    assert_eq!(pipeline.auto_mode_seconds, 45);
    assert_eq!(pipeline.auto_mode_max_scenes, 3);
    assert_eq!(pipeline.add_scene("a"), 0);
    assert_eq!(pipeline.add_scene("b"), 1);
    assert_eq!(pipeline.scene_instance(1), Some(&"b"));
    assert!(!pipeline.remove_scene_instance(5));
    assert!(pipeline.remove_scene_instance(0));
    assert_eq!(pipeline.scene_instances(), vec![(0, &"b")]);
    assert!(RenderDeactivatedScenes::Always.should_render(9));
    assert!(RenderDeactivatedScenes::SelectedOrHovered(1, 2).should_render(2));
    assert!(!RenderDeactivatedScenes::SelectedOrHovered(1, 2).should_render(3));
    let project = Project::from_svg(Some("drawing"), pipeline);
    assert_eq!(project.svg, Some("drawing"));
    assert_eq!(project.pipeline.scenes_instances.len(), 1);
}

#[test]
fn monitor_gates_raw_traffic_only() {
    let mut streaming = true;
    set_streaming_enabled(&mut streaming, false);
    assert!(!streaming);
    assert!(push_event(false, 1, "APC", "midi", &[1, 2, 3]).is_none());
    let event = push_event(false, 1, "APC", "input connected", &[]).expect("kept");
    assert_eq!(event.label, "input connected");
    let traffic = push_event(true, 7, "APC", "midi", &[144, 1, 2]).expect("streamed");
    assert_eq!(traffic.timestamp_ms, 7);
    assert_eq!(traffic.bytes, vec![144, 1, 2]);
    let diag = MidiPortDiagnostics::new("APC");
    assert_eq!(diag.port_name, "APC");
    assert_eq!(diag.message_count, 0);
}

#[test]
fn log_level_takes_the_more_verbose_setting() {
    assert_eq!(log_level(0, ""), LogLevel::Error);
    assert_eq!(log_level(1, ""), LogLevel::Warn);
    assert_eq!(log_level(0, "INFO"), LogLevel::Info);
    assert_eq!(log_level(3, "info"), LogLevel::Debug);
    assert_eq!(log_level(9, "warn"), LogLevel::Trace);
    assert_eq!(log_level(0, "trace"), LogLevel::Trace);
    let opts = Opts { file: None, verbose: 2 };
    assert_eq!(log_level(opts.verbose, "nonsense"), LogLevel::Info);
}

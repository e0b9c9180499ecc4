use vstd::prelude::*;

use super::mapping::{MidiControllerMapping, MidiInputAction, MidiInputBinding, MidiSceneTarget, MidiTrigger};
use super::output_eval::{spec_value_for_index, value_for_distributed_scene_index};
use super::{normalize_controller_key, spec_normalize_controller_key};
use crate::pair_table::PairTable;
use crate::scene::{GridLocation, QuickSceneInstanceIndex, SceneInstanceColor, SceneInstanceUnion};
use crate::text::{chars_equal, chars_of};
use crate::ui_action::{Number, UiAction, HALF_F32_BITS, TWO_F32_BITS};

verus! {

/// Whether a mapping's port name and a connected port name refer to the
/// same controller: equal, or equal after normalizing both.
pub open spec fn ports_match(name: Seq<char>, port_name: Seq<char>) -> bool {
    name == port_name || spec_normalize_controller_key(name) == spec_normalize_controller_key(
        port_name,
    )
}

/// Whether `name` and `port_name` refer to the same controller.
pub fn port_names_match(name: &str, port_name: &str) -> (r: bool)
    ensures
        r == ports_match(name@, port_name@),
{
    let a = chars_of(name);
    let b = chars_of(port_name);
    if chars_equal(a.as_slice(), b.as_slice()) {
        return true;
    }
    let na = normalize_controller_key(name);
    let nb = normalize_controller_key(port_name);
    let ca = chars_of(na.as_str());
    let cb = chars_of(nb.as_str());
    chars_equal(ca.as_slice(), cb.as_slice())
}

// ---------------------------------------------------------------------------
// Test device commands
// ---------------------------------------------------------------------------
/// A command from the user interface to the output test device.
#[derive(Debug, Clone, PartialEq)]
pub enum TestCommand {
    /// Send a MIDI test output: (status, data1, value).
    SendOutput { status: u8, data1: u8, value: u8 },
    /// Clear a MIDI test output by (status, data1).
    ClearOutput { status: u8, data1: u8 },
    /// Set the test device port name.
    SetTestDevice { port_name: String },
    /// Unset the test device (stop all test sending).
    UnsetTestDevice,
}

/// What applying a test command reports to the MIDI monitor.
#[derive(Debug, Clone, PartialEq)]
pub enum TestCommandReport {
    Nothing,
    /// A changed test output, with the test device's port.
    OutputSent { port_name: String, status: u8, data1: u8, value: u8 },
    /// A removed test output, with the test device's port.
    OutputCleared { port_name: String, status: u8, data1: u8 },
}

/// The state of test-device output: the selected device and the outputs
/// that are switched on, by (status, data1).
#[derive(Debug, Clone)]
pub struct RuntimeTestExecutionState {
    pub selected_test_device: Option<String>,
    pub active_outputs: PairTable<u8>,
}

impl RuntimeTestExecutionState {
    /// No device and no outputs.
    pub fn new() -> (r: Self)
        ensures
            r.selected_test_device is None,
            r.active_outputs.well_formed(),
            r.active_outputs.entry_seq().len() == 0,
            forall|k: (u8, u8)| r.active_outputs.spec_get(k) is None,
    {
        RuntimeTestExecutionState { selected_test_device: None, active_outputs: PairTable::new() }
    }

    /// Apply one command and say what the monitor should be told.
    pub fn apply_test_command(&mut self, cmd: TestCommand) -> (r: TestCommandReport)
        requires
            old(self).active_outputs.well_formed(),
        ensures
            final(self).active_outputs.well_formed(),
            match cmd {
                TestCommand::SendOutput { status, data1, value } => {
                    &&& final(self).selected_test_device == old(self).selected_test_device
                    &&& final(self).active_outputs.spec_get((status, data1)) == Some(value)
                    &&& forall|k: (u8, u8)|
                        k != (status, data1) ==> final(self).active_outputs.spec_get(k) == old(
                            self,
                        ).active_outputs.spec_get(k)
                    &&& r == if old(self).active_outputs.spec_get((status, data1)) != Some(value)
                        && old(self).selected_test_device is Some {
                        TestCommandReport::OutputSent {
                            port_name: old(self).selected_test_device->0,
                            status,
                            data1,
                            value,
                        }
                    } else {
                        TestCommandReport::Nothing
                    }
                },
                TestCommand::ClearOutput { status, data1 } => {
                    &&& final(self).selected_test_device == old(self).selected_test_device
                    &&& final(self).active_outputs.spec_get((status, data1)) is None
                    &&& forall|k: (u8, u8)|
                        k != (status, data1) ==> final(self).active_outputs.spec_get(k) == old(
                            self,
                        ).active_outputs.spec_get(k)
                    &&& r == if old(self).active_outputs.spec_get((status, data1)) is Some
                        && old(self).selected_test_device is Some {
                        TestCommandReport::OutputCleared {
                            port_name: old(self).selected_test_device->0,
                            status,
                            data1,
                        }
                    } else {
                        TestCommandReport::Nothing
                    }
                },
                TestCommand::SetTestDevice { port_name } => {
                    &&& final(self).selected_test_device == Some(port_name)
                    &&& final(self).active_outputs == old(self).active_outputs
                    &&& r == TestCommandReport::Nothing
                },
                TestCommand::UnsetTestDevice => {
                    &&& final(self).selected_test_device is None
                    &&& final(self).active_outputs.entry_seq().len() == 0
                    &&& forall|k: (u8, u8)| final(self).active_outputs.spec_get(k) is None
                    &&& r == TestCommandReport::Nothing
                },
            },
    {
        match cmd {
            TestCommand::SendOutput { status, data1, value } => {
                let previous = self.active_outputs.insert((status, data1), value);
                let changed = match previous {
                    Some(p) => p != value,
                    None => true,
                };
                if changed {
                    match &self.selected_test_device {
                        Some(port) => TestCommandReport::OutputSent {
                            port_name: port.clone(),
                            status,
                            data1,
                            value,
                        },
                        None => TestCommandReport::Nothing,
                    }
                } else {
                    TestCommandReport::Nothing
                }
            },
            TestCommand::ClearOutput { status, data1 } => {
                let removed = self.active_outputs.remove((status, data1));
                if removed.is_some() {
                    match &self.selected_test_device {
                        Some(port) => TestCommandReport::OutputCleared {
                            port_name: port.clone(),
                            status,
                            data1,
                        },
                        None => TestCommandReport::Nothing,
                    }
                } else {
                    TestCommandReport::Nothing
                }
            },
            TestCommand::SetTestDevice { port_name } => {
                self.selected_test_device = Some(port_name);
                TestCommandReport::Nothing
            },
            TestCommand::UnsetTestDevice => {
                self.selected_test_device = None;
                self.active_outputs.clear();
                TestCommandReport::Nothing
            },
        }
    }

    /// The test outputs to send on port `port_name`: all active outputs
    /// when that port is the selected test device (by exact or normalized
    /// name), none otherwise.
    pub fn test_outputs_for_port(&self, port_name: &str) -> (r: Vec<(u8, u8, u8)>)
        requires
            self.active_outputs.well_formed(),
        ensures
            match self.selected_test_device {
                Some(test_port) => if ports_match(test_port@, port_name@) {
                    r@.len() == self.active_outputs.entry_seq().len() && forall|i: int|
                        0 <= i < r@.len() ==> #[trigger] r@[i] == (
                            self.active_outputs.entry_seq()[i].0.0,
                            self.active_outputs.entry_seq()[i].0.1,
                            self.active_outputs.entry_seq()[i].1,
                        )
                } else {
                    r@.len() == 0
                },
                None => r@.len() == 0,
            },
    {
        let mut out: Vec<(u8, u8, u8)> = Vec::new();
        match &self.selected_test_device {
            Some(test_port) => {
                if port_names_match(test_port.as_str(), port_name) {
                    let n = self.active_outputs.len();
                    let mut i: usize = 0;
                    while i < n
                        invariant
                            n == self.active_outputs.entry_seq().len(),
                            i <= n,
                            out@.len() == i,
                            forall|j: int|
                                0 <= j < i ==> #[trigger] out@[j] == (
                                    self.active_outputs.entry_seq()[j].0.0,
                                    self.active_outputs.entry_seq()[j].0.1,
                                    self.active_outputs.entry_seq()[j].1,
                                ),
                        decreases n - i,
                    {
                        let (key, value) = self.active_outputs.entry_at(i);
                        out.push((key.0, key.1, value));
                        i = i + 1;
                    }
                }
            },
            None => {},
        }
        out
    }
}

// ---------------------------------------------------------------------------
// Controller test states kept by the user interface
// ---------------------------------------------------------------------------
/// What the user interface has configured for testing one controller.
#[derive(Clone, Debug)]
pub struct RuntimeTestState {
    pub selected_output_port: Option<String>,
    pub scene_color_value_overrides: Vec<(String, u8)>,
    pub value_preview_binding_indices: Vec<usize>,
    pub preview_mapping: Option<MidiControllerMapping>,
}

impl RuntimeTestState {
    /// Nothing configured.
    pub fn new() -> (r: Self)
        ensures
            r.selected_output_port is None,
            r.scene_color_value_overrides@.len() == 0,
            r.value_preview_binding_indices@.len() == 0,
            r.preview_mapping is None,
    {
        RuntimeTestState {
            selected_output_port: None,
            scene_color_value_overrides: Vec::new(),
            value_preview_binding_indices: Vec::new(),
            preview_mapping: None,
        }
    }
}

/// The test state stored last for `id` in an entry list.
pub open spec fn test_state_lookup(entries: Seq<(u128, RuntimeTestState)>, id: u128) -> Option<
    RuntimeTestState,
>
    decreases entries.len(),
{
    if entries.len() == 0 {
        None
    } else if entries.last().0 == id {
        Some(entries.last().1)
    } else {
        test_state_lookup(entries.drop_last(), id)
    }
}

proof fn lemma_lookup_remove_other(entries: Seq<(u128, RuntimeTestState)>, i: int, id: u128)
    requires
        0 <= i < entries.len(),
        entries[i].0 != id,
    ensures
        test_state_lookup(entries.remove(i), id) == test_state_lookup(entries, id),
    decreases entries.len(),
{
    if i == entries.len() - 1 {
        assert(entries.remove(i) =~= entries.drop_last());
    } else {
        let r = entries.remove(i);
        assert(r.drop_last() =~= entries.drop_last().remove(i));
        assert(r.last() == entries.last());
        lemma_lookup_remove_other(entries.drop_last(), i, id);
    }
}

proof fn lemma_lookup_absent_key(entries: Seq<(u128, RuntimeTestState)>, id: u128)
    requires
        forall|j: int| 0 <= j < entries.len() ==> #[trigger] entries[j].0 != id,
    ensures
        test_state_lookup(entries, id) is None,
    decreases entries.len(),
{
    if entries.len() > 0 {
        let d = entries.drop_last();
        assert forall|j: int| 0 <= j < d.len() implies #[trigger] d[j].0 != id by {
            assert(d[j] == entries[j]);
        }
        lemma_lookup_absent_key(d, id);
    }
}

/// The test states of all controllers, by controller id.
pub struct RuntimeTestStates {
    states: Vec<(u128, RuntimeTestState)>,
}

impl RuntimeTestStates {
    /// The test state of `id`, if any.
    pub closed spec fn state_of(self, id: u128) -> Option<RuntimeTestState> {
        test_state_lookup(self.states@, id)
    }

    /// No test states.
    pub fn new() -> (r: Self)
        ensures
            forall|id: u128| r.state_of(id) is None,
    {
        RuntimeTestStates { states: Vec::new() }
    }

    /// Set (`Some`) or drop (`None`) the test state of one controller.
    pub fn set_controller_test_state(&mut self, controller_id: u128, state: Option<RuntimeTestState>)
        ensures
            final(self).state_of(controller_id) == state,
            forall|id: u128| id != controller_id ==> final(self).state_of(id) == old(self).state_of(id),
    {
        let ghost before = self.states@;
        let mut i: usize = 0;
        while i < self.states.len()
            invariant
                i <= self.states@.len(),
                forall|j: int| 0 <= j < i ==> #[trigger] self.states@[j].0 != controller_id,
                forall|id: u128|
                    id != controller_id ==> test_state_lookup(self.states@, id) == test_state_lookup(
                        before,
                        id,
                    ),
            decreases self.states@.len() - i,
        {
            if self.states[i].0 == controller_id {
                let ghost prev = self.states@;
                let _ = self.states.remove(i);
                proof {
                    assert(self.states@ =~= prev.remove(i as int));
                    assert forall|id: u128| id != controller_id implies test_state_lookup(
                        self.states@,
                        id,
                    ) == test_state_lookup(before, id) by {
                        assert(prev[i as int].0 != id);
                        lemma_lookup_remove_other(prev, i as int, id);
                    }
                    assert forall|j: int| 0 <= j < i implies #[trigger] self.states@[j].0 != controller_id by {
                        assert(self.states@[j] == prev[j]);
                    }
                }
            } else {
                i = i + 1;
            }
        }
        proof {
            lemma_lookup_absent_key(self.states@, controller_id);
        }
        match state {
            Some(s) => {
                let ghost prev = self.states@;
                self.states.push((controller_id, s));
                proof {
                    assert(self.states@.drop_last() =~= prev);
                    assert forall|id: u128| id != controller_id implies test_state_lookup(
                        self.states@,
                        id,
                    ) == test_state_lookup(before, id) by {
                        assert(self.states@.drop_last() =~= prev);
                    }
                }
            },
            None => {},
        }
    }

    /// Drop every controller's test state.
    pub fn clear_all_test_states(&mut self)
        ensures
            forall|id: u128| final(self).state_of(id) is None,
    {
        self.states.clear();
    }
}

// ---------------------------------------------------------------------------
// Input handling
// ---------------------------------------------------------------------------
/// Whether a message with `status` and `data1` fires `trigger`.
pub open spec fn spec_trigger_matches(trigger: MidiTrigger, status: u8, data1: u8) -> bool {
    trigger.status == status && (!trigger.match_data1 || trigger.data1 == data1)
}

/// Whether a message with `status` and `data1` fires `trigger`.
pub fn trigger_matches(trigger: &MidiTrigger, status: u8, data1: u8) -> (r: bool)
    ensures
        r == spec_trigger_matches(*trigger, status, data1),
{
    if trigger.status != status {
        return false;
    }
    if trigger.match_data1 && trigger.data1 != data1 {
        return false;
    }
    true
}

/// The scene instance a binding target names.
pub open spec fn spec_scene_target_to_union(target: MidiSceneTarget) -> SceneInstanceUnion {
    match target {
        MidiSceneTarget::Selected => SceneInstanceUnion::Selected,
        MidiSceneTarget::Quick { index } => SceneInstanceUnion::Quick(
            QuickSceneInstanceIndex { index: index as usize },
        ),
        MidiSceneTarget::Grid { row, col } => SceneInstanceUnion::Grid(
            GridLocation { col: col as usize, row: row as usize },
        ),
    }
}

/// The scene instance a binding target names (always one).
pub fn scene_target_to_union(target: &MidiSceneTarget) -> (r: Option<SceneInstanceUnion>)
    ensures
        r == Some(spec_scene_target_to_union(*target)),
{
    match target {
        MidiSceneTarget::Selected => Some(SceneInstanceUnion::Selected),
        MidiSceneTarget::Quick { index } => Some(
            SceneInstanceUnion::Quick(QuickSceneInstanceIndex { index: *index as usize }),
        ),
        MidiSceneTarget::Grid { row, col } => Some(
            SceneInstanceUnion::Grid(GridLocation::new(*col as usize, *row as usize)),
        ),
    }
}

/// A relative speed change from a MIDI value: values above 64 count
/// down from 128.
pub open spec fn speed_delta(value: u8) -> i32 {
    if value > 64 {
        (value - 128) as i32
    } else {
        value as i32
    }
}

/// The user action that binding action `action` produces for the data
/// value `value`; `None` where the action has no effect.
pub open spec fn spec_binding_action(action: MidiInputAction, value: u8) -> Option<UiAction> {
    let f = Number::MidiFraction(value);
    match action {
        MidiInputAction::Tap => Some(UiAction::Tap),
        MidiInputAction::SetMainDimmer => Some(UiAction::SetMainDimmer(f)),
        MidiInputAction::SetBlackout => Some(UiAction::SetBlackout(value > 0)),
        MidiInputAction::SetSpeedAdd => Some(UiAction::SpeedAdd(Number::I32(speed_delta(value)))),
        MidiInputAction::SetSpeedMultiply => Some(
            UiAction::SpeedMultiply(
                Number::F32Bits(if value > 63 { TWO_F32_BITS } else { HALF_F32_BITS }),
            ),
        ),
        MidiInputAction::SelectScene { target } => match target {
            MidiSceneTarget::Selected => None,
            _ => Some(UiAction::SelectScene(spec_scene_target_to_union(target))),
        },
        MidiInputAction::ToggleSceneActive { target } => match target {
            MidiSceneTarget::Selected => Some(UiAction::ToggleSelectedSceneActive),
            _ => Some(UiAction::ToggleSceneActive(spec_scene_target_to_union(target))),
        },
        MidiInputAction::SetSceneActive { target } => match target {
            MidiSceneTarget::Selected => Some(UiAction::SetSelectedSceneActive(value > 0)),
            _ => Some(UiAction::SetSceneActive(spec_scene_target_to_union(target), value > 0)),
        },
        MidiInputAction::SetSceneOpacity { target } => match target {
            MidiSceneTarget::Selected => Some(UiAction::SetSelectedSceneOpacity(f)),
            _ => Some(UiAction::SetSceneOpacity(spec_scene_target_to_union(target), f)),
        },
        MidiInputAction::SetSceneInputDimmer { target } => match target {
            MidiSceneTarget::Selected => Some(UiAction::SetSelectedSceneInputDimmer(f)),
            _ => Some(UiAction::SetSceneInputDimmer(spec_scene_target_to_union(target), f)),
        },
        MidiInputAction::SetSceneBeatOffset { target } => match target {
            MidiSceneTarget::Selected => Some(UiAction::SetSelectedSceneBeatOffset(f)),
            _ => Some(UiAction::SetSceneBeatOffset(spec_scene_target_to_union(target), f)),
        },
        MidiInputAction::SetSceneIgnoreMainDimmer { target } => match target {
            MidiSceneTarget::Selected => Some(UiAction::SetSelectedSceneIgnoreMainDimmer(value > 63)),
            _ => Some(
                UiAction::SetSceneIgnoreMainDimmer(spec_scene_target_to_union(target), value > 63),
            ),
        },
        MidiInputAction::SetSceneSetOffsetOnFlash { target } => match target {
            MidiSceneTarget::Selected => Some(UiAction::SetSelectedSceneSetOffsetOnFlash(value > 63)),
            _ => Some(
                UiAction::SetSceneSetOffsetOnFlash(spec_scene_target_to_union(target), value > 63),
            ),
        },
        MidiInputAction::SetSceneEffectSettingF32 { target, effect_index, setting_index } => match target {
            MidiSceneTarget::Selected => Some(
                UiAction::SetSelectedSceneEffectAnimationConfigF32(
                    effect_index as usize,
                    setting_index as usize,
                    f,
                ),
            ),
            _ => Some(
                UiAction::SetSceneEffectAnimationConfigF32(
                    spec_scene_target_to_union(target),
                    effect_index as usize,
                    setting_index as usize,
                    f,
                ),
            ),
        },
    }
}

fn binding_action(action: &MidiInputAction, value: u8) -> (r: Option<UiAction>)
    ensures
        r == spec_binding_action(*action, value),
{
    let f = Number::MidiFraction(value);
    match action {
        MidiInputAction::Tap => Some(UiAction::Tap),
        MidiInputAction::SetMainDimmer => Some(UiAction::SetMainDimmer(f)),
        MidiInputAction::SetBlackout => Some(UiAction::SetBlackout(value > 0)),
        MidiInputAction::SetSpeedAdd => {
            let delta: i32 = if value > 64 { value as i32 - 128 } else { value as i32 };
            Some(UiAction::SpeedAdd(Number::I32(delta)))
        },
        MidiInputAction::SetSpeedMultiply => Some(
            UiAction::SpeedMultiply(
                Number::F32Bits(if value > 63 { TWO_F32_BITS } else { HALF_F32_BITS }),
            ),
        ),
        MidiInputAction::SelectScene { target } => match target {
            MidiSceneTarget::Selected => None,
            _ => Some(UiAction::SelectScene(scene_target_to_union(target).unwrap())),
        },
        MidiInputAction::ToggleSceneActive { target } => match target {
            MidiSceneTarget::Selected => Some(UiAction::ToggleSelectedSceneActive),
            _ => Some(UiAction::ToggleSceneActive(scene_target_to_union(target).unwrap())),
        },
        MidiInputAction::SetSceneActive { target } => match target {
            MidiSceneTarget::Selected => Some(UiAction::SetSelectedSceneActive(value > 0)),
            _ => Some(UiAction::SetSceneActive(scene_target_to_union(target).unwrap(), value > 0)),
        },
        MidiInputAction::SetSceneOpacity { target } => match target {
            MidiSceneTarget::Selected => Some(UiAction::SetSelectedSceneOpacity(f)),
            _ => Some(UiAction::SetSceneOpacity(scene_target_to_union(target).unwrap(), f)),
        },
        MidiInputAction::SetSceneInputDimmer { target } => match target {
            MidiSceneTarget::Selected => Some(UiAction::SetSelectedSceneInputDimmer(f)),
            _ => Some(UiAction::SetSceneInputDimmer(scene_target_to_union(target).unwrap(), f)),
        },
        MidiInputAction::SetSceneBeatOffset { target } => match target {
            MidiSceneTarget::Selected => Some(UiAction::SetSelectedSceneBeatOffset(f)),
            _ => Some(UiAction::SetSceneBeatOffset(scene_target_to_union(target).unwrap(), f)),
        },
        MidiInputAction::SetSceneIgnoreMainDimmer { target } => match target {
            MidiSceneTarget::Selected => Some(UiAction::SetSelectedSceneIgnoreMainDimmer(value > 63)),
            _ => Some(
                UiAction::SetSceneIgnoreMainDimmer(scene_target_to_union(target).unwrap(), value > 63),
            ),
        },
        MidiInputAction::SetSceneSetOffsetOnFlash { target } => match target {
            MidiSceneTarget::Selected => Some(UiAction::SetSelectedSceneSetOffsetOnFlash(value > 63)),
            _ => Some(
                UiAction::SetSceneSetOffsetOnFlash(scene_target_to_union(target).unwrap(), value > 63),
            ),
        },
        MidiInputAction::SetSceneEffectSettingF32 { target, effect_index, setting_index } => match target {
            MidiSceneTarget::Selected => Some(
                UiAction::SetSelectedSceneEffectAnimationConfigF32(
                    *effect_index as usize,
                    *setting_index as usize,
                    f,
                ),
            ),
            _ => Some(
                UiAction::SetSceneEffectAnimationConfigF32(
                    scene_target_to_union(target).unwrap(),
                    *effect_index as usize,
                    *setting_index as usize,
                    f,
                ),
            ),
        },
    }
}

/// The actions that the bindings fire for one message, in binding order.
pub open spec fn spec_binding_actions(
    bindings: Seq<MidiInputBinding>,
    status: u8,
    data1: u8,
    value: u8,
) -> Seq<UiAction>
    decreases bindings.len(),
{
    if bindings.len() == 0 {
        Seq::empty()
    } else {
        let rest = spec_binding_actions(bindings.drop_last(), status, data1, value);
        let b = bindings.last();
        if spec_trigger_matches(b.trigger, status, data1) && spec_binding_action(b.action, value) is Some {
            rest.push(spec_binding_action(b.action, value)->0)
        } else {
            rest
        }
    }
}

/// The actions that a mapping's bindings fire for one message.
pub fn binding_actions(mapping: &MidiControllerMapping, status: u8, data1: u8, value: u8) -> (r: Vec<
    UiAction,
>)
    ensures
        r@ == spec_binding_actions(mapping.input_bindings@, status, data1, value),
{
    let mut out: Vec<UiAction> = Vec::new();
    let bindings = &mapping.input_bindings;
    let mut i: usize = 0;
    while i < bindings.len()
        invariant
            i <= bindings@.len(),
            out@ == spec_binding_actions(bindings@.take(i as int), status, data1, value),
        decreases bindings@.len() - i,
    {
        let b = bindings[i];
        proof {
            assert(bindings@.take(i as int + 1).drop_last() =~= bindings@.take(i as int));
            assert(bindings@.take(i as int + 1).last() == b);
        }
        if trigger_matches(&b.trigger, status, data1) {
            match binding_action(&b.action, value) {
                Some(a) => out.push(a),
                None => {},
            }
        }
        i = i + 1;
    }
    proof {
        assert(bindings@.take(bindings@.len() as int) =~= bindings@);
    }
    out
}

/// How a mapping is routed: to a port by name, or to test mode only.
#[derive(Clone, Debug, PartialEq)]
pub enum RuntimeControllerKey {
    PortName(String),
    TestOnly(u128),
}

/// A controller mapping in use, with its controller id.
#[derive(Clone, Debug)]
pub struct ActiveRuntimeMapping {
    pub controller_id: u128,
    pub mapping: MidiControllerMapping,
}

/// Whether a routing key sends its mapping to the port `port_name`.
pub open spec fn key_routes_to(key: RuntimeControllerKey, port_name: Seq<char>) -> bool {
    match key {
        RuntimeControllerKey::PortName(name) => ports_match(name@, port_name),
        RuntimeControllerKey::TestOnly(_) => false,
    }
}

/// The mappings the runtime works from, and the grid cells that hold a
/// scene in row-major order.
pub struct MidiRuntimeSnapshot {
    pub mappings_by_controller: Vec<(RuntimeControllerKey, ActiveRuntimeMapping)>,
    pub scene_locations_row_major: Vec<GridLocation>,
}

impl MidiRuntimeSnapshot {
    /// No mappings and no scenes.
    pub fn new() -> (r: Self)
        ensures
            r.mappings_by_controller@.len() == 0,
            r.scene_locations_row_major@.len() == 0,
    {
        MidiRuntimeSnapshot { mappings_by_controller: Vec::new(), scene_locations_row_major: Vec::new() }
    }
}

/// The position of the first mapping, at or after `from`, that is routed
/// to `port_name`.
pub open spec fn first_routed(
    m: Seq<(RuntimeControllerKey, ActiveRuntimeMapping)>,
    port_name: Seq<char>,
    from: int,
) -> Option<int>
    decreases m.len() - from,
{
    if from < 0 || from >= m.len() {
        None
    } else if key_routes_to(m[from].0, port_name) {
        Some(from)
    } else {
        first_routed(m, port_name, from + 1)
    }
}

/// The position of the first mapping keyed by exactly `port_name`, from
/// position `from` on.
pub open spec fn first_exact(
    m: Seq<(RuntimeControllerKey, ActiveRuntimeMapping)>,
    port_name: Seq<char>,
    from: int,
) -> Option<int>
    decreases m.len() - from,
{
    if from < 0 || from >= m.len() {
        None
    } else if m[from].0 matches RuntimeControllerKey::PortName(name) && name@ == port_name {
        Some(from)
    } else {
        first_exact(m, port_name, from + 1)
    }
}

/// The mapping used for `port_name`: the first keyed by exactly that
/// name, else the first whose name matches after normalizing.
pub open spec fn resolved_mapping(
    m: Seq<(RuntimeControllerKey, ActiveRuntimeMapping)>,
    port_name: Seq<char>,
) -> Option<int> {
    match first_exact(m, port_name, 0) {
        Some(i) => Some(i),
        None => first_routed(m, port_name, 0),
    }
}

/// The actions a message from `port_name` fires: those of the first
/// mapping routed to that port, in binding order; nothing for messages
/// that are not three bytes long or for ports without a mapping.
pub open spec fn spec_handle_input(
    m: Seq<(RuntimeControllerKey, ActiveRuntimeMapping)>,
    port_name: Seq<char>,
    message: Seq<u8>,
) -> Seq<UiAction> {
    if message.len() != 3 {
        Seq::empty()
    } else {
        match resolved_mapping(m, port_name) {
            Some(i) => spec_binding_actions(m[i].1.mapping.input_bindings@, message[0], message[1], message[2]),
            None => Seq::empty(),
        }
    }
}

proof fn lemma_first_routed_bounds(
    m: Seq<(RuntimeControllerKey, ActiveRuntimeMapping)>,
    port_name: Seq<char>,
    from: int,
)
    ensures
        first_routed(m, port_name, from) matches Some(i) ==> from <= i < m.len(),
    decreases m.len() - from,
{
    if 0 <= from < m.len() && !key_routes_to(m[from].0, port_name) {
        lemma_first_routed_bounds(m, port_name, from + 1);
    }
}

proof fn lemma_first_exact_bounds(
    m: Seq<(RuntimeControllerKey, ActiveRuntimeMapping)>,
    port_name: Seq<char>,
    from: int,
)
    ensures
        first_exact(m, port_name, from) matches Some(i) ==> from <= i < m.len(),
    decreases m.len() - from,
{
    if 0 <= from < m.len() && !(m[from].0 matches RuntimeControllerKey::PortName(name) && name@ == port_name) {
        lemma_first_exact_bounds(m, port_name, from + 1);
    }
}

/// The position of the mapping used for `port_name`: one keyed by
/// exactly that name first, else one whose name matches after
/// normalizing (ALSA names with numeric suffixes).
pub fn resolve_mapping_for_port(
    mappings_by_controller: &Vec<(RuntimeControllerKey, ActiveRuntimeMapping)>,
    port_name: &str,
) -> (r: Option<usize>)
    ensures
        match r {
            Some(i) => resolved_mapping(mappings_by_controller@, port_name@) == Some(i as int)
                && i < mappings_by_controller@.len(),
            None => resolved_mapping(mappings_by_controller@, port_name@) is None,
        },
{
    let wanted = chars_of(port_name);
    let mut i: usize = 0;
    while i < mappings_by_controller.len()
        invariant
            i <= mappings_by_controller@.len(),
            wanted@ == port_name@,
            first_exact(mappings_by_controller@, port_name@, 0) == first_exact(
                mappings_by_controller@,
                port_name@,
                i as int,
            ),
        decreases mappings_by_controller@.len() - i,
    {
        let exact = match &mappings_by_controller[i].0 {
            RuntimeControllerKey::PortName(name) => {
                let have = chars_of(name.as_str());
                chars_equal(have.as_slice(), wanted.as_slice())
            },
            RuntimeControllerKey::TestOnly(_) => false,
        };
        if exact {
            return Some(i);
        }
        i = i + 1;
    }
    proof {
        lemma_first_exact_bounds(mappings_by_controller@, port_name@, 0);
    }
    let mut i: usize = 0;
    while i < mappings_by_controller.len()
        invariant
            i <= mappings_by_controller@.len(),
            first_exact(mappings_by_controller@, port_name@, 0) is None,
            first_routed(mappings_by_controller@, port_name@, 0) == first_routed(
                mappings_by_controller@,
                port_name@,
                i as int,
            ),
        decreases mappings_by_controller@.len() - i,
    {
        let routed = match &mappings_by_controller[i].0 {
            RuntimeControllerKey::PortName(name) => port_names_match(name.as_str(), port_name),
            RuntimeControllerKey::TestOnly(_) => false,
        };
        if routed {
            return Some(i);
        }
        i = i + 1;
    }
    proof {
        lemma_first_routed_bounds(mappings_by_controller@, port_name@, 0);
    }
    None
}

/// The actions a message from `port_name` fires.
pub fn handle_input_from_snapshot(snapshot: &MidiRuntimeSnapshot, port_name: &str, message: &[u8]) -> (r: Vec<UiAction>)
    ensures
        r@ == spec_handle_input(snapshot.mappings_by_controller@, port_name@, message@),
{
    if message.len() != 3 {
        return Vec::new();
    }
    match resolve_mapping_for_port(&snapshot.mappings_by_controller, port_name) {
        Some(i) => binding_actions(
            &snapshot.mappings_by_controller[i].1.mapping,
            message[0],
            message[1],
            message[2],
        ),
        None => Vec::new(),
    }
}

/// The per-port state of the MIDI runtime: the snapshot it works from,
/// the output values last sent and the input values last handled, both by
/// (status, data1).
pub struct Runtime {
    pub snapshot: MidiRuntimeSnapshot,
    pub last_sent_outputs: PairTable<u8>,
    pub last_input_values: PairTable<u8>,
}

impl Runtime {
    /// A runtime with an empty snapshot and nothing sent or received.
    pub fn new() -> (r: Self)
        ensures
            r.snapshot.mappings_by_controller@.len() == 0,
            r.snapshot.scene_locations_row_major@.len() == 0,
            r.last_sent_outputs.well_formed(),
            r.last_input_values.well_formed(),
            forall|k: (u8, u8)| r.last_sent_outputs.spec_get(k) is None,
            forall|k: (u8, u8)| r.last_input_values.spec_get(k) is None,
    {
        Runtime {
            snapshot: MidiRuntimeSnapshot::new(),
            last_sent_outputs: PairTable::new(),
            last_input_values: PairTable::new(),
        }
    }

    /// Handle a message from `port_name`: the actions it fires; when it
    /// fired any, its value is remembered under (status, data1).
    pub fn handle_input(&mut self, port_name: &str, message: &[u8]) -> (r: Vec<UiAction>)
        requires
            old(self).last_input_values.well_formed(),
        ensures
            r@ == spec_handle_input(old(self).snapshot.mappings_by_controller@, port_name@, message@),
            final(self).last_sent_outputs == old(self).last_sent_outputs,
            final(self).last_input_values.well_formed(),
            if r@.len() > 0 && message@.len() == 3 {
                &&& final(self).last_input_values.spec_get((message@[0], message@[1])) == Some(
                    message@[2],
                )
                &&& forall|k: (u8, u8)|
                    k != (message@[0], message@[1]) ==> final(self).last_input_values.spec_get(k)
                        == old(self).last_input_values.spec_get(k)
            } else {
                final(self).last_input_values == old(self).last_input_values
            },
    {
        let actions = handle_input_from_snapshot(&self.snapshot, port_name, message);
        if actions.len() > 0 && message.len() == 3 {
            let _ = self.last_input_values.insert((message[0], message[1]), message[2]);
        }
        actions
    }

    /// Whether sending `value` for (status, data1) would change what the
    /// device last received.
    pub fn output_changed(&self, status: u8, data1: u8, value: u8) -> (r: bool)
        requires
            self.last_sent_outputs.well_formed(),
        ensures
            r == (self.last_sent_outputs.spec_get((status, data1)) != Some(value)),
    {
        match self.last_sent_outputs.get((status, data1)) {
            Some(v) => v != value,
            None => true,
        }
    }

    /// Remember that `value` was sent for (status, data1).
    pub fn record_sent_output(&mut self, status: u8, data1: u8, value: u8)
        requires
            old(self).last_sent_outputs.well_formed(),
        ensures
            final(self).last_sent_outputs.well_formed(),
            final(self).last_sent_outputs.spec_get((status, data1)) == Some(value),
            forall|k: (u8, u8)|
                k != (status, data1) ==> final(self).last_sent_outputs.spec_get(k) == old(
                    self,
                ).last_sent_outputs.spec_get(k),
            final(self).last_input_values == old(self).last_input_values,
    {
        let _ = self.last_sent_outputs.insert((status, data1), value);
    }

    /// The 7-bit value a "selected scene, distributed" output shows: the
    /// last input value seen for (status, data1), or else the value that
    /// stands for the selected scene's position among the snapshot's scenes
    /// (position 0 when the selected cell holds no scene).
    pub fn distributed_output_value(&self, status: u8, data1: u8, selected: GridLocation) -> (r: u8)
        requires
            self.last_input_values.well_formed(),
            self.snapshot.scene_locations_row_major@.len() <= usize::MAX / 256,
        ensures
            match self.last_input_values.spec_get((status, data1)) {
                Some(v) => r == v,
                None => r as int == spec_value_for_index(
                    first_position(self.snapshot.scene_locations_row_major@, selected),
                    self.snapshot.scene_locations_row_major@.len() as int,
                ),
            },
    {
        match self.last_input_values.get((status, data1)) {
            Some(v) => v,
            None => {
                let locations = &self.snapshot.scene_locations_row_major;
                let position = position_of(locations, selected);
                value_for_distributed_scene_index(position, locations.len())
            },
        }
    }
}

/// The position of the first occurrence of `x` in `s`, or 0 when absent.
pub open spec fn first_position(s: Seq<GridLocation>, x: GridLocation) -> int
    decreases s.len(),
{
    if s.len() == 0 {
        0
    } else if s[0] == x {
        0
    } else if s.drop_first().contains(x) {
        1 + first_position(s.drop_first(), x)
    } else {
        0
    }
}

/// The position of the first occurrence of `x` in `s`, or 0 when absent.
fn position_of(s: &Vec<GridLocation>, x: GridLocation) -> (r: usize)
    ensures
        r as int == first_position(s@, x),
{
    let mut i: usize = 0;
    while i < s.len()
        invariant
            i <= s@.len(),
            forall|j: int| 0 <= j < i ==> s@[j] != x,
        decreases s@.len() - i,
    {
        if s[i] == x {
            proof {
                lemma_first_position_found(s@, x, i as int);
            }
            return i;
        }
        i = i + 1;
    }
    proof {
        lemma_first_position_absent(s@, x);
    }
    0
}

proof fn lemma_first_position_found(s: Seq<GridLocation>, x: GridLocation, i: int)
    requires
        0 <= i < s.len(),
        s[i] == x,
        forall|j: int| 0 <= j < i ==> s[j] != x,
    ensures
        first_position(s, x) == i,
    decreases i,
{
    if i > 0 {
        let t = s.drop_first();
        assert(t[i - 1] == x);
        assert(t.contains(x));
        assert forall|j: int| 0 <= j < i - 1 implies t[j] != x by {
            assert(t[j] == s[j + 1]);
        }
        lemma_first_position_found(t, x, i - 1);
    }
}

proof fn lemma_first_position_absent(s: Seq<GridLocation>, x: GridLocation)
    requires
        forall|j: int| 0 <= j < s.len() ==> s[j] != x,
    ensures
        first_position(s, x) == 0,
{
    if s.len() > 0 {
        assert(!s.drop_first().contains(x)) by {
            if s.drop_first().contains(x) {
                let k = choose|k: int| 0 <= k < s.drop_first().len() && s.drop_first()[k] == x;
                assert(s[k + 1] == x);
            }
        }
    }
}

// ---------------------------------------------------------------------------
// Scene lookups
// ---------------------------------------------------------------------------
/// The grid cell a binding target refers to, given the selected cell and
/// the highlighted row or column of the controller.
pub open spec fn spec_target_location(
    selected: GridLocation,
    highlighted_row: Option<usize>,
    highlighted_col: Option<usize>,
    target: MidiSceneTarget,
) -> GridLocation {
    match target {
        MidiSceneTarget::Selected => selected,
        MidiSceneTarget::Quick { index } => match highlighted_row {
            Some(row) => GridLocation { col: index as usize, row },
            None => match highlighted_col {
                Some(col) => GridLocation { col, row: index as usize },
                None => GridLocation { col: index as usize, row: 0 },
            },
        },
        MidiSceneTarget::Grid { row, col } => GridLocation { col: col as usize, row: row as usize },
    }
}

/// The grid cell a binding target refers to: the selected cell, a cell of
/// the highlighted row (or column), or a fixed cell.
pub fn target_location(
    selected: GridLocation,
    highlighted_row: Option<usize>,
    highlighted_col: Option<usize>,
    target: &MidiSceneTarget,
) -> (r: GridLocation)
    ensures
        r == spec_target_location(selected, highlighted_row, highlighted_col, *target),
{
    match target {
        MidiSceneTarget::Selected => selected,
        MidiSceneTarget::Quick { index } => {
            if let Some(row) = highlighted_row {
                GridLocation::new(*index as usize, row)
            } else if let Some(col) = highlighted_col {
                GridLocation::new(col, *index as usize)
            } else {
                GridLocation::new(*index as usize, 0)
            }
        },
        MidiSceneTarget::Grid { row, col } => GridLocation::new(*col as usize, *row as usize),
    }
}

/// The colour of the first scene listed at `location`, if any.
pub open spec fn color_at(scenes: Seq<(GridLocation, SceneInstanceColor)>, location: GridLocation) -> Option<
    SceneInstanceColor,
>
    decreases scenes.len(),
{
    if scenes.len() == 0 {
        None
    } else if scenes[0].0 == location {
        Some(scenes[0].1)
    } else {
        color_at(scenes.drop_first(), location)
    }
}

/// The colour of the first scene listed at `location`, if any.
pub fn color_in(scenes: &Vec<(GridLocation, SceneInstanceColor)>, location: GridLocation) -> (r: Option<
    SceneInstanceColor,
>)
    ensures
        r == color_at(scenes@, location),
{
    let mut i: usize = 0;
    proof {
        assert(scenes@.skip(0) =~= scenes@);
    }
    while i < scenes.len()
        invariant
            i <= scenes@.len(),
            color_at(scenes@, location) == color_at(scenes@.skip(i as int), location),
        decreases scenes@.len() - i,
    {
        proof {
            assert(scenes@.skip(i as int).drop_first() =~= scenes@.skip(i as int + 1));
            assert(scenes@.skip(i as int)[0] == scenes@[i as int]);
        }
        if scenes[i].0 == location {
            return Some(scenes[i].1);
        }
        i = i + 1;
    }
    None
}

/// The colour of the scene at the selected cell of the project, or
/// `fallback` when there is no project or no scene there.
pub fn selected_scene_color(
    project_scenes: Option<&Vec<(GridLocation, SceneInstanceColor)>>,
    fallback: SceneInstanceColor,
    selected: GridLocation,
) -> (r: SceneInstanceColor)
    ensures
        r == match project_scenes {
            Some(scenes) => match color_at(scenes@, selected) {
                Some(c) => c,
                None => fallback,
            },
            None => fallback,
        },
{
    match project_scenes {
        Some(scenes) => match color_in(scenes, selected) {
            Some(c) => c,
            None => fallback,
        },
        None => fallback,
    }
}

/// Whether `locations` holds `x`.
pub fn contains_location(locations: &Vec<GridLocation>, x: GridLocation) -> (r: bool)
    ensures
        r == locations@.contains(x),
{
    let mut i: usize = 0;
    while i < locations.len()
        invariant
            i <= locations@.len(),
            forall|j: int| 0 <= j < i ==> locations@[j] != x,
        decreases locations@.len() - i,
    {
        if locations[i] == x {
            assert(locations@[i as int] == x);
            return true;
        }
        i = i + 1;
    }
    false
}

/// The flag of the first entry listed for `location`, if any.
pub open spec fn flag_at(entries: Seq<(GridLocation, bool)>, location: GridLocation) -> Option<bool>
    decreases entries.len(),
{
    if entries.len() == 0 {
        None
    } else if entries[0].0 == location {
        Some(entries[0].1)
    } else {
        flag_at(entries.drop_first(), location)
    }
}

fn flag_in(entries: &Vec<(GridLocation, bool)>, location: GridLocation) -> (r: Option<bool>)
    ensures
        r == flag_at(entries@, location),
{
    let mut i: usize = 0;
    proof {
        assert(entries@.skip(0) =~= entries@);
    }
    while i < entries.len()
        invariant
            i <= entries@.len(),
            flag_at(entries@, location) == flag_at(entries@.skip(i as int), location),
        decreases entries@.len() - i,
    {
        proof {
            assert(entries@.skip(i as int).drop_first() =~= entries@.skip(i as int + 1));
            assert(entries@.skip(i as int)[0] == entries@[i as int]);
        }
        if entries[i].0 == location {
            return Some(entries[i].1);
        }
        i = i + 1;
    }
    None
}

/// What the scene lookups of output bindings read of the program state:
/// the selected and highlighted cells, the active and flashed scenes, the
/// scene colours and two switches per scene.
pub struct MidiSceneState {
    pub selected_scene_location: GridLocation,
    pub highlighted_row: Option<usize>,
    pub highlighted_col: Option<usize>,
    pub active_scenes: Vec<GridLocation>,
    pub flashed_scenes: Vec<GridLocation>,
    pub available_scenes_grid: Vec<(GridLocation, SceneInstanceColor)>,
    pub selected_scene_ignore_main_dimmer: bool,
    pub selected_scene_set_offset_on_flash: bool,
    pub scene_ignore_main_dimmer: Vec<(GridLocation, bool)>,
    pub scene_set_offset_on_flash: Vec<(GridLocation, bool)>,
}

impl MidiSceneState {
    /// The grid cell a binding target refers to in this state.
    pub open spec fn location_of(&self, target: MidiSceneTarget) -> GridLocation {
        spec_target_location(
            self.selected_scene_location,
            self.highlighted_row,
            self.highlighted_col,
            target,
        )
    }

    fn target_cell(&self, target: &MidiSceneTarget) -> (r: GridLocation)
        ensures
            r == self.location_of(*target),
    {
        target_location(self.selected_scene_location, self.highlighted_row, self.highlighted_col, target)
    }
}

/// The colour of the scene a target refers to; black without a scene.
pub fn scene_color(state: &MidiSceneState, target: &MidiSceneTarget) -> (r: SceneInstanceColor)
    ensures
        r == match color_at(state.available_scenes_grid@, state.location_of(*target)) {
            Some(c) => c,
            None => SceneInstanceColor::Black,
        },
{
    match color_in(&state.available_scenes_grid, state.target_cell(target)) {
        Some(c) => c,
        None => SceneInstanceColor::Black,
    }
}

/// Whether the scene a target refers to is active.
pub fn scene_is_active(state: &MidiSceneState, target: &MidiSceneTarget) -> (r: bool)
    ensures
        r == state.active_scenes@.contains(state.location_of(*target)),
{
    contains_location(&state.active_scenes, state.target_cell(target))
}

/// Whether the scene a target refers to is flashed.
pub fn scene_is_flashed(state: &MidiSceneState, target: &MidiSceneTarget) -> (r: bool)
    ensures
        r == state.flashed_scenes@.contains(state.location_of(*target)),
{
    contains_location(&state.flashed_scenes, state.target_cell(target))
}

/// Whether the scene a target refers to ignores the main dimmer: the
/// selected scene's switch, else the switch stored for its cell (off when
/// none is).
pub fn scene_ignore_main_dimmer(state: &MidiSceneState, target: &MidiSceneTarget) -> (r: bool)
    ensures
        r == match *target {
            MidiSceneTarget::Selected => state.selected_scene_ignore_main_dimmer,
            _ => flag_at(state.scene_ignore_main_dimmer@, state.location_of(*target)) == Some(true),
        },
{
    match target {
        MidiSceneTarget::Selected => state.selected_scene_ignore_main_dimmer,
        _ => match flag_in(&state.scene_ignore_main_dimmer, state.target_cell(target)) {
            Some(b) => b,
            None => false,
        },
    }
}

/// Whether the scene a target refers to sets its beat offset on flash: the
/// selected scene's switch, else the switch stored for its cell (off when
/// none is).
pub fn scene_set_offset_on_flash(state: &MidiSceneState, target: &MidiSceneTarget) -> (r: bool)
    ensures
        r == match *target {
            MidiSceneTarget::Selected => state.selected_scene_set_offset_on_flash,
            _ => flag_at(state.scene_set_offset_on_flash@, state.location_of(*target)) == Some(true),
        },
{
    match target {
        MidiSceneTarget::Selected => state.selected_scene_set_offset_on_flash,
        _ => match flag_in(&state.scene_set_offset_on_flash, state.target_cell(target)) {
            Some(b) => b,
            None => false,
        },
    }
}

/// The flag a scene-flag binding sets is the MIDI value's upper half
/// (64 to 127 on, 0 to 63 off), for a grid or quick target exactly as for
/// the selected scene; an activity binding turns the scene on for any
/// value above 0.
pub proof fn law_flag_bindings_threshold(target: MidiSceneTarget, value: u8)
    ensures
        match spec_binding_action(MidiInputAction::SetSceneIgnoreMainDimmer { target }, value) {
            Some(UiAction::SetSceneIgnoreMainDimmer(t, on)) => !(target is Selected) && t
                == spec_scene_target_to_union(target) && (on <==> value >= 64),
            Some(UiAction::SetSelectedSceneIgnoreMainDimmer(on)) => target is Selected && (on <==> value >= 64),
            _ => false,
        },
        match spec_binding_action(MidiInputAction::SetSceneSetOffsetOnFlash { target }, value) {
            Some(UiAction::SetSceneSetOffsetOnFlash(t, on)) => !(target is Selected) && t
                == spec_scene_target_to_union(target) && (on <==> value >= 64),
            Some(UiAction::SetSelectedSceneSetOffsetOnFlash(on)) => target is Selected && (on <==> value >= 64),
            _ => false,
        },
        match spec_binding_action(MidiInputAction::SetSceneActive { target }, value) {
            Some(UiAction::SetSceneActive(t, on)) => !(target is Selected) && t == spec_scene_target_to_union(
                target,
            ) && (on <==> value != 0),
            Some(UiAction::SetSelectedSceneActive(on)) => target is Selected && (on <==> value != 0),
            _ => false,
        },
{
}

/// The global bindings: blackout is on for any value above 0, the speed
/// multiplier doubles for the upper half of values and halves for the
/// lower, and the main dimmer and a scene's opacity follow the value.
pub proof fn law_value_bindings(target: MidiSceneTarget, value: u8)
    ensures
        spec_binding_action(MidiInputAction::SetBlackout, value) == Some(UiAction::SetBlackout(value != 0)),
        spec_binding_action(MidiInputAction::SetSpeedMultiply, value) == Some(
            UiAction::SpeedMultiply(Number::F32Bits(if value >= 64 { TWO_F32_BITS } else { HALF_F32_BITS })),
        ),
        spec_binding_action(MidiInputAction::SetMainDimmer, value) == Some(
            UiAction::SetMainDimmer(Number::MidiFraction(value)),
        ),
        !(target is Selected) ==> spec_binding_action(MidiInputAction::SetSceneOpacity { target }, value)
            == Some(UiAction::SetSceneOpacity(spec_scene_target_to_union(target), Number::MidiFraction(value))),
        target is Selected ==> spec_binding_action(MidiInputAction::SetSceneOpacity { target }, value) == Some(
            UiAction::SetSelectedSceneOpacity(Number::MidiFraction(value)),
        ),
{
}

/// A binding's scene target names the same scene as a command would:
/// quick position `index`, the grid cell at column `col` and row `row`
/// (not swapped), or the selected scene.
pub proof fn law_targets_name_their_scene(index: u8, row: u8, col: u8)
    ensures
        spec_scene_target_to_union(MidiSceneTarget::Quick { index }) == SceneInstanceUnion::Quick(
            QuickSceneInstanceIndex { index: index as usize },
        ),
        spec_scene_target_to_union(MidiSceneTarget::Grid { row, col }) == SceneInstanceUnion::Grid(
            GridLocation { col: col as usize, row: row as usize },
        ),
        spec_scene_target_to_union(MidiSceneTarget::Selected) == SceneInstanceUnion::Selected,
{
}

} // verus!

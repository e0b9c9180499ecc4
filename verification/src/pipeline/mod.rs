//! The render pipeline's bookkeeping: its scene instances, which of them
//! render while deactivated, and the lamp groups.
pub mod group;

use vstd::prelude::*;

use group::Groups;
use std::collections::BTreeMap;

verus! {

/// The scene instances of a show, in order, with the show-wide settings:
/// palette, lamp groups and the automatic scene changer.
pub struct Pipeline<S> {
    pub scenes_instances: Vec<S>,
    pub palette: Option<u128>,
    pub groups: Groups,
    pub auto_mode_active: bool,
    pub auto_mode_seconds: u64,
    pub auto_mode_max_scenes: usize,
}

impl<S> Pipeline<S> {
    /// No scenes, no palette, no groups; the automatic changer off, set to
    /// change every 45 seconds with at most 3 scenes on.
    pub fn new() -> (r: Self)
        ensures
            r.scenes_instances@.len() == 0,
            r.palette is None,
            r.groups.0@.dom().len() == 0,
            !r.auto_mode_active,
            r.auto_mode_seconds == 45,
            r.auto_mode_max_scenes == 3,
    {
        Pipeline {
            scenes_instances: Vec::new(),
            palette: None,
            groups: Groups::new(BTreeMap::new()),
            auto_mode_active: false,
            auto_mode_seconds: 45,
            auto_mode_max_scenes: 3,
        }
    }

    /// Append a scene instance; returns its index.
    pub fn add_scene(&mut self, scene_instance: S) -> (r: usize)
        requires
            old(self).scenes_instances@.len() < usize::MAX,
        ensures
            final(self).scenes_instances@ == old(self).scenes_instances@.push(scene_instance),
            r == old(self).scenes_instances@.len(),
            final(self).palette == old(self).palette,
            final(self).groups == old(self).groups,
            final(self).auto_mode_active == old(self).auto_mode_active,
            final(self).auto_mode_seconds == old(self).auto_mode_seconds,
            final(self).auto_mode_max_scenes == old(self).auto_mode_max_scenes,
    {
        self.scenes_instances.push(scene_instance);
        self.scenes_instances.len() - 1
    }

    /// Remove the scene instance at `index` when there is one; returns
    /// whether one was removed (the render states are then set up anew).
    pub fn remove_scene_instance(&mut self, index: usize) -> (r: bool)
        ensures
            r == (index < old(self).scenes_instances@.len()),
            final(self).scenes_instances@ == (if r {
                old(self).scenes_instances@.remove(index as int)
            } else {
                old(self).scenes_instances@
            }),
            final(self).palette == old(self).palette,
            final(self).groups == old(self).groups,
            final(self).auto_mode_active == old(self).auto_mode_active,
            final(self).auto_mode_seconds == old(self).auto_mode_seconds,
            final(self).auto_mode_max_scenes == old(self).auto_mode_max_scenes,
    {
        if self.scenes_instances.len() > index {
            let _ = self.scenes_instances.remove(index);
            true
        } else {
            false
        }
    }

    /// The scene instance at `index`, if any.
    pub fn scene_instance(&self, index: usize) -> (r: Option<&S>)
        ensures
            r == (if index < self.scenes_instances@.len() {
                Some(&self.scenes_instances@[index as int])
            } else {
                None
            }),
    {
        if index < self.scenes_instances.len() {
            Some(&self.scenes_instances[index])
        } else {
            None
        }
    }

    /// The scene instances with their indices, in order.
    pub fn scene_instances(&self) -> (r: Vec<(usize, &S)>)
        ensures
            r@.len() == self.scenes_instances@.len(),
            forall|i: int|
                0 <= i < r@.len() ==> #[trigger] r@[i] == (i as usize, &self.scenes_instances@[i]),
    {
        let mut out: Vec<(usize, &S)> = Vec::new();
        let mut i: usize = 0;
        while i < self.scenes_instances.len()
            invariant
                i <= self.scenes_instances@.len(),
                out@.len() == i,
                forall|j: int|
                    0 <= j < i ==> #[trigger] out@[j] == (j as usize, &self.scenes_instances@[j]),
            decreases self.scenes_instances@.len() - i,
        {
            out.push((i, &self.scenes_instances[i]));
            i = i + 1;
        }
        out
    }
}

/// Which deactivated scenes still render: all, or only the selected and
/// the hovered one.
#[derive(Clone, Copy, Debug, PartialEq, Eq, Structural)]
pub enum RenderDeactivatedScenes {
    Always,
    SelectedOrHovered(usize, usize),
}

impl RenderDeactivatedScenes {
    /// Whether the scene at `index` renders while deactivated.
    pub fn should_render(&self, index: usize) -> (r: bool)
        ensures
            r == match *self {
                RenderDeactivatedScenes::Always => true,
                RenderDeactivatedScenes::SelectedOrHovered(selected, hovered) => selected == index || hovered
                    == index,
            },
    {
        match self {
            RenderDeactivatedScenes::Always => true,
            RenderDeactivatedScenes::SelectedOrHovered(selected, hovered) => *selected == index || *hovered == index,
        }
    }
}

} // verus!

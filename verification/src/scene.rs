use vstd::prelude::*;

verus! {

/// A cell of the scene grid.
#[derive(Clone, Copy, Debug, PartialEq, Eq, Structural, Hash, PartialOrd, Ord)]
pub struct GridLocation {
    pub col: usize,
    pub row: usize,
}

impl GridLocation {
    /// The cell at column `col` and row `row`.
    pub fn new(col: usize, row: usize) -> (r: Self)
        ensures
            r == (GridLocation { col, row }),
    {
        GridLocation { col, row }
    }
}

/// A position in the quick row.
#[derive(Clone, Copy, Debug, PartialEq, Eq, Structural, Hash)]
pub struct QuickSceneInstanceIndex {
    pub index: usize,
}

/// The deck a scene slot belongs to.
#[derive(Clone, Copy, Debug, PartialEq, Eq, Structural, Hash)]
pub enum DeckPath {
    Grid,
    Quick,
}

/// A scene slot named by deck and running index.
#[derive(Clone, Copy, Debug, PartialEq, Eq, Structural, Hash)]
pub struct SceneInstancePathIndex {
    pub deck: DeckPath,
    pub index: usize,
}

impl SceneInstancePathIndex {
    /// The slot `index` of `deck`.
    pub fn new(deck: DeckPath, index: usize) -> (r: Self)
        ensures
            r == (SceneInstancePathIndex { deck, index }),
    {
        SceneInstancePathIndex { deck, index }
    }
}

/// The ways a command can name a scene instance.
#[derive(Clone, Copy, Debug, PartialEq, Eq, Structural, Hash)]
pub enum SceneInstanceUnion {
    Grid(GridLocation),
    Quick(QuickSceneInstanceIndex),
    Selected,
    Path(SceneInstancePathIndex),
}

/// The scene instance at grid cell `location`.
pub fn grid_scene_instance_index(location: GridLocation) -> (r: SceneInstanceUnion)
    ensures
        r == SceneInstanceUnion::Grid(location),
{
    SceneInstanceUnion::Grid(location)
}

/// The scene instance at position `index` of the quick row.
pub fn quick_scene_instance_index(index: usize) -> (r: SceneInstanceUnion)
    ensures
        r == SceneInstanceUnion::Quick(QuickSceneInstanceIndex { index }),
{
    SceneInstanceUnion::Quick(QuickSceneInstanceIndex { index })
}

/// The currently selected scene instance, resolved when the command runs.
pub fn selected_scene_instance_index() -> (r: SceneInstanceUnion)
    ensures
        r == SceneInstanceUnion::Selected,
{
    SceneInstanceUnion::Selected
}

/// The colour tag of a scene instance.
#[derive(Clone, Copy, Debug, PartialEq, Eq, Structural, Hash)]
pub enum SceneInstanceColor {
    Red,
    Green,
    Blue,
    White,
    Orange,
    Yellow,
    Purple,
    Pink,
    Black,
}

/// The kind of an animation argument.
#[derive(Clone, Copy, Debug, PartialEq, Eq, Structural, Hash)]
pub enum ArgumentKindId {
    Center,
    Selection,
    Slider,
    Checkbox,
    Percentage,
    Degrees,
}

} // verus!

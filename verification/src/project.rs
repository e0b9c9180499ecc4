//! A show file's contents: the pipeline and the installation drawing.
use vstd::prelude::*;

use crate::pipeline::Pipeline;

verus! {

/// A show: its pipeline and, when loaded, the drawing of the installation.
pub struct Project<S, D> {
    pub pipeline: Pipeline<S>,
    pub svg: Option<D>,
}

impl<S, D> Project<S, D> {
    /// A show made of the pipeline in use and the drawing `svg`.
    pub fn from_svg(svg: Option<D>, pipeline: Pipeline<S>) -> (r: Self)
        ensures
            r.svg == svg,
            r.pipeline == pipeline,
    {
        Project { svg, pipeline }
    }
}

} // verus!

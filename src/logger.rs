//! The tool's logger, which prints messages and diagnostics.

use vstd::prelude::*;

verus! {

/// Prints the tool's output, warnings and errors.
#[derive(Clone, Copy, Debug, PartialEq, Eq, Structural)]
pub struct GanttChartLogger {}

impl GanttChartLogger {
    pub fn new() -> (r: GanttChartLogger)
        ensures
            r == (GanttChartLogger {}),
    {
        GanttChartLogger {}
    }
}

} // verus!

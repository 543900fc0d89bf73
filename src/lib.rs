//! Layout engine for Gantt charts: turns a project description into the
//! rows, month columns, marker and colours of a chart.

pub mod calendar;
pub mod color;
pub mod layout;
pub mod laws;
pub mod logger;
pub mod shapes;
pub mod styles;

//! Timing analysis for log files: every line is paired with the time that
//! passed since the line before it, the largest gaps are ranked, and a
//! zoomable window over the cumulative time is kept in step with a cursor.

pub mod annotate;
pub mod app;
pub mod chart;
pub mod cursor;
pub mod gaugagraph;
pub mod ranking;
pub mod reflow;
pub mod style;
pub mod text;
pub mod timestamp;
pub mod zoom_laws;

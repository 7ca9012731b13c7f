//! Playback control for the named animations of one entity: start, pause,
//! abort, rate changes, keyframe stepping, and animations whose start waits on
//! another animation's progress. Time is counted in whole time units; rates and
//! fractions are integers in thousandths.

pub mod definition;
pub mod control;
pub mod control_set;
pub mod laws;
pub mod cycle;
pub mod render_pass;

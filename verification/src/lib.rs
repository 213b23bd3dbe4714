//! A counter shared between a timer interrupt and a main loop that shows it on a
//! display: the counter cell and the critical-section discipline that guards it,
//! the timer's interrupt states, the text of one display refresh, the decisions
//! of the main loop, and a model of the whole machine in which the two contexts
//! interleave.

pub mod counter;
pub mod gate;
pub mod log;
pub mod machine;
pub mod main_loop;
pub mod text;
pub mod timer;

//! A verified MMIX machine: registers, memory, the register stack and the
//! integer, load/store, control and system instructions, with each
//! instruction's meaning stated as a function on the machine's state.
use vstd::prelude::*;

pub mod word;
pub mod special;
pub mod event;
pub mod state;
pub mod machine;
pub mod exceptions;
pub mod integer;
pub mod loadstore;
pub mod control;
pub mod stack;
pub mod system;
pub mod execute;
pub mod display;
pub mod hostcall;
pub mod fpu;
pub mod laws;
pub mod record;

pub use machine::MMix;
pub use special::{
    SpecialReg, save_special, RA_D, RA_V, RA_W, RA_I, RA_O, RA_U, RA_Z, RA_X, RA_ROUND_SHIFT, RA_MAX,
    STACK_SEGMENT_START, SAVE_SPECIAL_COUNT,
};
pub use event::{TrapCode, Diagnostic, Event};
pub use execute::Stop;
pub use display::{ValueFormat, MMixDisplay, display_value};
pub use hostcall::{time_reading_of, CallOutcome, CALL_FAILED};
pub use exceptions::trip_cause_name;

verus! {

} // verus!

//! Selection and enumeration core of a process-status tool: command-line
//! classification and long-option decoding into selection criteria, the
//! decoder of a process's status record, and the evaluator that decides
//! which processes are wanted.

use vstd::prelude::*;

pub mod argparser;
pub mod helper;
pub mod number;
pub mod ps;
pub mod readproc;

verus! {

} // verus!

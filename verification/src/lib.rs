use vstd::prelude::*;

pub mod cli;
pub mod framing;
pub mod keys;
pub mod server;
pub mod tap_control;
pub mod text;

verus! {

} // verus!

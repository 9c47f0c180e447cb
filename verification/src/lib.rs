//! Verified control logic of the piCoreDSP CamillaDSP controller.
pub mod error;
pub mod args;
pub mod controller;
pub mod text;
pub mod json;
pub mod yaml;
pub mod core_logic;
pub mod benchmark;
pub mod backend;
pub mod camilladsp;
pub mod camilla;
pub mod config_view;

use vstd::prelude::*;

verus! {

} // verus!

//! What the About dialog names: the program, its author, licence and home.
use vstd::prelude::*;

verus! {

pub const NAME: &'static str = "Blackout";

pub const AUTHOR: &'static str = "Alex Shink";

pub const LICENSE: &'static str = "MIT";

pub const GITHUB: &'static str = "https://github.com/alexshink/blackout";

} // verus!

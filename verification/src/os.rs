//! The desktop family a build targets; it decides OS-specific words and path rules.
use vstd::prelude::*;

verus! {

#[derive(Clone, Copy, Debug, PartialEq, Eq, Structural)]
pub enum Os {
    Windows,
    MacOs,
    /// Unix other than macOS: an X11 session.
    Linux,
}

} // verus!

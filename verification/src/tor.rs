//! The switch that keeps all traffic off the clear net.
use vstd::prelude::*;

verus! {

/// Whether only onion peers may be spoken to.
#[derive(Clone, Copy, Debug, PartialEq, Eq)]
pub struct TorMode {
    pub only: bool,
}

impl TorMode {
    /// The state at start: clear-net peers are allowed.
    pub fn new() -> (mode: TorMode)
        ensures
            !mode.only,
    {
        TorMode { only: false }
    }
}

/// Switches the restriction to onion peers on or off.
pub fn set_tor_only(mode: &mut TorMode, enabled: bool)
    ensures
        final(mode).only == enabled,
{
    mode.only = enabled;
}

/// Whether the restriction to onion peers is on.
pub fn tor_only_enabled(mode: &TorMode) -> (r: bool)
    ensures
        r == mode.only,
{
    mode.only
}

} // verus!

//! Handle for the interactive shell around the simulation; the loop
//! that pumps window events and draws frames lives outside the
//! library and consumes the controller's geometric state.

use vstd::prelude::*;

verus! {

/// The interactive shell the windowing layer drives.
pub struct Window {}

impl Window {
    /// A fresh shell handle.
    pub fn new() -> Self {
        Window {}
    }
}

} // verus!

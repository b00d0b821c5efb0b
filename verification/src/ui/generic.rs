//! What any user interface of the debugger has in common.

use vstd::prelude::*;

verus! {

/// Why a user interface has stopped.
pub enum ApplicationExitReason {
    /// The user wants to leave the application.
    UserExit,
    /// The session is to be loaded again; the state to return to, if there
    /// still is one with that number.
    Reload(usize),
}

/// Something that interacts with the user.
pub trait UiAgent {
    /// Takes over until the user leaves or the session is to be loaded
    /// again.
    fn start(self) -> Result<ApplicationExitReason, String>;
}

} // verus!

//! What the user interface decides: where the cursor and the execution
//! pointer go, which lines hold breakpoints, what is shown.

pub mod generic;
pub mod keys;
pub mod tui;

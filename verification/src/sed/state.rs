//! One state of the traced program's execution.

use crate::text::texts;
use vstd::prelude::*;

verus! {

/// What a state holds, as plain mathematical values.
pub struct StateView {
    pub pattern_buffer: Seq<char>,
    pub hold_buffer: Seq<char>,
    pub matched_regex_registers: Seq<Seq<char>>,
    pub output: Option<Seq<Seq<char>>>,
    pub current_line: int,
    pub sed_command: Option<Seq<char>>,
}

/// One state of the traced program's execution.
#[derive(Debug)]
pub struct DebuggingState {
    /// The primary, or pattern, buffer.
    pub pattern_buffer: String,
    /// The secondary, or hold, buffer.
    pub hold_buffer: String,
    /// The capture groups of the match made by the command that led to this
    /// state; empty where it made none.
    pub matched_regex_registers: Vec<String>,
    /// The lines printed by the command that led to this state.
    pub output: Option<Vec<String>>,
    /// The line of the program that runs next. It is inferred from the
    /// commands seen so far and may be wrong where the trace is unusual.
    pub current_line: usize,
    /// The command that led to this state; none at the start of a cycle.
    pub sed_command: Option<String>,
}

/// The texts of an optional list of strings.
pub open spec fn optional_texts(v: Option<Vec<String>>) -> Option<Seq<Seq<char>>> {
    match v {
        Some(lines) => Some(texts(lines@)),
        None => None,
    }
}

/// The text of an optional string.
pub open spec fn optional_text(v: Option<String>) -> Option<Seq<char>> {
    match v {
        Some(s) => Some(s@),
        None => None,
    }
}

impl View for DebuggingState {
    type V = StateView;

    open spec fn view(&self) -> StateView {
        StateView {
            pattern_buffer: self.pattern_buffer@,
            hold_buffer: self.hold_buffer@,
            matched_regex_registers: texts(self.matched_regex_registers@),
            output: optional_texts(self.output),
            current_line: self.current_line as int,
            sed_command: optional_text(self.sed_command),
        }
    }
}

/// The views of a list of states.
pub open spec fn state_views(states: Seq<DebuggingState>) -> Seq<StateView> {
    states.map_values(|s: DebuggingState| s@)
}

} // verus!

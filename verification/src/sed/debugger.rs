//! The debugging session: the program and every state of its execution.

use crate::sed::aligner::{align, aligned};
use crate::sed::communication::{
    read_trace, trace_fits, trace_scan, trace_source, try_read_trace, DebugInfoFromSed,
};
pub use crate::sed::state::DebuggingState;
use crate::sed::state::{optional_texts, state_views, StateView};
use crate::text::texts;
use vstd::prelude::*;

verus! {

/// The states of a trace: its frames, each with the registers and the
/// output of the command that led to it.
pub open spec fn trace_states(trace: Seq<char>) -> Seq<StateView> {
    aligned(trace_scan(trace).frames, trace_scan(trace).output)
}

/// A debugging session. It holds every state that the program went
/// through, so that its user can go back and forth among them.
pub struct Debugger {
    /// The program's source, one instruction per line.
    pub source_code: Vec<String>,
    /// The states of the execution, in order.
    state_frames: Vec<DebuggingState>,
}

impl Debugger {
    /// The program of the session.
    pub closed spec fn source(&self) -> Seq<String> {
        self.source_code@
    }

    /// The states of the session.
    pub closed spec fn frames(&self) -> Seq<DebuggingState> {
        self.state_frames@
    }

    /// The program and the states of a session can be counted with the
    /// machine's integers.
    pub proof fn lemma_lengths(&self)
        ensures
            self.source().len() <= usize::MAX,
            self.frames().len() <= usize::MAX,
    {
        assert(self.source_code@.len() == self.source_code.len());
        assert(self.state_frames@.len() == self.state_frames.len());
    }

    /// The session of the program whose trace is given.
    pub fn new(trace: &str) -> (debugger: Debugger)
        requires
            trace_fits(trace@),
        ensures
            texts(debugger.source()) == trace_source(trace@),
            state_views(debugger.frames()) == trace_states(trace@),
    {
        Debugger::from_info(read_trace(trace))
    }

    /// As `new`, for a trace of any length: no session is returned where
    /// the trace is too long for the machine's integers.
    pub fn load(trace: &str) -> (loaded: Option<Debugger>)
        ensures
            trace_fits(trace@) == loaded is Some,
            loaded matches Some(debugger) ==> {
                &&& texts(debugger.source()) == trace_source(trace@)
                &&& state_views(debugger.frames()) == trace_states(trace@)
            },
    {
        match try_read_trace(trace) {
            Some(data) => Some(Debugger::from_info(data)),
            None => None,
        }
    }

    /// The session of what a trace has told.
    pub fn from_info(data: DebugInfoFromSed) -> (debugger: Debugger)
        ensures
            debugger.source() == data.program_source@,
            state_views(debugger.frames()) == aligned(
                state_views(data.states@),
                optional_texts(data.last_output),
            ),
    {
        let DebugInfoFromSed { program_source, states, last_output } = data;
        Debugger { source_code: program_source, state_frames: align(states, last_output) }
    }

    /// The state with the given number, counted from nought; none where the
    /// session has no such state.
    pub fn peek_at_state(&self, frame: usize) -> (state: Option<&DebuggingState>)
        ensures
            frame < self.frames().len() ==> state == Some(&self.frames()[frame as int]),
            frame >= self.frames().len() ==> state is None,
    {
        if frame < self.state_frames.len() {
            Some(&self.state_frames[frame])
        } else {
            None
        }
    }

    /// The number of lines of the program.
    pub fn source_length(&self) -> (length: usize)
        ensures
            length == self.source().len(),
    {
        self.source_code.len()
    }

    /// The number of states.
    pub fn count_of_states(&self) -> (count: usize)
        ensures
            count == self.frames().len(),
    {
        self.state_frames.len()
    }
}

} // verus!

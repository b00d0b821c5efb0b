//! Moves each frame's registers and output to the frame they belong to.
//!
//! The trace prints what a command matched and wrote after the frame that
//! shows the command's result has been emitted, so the reader finds them on
//! the following frame. Alignment moves them one frame back.

use crate::sed::state::{optional_texts, state_views, DebuggingState, StateView};
use crate::text::texts;
use vstd::prelude::*;

verus! {

/// The frames with the registers and the output of each taken from the
/// frame after it; the last frame gets no registers and the trailing
/// output. Buffers, line and command stay.
pub open spec fn aligned(frames: Seq<StateView>, trailing: Option<Seq<Seq<char>>>) -> Seq<
    StateView,
> {
    Seq::new(
        frames.len(),
        |k: int|
            StateView {
                matched_regex_registers: if k + 1 < frames.len() {
                    frames[k + 1].matched_regex_registers
                } else {
                    Seq::empty()
                },
                output: if k + 1 < frames.len() {
                    frames[k + 1].output
                } else {
                    trailing
                },
                ..frames[k]
            },
    )
}

/// The frames in the opposite order.
fn reversed(states: Vec<DebuggingState>) -> (r: Vec<DebuggingState>)
    ensures
        r@ == states@.reverse(),
{
    let ghost all = states@;
    let mut states = states;
    let mut r: Vec<DebuggingState> = Vec::new();
    while states.len() > 0
        invariant
            states@.len() + r@.len() == all.len(),
            states@ == all.take(states@.len() as int),
            forall|k: int| 0 <= k < r@.len() ==> r@[k] == all[all.len() - 1 - k],
        decreases states@.len(),
    {
        match states.pop() {
            Some(state) => {
                r.push(state);
            },
            None => {},
        }
    }
    assert(r@ =~= all.reverse());
    r
}

/// Aligns the frames of a trace.
pub fn align(frames: Vec<DebuggingState>, trailing: Option<Vec<String>>) -> (r: Vec<
    DebuggingState,
>)
    ensures
        state_views(r@) == aligned(state_views(frames@), optional_texts(trailing)),
{
    let ghost raw = state_views(frames@);
    let ghost last_output = optional_texts(trailing);
    let ghost target = aligned(raw, last_output);
    let ghost n = frames@.len() as int;
    let mut frames = frames;
    let mut shifted: Vec<DebuggingState> = Vec::new();
    let mut output: Option<Vec<String>> = trailing;
    let mut registers: Vec<String> = Vec::new();
    assert(texts(registers@) =~= Seq::empty());
    while frames.len() > 0
        invariant
            n == raw.len(),
            target == aligned(raw, last_output),
            frames@.len() + shifted@.len() == n,
            state_views(frames@) == raw.take(frames@.len() as int),
            forall|k: int| 0 <= k < shifted@.len() ==> (#[trigger] shifted@[k])@ == target[n - 1 - k],
            shifted@.len() == 0 ==> optional_texts(output) == last_output && texts(registers@)
                == Seq::<Seq<char>>::empty(),
            shifted@.len() > 0 ==> optional_texts(output) == raw[frames@.len() as int].output
                && texts(registers@) == raw[frames@.len() as int].matched_regex_registers,
        decreases frames@.len(),
    {
        let ghost held = frames@;
        match frames.pop() {
            Some(state) => {
                let ghost j = frames@.len() as int;
                assert(state@ == state_views(held)[j]);
                assert(state_views(frames@) =~= raw.take(j));
                let DebuggingState {
                    pattern_buffer,
                    hold_buffer,
                    matched_regex_registers,
                    output: printed,
                    current_line,
                    sed_command,
                } = state;
                shifted.push(
                    DebuggingState {
                        pattern_buffer,
                        hold_buffer,
                        matched_regex_registers: registers,
                        output,
                        current_line,
                        sed_command,
                    },
                );
                output = printed;
                registers = matched_regex_registers;
            },
            None => {},
        }
    }
    let r = reversed(shifted);
    assert(state_views(r@) =~= target);
    r
}

} // verus!

//! What holds of every trace: how many states it has, how their lines
//! follow from one another, and that a trace decides its states.

use crate::sed::communication::trace_source;
use crate::sed::debugger::trace_states;
use crate::sed::labels::labels_of;
use crate::sed::resolver::next_line;
use crate::sed::segmenter::{
    command_marker, continues_value, cycle_lines, end_of_cycle_marker, first_input_marker,
    hold_marker, input_marker, opens_cycle, pattern_marker, register_indent, registers_marker,
    scan, snapshot, step, Scan,
};
use crate::sed::source::{after_header, ends_source, source_end_marker, source_header};
use crate::sed::state::StateView;
use crate::text::{first_index, lemma_first_index, lemma_first_index_found, lines_of};
use vstd::prelude::*;

verus! {

/// Whether a line gives a command or closes a cycle.
pub open spec fn is_marker_line(line: Seq<char>) -> bool {
    command_marker().is_prefix_of(line) || end_of_cycle_marker().is_prefix_of(line)
}

/// The number of lines that give a command or close a cycle.
pub open spec fn marker_count(lines: Seq<Seq<char>>) -> nat
    decreases lines.len(),
{
    if lines.len() == 0 {
        0
    } else {
        marker_count(lines.drop_last()) + if is_marker_line(lines.last()) {
            1nat
        } else {
            0nat
        }
    }
}

/// Each marker begins with a character of its own.
pub proof fn lemma_marker_heads()
    ensures
        input_marker().len() > 0 && input_marker()[0] == 'I',
        pattern_marker().len() > 0 && pattern_marker()[0] == 'P',
        hold_marker().len() > 0 && hold_marker()[0] == 'H',
        command_marker().len() > 0 && command_marker()[0] == 'C',
        registers_marker().len() > 0 && registers_marker()[0] == 'M',
        end_of_cycle_marker().len() > 0 && end_of_cycle_marker()[0] == 'E',
        register_indent().len() > 0 && register_indent()[0] == ' ',
{
    reveal_strlit("INPUT:");
    reveal_strlit("PATTERN:");
    reveal_strlit("HOLD:");
    reveal_strlit("COMMAND:");
    reveal_strlit("MATCHED REGEX REGISTERS");
    reveal_strlit("END-OF-CYCLE:");
    reveal_strlit("  ");
}

/// A line begins with the character that its prefix begins with.
pub proof fn lemma_prefix_head(prefix: Seq<char>, line: Seq<char>)
    requires
        prefix.len() > 0,
        prefix.is_prefix_of(line),
    ensures
        line.len() > 0,
        line[0] == prefix[0],
{
    assert(line.subrange(0, prefix.len() as int)[0] == prefix[0]);
}

/// A line adds a frame exactly if it gives a command or closes a cycle and
/// is not read as part of a register's value.
pub proof fn lemma_step_frames(
    st: Scan,
    line: Seq<char>,
    labels: Map<Seq<char>, usize>,
    lines_of_code: int,
)
    ensures
        step(st, line, labels, lines_of_code).frames.len() == st.frames.len() + if is_marker_line(
            line,
        ) && !continues_value(st, line) {
            1int
        } else {
            0int
        },
        st.frames.is_prefix_of(step(st, line, labels, lines_of_code).frames),
{
    lemma_marker_heads();
    if input_marker().is_prefix_of(line) {
        lemma_prefix_head(input_marker(), line);
    }
    if pattern_marker().is_prefix_of(line) {
        lemma_prefix_head(pattern_marker(), line);
    }
    if hold_marker().is_prefix_of(line) {
        lemma_prefix_head(hold_marker(), line);
    }
    if command_marker().is_prefix_of(line) {
        lemma_prefix_head(command_marker(), line);
    }
    if registers_marker().is_prefix_of(line) {
        lemma_prefix_head(registers_marker(), line);
    }
    if end_of_cycle_marker().is_prefix_of(line) {
        lemma_prefix_head(end_of_cycle_marker(), line);
    }
    if register_indent().is_prefix_of(line) {
        lemma_prefix_head(register_indent(), line);
    }
    let next = step(st, line, labels, lines_of_code).frames;
    assert(st.frames =~= next.subrange(0, st.frames.len() as int));
}

/// Whether every line of the trace that gives a command or closes a cycle
/// is read as such: none stands before the first cycle, and none is read
/// as part of a register's value that goes over several lines.
pub open spec fn markers_all_read(
    lines: Seq<Seq<char>>,
    labels: Map<Seq<char>, usize>,
    lines_of_code: int,
) -> bool {
    let first = first_index(lines, |line: Seq<char>| opens_cycle(line));
    let cycles = cycle_lines(lines);
    &&& forall|i: int| 0 <= i < first ==> !is_marker_line(#[trigger] lines[i])
    &&& forall|j: int|
        0 <= j < cycles.len() && is_marker_line(#[trigger] cycles[j]) ==> !continues_value(
            scan(cycles.take(j), labels, lines_of_code),
            cycles[j],
        )
}

/// Read from the first line on, lines of which each marker is read as such
/// give as many frames as they hold markers.
pub proof fn lemma_frame_count(
    lines: Seq<Seq<char>>,
    labels: Map<Seq<char>, usize>,
    lines_of_code: int,
)
    requires
        forall|j: int|
            0 <= j < lines.len() && is_marker_line(#[trigger] lines[j]) ==> !continues_value(
                scan(lines.take(j), labels, lines_of_code),
                lines[j],
            ),
    ensures
        scan(lines, labels, lines_of_code).frames.len() == marker_count(lines),
    decreases lines.len(),
{
    if lines.len() > 0 {
        let front = lines.drop_last();
        assert forall|j: int| 0 <= j < front.len() && is_marker_line(
            #[trigger] front[j],
        ) implies !continues_value(scan(front.take(j), labels, lines_of_code), front[j]) by {
            assert(front.take(j) =~= lines.take(j));
            assert(front[j] == lines[j]);
        }
        lemma_frame_count(front, labels, lines_of_code);
        lemma_step_frames(scan(front, labels, lines_of_code), lines.last(), labels, lines_of_code);
        assert(lines.take(lines.len() - 1) =~= front);
        assert(lines[lines.len() - 1] == lines.last());
    }
}

/// Lines without markers count nought, and the count of a sequence is the
/// sum of the counts of its two parts.
pub proof fn lemma_marker_count_split(lines: Seq<Seq<char>>, at: int)
    requires
        0 <= at <= lines.len(),
    ensures
        marker_count(lines) == marker_count(lines.take(at)) + marker_count(lines.skip(at)),
        (forall|i: int| 0 <= i < at ==> !is_marker_line(#[trigger] lines[i])) ==> marker_count(
            lines.take(at),
        ) == 0,
    decreases lines.len(),
{
    if at == lines.len() {
        assert(lines.take(at) =~= lines);
        assert(lines.skip(at) =~= Seq::empty());
        if lines.len() > 0 {
            lemma_marker_count_split(lines.drop_last(), at - 1);
            assert(lines.drop_last().take(at - 1) =~= lines.drop_last());
            if forall|i: int| 0 <= i < at ==> !is_marker_line(#[trigger] lines[i]) {
                assert forall|i: int| 0 <= i < at - 1 implies !is_marker_line(
                    #[trigger] lines.drop_last()[i],
                ) by {
                    assert(lines.drop_last()[i] == lines[i]);
                }
                assert(!is_marker_line(lines[at - 1]));
            }
        }
    } else {
        let front = lines.drop_last();
        lemma_marker_count_split(front, at);
        assert(front.take(at) =~= lines.take(at));
        assert(lines.skip(at).drop_last() =~= front.skip(at));
        assert(lines.skip(at).last() == lines.last());
        if forall|i: int| 0 <= i < at ==> !is_marker_line(#[trigger] lines[i]) {
            assert forall|i: int| 0 <= i < at implies !is_marker_line(#[trigger] front[i]) by {
                assert(front[i] == lines[i]);
            }
        }
    }
}

/// A trace of which every marker is read as such has as many states as it
/// has lines that give a command or close a cycle.
pub proof fn lemma_state_count(trace: Seq<char>)
    requires
        markers_all_read(
            lines_of(trace),
            labels_of(trace_source(trace)),
            trace_source(trace).len() as int,
        ),
    ensures
        trace_states(trace).len() == marker_count(lines_of(trace)),
{
    let lines = lines_of(trace);
    let first = first_index(lines, |line: Seq<char>| opens_cycle(line));
    lemma_first_index_found(lines, |line: Seq<char>| opens_cycle(line));
    lemma_marker_count_split(lines, first);
    lemma_frame_count(
        cycle_lines(lines),
        labels_of(trace_source(trace)),
        trace_source(trace).len() as int,
    );
}

/// The line that ends the program's source opens a cycle.
pub proof fn lemma_source_end_opens_cycle(line: Seq<char>)
    requires
        ends_source(line),
    ensures
        opens_cycle(line),
{
    reveal_strlit("INPUT: ");
    reveal_strlit("INPUT:   '");
    let short = first_input_marker();
    let long = source_end_marker();
    assert(short =~= long.subrange(0, short.len() as int));
    assert(short =~= line.subrange(0, short.len() as int)) by {
        assert forall|j: int| 0 <= j < short.len() implies short[j] == line[j] by {
            assert(line.subrange(0, long.len() as int)[j] == long[j]);
        }
    }
}

/// A trace without a line that opens a cycle has no state and no program.
pub proof fn lemma_no_cycle(trace: Seq<char>)
    requires
        forall|i: int| 0 <= i < lines_of(trace).len() ==> !opens_cycle(#[trigger] lines_of(trace)[i]),
    ensures
        trace_states(trace).len() == 0,
        trace_source(trace).len() == 0,
{
    let lines = lines_of(trace);
    lemma_first_index(lines, |line: Seq<char>| opens_cycle(line), lines.len() as int);
    assert(cycle_lines(lines) =~= Seq::empty());
    let body = after_header(lines);
    lemma_first_index_found(lines, |line: Seq<char>| line == source_header());
    assert forall|k: int| 0 <= k < body.len() implies !ends_source(#[trigger] body[k]) by {
        if ends_source(body[k]) {
            lemma_source_end_opens_cycle(body[k]);
        }
    }
    lemma_first_index(body, |line: Seq<char>| ends_source(line), body.len() as int);
}

/// A trace decides its program and its states: equal traces have equal
/// programs and equal states.
pub proof fn lemma_trace_decides_states(first: Seq<char>, second: Seq<char>)
    requires
        first == second,
    ensures
        trace_source(first) == trace_source(second),
        trace_states(first) == trace_states(second),
{
}

/// Whether the line of a state follows from the state before it: at the
/// start of a cycle it is nought, and after a command it is the line that
/// the command leads to from the line of the state before, a substitution
/// having succeeded or not.
pub open spec fn follows(
    before: StateView,
    state: StateView,
    labels: Map<Seq<char>, usize>,
    lines_of_code: int,
) -> bool {
    match state.sed_command {
        Some(command) => state.current_line == next_line(
            before.current_line,
            command,
            labels,
            lines_of_code,
            true,
        ) || state.current_line == next_line(
            before.current_line,
            command,
            labels,
            lines_of_code,
            false,
        ),
        None => state.current_line == 0,
    }
}

/// Whether the line of every state follows from the state before it, the
/// first state standing at the start of a cycle.
pub open spec fn chained(
    states: Seq<StateView>,
    labels: Map<Seq<char>, usize>,
    lines_of_code: int,
) -> bool {
    &&& states.len() > 0 ==> states[0].sed_command is None && states[0].current_line == 0
    &&& forall|k: int|
        0 < k < states.len() ==> follows(states[k - 1], #[trigger] states[k], labels, lines_of_code)
}

/// Whether what the reader holds follows from its last frame as a frame's
/// line follows from the frame before.
pub open spec fn reader_chained(st: Scan, labels: Map<Seq<char>, usize>, lines_of_code: int) -> bool {
    &&& chained(st.frames, labels, lines_of_code)
    &&& st.command is None ==> st.line == 0
    &&& st.command is Some ==> st.frames.len() > 0 && follows(
        st.frames.last(),
        snapshot(st),
        labels,
        lines_of_code,
    )
}

/// One more line keeps the reader chained.
pub proof fn lemma_step_chained(
    st: Scan,
    line: Seq<char>,
    labels: Map<Seq<char>, usize>,
    lines_of_code: int,
)
    requires
        reader_chained(st, labels, lines_of_code),
    ensures
        reader_chained(step(st, line, labels, lines_of_code), labels, lines_of_code),
{
    let next = step(st, line, labels, lines_of_code);
    lemma_step_frames(st, line, labels, lines_of_code);
    assert forall|k: int| 0 <= k < st.frames.len() implies next.frames[k] == st.frames[k] by {
        assert(next.frames.subrange(0, st.frames.len() as int)[k] == st.frames[k]);
    }
    if next.frames.len() > st.frames.len() {
        assert(next.frames.last() == snapshot(st));
    }
}

/// The frames of any lines are chained.
pub proof fn lemma_scan_chained(
    lines: Seq<Seq<char>>,
    labels: Map<Seq<char>, usize>,
    lines_of_code: int,
)
    ensures
        reader_chained(scan(lines, labels, lines_of_code), labels, lines_of_code),
    decreases lines.len(),
{
    if lines.len() > 0 {
        lemma_scan_chained(lines.drop_last(), labels, lines_of_code);
        lemma_step_chained(
            scan(lines.drop_last(), labels, lines_of_code),
            lines.last(),
            labels,
            lines_of_code,
        );
    }
}

/// In the states of a trace the line of each follows from the state
/// before it, by the labels and the length of the trace's own program.
pub proof fn lemma_states_chained(trace: Seq<char>)
    ensures
        chained(
            trace_states(trace),
            labels_of(trace_source(trace)),
            trace_source(trace).len() as int,
        ),
{
    lemma_scan_chained(
        cycle_lines(lines_of(trace)),
        labels_of(trace_source(trace)),
        trace_source(trace).len() as int,
    );
}

/// Whether a value that goes over several lines has a register to go into:
/// the reader is then inside a block of registers and has seen one.
pub open spec fn long_value_has_register(st: Scan) -> bool {
    st.in_long_value ==> st.in_registers && st.registers.len() > 0
}

/// Whatever the lines, a value that goes over several lines has a register
/// to go into: no line of such a value is dropped.
pub proof fn lemma_long_value_has_register(
    lines: Seq<Seq<char>>,
    labels: Map<Seq<char>, usize>,
    lines_of_code: int,
)
    ensures
        long_value_has_register(scan(lines, labels, lines_of_code)),
    decreases lines.len(),
{
    if lines.len() > 0 {
        lemma_long_value_has_register(lines.drop_last(), labels, lines_of_code);
    }
}

} // verus!

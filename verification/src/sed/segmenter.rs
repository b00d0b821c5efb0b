//! Reads the lines of a trace, one by one, into a sequence of frames.

use crate::sed::labels::LabelMap;
use crate::sed::resolver::{is_conditional, lemma_next_line_range, next_line, resolve};
use crate::sed::state::{optional_texts, state_views, DebuggingState, StateView};
use crate::text::{
    copy_range, first_index, lemma_first_index, lines_of, rows, split_lines, starts_with, texts,
    to_chars, to_text, trim, trimmed,
};
use vstd::prelude::*;

verus! {

/// Begins the line that opens a cycle, as the search for the first cycle
/// knows it.
pub open spec fn first_input_marker() -> Seq<char> {
    "INPUT: "@
}

/// Begins the line that opens a cycle.
pub open spec fn input_marker() -> Seq<char> {
    "INPUT:"@
}

/// Begins the line that gives the pattern buffer.
pub open spec fn pattern_marker() -> Seq<char> {
    "PATTERN:"@
}

/// Begins the line that gives the hold buffer.
pub open spec fn hold_marker() -> Seq<char> {
    "HOLD:"@
}

/// Begins the line that gives the command about to run.
pub open spec fn command_marker() -> Seq<char> {
    "COMMAND:"@
}

/// Begins the line that opens a block of match registers.
pub open spec fn registers_marker() -> Seq<char> {
    "MATCHED REGEX REGISTERS"@
}

/// Begins the line that closes a cycle.
pub open spec fn end_of_cycle_marker() -> Seq<char> {
    "END-OF-CYCLE:"@
}

/// Begins each line of a block of match registers.
pub open spec fn register_indent() -> Seq<char> {
    "  "@
}

/// Begins a line that describes a match register.
pub open spec fn register_entry() -> Seq<char> {
    "  regex["@
}

/// What follows a marker on its line, trimmed.
pub open spec fn after_marker(line: Seq<char>, marker: Seq<char>) -> Seq<char> {
    trimmed(line.skip(marker.len() as int))
}

/// What follows the first equals sign; nothing where there is none.
pub open spec fn after_equals(line: Seq<char>) -> Seq<char>
    decreases line.len(),
{
    if line.len() == 0 {
        line
    } else if line[0] == '=' {
        line.skip(1)
    } else {
        after_equals(line.skip(1))
    }
}

/// The value of the match register that a line describes.
pub open spec fn register_value(line: Seq<char>) -> Seq<char> {
    trimmed(after_equals(line))
}

/// Whether a register's value ends with the closing quote. One that does
/// not is taken to go on in the following lines.
pub open spec fn is_closed(value: Seq<char>) -> bool {
    value.len() > 0 && value.last() == '\''
}

/// What the reader has gathered after some lines of the trace.
pub struct Scan {
    /// The frames emitted so far.
    pub frames: Seq<StateView>,
    /// The line of the program that runs next.
    pub line: int,
    pub pattern: Seq<char>,
    pub hold: Seq<char>,
    /// The command seen last in this cycle.
    pub command: Option<Seq<char>>,
    /// The match registers seen since the last frame.
    pub registers: Seq<Seq<char>>,
    /// The output seen since the last frame.
    pub output: Option<Seq<Seq<char>>>,
    /// Inside a block of match registers.
    pub in_registers: bool,
    /// Inside a register's value that goes over several lines.
    pub in_long_value: bool,
    /// A substitution has succeeded since the last conditional branch.
    pub succeeded: bool,
}

/// The reader before the first line.
pub open spec fn initial_scan() -> Scan {
    Scan {
        frames: Seq::empty(),
        line: 0,
        pattern: Seq::empty(),
        hold: Seq::empty(),
        command: None,
        registers: Seq::empty(),
        output: None,
        in_registers: false,
        in_long_value: false,
        succeeded: false,
    }
}

/// The frame that the reader emits: what it has gathered.
pub open spec fn snapshot(st: Scan) -> StateView {
    StateView {
        pattern_buffer: st.pattern,
        hold_buffer: st.hold,
        matched_regex_registers: st.registers,
        output: st.output,
        current_line: st.line,
        sed_command: st.command,
    }
}

/// The reader after a line that is read outside a block of registers.
pub open spec fn dispatch(
    st: Scan,
    line: Seq<char>,
    labels: Map<Seq<char>, usize>,
    lines_of_code: int,
) -> Scan {
    if input_marker().is_prefix_of(line) {
        Scan { line: 0, pattern: Seq::empty(), command: None, ..st }
    } else if pattern_marker().is_prefix_of(line) {
        Scan { pattern: after_marker(line, pattern_marker()), ..st }
    } else if hold_marker().is_prefix_of(line) {
        Scan { hold: after_marker(line, hold_marker()), ..st }
    } else if command_marker().is_prefix_of(line) {
        let command = after_marker(line, command_marker());
        Scan {
            frames: st.frames.push(snapshot(st)),
            line: next_line(st.line, command, labels, lines_of_code, st.succeeded),
            command: Some(command),
            registers: Seq::empty(),
            output: None,
            succeeded: st.succeeded && !is_conditional(command),
            ..st
        }
    } else if registers_marker().is_prefix_of(line) {
        Scan { in_registers: true, ..st }
    } else if end_of_cycle_marker().is_prefix_of(line) {
        Scan {
            frames: st.frames.push(snapshot(st)),
            line: 0,
            command: None,
            registers: Seq::empty(),
            output: None,
            succeeded: false,
            ..st
        }
    } else {
        Scan {
            output: Some(
                match st.output {
                    Some(lines) => lines.push(line),
                    None => seq![line],
                },
            ),
            ..st
        }
    }
}

/// Whether a line goes on with the value of the last register.
pub open spec fn continues_value(st: Scan, line: Seq<char>) -> bool {
    st.in_registers && st.in_long_value && !register_entry().is_prefix_of(line)
}

/// The reader after one more line.
pub open spec fn step(
    st: Scan,
    line: Seq<char>,
    labels: Map<Seq<char>, usize>,
    lines_of_code: int,
) -> Scan {
    if continues_value(st, line) {
        if st.registers.len() > 0 {
            Scan {
                registers: st.registers.drop_last().push(st.registers.last() + line),
                ..st
            }
        } else {
            st
        }
    } else if st.in_registers && register_indent().is_prefix_of(line) {
        Scan {
            registers: st.registers.push(register_value(line)),
            in_long_value: !is_closed(register_value(line)),
            succeeded: true,
            ..st
        }
    } else {
        dispatch(
            Scan { in_registers: false, in_long_value: false, ..st },
            line,
            labels,
            lines_of_code,
        )
    }
}

/// The reader after all the given lines, read in order.
pub open spec fn scan(
    lines: Seq<Seq<char>>,
    labels: Map<Seq<char>, usize>,
    lines_of_code: int,
) -> Scan
    decreases lines.len(),
{
    if lines.len() == 0 {
        initial_scan()
    } else {
        step(scan(lines.drop_last(), labels, lines_of_code), lines.last(), labels, lines_of_code)
    }
}

/// The markers as characters, ready to be compared with lines.
struct Markers {
    first_input: Vec<char>,
    input: Vec<char>,
    pattern: Vec<char>,
    hold: Vec<char>,
    command: Vec<char>,
    registers: Vec<char>,
    end_of_cycle: Vec<char>,
    indent: Vec<char>,
    entry: Vec<char>,
}

impl Markers {
    /// Each field holds the marker it is named after.
    spec fn well_formed(&self) -> bool {
        &&& self.first_input@ == first_input_marker()
        &&& self.input@ == input_marker()
        &&& self.pattern@ == pattern_marker()
        &&& self.hold@ == hold_marker()
        &&& self.command@ == command_marker()
        &&& self.registers@ == registers_marker()
        &&& self.end_of_cycle@ == end_of_cycle_marker()
        &&& self.indent@ == register_indent()
        &&& self.entry@ == register_entry()
    }

    /// The markers of a trace.
    fn new() -> (m: Markers)
        ensures
            m.well_formed(),
    {
        Markers {
            first_input: to_chars("INPUT: "),
            input: to_chars("INPUT:"),
            pattern: to_chars("PATTERN:"),
            hold: to_chars("HOLD:"),
            command: to_chars("COMMAND:"),
            registers: to_chars("MATCHED REGEX REGISTERS"),
            end_of_cycle: to_chars("END-OF-CYCLE:"),
            indent: to_chars("  "),
            entry: to_chars("  regex["),
        }
    }
}

/// The strings of the given texts.
fn to_texts(v: &Vec<Vec<char>>) -> (r: Vec<String>)
    ensures
        texts(r@) == rows(v@),
{
    let mut r: Vec<String> = Vec::new();
    let mut i: usize = 0;
    while i < v.len()
        invariant
            i <= v.len(),
            texts(r@) =~= rows(v@).take(i as int),
        decreases v.len() - i,
    {
        let ghost before = r@;
        let s = to_text(&v[i]);
        r.push(s);
        assert(texts(r@) =~= texts(before).push(
            v@[i as int]@,
        ));
        i += 1;
    }
    assert(rows(v@).take(i as int) =~= rows(v@));
    r
}

/// The text of an optional list of characters.
spec fn optional_chars(v: Option<Vec<char>>) -> Option<Seq<char>> {
    match v {
        Some(s) => Some(s@),
        None => None,
    }
}

/// The texts of an optional list of lines.
spec fn optional_rows(v: Option<Vec<Vec<char>>>) -> Option<Seq<Seq<char>>> {
    match v {
        Some(lines) => Some(rows(lines@)),
        None => None,
    }
}

/// What follows a marker on its line, trimmed.
fn text_after(line: &Vec<char>, marker: &Vec<char>) -> (r: Vec<char>)
    requires
        marker@.is_prefix_of(line@),
    ensures
        r@ == after_marker(line@, marker@),
{
    let rest = copy_range(line, marker.len(), line.len());
    assert(rest@ =~= line@.skip(marker@.len() as int));
    trim(&rest)
}

/// The value of the match register that a line describes.
fn value_of(line: &Vec<char>) -> (r: Vec<char>)
    ensures
        r@ == register_value(line@),
{
    let mut i: usize = 0;
    assert(line@.skip(0) =~= line@);
    while i < line.len() && line[i] != '='
        invariant
            i <= line.len(),
            after_equals(line@) == after_equals(line@.skip(i as int)),
        decreases line.len() - i,
    {
        assert(line@.skip(i as int).skip(1) =~= line@.skip(i + 1));
        i += 1;
    }
    let from: usize = if i < line.len() {
        i + 1
    } else {
        i
    };
    let rest = copy_range(line, from, line.len());
    proof {
        if i < line.len() {
            assert(line@.skip(i as int).skip(1) =~= line@.skip(i + 1));
        }
        assert(rest@ =~= after_equals(line@));
    }
    trim(&rest)
}

/// The reader of a trace.
struct Scanner {
    frames: Vec<DebuggingState>,
    line: usize,
    pattern: Vec<char>,
    hold: Vec<char>,
    command: Option<Vec<char>>,
    registers: Vec<Vec<char>>,
    output: Option<Vec<Vec<char>>>,
    in_registers: bool,
    in_long_value: bool,
    succeeded: bool,
}

impl View for Scanner {
    type V = Scan;

    closed spec fn view(&self) -> Scan {
        Scan {
            frames: state_views(self.frames@),
            line: self.line as int,
            pattern: self.pattern@,
            hold: self.hold@,
            command: optional_chars(self.command),
            registers: rows(self.registers@),
            output: optional_rows(self.output),
            in_registers: self.in_registers,
            in_long_value: self.in_long_value,
            succeeded: self.succeeded,
        }
    }
}

impl Scanner {
    /// The reader before the first line.
    fn new() -> (s: Scanner)
        ensures
            s@ == initial_scan(),
    {
        let s = Scanner {
            frames: Vec::new(),
            line: 0,
            pattern: Vec::new(),
            hold: Vec::new(),
            command: None,
            registers: Vec::new(),
            output: None,
            in_registers: false,
            in_long_value: false,
            succeeded: false,
        };
        assert(s@.frames =~= Seq::empty());
        assert(s@.registers =~= Seq::empty());
        s
    }

    /// Emits what has been gathered as a frame, and forgets the registers
    /// and the output, which belong to that frame.
    fn emit(&mut self)
        ensures
            final(self)@ == (Scan {
                frames: old(self)@.frames.push(snapshot(old(self)@)),
                registers: Seq::empty(),
                output: None,
                ..old(self)@
            }),
    {
        let ghost before = self@;
        let frame = DebuggingState {
            pattern_buffer: to_text(&self.pattern),
            hold_buffer: to_text(&self.hold),
            matched_regex_registers: to_texts(&self.registers),
            output: match &self.output {
                Some(lines) => Some(to_texts(lines)),
                None => None,
            },
            current_line: self.line,
            sed_command: match &self.command {
                Some(c) => Some(to_text(c)),
                None => None,
            },
        };
        assert(frame@ == snapshot(before));
        self.frames.push(frame);
        self.registers = Vec::new();
        self.output = None;
        assert(self@.frames =~= before.frames.push(snapshot(before)));
        assert(self@.registers =~= Seq::empty());
    }

    /// Reads a line outside a block of registers.
    fn dispatch(
        &mut self,
        line: &Vec<char>,
        markers: &Markers,
        labels: &LabelMap,
        lines_of_code: usize,
    )
        requires
            markers.well_formed(),
            old(self).line < usize::MAX,
        ensures
            final(self)@ == dispatch(old(self)@, line@, labels@, lines_of_code as int),
    {
        let ghost before = self@;
        if starts_with(line, &markers.input) {
            self.line = 0;
            self.pattern = Vec::new();
            self.command = None;
            assert(self@.pattern =~= Seq::empty());
        } else if starts_with(line, &markers.pattern) {
            self.pattern = text_after(line, &markers.pattern);
        } else if starts_with(line, &markers.hold) {
            self.hold = text_after(line, &markers.hold);
        } else if starts_with(line, &markers.command) {
            let command = text_after(line, &markers.command);
            self.emit();
            self.line = resolve(self.line, &command, labels, lines_of_code, self.succeeded);
            if command.len() > 0 && (command[0] == 't' || command[0] == 'T') {
                self.succeeded = false;
            }
            self.command = Some(command);
        } else if starts_with(line, &markers.registers) {
            self.in_registers = true;
        } else if starts_with(line, &markers.end_of_cycle) {
            self.emit();
            self.line = 0;
            self.command = None;
            self.succeeded = false;
        } else {
            let copy = copy_range(line, 0, line.len());
            assert(copy@ =~= line@);
            let mut lines = match self.output.take() {
                Some(lines) => lines,
                None => Vec::new(),
            };
            let ghost held = rows(lines@);
            lines.push(copy);
            assert(rows(lines@) =~= held.push(line@));
            assert(before.output is None ==> held =~= Seq::empty());
            self.output = Some(lines);
        }
    }

    /// Reads one more line.
    fn step(
        &mut self,
        line: &Vec<char>,
        markers: &Markers,
        labels: &LabelMap,
        lines_of_code: usize,
    )
        requires
            markers.well_formed(),
            old(self).line < usize::MAX,
        ensures
            final(self)@ == step(old(self)@, line@, labels@, lines_of_code as int),
    {
        let ghost before = self@;
        if self.in_registers && self.in_long_value && !starts_with(line, &markers.entry) {
            match self.registers.pop() {
                Some(mut value) => {
                    let ghost kept = rows(self.registers@);
                    let ghost start = value@;
                    let mut i: usize = 0;
                    while i < line.len()
                        invariant
                            i <= line.len(),
                            value@ =~= start + line@.take(i as int),
                        decreases line.len() - i,
                    {
                        value.push(line[i]);
                        i += 1;
                    }
                    assert(line@.take(i as int) =~= line@);
                    self.registers.push(value);
                    assert(kept =~= before.registers.drop_last());
                    assert(rows(self.registers@) =~= kept.push(start + line@));
                },
                None => {
                    assert(rows(self.registers@) =~= before.registers);
                },
            }
        } else if self.in_registers && starts_with(line, &markers.indent) {
            let value = value_of(line);
            self.in_long_value = !(value.len() > 0 && value[value.len() - 1] == '\'');
            let ghost held = rows(self.registers@);
            self.registers.push(value);
            assert(rows(self.registers@) =~= held.push(register_value(line@)));
            self.succeeded = true;
        } else {
            self.in_registers = false;
            self.in_long_value = false;
            self.dispatch(line, markers, labels, lines_of_code);
        }
    }
}

/// Whether a line opens the first cycle of a trace.
pub open spec fn opens_cycle(line: Seq<char>) -> bool {
    first_input_marker().is_prefix_of(line)
}

/// The lines of a trace from the first cycle on: what comes before the
/// first line that opens a cycle is the program's source and is left out.
pub open spec fn cycle_lines(lines: Seq<Seq<char>>) -> Seq<Seq<char>> {
    lines.skip(first_index(lines, |line: Seq<char>| opens_cycle(line)))
}

/// The reader after the whole trace.
pub open spec fn scan_trace(
    trace: Seq<char>,
    labels: Map<Seq<char>, usize>,
    lines_of_code: int,
) -> Scan {
    scan(cycle_lines(lines_of(trace)), labels, lines_of_code)
}

/// Whether the line counter stays within the machine's integers over the
/// given number of lines of trace: it is set to the program's length or to a
/// label's line, and grows by one per line of trace at most.
pub open spec fn counter_fits(
    labels: Map<Seq<char>, usize>,
    lines_of_code: int,
    steps: int,
) -> bool {
    &&& lines_of_code + steps <= usize::MAX
    &&& forall|name: Seq<char>| #[trigger]
        labels.contains_key(name) ==> labels[name] + steps <= usize::MAX
}

/// A line of trace moves the counter to nought, to the program's length, to
/// a label's line or one line on.
pub proof fn lemma_step_line(
    st: Scan,
    line: Seq<char>,
    labels: Map<Seq<char>, usize>,
    lines_of_code: int,
)
    ensures
        ({
            let next = step(st, line, labels, lines_of_code).line;
            ||| next == st.line
            ||| next == 0
            ||| next == st.line + 1
            ||| next == lines_of_code
            ||| exists|name: Seq<char>| #[trigger]
                labels.contains_key(name) && next == labels[name]
        }),
{
    let cleared = Scan { in_registers: false, in_long_value: false, ..st };
    let command = after_marker(line, command_marker());
    lemma_next_line_range(st.line, command, labels, lines_of_code, st.succeeded);
}

/// The frames of a trace, in the order in which it gives them, and the
/// output that follows the last frame.
pub fn read_frames(trace: &str, labels: &LabelMap, lines_of_code: usize) -> (r: (
    Vec<DebuggingState>,
    Option<Vec<String>>,
))
    requires
        counter_fits(labels@, lines_of_code as int, lines_of(trace@).len() as int),
    ensures
        state_views(r.0@) == scan_trace(trace@, labels@, lines_of_code as int).frames,
        optional_texts(r.1) == scan_trace(trace@, labels@, lines_of_code as int).output,
{
    let lines = split_lines(&to_chars(trace));
    assert(rows(lines@).len() == lines@.len());
    frames_from_lines(&lines, labels, lines_of_code)
}

/// As `read_frames`, for a trace that is given line by line.
pub fn frames_from_lines(lines: &Vec<Vec<char>>, labels: &LabelMap, lines_of_code: usize) -> (r: (
    Vec<DebuggingState>,
    Option<Vec<String>>,
))
    requires
        counter_fits(labels@, lines_of_code as int, lines@.len() as int),
    ensures
        state_views(r.0@) == scan(cycle_lines(rows(lines@)), labels@, lines_of_code as int).frames,
        optional_texts(r.1) == scan(cycle_lines(rows(lines@)), labels@, lines_of_code as int).output,
{
    let markers = Markers::new();
    let ghost all = rows(lines@);
    let mut start: usize = 0;
    while start < lines.len() && !starts_with(&lines[start], &markers.first_input)
        invariant
            start <= lines.len(),
            markers.well_formed(),
            all == rows(lines@),
            forall|k: int| 0 <= k < start ==> !opens_cycle(#[trigger] all[k]),
        decreases lines.len() - start,
    {
        start += 1;
    }
    proof {
        lemma_first_index(all, |line: Seq<char>| opens_cycle(line), start as int);
    }
    let ghost cycles = all.skip(start as int);
    let ghost program = lines_of_code as int;
    let mut scanner = Scanner::new();
    let mut i: usize = start;
    assert(cycles.take(0) =~= Seq::empty());
    while i < lines.len()
        invariant
            start <= i <= lines.len(),
            markers.well_formed(),
            all == rows(lines@),
            cycles == all.skip(start as int),
            program == lines_of_code as int,
            scanner@ == scan(cycles.take(i - start), labels@, program),
            scanner@.line + (lines.len() - i) <= usize::MAX,
            counter_fits(labels@, program, lines.len() as int),
        decreases lines.len() - i,
    {
        let ghost before = scanner@;
        proof {
            lemma_step_line(before, all[i as int], labels@, program);
            assert(cycles.take(i + 1 - start).drop_last() =~= cycles.take(i - start));
            assert(cycles.take(i + 1 - start).last() == all[i as int]);
        }
        scanner.step(&lines[i], &markers, labels, lines_of_code);
        i += 1;
    }
    assert(cycles.take(i - start) =~= cycles);
    let output = match &scanner.output {
        Some(lines) => Some(to_texts(lines)),
        None => None,
    };
    (scanner.frames, output)
}

} // verus!

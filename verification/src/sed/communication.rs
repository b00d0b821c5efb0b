//! From the stream editor's output to the program's source and its frames.

use crate::cli::Options;
use crate::sed::labels::{labels_of, lemma_labels_of, LabelMap};
use crate::sed::resolver::{next_line, resolve};
use crate::sed::segmenter::{
    counter_fits, cycle_lines, frames_from_lines, read_frames, scan, scan_trace, Scan,
};
use crate::sed::source::{
    after_header, ends_source, program_source_of, read_source, source_from_lines, source_header,
};
use crate::sed::state::{optional_texts, state_views, DebuggingState};
use crate::text::{lemma_first_index_found, lines_of, rows, split_lines, texts, to_chars};
use vstd::prelude::*;
use vstd::string::*;

verus! {

/// What a trace tells: the program, its frames as the trace gives them, and
/// the output that follows the last frame.
pub struct DebugInfoFromSed {
    pub program_source: Vec<String>,
    pub states: Vec<DebuggingState>,
    pub last_output: Option<Vec<String>>,
}

/// The program's source as a trace lists it.
pub open spec fn trace_source(trace: Seq<char>) -> Seq<Seq<char>> {
    program_source_of(lines_of(trace))
}

/// What the reader has gathered after a whole trace, with the labels and
/// the length of the program that the trace lists.
pub open spec fn trace_scan(trace: Seq<char>) -> Scan {
    scan_trace(trace, labels_of(trace_source(trace)), trace_source(trace).len() as int)
}

/// Whether a trace is short enough for the machine's integers to count its
/// lines twice over: once for the program, once for the steps.
pub open spec fn trace_fits(trace: Seq<char>) -> bool {
    2 * lines_of(trace).len() <= usize::MAX
}

/// The program's source is no longer than the trace that lists it.
pub proof fn lemma_source_within_trace(lines: Seq<Seq<char>>)
    ensures
        program_source_of(lines).len() <= lines.len(),
{
    lemma_first_index_found(lines, |line: Seq<char>| line == source_header());
    let body = after_header(lines);
    lemma_first_index_found(body, |line: Seq<char>| ends_source(line));
}

/// With the labels of its own program, and the program no longer than the
/// trace, the line counter stays within the machine's integers.
pub proof fn lemma_counter_fits(source: Seq<Seq<char>>, steps: int)
    requires
        source.len() + steps <= usize::MAX,
        0 <= steps,
    ensures
        counter_fits(labels_of(source), source.len() as int, steps),
{
    assert forall|name: Seq<char>| #[trigger] labels_of(source).contains_key(name) implies labels_of(
        source,
    )[name] + steps <= usize::MAX by {
        lemma_labels_of(source, name);
    }
}

/// The stream editor that is run where the user has named none.
pub open spec fn default_binary() -> Seq<char> {
    "sed"@
}

/// The stream editor that is tried where the default one printed nothing.
pub open spec fn fallback_binary() -> Seq<char> {
    "gsed"@
}

/// The stream editor to run: the one that the user has named, else the
/// default one.
pub open spec fn binary_of(options: Options) -> Seq<char> {
    match options.sed_path {
        Some(path) => path@,
        None => default_binary(),
    }
}

/// The parameters of a run: the user's, then those that make the stream
/// editor trace the script on the input file.
pub open spec fn parameters_of(options: Options) -> Seq<Seq<char>> {
    texts(options.sed_parameters@) + seq![
        "--debug"@,
        "-f"@,
        options.sed_script@,
        options.input_file@,
    ]
}

/// Whether a run is followed by a second one with the fallback stream
/// editor: the first run printed nothing and the user has named no stream
/// editor. A second run is never repeated.
pub open spec fn retries(options: Options, retried: bool, output_is_empty: bool) -> bool {
    !retried && output_is_empty && options.sed_path is None
}

/// What a trace that is given line by line tells: its program, and the
/// frames that the reader emits with the labels and the length of that
/// program.
pub fn read_lines(lines: &Vec<Vec<char>>) -> (info: DebugInfoFromSed)
    requires
        2 * lines@.len() <= usize::MAX,
    ensures
        texts(info.program_source@) == program_source_of(rows(lines@)),
        state_views(info.states@) == scan(
            cycle_lines(rows(lines@)),
            labels_of(program_source_of(rows(lines@))),
            program_source_of(rows(lines@)).len() as int,
        ).frames,
        optional_texts(info.last_output) == scan(
            cycle_lines(rows(lines@)),
            labels_of(program_source_of(rows(lines@))),
            program_source_of(rows(lines@)).len() as int,
        ).output,
{
    let program_source = source_from_lines(lines);
    let label_jump_map = LabelMap::from_source(&program_source);
    proof {
        assert(rows(lines@).len() == lines@.len());
        assert(texts(program_source@).len() == program_source@.len());
        lemma_source_within_trace(rows(lines@));
        lemma_counter_fits(texts(program_source@), lines@.len() as int);
    }
    let frames = frames_from_lines(lines, &label_jump_map, program_source.len());
    DebugInfoFromSed { program_source, states: frames.0, last_output: frames.1 }
}

/// What a trace tells: its program, and the frames that the reader emits
/// with the labels and the length of that program.
pub fn read_trace(trace: &str) -> (info: DebugInfoFromSed)
    requires
        trace_fits(trace@),
    ensures
        texts(info.program_source@) == trace_source(trace@),
        state_views(info.states@) == trace_scan(trace@).frames,
        optional_texts(info.last_output) == trace_scan(trace@).output,
{
    let lines = split_lines(&to_chars(trace));
    assert(rows(lines@).len() == lines@.len());
    read_lines(&lines)
}

/// As `read_trace`, for a trace of any length: nothing is returned where
/// the trace is too long for the machine's integers.
pub fn try_read_trace(trace: &str) -> (info: Option<DebugInfoFromSed>)
    ensures
        trace_fits(trace@) == info is Some,
        info matches Some(told) ==> {
            &&& texts(told.program_source@) == trace_source(trace@)
            &&& state_views(told.states@) == trace_scan(trace@).frames
            &&& optional_texts(told.last_output) == trace_scan(trace@).output
        },
{
    let lines = split_lines(&to_chars(trace));
    assert(rows(lines@).len() == lines@.len());
    if lines.len() > usize::MAX / 2 {
        None
    } else {
        Some(read_lines(&lines))
    }
}

/// Reads the output of the stream editor.
pub struct SedCommunicator {
    options: Options,
}

impl SedCommunicator {
    /// The settings that the communicator was made with.
    pub closed spec fn settings(&self) -> Options {
        self.options
    }

    pub fn new(options: Options) -> (c: SedCommunicator)
        ensures
            c.settings() == options,
    {
        SedCommunicator { options }
    }

    /// The stream editor to run first.
    pub fn sed_binary(&self) -> (binary: String)
        ensures
            binary@ == binary_of(self.settings()),
    {
        match &self.options.sed_path {
            Some(path) => path.clone(),
            None => String::from_str("sed"),
        }
    }

    /// The parameters to run the stream editor with.
    pub fn command_line(&self) -> (parameters: Vec<String>)
        ensures
            texts(parameters@) == parameters_of(self.settings()),
    {
        let mut parameters: Vec<String> = Vec::new();
        let mut i: usize = 0;
        while i < self.options.sed_parameters.len()
            invariant
                i <= self.options.sed_parameters@.len(),
                texts(parameters@) =~= texts(self.options.sed_parameters@).take(i as int),
            decreases self.options.sed_parameters@.len() - i,
        {
            let ghost before = texts(parameters@);
            parameters.push(self.options.sed_parameters[i].clone());
            assert(texts(parameters@) =~= before.push(self.options.sed_parameters@[i as int]@));
            i += 1;
        }
        let ghost own = texts(parameters@);
        assert(own =~= texts(self.options.sed_parameters@));
        parameters.push(String::from_str("--debug"));
        parameters.push(String::from_str("-f"));
        parameters.push(self.options.sed_script.clone());
        parameters.push(self.options.input_file.clone());
        assert(texts(parameters@) =~= own + seq![
            "--debug"@,
            "-f"@,
            self.options.sed_script@,
            self.options.input_file@,
        ]);
        parameters
    }

    /// The stream editor to run next, if the run that has just ended is to
    /// be followed by another: `retried` says whether that run was a second
    /// one already, `output_is_empty` whether it printed nothing.
    pub fn retry_binary(&self, retried: bool, output_is_empty: bool) -> (binary: Option<String>)
        ensures
            retries(self.settings(), retried, output_is_empty) ==> binary is Some
                && binary->0@ == fallback_binary(),
            !retries(self.settings(), retried, output_is_empty) ==> binary is None,
    {
        if !retried && output_is_empty && self.options.sed_path.is_none() {
            Some(String::from_str("gsed"))
        } else {
            None
        }
    }

    /// What the given output of the stream editor tells.
    pub fn get_execution_info_from_sed(&self, output: &str) -> (info: DebugInfoFromSed)
        requires
            trace_fits(output@),
        ensures
            texts(info.program_source@) == trace_source(output@),
            state_views(info.states@) == trace_scan(output@).frames,
            optional_texts(info.last_output) == trace_scan(output@).output,
    {
        read_trace(output)
    }

    /// The program's source as the output lists it: the lines between the
    /// header and the first cycle's input, each trimmed.
    pub fn parse_program_source(&self, sed_output: &str) -> (source: Vec<String>)
        ensures
            texts(source@) == trace_source(sed_output@),
    {
        read_source(sed_output)
    }

    /// The frames of the output, in the order in which it gives them, and
    /// the output that follows the last frame.
    pub fn parse_state_frames(
        &self,
        sed_output: &str,
        label_jump_map: &LabelMap,
        lines_of_code: usize,
    ) -> (r: (Vec<DebuggingState>, Option<Vec<String>>))
        requires
            counter_fits(label_jump_map@, lines_of_code as int, lines_of(sed_output@).len() as int),
        ensures
            state_views(r.0@) == scan_trace(
                sed_output@,
                label_jump_map@,
                lines_of_code as int,
            ).frames,
            optional_texts(r.1) == scan_trace(
                sed_output@,
                label_jump_map@,
                lines_of_code as int,
            ).output,
    {
        read_frames(sed_output, label_jump_map, lines_of_code)
    }

    /// The line that follows `current_position` once `current_command` has
    /// run: a branch goes to its label's line, or past the last line where
    /// it names none; a branch to a label that is not known, and any other
    /// command, lead to the following line.
    pub fn next_line_position(
        &self,
        current_position: usize,
        current_command: &str,
        label_jump_map: &LabelMap,
        lines_of_code: usize,
        last_match_successful: bool,
    ) -> (next: usize)
        requires
            current_position < usize::MAX,
        ensures
            next == next_line(
                current_position as int,
                current_command@,
                label_jump_map@,
                lines_of_code as int,
                last_match_successful,
            ),
    {
        resolve(
            current_position,
            &to_chars(current_command),
            label_jump_map,
            lines_of_code,
            last_match_successful,
        )
    }

    /// The labels of a program, each with the line that declares it last.
    pub fn build_jump_map(&self, source_code: &Vec<String>) -> (map: LabelMap)
        ensures
            map@ == labels_of(texts(source_code@)),
    {
        LabelMap::from_source(source_code)
    }
}

} // verus!

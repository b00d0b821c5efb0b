use desed::cli::Options;
use desed::sed::communication::{read_trace, try_read_trace, SedCommunicator};
use desed::sed::debugger::Debugger;
use desed::sed::labels::LabelMap;
use desed::sed::segmenter::read_frames;
use desed::sed::source::read_source;

fn strings(items: &[&str]) -> Vec<String> {
    items.iter().map(|s| String::from(*s)).collect()
}

fn communicator(sed_path: Option<&str>, quiet: bool, extended: bool) -> SedCommunicator {
    SedCommunicator::new(Options::from_flags(
        String::from("script.sed"),
        String::from("input.txt"),
        sed_path.map(String::from),
        quiet,
        extended,
        false,
        false,
        false,
    ))
}

#[test]
fn options_from_flags() {
    let options = Options::from_flags(
        String::from("a.sed"),
        String::from("b.txt"),
        Some(String::from("/bin/sed")),
        true,
        true,
        true,
        true,
        true,
    );
    assert_eq!(options.sed_script, "a.sed");
    assert_eq!(options.input_file, "b.txt");
    assert_eq!(options.sed_path, Some(String::from("/bin/sed")));
    assert_eq!(options.sed_parameters, strings(&["-n", "-E", "--sandbox", "-z"]));
    assert!(options.verbose);
    let plain = Options::from_flags(String::new(), String::new(), None, false, false, true, false, false);
    assert_eq!(plain.sed_parameters, strings(&["--sandbox"]));
    assert!(!plain.verbose);
    assert_eq!(plain.sed_path, None);
}

#[test]
fn command_line_of_a_run() {
    let c = communicator(None, true, true);
    assert_eq!(c.sed_binary(), "sed");
    assert_eq!(c.command_line(), strings(&["-n", "-E", "--debug", "-f", "script.sed", "input.txt"]));
    let named = communicator(Some("/opt/bin/gsed"), false, false);
    assert_eq!(named.sed_binary(), "/opt/bin/gsed");
    assert_eq!(named.command_line(), strings(&["--debug", "-f", "script.sed", "input.txt"]));
}

#[test]
fn retry_once_with_the_fallback() {
    let c = communicator(None, false, false);
    assert_eq!(c.retry_binary(false, true), Some(String::from("gsed")));
    assert_eq!(c.retry_binary(false, false), None);
    assert_eq!(c.retry_binary(true, true), None);
    let named = communicator(Some("sed"), false, false);
    assert_eq!(named.retry_binary(false, true), None);
}

#[test]
fn program_source_between_header_and_first_input() {
    let trace = "noise\nSED PROGRAM:\n  s/a/b/\n  :loop\n\tp  \nINPUT:   'f' line 1\nPATTERN: x\nEND-OF-CYCLE:\n";
    assert_eq!(read_source(trace), strings(&["s/a/b/", ":loop", "p"]));
    let c = communicator(None, false, false);
    assert_eq!(c.parse_program_source(trace), strings(&["s/a/b/", ":loop", "p"]));
}

#[test]
fn program_source_needs_header_and_input() {
    assert!(read_source("").is_empty());
    assert!(read_source("  p\nINPUT:   'f' line 1\n").is_empty());
    assert!(read_source("SED PROGRAM:\n  p\n").is_empty());
    assert!(read_source("SED PROGRAM:\n  p\nINPUT: f\n").is_empty());
    assert!(read_source("SED PROGRAM:\nINPUT:   'f' line 1\n").is_empty());
}

#[test]
fn malformed_trace_has_no_state() {
    for trace in ["", "garbage\nmore garbage", "SED PROGRAM:\n  p\nCOMMAND: p\nEND-OF-CYCLE:\n"] {
        let debugger = Debugger::new(trace);
        assert_eq!(debugger.count_of_states(), 0, "{:?}", trace);
        assert!(debugger.source_code.is_empty(), "{:?}", trace);
        assert!(debugger.peek_at_state(0).is_none());
    }
}

#[test]
fn one_state_for_each_marker() {
    let trace = "SED PROGRAM:\n  p\n  d\nINPUT:   'f' line 1\nPATTERN: a\nCOMMAND: p\na\nCOMMAND: d\nEND-OF-CYCLE:\nINPUT:   'f' line 2\nPATTERN: b\nCOMMAND: p\nb\nCOMMAND: d\nEND-OF-CYCLE:\n";
    let debugger = Debugger::new(trace);
    assert_eq!(debugger.count_of_states(), 6);
    assert!(debugger.peek_at_state(5).is_some());
    assert!(debugger.peek_at_state(6).is_none());
    assert!(debugger.peek_at_state(usize::MAX).is_none());
}

#[test]
fn marker_inside_a_long_register_value_is_not_a_state() {
    let trace = "INPUT:   'f' line 1\nPATTERN: a\nCOMMAND: s/a.b/x/\nMATCHED REGEX REGISTERS\n  regex[0] = 0-3 'a\nCOMMAND: fake\nb'\n  regex[1] = 0-1 'a'\nCOMMAND: p\nEND-OF-CYCLE:\n";
    let (frames, _) = read_frames(trace, &LabelMap::new(), 0);
    assert_eq!(frames.len(), 3);
    assert_eq!(frames[1].matched_regex_registers, strings(&["0-3 'aCOMMAND: fakeb'", "0-1 'a'"]));
}

#[test]
fn frames_follow_the_program() {
    let trace = "SED PROGRAM:\n  :a\n  s/x/y/\n  t a\n  b end\n  p\n  :end\nINPUT:   'f' line 1\nPATTERN: x\nHOLD:    kept\nCOMMAND: :a\nCOMMAND: s/x/y/\nMATCHED REGEX REGISTERS\n  regex[0] = 0-1 'x'\nPATTERN: y\nCOMMAND: t a\nCOMMAND: :a\nCOMMAND: s/x/y/\nCOMMAND: t a\nCOMMAND: b end\nCOMMAND: :end\nEND-OF-CYCLE:\ny\n";
    let info = read_trace(trace);
    assert_eq!(info.program_source, strings(&[":a", "s/x/y/", "t a", "b end", "p", ":end"]));
    let lines: Vec<usize> = info.states.iter().map(|s| s.current_line).collect();
    assert_eq!(lines, vec![0, 1, 2, 0, 1, 2, 3, 5, 6]);
    let commands: Vec<Option<&str>> = info.states.iter().map(|s| s.sed_command.as_deref()).collect();
    assert_eq!(
        commands,
        vec![None, Some(":a"), Some("s/x/y/"), Some("t a"), Some(":a"), Some("s/x/y/"), Some("t a"), Some("b end"), Some(":end")]
    );
    assert_eq!(info.states[0].pattern_buffer, "x");
    assert_eq!(info.states[0].hold_buffer, "kept");
    assert_eq!(info.states[3].pattern_buffer, "y");
    assert_eq!(info.states[2].matched_regex_registers, strings(&["0-1 'x'"]));
    assert_eq!(info.last_output, Some(strings(&["y"])));
}

#[test]
fn input_marker_restarts_the_program() {
    let trace = "INPUT:   'f' line 1\nPATTERN: a\nCOMMAND: n\nINPUT:   'f' line 2\nPATTERN: b\nCOMMAND: p\nb\nEND-OF-CYCLE:\n";
    let (frames, trailing) = read_frames(trace, &LabelMap::new(), 2);
    assert_eq!(frames.len(), 3);
    assert_eq!(frames[0].current_line, 0);
    assert_eq!(frames[0].sed_command, None);
    assert_eq!(frames[1].current_line, 0);
    assert_eq!(frames[1].sed_command, None);
    assert_eq!(frames[1].pattern_buffer, "b");
    assert_eq!(frames[2].current_line, 1);
    assert_eq!(frames[2].output, Some(strings(&["b"])));
    assert_eq!(trailing, None);
}

#[test]
fn marker_is_taken_off_once() {
    let trace = "INPUT:   'f' line 1\nPATTERN:PATTERN: a\nHOLD:HOLD:\nCOMMAND:COMMAND: p\nEND-OF-CYCLE:\n";
    let (frames, _) = read_frames(trace, &LabelMap::new(), 1);
    assert_eq!(frames[0].pattern_buffer, "PATTERN: a");
    assert_eq!(frames[0].hold_buffer, "HOLD:");
    assert_eq!(frames[1].sed_command, Some(String::from("COMMAND: p")));
}

#[test]
fn register_without_equals_sign_is_empty_and_goes_on() {
    let trace = "INPUT:   'f' line 1\nCOMMAND: s/a/b/\nMATCHED REGEX REGISTERS\n  odd\nmore\n  regex[1] = 1-2 'b'\nPATTERN: z\nEND-OF-CYCLE:\n";
    let (frames, _) = read_frames(trace, &LabelMap::new(), 1);
    assert_eq!(frames.len(), 2);
    assert_eq!(frames[1].matched_regex_registers, strings(&["more", "1-2 'b'"]));
    assert_eq!(frames[1].pattern_buffer, "z");
}

#[test]
fn conditional_branch_forgets_the_success() {
    let mut labels = LabelMap::new();
    labels.insert("a", 0);
    let trace = "INPUT:   'f' line 1\nCOMMAND: s/x/y/\nMATCHED REGEX REGISTERS\n  regex[0] = 0-1 'x'\nCOMMAND: t a\nCOMMAND: t a\nEND-OF-CYCLE:\n";
    let (frames, _) = read_frames(trace, &labels, 3);
    let lines: Vec<usize> = frames.iter().map(|s| s.current_line).collect();
    assert_eq!(lines, vec![0, 1, 0, 1]);
}

#[test]
fn same_trace_same_states() {
    let trace = "SED PROGRAM:\n  p\nINPUT:   'f' line 1\nPATTERN: a\nCOMMAND: p\na\nEND-OF-CYCLE:\na\n";
    let first = Debugger::new(trace);
    let second = Debugger::new(trace);
    assert_eq!(first.source_code, second.source_code);
    assert_eq!(first.count_of_states(), second.count_of_states());
    for k in 0..first.count_of_states() {
        assert_eq!(
            format!("{:?}", first.peek_at_state(k).unwrap()),
            format!("{:?}", second.peek_at_state(k).unwrap())
        );
    }
}

#[test]
fn loading_a_trace_of_ordinary_length() {
    let trace = "SED PROGRAM:\n  p\nINPUT:   'f' line 1\nPATTERN: a\nCOMMAND: p\na\nEND-OF-CYCLE:\na\n";
    let loaded = Debugger::load(trace).unwrap();
    assert_eq!(loaded.count_of_states(), 2);
    assert_eq!(loaded.source_length(), 1);
    assert!(try_read_trace(trace).is_some());
}

#[test]
fn execution_info_from_output() {
    let c = communicator(None, false, false);
    let info = c.get_execution_info_from_sed("SED PROGRAM:\n  p\nINPUT:   'f' line 1\nPATTERN: a\nCOMMAND: p\na\nEND-OF-CYCLE:\na\n");
    assert_eq!(info.program_source, strings(&["p"]));
    assert_eq!(info.states.len(), 2);
    assert_eq!(info.states[1].output, Some(strings(&["a"])));
    assert_eq!(info.last_output, Some(strings(&["a"])));
    let map = c.build_jump_map(&info.program_source);
    let (frames, trailing) = c.parse_state_frames("INPUT:   'f' line 1\nCOMMAND: p\nEND-OF-CYCLE:\n", &map, 1);
    assert_eq!(frames.len(), 2);
    assert_eq!(trailing, None);
}

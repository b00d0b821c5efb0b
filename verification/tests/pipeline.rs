use desed::sed::aligner::align;
use desed::sed::communication::{read_trace, SedCommunicator};
use desed::sed::debugger::Debugger;
use desed::sed::labels::LabelMap;
use desed::cli::Options;

fn communicator() -> SedCommunicator {
    SedCommunicator::new(Options::from_flags(
        String::from("script.sed"),
        String::from("input.txt"),
        None,
        false,
        false,
        false,
        false,
        false,
    ))
}

fn listing(lines: &[&str]) -> Vec<String> {
    lines.iter().map(|line| String::from(*line)).collect()
}

#[test]
fn label_map_round_trip() {
    let source = listing(&["s/a/b/", "p", "x", ":loop", "s/b/c/", "t loop", "b end", "  :end  ", "p"]);
    let map = communicator().build_jump_map(&source);
    assert_eq!(map.get("loop"), Some(3));
    assert_eq!(map.get("end"), Some(7));
    assert_eq!(map.get("p"), None);
    assert_eq!(map.get(""), None);
    assert_eq!(map.get(":loop"), None);
}

#[test]
fn duplicate_label_last_wins() {
    let source = listing(&[":a", "p", ":a"]);
    let map = communicator().build_jump_map(&source);
    assert_eq!(map.get("a"), Some(2));
}

#[test]
fn unconditional_branch() {
    let mut map = LabelMap::new();
    map.insert("loop", 2);
    let c = communicator();
    assert_eq!(c.next_line_position(5, "b loop", &map, 9, false), 2);
    assert_eq!(c.next_line_position(5, "b", &map, 9, false), 9);
    assert_eq!(c.next_line_position(5, "b nowhere", &map, 9, false), 6);
    assert_eq!(c.next_line_position(5, "bloop", &map, 9, true), 2);
}

#[test]
fn conditional_branch() {
    let mut map = LabelMap::new();
    map.insert("ok", 1);
    let c = communicator();
    assert_eq!(c.next_line_position(4, "t ok", &map, 9, false), 5);
    assert_eq!(c.next_line_position(4, "t ok", &map, 9, true), 1);
    assert_eq!(c.next_line_position(4, "T ok", &map, 9, true), 5);
    assert_eq!(c.next_line_position(4, "T ok", &map, 9, false), 1);
    assert_eq!(c.next_line_position(4, "t", &map, 9, true), 9);
    assert_eq!(c.next_line_position(4, "T", &map, 9, false), 9);
    assert_eq!(c.next_line_position(4, "s/a/b/", &map, 9, true), 5);
}

const TRACE: &str = "SED PROGRAM:\n  s/a/b/\nINPUT:   'input.txt' line 1\nPATTERN: abc\nCOMMAND: s/a/b/\nMATCHED REGEX REGISTERS\n  regex[0] = 0-1 'a'\nPATTERN: bbc\nEND-OF-CYCLE:\nbbc\n";

#[test]
fn end_to_end_scenario() {
    let debugger = Debugger::new(TRACE);
    assert_eq!(debugger.source_code, vec![String::from("s/a/b/")]);
    assert_eq!(debugger.count_of_states(), 2);
    let first = debugger.peek_at_state(0).unwrap();
    assert_eq!(first.pattern_buffer, "abc");
    assert_eq!(first.current_line, 0);
    assert_eq!(first.sed_command, None);
    assert_eq!(first.matched_regex_registers, vec![String::from("0-1 'a'")]);
    assert_eq!(first.output, None);
    let second = debugger.peek_at_state(1).unwrap();
    assert_eq!(second.pattern_buffer, "bbc");
    assert_eq!(second.current_line, 1);
    assert_eq!(second.sed_command, Some(String::from("s/a/b/")));
    assert!(second.matched_regex_registers.is_empty());
    assert_eq!(second.output, Some(vec![String::from("bbc")]));
    assert!(debugger.peek_at_state(2).is_none());
}

#[test]
fn raw_frames_carry_data_one_frame_late() {
    let info = read_trace(TRACE);
    assert_eq!(info.states.len(), 2);
    assert!(info.states[0].matched_regex_registers.is_empty());
    assert_eq!(info.states[1].matched_regex_registers, vec![String::from("0-1 'a'")]);
    assert_eq!(info.states[1].output, None);
    assert_eq!(info.last_output, Some(vec![String::from("bbc")]));
    let aligned = align(info.states, info.last_output);
    assert_eq!(aligned[0].matched_regex_registers, vec![String::from("0-1 'a'")]);
    assert_eq!(aligned[0].output, None);
    assert!(aligned[1].matched_regex_registers.is_empty());
    assert_eq!(aligned[1].output, Some(vec![String::from("bbc")]));
}

#[test]
fn same_inputs_same_next_line() {
    let mut map = LabelMap::new();
    map.insert("x", 4);
    let c = communicator();
    for command in ["b x", "t x", "T x", "b", "p", "b y", ""] {
        for flag in [false, true] {
            let first = c.next_line_position(7, command, &map, 11, flag);
            let second = c.next_line_position(7, command, &map, 11, flag);
            assert_eq!(first, second);
        }
    }
}

#[test]
fn branch_command_is_trimmed() {
    let mut map = LabelMap::new();
    map.insert("x", 4);
    let c = communicator();
    assert_eq!(c.next_line_position(0, "  b   x  ", &map, 11, false), 4);
    assert_eq!(c.next_line_position(0, "", &map, 11, false), 1);
    assert_eq!(c.next_line_position(0, "   ", &map, 11, true), 1);
}

#[test]
fn label_map_lookups() {
    let mut map = LabelMap::new();
    assert_eq!(map.get("a"), None);
    map.insert("a", 1);
    map.insert("b", 2);
    map.insert("a", 3);
    assert_eq!(map.get("a"), Some(3));
    assert_eq!(map.get("b"), Some(2));
    assert_eq!(map.get("c"), None);
}

use desed::sed::debugger::Debugger;
use desed::ui::generic::ApplicationExitReason;
use desed::ui::keys::parse_number;
use desed::ui::tui::{DrawMemory, Interrupt, Key, Tui};

const TRACE: &str = "SED PROGRAM:\n  :a\n  s/x/y/\n  t a\n  p\nINPUT:   'in.txt' line 1\nPATTERN: xx\nCOMMAND: :a\nCOMMAND: s/x/y/\nMATCHED REGEX REGISTERS\n  regex[0] = 0-1 'x'\nPATTERN: yx\nCOMMAND: t a\nCOMMAND: s/x/y/\nMATCHED REGEX REGISTERS\n  regex[0] = 1-2 'x'\nPATTERN: yy\nCOMMAND: t a\nCOMMAND: s/x/y/\nCOMMAND: t a\nCOMMAND: p\nyy\nEND-OF-CYCLE:\nyy\n";

fn press(tui: &mut Tui, debugger: &Debugger, text: &str) -> Option<ApplicationExitReason> {
    let mut exit = None;
    for c in text.chars() {
        exit = tui.handle(Interrupt::KeyPressed(Key::Char(c)), debugger);
    }
    exit
}

#[test]
fn typed_numbers() {
    assert_eq!(parse_number("12"), Some(12));
    assert_eq!(parse_number("007"), Some(7));
    assert_eq!(parse_number("+5"), Some(5));
    assert_eq!(parse_number("0"), Some(0));
    assert_eq!(parse_number(""), None);
    assert_eq!(parse_number("+"), None);
    assert_eq!(parse_number("-1"), None);
    assert_eq!(parse_number("++1"), None);
    assert_eq!(parse_number("1 "), None);
    assert_eq!(parse_number("12a"), None);
    assert_eq!(parse_number("18446744073709551615"), "18446744073709551615".parse::<usize>().ok());
    assert_eq!(parse_number("18446744073709551616"), "18446744073709551616".parse::<usize>().ok());
    assert_eq!(parse_number("99999999999999999999999"), None);
}

#[test]
fn typed_numbers_agree_with_the_standard_parser() {
    let samples = ["", "0", "1", "+", "+0", "+12", "-3", "3-", "0x10", " 1", "١", "4294967295", "4294967296", "00000000000000000000001"];
    for sample in samples {
        assert_eq!(parse_number(sample), sample.parse::<usize>().ok(), "{:?}", sample);
    }
}

#[test]
fn key_buffer_as_number() {
    assert_eq!(Tui::get_pressed_key_buffer_as_number(&String::from("10"), 1), 10);
    assert_eq!(Tui::get_pressed_key_buffer_as_number(&String::from(""), 1), 1);
    assert_eq!(Tui::get_pressed_key_buffer_as_number(&String::from("0"), 1), 1);
    assert_eq!(Tui::get_pressed_key_buffer_as_number(&String::from("0"), 0), 0);
    assert_eq!(Tui::get_pressed_key_buffer_as_number(&String::from("x"), 7), 7);
}

#[test]
fn draw_memory_starts_at_the_top() {
    assert_eq!(DrawMemory::default().current_startline, 0);
}

#[test]
fn new_interface() {
    let tui = Tui::new(3);
    assert_eq!(tui.current_state, 3);
    assert_eq!(tui.cursor, 0);
    assert_eq!(tui.forced_refresh_rate, 200);
    assert!(tui.breakpoints.is_empty());
    assert!(tui.pressed_keys_buffer.is_empty());
    assert!(!tui.use_execution_pointer_as_focus_line);
}

#[test]
fn cursor_moves_within_the_program() {
    let debugger = Debugger::new(TRACE);
    assert_eq!(debugger.source_code.len(), 4);
    let mut tui = Tui::new(0);
    assert!(press(&mut tui, &debugger, "j").is_none());
    assert_eq!(tui.cursor, 1);
    press(&mut tui, &debugger, "2j");
    assert_eq!(tui.cursor, 3);
    assert!(tui.pressed_keys_buffer.is_empty());
    press(&mut tui, &debugger, "10j");
    assert_eq!(tui.cursor, 4);
    press(&mut tui, &debugger, "k");
    assert_eq!(tui.cursor, 3);
    press(&mut tui, &debugger, "99k");
    assert_eq!(tui.cursor, 0);
    press(&mut tui, &debugger, "G");
    assert_eq!(tui.cursor, 4);
    press(&mut tui, &debugger, "g");
    assert_eq!(tui.cursor, 0);
    tui.handle(Interrupt::KeyPressed(Key::Down), &debugger);
    assert_eq!(tui.cursor, 1);
    tui.handle(Interrupt::KeyPressed(Key::Up), &debugger);
    assert_eq!(tui.cursor, 0);
    tui.handle(Interrupt::ScrollDown, &debugger);
    assert_eq!(tui.cursor, 1);
    tui.handle(Interrupt::ScrollUp, &debugger);
    tui.handle(Interrupt::ScrollUp, &debugger);
    assert_eq!(tui.cursor, 0);
}

#[test]
fn stepping_stays_within_the_states() {
    let debugger = Debugger::new(TRACE);
    let count = debugger.count_of_states();
    assert_eq!(count, 9);
    let mut tui = Tui::new(0);
    press(&mut tui, &debugger, "s");
    assert_eq!(tui.current_state, 1);
    assert!(tui.use_execution_pointer_as_focus_line);
    press(&mut tui, &debugger, "3s");
    assert_eq!(tui.current_state, 4);
    press(&mut tui, &debugger, "100s");
    assert_eq!(tui.current_state, count - 1);
    press(&mut tui, &debugger, "2a");
    assert_eq!(tui.current_state, count - 3);
    press(&mut tui, &debugger, "50a");
    assert_eq!(tui.current_state, 0);
}

#[test]
fn breakpoints_stop_a_run() {
    let debugger = Debugger::new(TRACE);
    let mut tui = Tui::new(0);
    press(&mut tui, &debugger, "3b");
    assert!(tui.breakpoints.contains(&2));
    press(&mut tui, &debugger, "r");
    assert_eq!(debugger.peek_at_state(tui.current_state).unwrap().current_line, 2);
    let first_stop = tui.current_state;
    press(&mut tui, &debugger, "r");
    assert!(tui.current_state > first_stop);
    assert_eq!(debugger.peek_at_state(tui.current_state).unwrap().current_line, 2);
    press(&mut tui, &debugger, "R");
    assert_eq!(tui.current_state, first_stop);
    press(&mut tui, &debugger, "R");
    assert_eq!(tui.current_state, 0);
    press(&mut tui, &debugger, "3b");
    assert!(tui.breakpoints.is_empty());
    press(&mut tui, &debugger, "r");
    assert_eq!(tui.current_state, debugger.count_of_states() - 1);
}

#[test]
fn breakpoint_on_the_cursor_and_by_mouse() {
    let debugger = Debugger::new(TRACE);
    let mut tui = Tui::new(0);
    press(&mut tui, &debugger, "jb");
    assert!(tui.breakpoints.contains(&1));
    tui.handle(Interrupt::MouseUp(3), &debugger);
    assert!(tui.breakpoints.contains(&2));
    tui.handle(Interrupt::MouseUp(3), &debugger);
    assert!(!tui.breakpoints.contains(&2));
    tui.handle(Interrupt::MouseOther, &debugger);
    tui.handle(Interrupt::IntervalElapsed, &debugger);
    assert_eq!(tui.breakpoints.len(), 1);
}

#[test]
fn leaving_and_reloading() {
    let debugger = Debugger::new(TRACE);
    let mut tui = Tui::new(2);
    assert!(matches!(press(&mut tui, &debugger, "q"), Some(ApplicationExitReason::UserExit)));
    assert!(matches!(press(&mut tui, &debugger, "l"), Some(ApplicationExitReason::Reload(2))));
    assert!(matches!(
        tui.handle(Interrupt::FileChanged, &debugger),
        Some(ApplicationExitReason::Reload(2))
    ));
}

#[test]
fn other_keys_clear_the_typed_number() {
    let debugger = Debugger::new(TRACE);
    let mut tui = Tui::new(0);
    press(&mut tui, &debugger, "12");
    assert_eq!(tui.pressed_keys_buffer, "12");
    press(&mut tui, &debugger, "x");
    assert_eq!(tui.pressed_keys_buffer, "");
    press(&mut tui, &debugger, "7");
    tui.handle(Interrupt::KeyPressed(Key::Other), &debugger);
    assert_eq!(tui.pressed_keys_buffer, "");
}

#[test]
fn window_follows_the_focused_line() {
    let mut tui = Tui::new(0);
    assert_eq!(tui.scroll(100, 30, 0), 0);
    assert_eq!(tui.scroll(100, 30, 25), 5);
    assert_eq!(tui.draw_memory.current_startline, 5);
    assert_eq!(tui.scroll(100, 30, 20), 5);
    assert_eq!(tui.scroll(100, 30, 12), 2);
    assert_eq!(tui.scroll(100, 30, 99), 73);
    assert_eq!(tui.scroll(3, 30, 1), 0);
    assert_eq!(tui.focused_line(7), 0);
}

//! The state of the terminal interface and what each event does to it.

use crate::sed::debugger::Debugger;
use crate::sed::state::DebuggingState;
use crate::ui::generic::ApplicationExitReason;
use crate::ui::keys::{is_digit, parse_number, typed_count};
use std::collections::HashSet;
use vstd::prelude::*;
use vstd::string::*;

verus! {

broadcast use vstd::std_specs::hash::group_hash_axioms;

/// A key of the keyboard, as far as the interface tells keys apart.
#[derive(Clone, Copy, Debug, PartialEq, Eq, Structural)]
pub enum Key {
    Char(char),
    Up,
    Down,
    Other,
}

/// What wakes the interface up.
#[derive(Clone, Copy, Debug, PartialEq, Eq, Structural)]
pub enum Interrupt {
    KeyPressed(Key),
    /// A mouse button was released on the given row of the screen.
    MouseUp(u16),
    ScrollUp,
    ScrollDown,
    MouseOther,
    /// The script or its input has changed on disk.
    FileChanged,
    IntervalElapsed,
}

/// What the interface remembers of its last drawing: the line of the
/// program that stood at the top of the window.
pub struct DrawMemory {
    pub current_startline: usize,
}

impl DrawMemory {
    pub fn default() -> (memory: DrawMemory)
        ensures
            memory.current_startline == 0,
    {
        DrawMemory { current_startline: 0 }
    }
}

/// The state of the interface, as plain mathematical values.
pub struct UiView {
    pub breakpoints: Set<usize>,
    pub cursor: usize,
    pub buffer: Seq<char>,
    pub current_state: usize,
    pub follows_execution: bool,
    pub startline: usize,
}

/// The state of the terminal interface.
pub struct Tui {
    /// The lines of the program that hold a breakpoint.
    pub breakpoints: HashSet<usize>,
    /// The line that the user has the cursor on.
    pub cursor: usize,
    /// The longest time between two drawings, in milliseconds.
    pub forced_refresh_rate: u64,
    /// The digits typed before a command, which say how often the command
    /// is to be repeated.
    pub pressed_keys_buffer: String,
    /// The number of the state that is shown.
    pub current_state: usize,
    /// Whether the window follows the line that runs next, not the cursor.
    pub use_execution_pointer_as_focus_line: bool,
    pub draw_memory: DrawMemory,
}

impl View for Tui {
    type V = UiView;

    open spec fn view(&self) -> UiView {
        UiView {
            breakpoints: self.breakpoints@,
            cursor: self.cursor,
            buffer: self.pressed_keys_buffer@,
            current_state: self.current_state,
            follows_execution: self.use_execution_pointer_as_focus_line,
            startline: self.draw_memory.current_startline,
        }
    }
}

/// The breakpoints with the one on the given line set where there was
/// none, and removed where there was one.
pub open spec fn toggled(breakpoints: Set<usize>, line: usize) -> Set<usize> {
    if breakpoints.contains(line) {
        breakpoints.remove(line)
    } else {
        breakpoints.insert(line)
    }
}

/// A position moved `n` steps towards `limit`, and not beyond it.
pub open spec fn moved_down(position: usize, n: usize, limit: usize) -> usize {
    if position >= limit {
        position
    } else if n >= limit - position {
        limit
    } else {
        (position + n) as usize
    }
}

/// A position moved `n` steps towards nought, and not beyond it.
pub open spec fn moved_up(position: usize, n: usize) -> usize {
    if n >= position {
        0
    } else {
        (position - n) as usize
    }
}

/// The line that runs next in each state.
pub open spec fn state_lines(states: Seq<DebuggingState>) -> Seq<usize> {
    states.map_values(|s: DebuggingState| s.current_line)
}

/// Where a run forward from state `current` stops: at the first later
/// state whose line holds a breakpoint, and at the last state where there
/// is none.
pub open spec fn run_forward(lines: Seq<usize>, breakpoints: Set<usize>, current: int) -> int
    decreases lines.len() - current,
{
    if current + 1 >= lines.len() || current < 0 {
        current
    } else if breakpoints.contains(lines[current + 1]) {
        current + 1
    } else {
        run_forward(lines, breakpoints, current + 1)
    }
}

/// Where a run backward from state `current` stops: at the first earlier
/// state whose line holds a breakpoint, and at the first state where there
/// is none.
pub open spec fn run_backward(lines: Seq<usize>, breakpoints: Set<usize>, current: int) -> int
    decreases current,
{
    if current <= 0 || current > lines.len() {
        current
    } else if breakpoints.contains(lines[current - 1]) {
        current - 1
    } else {
        run_backward(lines, breakpoints, current - 1)
    }
}

/// The line whose breakpoint the user toggles: the line with the number
/// typed before the command, lines counted from one, and the cursor's line
/// where no number was typed.
pub open spec fn breakpoint_target(buffer: Seq<char>, cursor: usize) -> usize {
    if typed_count(buffer, 0) == 0 {
        cursor
    } else {
        (typed_count(buffer, 0) - 1) as usize
    }
}

/// What a key ends the interface with, if it ends it: `q` leaves, `l`
/// loads the session again.
pub open spec fn exit_of_key(ui: UiView, key: Key) -> Option<ApplicationExitReason> {
    if key == Key::Char('q') {
        Some(ApplicationExitReason::UserExit)
    } else if key == Key::Char('l') {
        Some(ApplicationExitReason::Reload(ui.current_state))
    } else {
        None
    }
}

/// The interface after a key, for a program of `source_len` lines and
/// states that stand on the given lines.
pub open spec fn after_key(ui: UiView, key: Key, source_len: usize, lines: Seq<usize>) -> UiView {
    let count = typed_count(ui.buffer, 1);
    let cleared = Seq::<char>::empty();
    if key == Key::Char('q') || key == Key::Char('l') {
        ui
    } else if key == Key::Char('j') || key == Key::Down {
        UiView {
            cursor: moved_down(ui.cursor, count, source_len),
            follows_execution: false,
            buffer: cleared,
            ..ui
        }
    } else if key == Key::Char('k') || key == Key::Up {
        UiView {
            cursor: moved_up(ui.cursor, count),
            follows_execution: false,
            buffer: cleared,
            ..ui
        }
    } else if key == Key::Char('g') {
        UiView { cursor: 0, follows_execution: false, buffer: cleared, ..ui }
    } else if key == Key::Char('G') {
        UiView { cursor: source_len, follows_execution: false, buffer: cleared, ..ui }
    } else if key == Key::Char('b') {
        UiView {
            breakpoints: toggled(ui.breakpoints, breakpoint_target(ui.buffer, ui.cursor)),
            buffer: cleared,
            ..ui
        }
    } else if key == Key::Char('s') {
        UiView {
            current_state: moved_down(ui.current_state, count, (lines.len() - 1) as usize),
            follows_execution: true,
            buffer: cleared,
            ..ui
        }
    } else if key == Key::Char('a') {
        UiView {
            current_state: moved_up(ui.current_state, count),
            follows_execution: true,
            buffer: cleared,
            ..ui
        }
    } else if key == Key::Char('r') {
        UiView {
            current_state: run_forward(lines, ui.breakpoints, ui.current_state as int) as usize,
            follows_execution: true,
            buffer: cleared,
            ..ui
        }
    } else if key == Key::Char('R') {
        UiView {
            current_state: run_backward(lines, ui.breakpoints, ui.current_state as int) as usize,
            follows_execution: true,
            buffer: cleared,
            ..ui
        }
    } else {
        match key {
            Key::Char(c) => if is_digit(c) {
                UiView { buffer: ui.buffer.push(c), ..ui }
            } else {
                UiView { buffer: cleared, ..ui }
            },
            _ => UiView { buffer: cleared, ..ui },
        }
    }
}

/// What an event ends the interface with, if it ends it.
pub open spec fn exit_of(ui: UiView, event: Interrupt) -> Option<ApplicationExitReason> {
    match event {
        Interrupt::KeyPressed(key) => exit_of_key(ui, key),
        Interrupt::FileChanged => Some(ApplicationExitReason::Reload(ui.current_state)),
        _ => None,
    }
}

/// The interface after an event.
pub open spec fn after_event(
    ui: UiView,
    event: Interrupt,
    source_len: usize,
    lines: Seq<usize>,
) -> UiView {
    match event {
        Interrupt::KeyPressed(key) => after_key(ui, key, source_len, lines),
        Interrupt::MouseUp(row) => UiView {
            breakpoints: toggled(ui.breakpoints, (row - 1 + ui.startline) as usize),
            ..ui
        },
        Interrupt::ScrollUp => UiView {
            cursor: moved_up(ui.cursor, 1),
            follows_execution: false,
            ..ui
        },
        Interrupt::ScrollDown => UiView {
            cursor: moved_down(ui.cursor, 1, source_len),
            follows_execution: false,
            ..ui
        },
        _ => ui,
    }
}

/// The first line of the window on the program: the line that stood there
/// before, moved as little as needed for the focused line to stand ten
/// lines or more from the window's edges, and within the program.
pub open spec fn display_start(source_len: int, height: int, focused: int, previous: int) -> int {
    let maximum_startline = source_len - 1 - height + 4;
    let low = if focused - height + 10 > 0 {
        focused - height + 10
    } else {
        0
    };
    let near = if focused - 10 < maximum_startline {
        focused - 10
    } else {
        maximum_startline
    };
    let high = if near > 0 {
        near
    } else {
        0
    };
    let first = if low > high {
        high
    } else {
        low
    };
    let last = if low > high {
        low
    } else {
        high
    };
    if previous < first {
        first
    } else if previous > last {
        last
    } else {
        previous
    }
}

impl Tui {
    /// The interface at its start, showing the state with the given number.
    pub fn new(current_state: usize) -> (tui: Tui)
        ensures
            tui@ == (UiView {
                breakpoints: Set::empty(),
                cursor: 0,
                buffer: Seq::empty(),
                current_state,
                follows_execution: false,
                startline: 0,
            }),
            tui.forced_refresh_rate == 200,
    {
        Tui {
            breakpoints: HashSet::new(),
            cursor: 0,
            forced_refresh_rate: 200,
            pressed_keys_buffer: String::new(),
            current_state,
            use_execution_pointer_as_focus_line: false,
            draw_memory: DrawMemory::default(),
        }
    }

    /// The number that the buffer stands for, where it stands for one that
    /// is at least one, and the given number otherwise.
    pub fn get_pressed_key_buffer_as_number(buffer: &String, default_value: usize) -> (n: usize)
        ensures
            n == typed_count(buffer@, default_value),
    {
        match parse_number(buffer.as_str()) {
            Some(num) => if num >= 1 {
                num
            } else {
                default_value
            },
            None => default_value,
        }
    }

    /// Sets a breakpoint on a line that has none, and removes the one of a
    /// line that has one.
    pub fn toggle_breakpoint(&mut self, line: usize)
        ensures
            final(self)@ == (UiView { breakpoints: toggled(old(self)@.breakpoints, line), ..old(self)@ }),
            final(self).forced_refresh_rate == old(self).forced_refresh_rate,
    {
        if self.breakpoints.contains(&line) {
            self.breakpoints.remove(&line);
        } else {
            self.breakpoints.insert(line);
        }
    }

    /// The line that the window is centred on: the line that runs next
    /// where the window follows the execution, and the cursor's line
    /// otherwise.
    pub fn focused_line(&self, interpreter_line: usize) -> (line: usize)
        ensures
            line == if self@.follows_execution {
                interpreter_line
            } else {
                self@.cursor
            },
    {
        if self.use_execution_pointer_as_focus_line {
            interpreter_line
        } else {
            self.cursor
        }
    }

    /// Where a run forward stops.
    fn run_to_next_stop(&self, debugger: &Debugger) -> (stop: usize)
        requires
            self.current_state < debugger.frames().len(),
        ensures
            stop == run_forward(
                state_lines(debugger.frames()),
                self@.breakpoints,
                self.current_state as int,
            ),
            stop < debugger.frames().len(),
    {
        let count = debugger.count_of_states();
        let ghost lines = state_lines(debugger.frames());
        let mut current: usize = self.current_state;
        let mut stopped = false;
        while !stopped && current < count - 1
            invariant
                current < count == lines.len(),
                lines == state_lines(debugger.frames()),
                !stopped ==> run_forward(lines, self@.breakpoints, self.current_state as int)
                    == run_forward(lines, self@.breakpoints, current as int),
                stopped ==> current == run_forward(
                    lines,
                    self@.breakpoints,
                    self.current_state as int,
                ),
            decreases count - current + if stopped { 0int } else { 1int },
        {
            current += 1;
            match debugger.peek_at_state(current) {
                Some(state) => {
                    if self.breakpoints.contains(&state.current_line) {
                        stopped = true;
                    }
                },
                None => {},
            }
        }
        current
    }

    /// Where a run backward stops.
    fn run_to_previous_stop(&self, debugger: &Debugger) -> (stop: usize)
        requires
            self.current_state < debugger.frames().len(),
        ensures
            stop == run_backward(
                state_lines(debugger.frames()),
                self@.breakpoints,
                self.current_state as int,
            ),
            stop < debugger.frames().len(),
    {
        let ghost lines = state_lines(debugger.frames());
        let mut current: usize = self.current_state;
        let mut stopped = false;
        while !stopped && current > 0
            invariant
                current < lines.len(),
                lines == state_lines(debugger.frames()),
                !stopped ==> run_backward(lines, self@.breakpoints, self.current_state as int)
                    == run_backward(lines, self@.breakpoints, current as int),
                stopped ==> current == run_backward(
                    lines,
                    self@.breakpoints,
                    self.current_state as int,
                ),
            decreases current + if stopped { 0int } else { 1int },
        {
            current -= 1;
            match debugger.peek_at_state(current) {
                Some(state) => {
                    if self.breakpoints.contains(&state.current_line) {
                        stopped = true;
                    }
                },
                None => {},
            }
        }
        current
    }

    /// Does what a key asks for, and says what the key ends the interface
    /// with, if it ends it.
    pub fn handle_key(&mut self, key: Key, debugger: &Debugger) -> (exit: Option<
        ApplicationExitReason,
    >)
        requires
            old(self).current_state < debugger.frames().len(),
        ensures
            final(self)@ == after_key(
                old(self)@,
                key,
                debugger.source().len() as usize,
                state_lines(debugger.frames()),
            ),
            exit == exit_of_key(old(self)@, key),
            final(self).current_state < debugger.frames().len(),
            final(self).forced_refresh_rate == old(self).forced_refresh_rate,
    {
        let count: usize = Tui::get_pressed_key_buffer_as_number(&self.pressed_keys_buffer, 1);
        let source_len: usize = debugger.source_length();
        match key {
            Key::Char('q') => {
                return Some(ApplicationExitReason::UserExit);
            },
            Key::Char('l') => {
                return Some(ApplicationExitReason::Reload(self.current_state));
            },
            Key::Char('j') | Key::Down => {
                if self.cursor < source_len {
                    self.cursor = if count >= source_len - self.cursor {
                        source_len
                    } else {
                        self.cursor + count
                    };
                }
                self.use_execution_pointer_as_focus_line = false;
            },
            Key::Char('k') | Key::Up => {
                self.cursor = if count >= self.cursor {
                    0
                } else {
                    self.cursor - count
                };
                self.use_execution_pointer_as_focus_line = false;
            },
            Key::Char('g') => {
                self.cursor = 0;
                self.use_execution_pointer_as_focus_line = false;
            },
            Key::Char('G') => {
                self.cursor = source_len;
                self.use_execution_pointer_as_focus_line = false;
            },
            Key::Char('b') => {
                let typed: usize = Tui::get_pressed_key_buffer_as_number(
                    &self.pressed_keys_buffer,
                    0,
                );
                let target: usize = if typed == 0 {
                    self.cursor
                } else {
                    typed - 1
                };
                self.toggle_breakpoint(target);
            },
            Key::Char('s') => {
                let last: usize = debugger.count_of_states() - 1;
                if self.current_state < last {
                    self.current_state = if count >= last - self.current_state {
                        last
                    } else {
                        self.current_state + count
                    };
                }
                self.use_execution_pointer_as_focus_line = true;
            },
            Key::Char('a') => {
                self.current_state = if count >= self.current_state {
                    0
                } else {
                    self.current_state - count
                };
                self.use_execution_pointer_as_focus_line = true;
            },
            Key::Char('r') => {
                self.current_state = self.run_to_next_stop(debugger);
                self.use_execution_pointer_as_focus_line = true;
            },
            Key::Char('R') => {
                self.current_state = self.run_to_previous_stop(debugger);
                self.use_execution_pointer_as_focus_line = true;
            },
            Key::Char(other) => {
                if '0' <= other && other <= '9' {
                    self.pressed_keys_buffer.push(other);
                    return None;
                }
            },
            _ => {},
        }
        self.pressed_keys_buffer = String::new();
        None
    }

    /// Does what an event asks for, and says what the event ends the
    /// interface with, if it ends it.
    pub fn handle(&mut self, event: Interrupt, debugger: &Debugger) -> (exit: Option<
        ApplicationExitReason,
    >)
        requires
            old(self).current_state < debugger.frames().len(),
            event matches Interrupt::MouseUp(row) ==> row >= 1 && row - 1
                + old(self).draw_memory.current_startline <= usize::MAX,
        ensures
            final(self)@ == after_event(
                old(self)@,
                event,
                debugger.source().len() as usize,
                state_lines(debugger.frames()),
            ),
            exit == exit_of(old(self)@, event),
            final(self).current_state < debugger.frames().len(),
            final(self).forced_refresh_rate == old(self).forced_refresh_rate,
    {
        match event {
            Interrupt::KeyPressed(key) => {
                return self.handle_key(key, debugger);
            },
            Interrupt::MouseUp(row) => {
                let target: usize = (row - 1) as usize + self.draw_memory.current_startline;
                self.toggle_breakpoint(target);
            },
            Interrupt::ScrollUp => {
                if self.cursor > 0 {
                    self.cursor -= 1;
                }
                self.use_execution_pointer_as_focus_line = false;
            },
            Interrupt::ScrollDown => {
                if self.cursor < debugger.source_length() {
                    self.cursor += 1;
                }
                self.use_execution_pointer_as_focus_line = false;
            },
            Interrupt::FileChanged => {
                return Some(ApplicationExitReason::Reload(self.current_state));
            },
            _ => {},
        }
        None
    }

    /// Chooses the first line of the window on the program, for a window
    /// of the given height, and remembers it.
    pub fn scroll(&mut self, source_len: usize, height: u16, focused_line: usize) -> (start: usize)
        requires
            focused_line + 10 <= usize::MAX,
        ensures
            start == display_start(
                source_len as int,
                height as int,
                focused_line as int,
                old(self)@.startline as int,
            ),
            final(self)@ == (UiView { startline: start, ..old(self)@ }),
            final(self).forced_refresh_rate == old(self).forced_refresh_rate,
    {
        let previous: i128 = self.draw_memory.current_startline as i128;
        let focused: i128 = focused_line as i128;
        let height: i128 = height as i128;
        let maximum_startline: i128 = source_len as i128 - 1 - height + 4;
        let low: i128 = if focused - height + 10 > 0 {
            focused - height + 10
        } else {
            0
        };
        let near: i128 = if focused - 10 < maximum_startline {
            focused - 10
        } else {
            maximum_startline
        };
        let high: i128 = if near > 0 {
            near
        } else {
            0
        };
        let first: i128 = if low > high {
            high
        } else {
            low
        };
        let last: i128 = if low > high {
            low
        } else {
            high
        };
        let start: i128 = if previous < first {
            first
        } else if previous > last {
            last
        } else {
            previous
        };
        self.draw_memory.current_startline = start as usize;
        start as usize
    }
}

} // verus!

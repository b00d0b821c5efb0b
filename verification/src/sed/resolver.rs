//! Where execution goes after a command: the next line of the program.

use crate::sed::labels::LabelMap;
use crate::text::{copy_range, trim, trimmed};
use vstd::prelude::*;

verus! {

/// Where a branch goes whose label part is `rest`: past the last line where
/// no label is named, to the label's line where the label is known, and to
/// the following line otherwise.
pub open spec fn jump_target(
    rest: Seq<char>,
    labels: Map<Seq<char>, usize>,
    current: int,
    lines_of_code: int,
) -> int {
    let label = trimmed(rest);
    if label.len() == 0 {
        lines_of_code
    } else if labels.contains_key(label) {
        labels[label] as int
    } else {
        current + 1
    }
}

/// Whether a trimmed command is a conditional branch: `t` or `T`.
pub open spec fn is_conditional(command: Seq<char>) -> bool {
    command.len() > 0 && (command[0] == 't' || command[0] == 'T')
}

/// Whether a trimmed command branches, given whether a substitution has
/// succeeded: `b` always, `t` after a success, `T` after none.
pub open spec fn branches(command: Seq<char>, succeeded: bool) -> bool {
    command.len() > 0 && (command[0] == 'b' || (command[0] == 't' && succeeded) || (command[0]
        == 'T' && !succeeded))
}

/// The line that follows `current` once `command` has run.
pub open spec fn next_line(
    current: int,
    command: Seq<char>,
    labels: Map<Seq<char>, usize>,
    lines_of_code: int,
    succeeded: bool,
) -> int {
    let c = trimmed(command);
    if branches(c, succeeded) {
        jump_target(c.skip(1), labels, current, lines_of_code)
    } else {
        current + 1
    }
}

/// The line that follows `current` once `command` has run.
pub fn resolve(
    current: usize,
    command: &Vec<char>,
    labels: &LabelMap,
    lines_of_code: usize,
    succeeded: bool,
) -> (next: usize)
    requires
        current < usize::MAX,
    ensures
        next == next_line(current as int, command@, labels@, lines_of_code as int, succeeded),
{
    let c = trim(command);
    if c.len() > 0 && (c[0] == 'b' || (c[0] == 't' && succeeded) || (c[0] == 'T' && !succeeded)) {
        let rest = copy_range(&c, 1, c.len());
        assert(rest@ =~= c@.skip(1));
        let label = trim(&rest);
        if label.len() == 0 {
            lines_of_code
        } else {
            match labels.get_chars(&label) {
                Some(target) => target,
                None => current + 1,
            }
        }
    } else {
        current + 1
    }
}

/// The next line is a function of the five inputs and of nothing else: equal
/// inputs give equal lines.
pub proof fn lemma_next_line_deterministic(
    current: int,
    command: Seq<char>,
    labels: Map<Seq<char>, usize>,
    lines_of_code: int,
    succeeded: bool,
    current2: int,
    command2: Seq<char>,
    labels2: Map<Seq<char>, usize>,
    lines_of_code2: int,
    succeeded2: bool,
)
    requires
        current == current2,
        command == command2,
        labels == labels2,
        lines_of_code == lines_of_code2,
        succeeded == succeeded2,
    ensures
        next_line(current, command, labels, lines_of_code, succeeded) == next_line(
            current2,
            command2,
            labels2,
            lines_of_code2,
            succeeded2,
        ),
{
}

/// The next line is a label's line, the end of the program, or the
/// following line.
pub proof fn lemma_next_line_range(
    current: int,
    command: Seq<char>,
    labels: Map<Seq<char>, usize>,
    lines_of_code: int,
    succeeded: bool,
)
    ensures
        ({
            let next = next_line(current, command, labels, lines_of_code, succeeded);
            ||| next == current + 1
            ||| next == lines_of_code
            ||| exists|name: Seq<char>| #[trigger]
                labels.contains_key(name) && next == labels[name]
        }),
{
    let c = trimmed(command);
    let label = trimmed(c.skip(1));
    if branches(c, succeeded) && label.len() != 0 && labels.contains_key(label) {
        assert(labels.contains_key(label) && next_line(
            current,
            command,
            labels,
            lines_of_code,
            succeeded,
        ) == labels[label]);
    }
}

} // verus!

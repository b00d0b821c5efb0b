//! Finds the annotations that structure a trace.

use crate::text::to_chars;
use vstd::prelude::*;
use vstd::string::*;

verus! {

/// The annotations, each with the line feed that precedes it.
pub open spec fn instruction_text(k: int) -> Seq<char> {
    if k == 0 {
        "\nSED PROGRAM:\n"@
    } else if k == 1 {
        "\nINPUT:   "@
    } else if k == 2 {
        "\nPATTERN: "@
    } else if k == 3 {
        "\nCOMMAND:               "@
    } else if k == 4 {
        "\nHOLD:    "@
    } else if k == 5 {
        "\nMATCHED REGEX REGISTERS\n"@
    } else {
        "\nEND-OF-CYCLE:\n"@
    }
}

/// An annotation begins with a line feed, goes on with something else, and
/// holds no other line feed but, possibly, as its last character.
pub open spec fn well_shaped(pattern: Seq<char>) -> bool {
    &&& pattern.len() >= 2
    &&& pattern[0] == '\n'
    &&& forall|j: int| 1 <= j < pattern.len() - 1 ==> pattern[j] != '\n'
}

/// Every annotation is well shaped.
pub proof fn lemma_instructions_well_shaped()
    ensures
        forall|k: int| 0 <= k < 7 ==> well_shaped(#[trigger] instruction_text(k)),
{
    reveal_strlit("\nSED PROGRAM:\n");
    reveal_strlit("\nINPUT:   ");
    reveal_strlit("\nPATTERN: ");
    reveal_strlit("\nCOMMAND:               ");
    reveal_strlit("\nHOLD:    ");
    reveal_strlit("\nMATCHED REGEX REGISTERS\n");
    reveal_strlit("\nEND-OF-CYCLE:\n");
}

/// The text that is searched: the input, behind a line feed where the
/// input is taken to begin a line.
pub open spec fn padded(input: Seq<char>, ignore_preceding_newline: bool) -> Seq<char> {
    if ignore_preceding_newline {
        seq!['\n'] + input
    } else {
        input
    }
}

/// Whether an occurrence of the pattern ends before position `e`.
pub open spec fn ends_at(text: Seq<char>, pattern: Seq<char>, e: int) -> bool {
    pattern.len() <= e <= text.len() && text.subrange(e - pattern.len(), e) == pattern
}

/// Whether annotation `k` ends before position `e`, no annotation ends
/// earlier, and none that is listed before `k` ends there.
pub open spec fn is_first_match(text: Seq<char>, e: int, k: int) -> bool {
    &&& 0 <= k < 7
    &&& ends_at(text, instruction_text(k), e)
    &&& forall|j: int| 0 <= j < k ==> !#[trigger] ends_at(text, instruction_text(j), e)
    &&& forall|d: int, j: int|
        0 <= d < e && 0 <= j < 7 ==> !#[trigger] ends_at(text, instruction_text(j), d)
}

/// Whether the text holds no annotation.
pub open spec fn no_match(text: Seq<char>) -> bool {
    forall|d: int, j: int| 0 <= j < 7 ==> !#[trigger] ends_at(text, instruction_text(j), d)
}

/// Whether the `c` characters before position `i` are the first `c` of the
/// pattern.
pub open spec fn matched_prefix(text: Seq<char>, pattern: Seq<char>, i: int, c: int) -> bool {
    &&& 0 <= c <= i <= text.len()
    &&& c <= pattern.len()
    &&& text.subrange(i - c, i) == pattern.take(c)
}

/// Whether `c` is the greatest number of characters before position `i`
/// that begin the pattern.
pub open spec fn longest_prefix(text: Seq<char>, pattern: Seq<char>, i: int, c: int) -> bool {
    &&& matched_prefix(text, pattern, i, c)
    &&& forall|c2: int| c < c2 <= pattern.len() ==> !#[trigger] matched_prefix(text, pattern, i, c2)
}

/// The number of matched characters after one more character.
pub open spec fn next_count(pattern: Seq<char>, c: int, x: char) -> int {
    if pattern[c] == x {
        c + 1
    } else if pattern[0] == x {
        1
    } else {
        0
    }
}

/// One more character takes the greatest matched prefix to `next_count`.
pub proof fn lemma_advance(text: Seq<char>, pattern: Seq<char>, i: int, c: int)
    requires
        well_shaped(pattern),
        0 <= i < text.len(),
        c < pattern.len(),
        longest_prefix(text, pattern, i, c),
    ensures
        longest_prefix(text, pattern, i + 1, next_count(pattern, c, text[i])),
{
    let x = text[i];
    let n = next_count(pattern, c, x);
    assert(text.subrange(i - c, i) == pattern.take(c));
    assert forall|j: int| 0 <= j < c implies text[i - c + j] == pattern[j] by {
        assert(text.subrange(i - c, i)[j] == pattern.take(c)[j]);
    }
    assert(text.subrange(i + 1 - n, i + 1) =~= pattern.take(n));
    assert forall|c2: int| n < c2 <= pattern.len() implies !#[trigger] matched_prefix(
        text,
        pattern,
        i + 1,
        c2,
    ) by {
        if matched_prefix(text, pattern, i + 1, c2) {
            let d = c2 - 1;
            assert forall|j: int| 0 <= j < c2 implies text[i + 1 - c2 + j] == pattern[j] by {
                assert(text.subrange(i + 1 - c2, i + 1)[j] == pattern.take(c2)[j]);
            }
            assert(pattern[d] == x);
            assert(text.subrange(i - d, i) =~= pattern.take(d));
            assert(matched_prefix(text, pattern, i, d));
            assert(d <= c);
            if d < c {
                if d >= 1 {
                    assert(text[i - d] == pattern[0]);
                    assert(text[i - d] == pattern[c - d]);
                    assert(false);
                }
            }
        }
    }
}

/// Annotation `k`, with the line feed that precedes it.
fn instruction(k: usize) -> (text: &'static str)
    requires
        k < 7,
    ensures
        text@ == instruction_text(k as int),
{
    if k == 0 {
        "\nSED PROGRAM:\n"
    } else if k == 1 {
        "\nINPUT:   "
    } else if k == 2 {
        "\nPATTERN: "
    } else if k == 3 {
        "\nCOMMAND:               "
    } else if k == 4 {
        "\nHOLD:    "
    } else if k == 5 {
        "\nMATCHED REGEX REGISTERS\n"
    } else {
        "\nEND-OF-CYCLE:\n"
    }
}

/// The annotations as characters.
fn instruction_table() -> (table: Vec<Vec<char>>)
    ensures
        table@.len() == 7,
        forall|k: int| 0 <= k < 7 ==> (#[trigger] table@[k])@ == instruction_text(k),
{
    let mut table: Vec<Vec<char>> = Vec::new();
    let mut k: usize = 0;
    while k < 7
        invariant
            k <= 7,
            table@.len() == k,
            forall|j: int| 0 <= j < k ==> (#[trigger] table@[j])@ == instruction_text(j),
        decreases 7 - k,
    {
        table.push(to_chars(instruction(k)));
        k += 1;
    }
    table
}

/// Finds annotations in the text of a trace.
pub struct SedAnnotationParser {}

impl SedAnnotationParser {
    /// Splits the input at the first annotation: the one that ends first
    /// and, among those that end together, the one listed first. An
    /// annotation stands at the beginning of a line: a line feed precedes
    /// it. With `ignore_preceding_newline` the input itself is taken to
    /// begin a line.
    ///
    /// Returned are the input before the annotation, with the line feed that
    /// precedes the annotation; the annotation, without that line feed; and
    /// the input after the annotation. Where the input holds no annotation,
    /// these are the empty text, nothing, and the whole input.
    pub fn get_text_until_next_instruction<'a>(
        input: &'a str,
        ignore_preceding_newline: bool,
    ) -> (r: (&'a str, Option<&'static str>, &'a str))
        ensures
            ({
                let text = padded(input@, ignore_preceding_newline);
                let off: int = if ignore_preceding_newline {
                    1
                } else {
                    0
                };
                match r.1 {
                    Some(found) => exists|e: int, k: int|
                        {
                            &&& #[trigger] is_first_match(text, e, k)
                            &&& found@ == instruction_text(k).skip(1)
                            &&& r.0@ == input@.take(e - off - (instruction_text(k).len() - 1))
                            &&& r.2@ == input@.skip(e - off)
                        },
                    None => no_match(text) && r.0@ == Seq::<char>::empty() && r.2@ == input@,
                }
            }),
    {
        let table = instruction_table();
        let chars = to_chars(input);
        let off: usize = if ignore_preceding_newline {
            1
        } else {
            0
        };
        let ghost text = padded(input@, ignore_preceding_newline);
        let mut counts: Vec<usize> = Vec::new();
        let mut k: usize = 0;
        proof {
            lemma_instructions_well_shaped();
        }
        while k < 7
            invariant
                k <= 7,
                off <= 1,
                counts@.len() == k,
                forall|j: int| 0 <= j < k ==> #[trigger] counts@[j] == off,
            decreases 7 - k,
        {
            counts.push(off);
            k += 1;
        }
        let mut i: usize = 0;
        assert forall|j: int| 0 <= j < 7 implies longest_prefix(
            text,
            instruction_text(j),
            off as int,
            #[trigger] counts@[j] as int,
        ) by {
            assert(text.subrange(0, off as int) =~= instruction_text(j).take(off as int));
        }
        while i < chars.len()
            invariant
                i <= chars@.len(),
                chars@ == input@,
                off <= 1,
                off == (if ignore_preceding_newline {
                    1int
                } else {
                    0int
                }),
                text == padded(input@, ignore_preceding_newline),
                text.len() == chars@.len() + off,
                table@.len() == 7,
                counts@.len() == 7,
                forall|j: int| 0 <= j < 7 ==> (#[trigger] table@[j])@ == instruction_text(j),
                forall|j: int| 0 <= j < 7 ==> well_shaped(#[trigger] instruction_text(j)),
                forall|j: int|
                    0 <= j < 7 ==> (#[trigger] counts@[j]) < instruction_text(j).len()
                        && longest_prefix(text, instruction_text(j), i + off, counts@[j] as int),
                forall|d: int, j: int|
                    0 <= d <= i + off && 0 <= j < 7 ==> !#[trigger] ends_at(
                        text,
                        instruction_text(j),
                        d,
                    ),
            decreases chars@.len() - i,
        {
            let x = chars[i];
            assert(text[i + off] == x);
            let mut k: usize = 0;
            while k < 7
                invariant
                    k <= 7,
                    i < chars@.len() <= usize::MAX,
                    chars@ == input@,
                    off <= 1,
                    off == (if ignore_preceding_newline {
                        1int
                    } else {
                        0int
                    }),
                    text == padded(input@, ignore_preceding_newline),
                    text.len() == chars@.len() + off,
                    text[i + off] == x,
                    table@.len() == 7,
                    counts@.len() == 7,
                    forall|j: int| 0 <= j < 7 ==> (#[trigger] table@[j])@ == instruction_text(j),
                    forall|j: int| 0 <= j < 7 ==> well_shaped(#[trigger] instruction_text(j)),
                    forall|j: int|
                        k <= j < 7 ==> (#[trigger] counts@[j]) < instruction_text(j).len()
                            && longest_prefix(
                            text,
                            instruction_text(j),
                            i + off,
                            counts@[j] as int,
                        ),
                    forall|j: int|
                        0 <= j < k ==> (#[trigger] counts@[j]) < instruction_text(j).len()
                            && longest_prefix(
                            text,
                            instruction_text(j),
                            i + off + 1,
                            counts@[j] as int,
                        ),
                    forall|d: int, j: int|
                        0 <= d <= i + off && 0 <= j < 7 ==> !#[trigger] ends_at(
                            text,
                            instruction_text(j),
                            d,
                        ),
                decreases 7 - k,
            {
                let pattern = &table[k];
                let c: usize = counts[k];
                let ghost shape = instruction_text(k as int);
                assert(pattern@ == shape);
                assert(c < shape.len() && longest_prefix(text, shape, i + off, c as int));
                proof {
                    lemma_advance(text, shape, i + off, c as int);
                }
                let n: usize = if pattern[c] == x {
                    c + 1
                } else if pattern[0] == x {
                    1
                } else {
                    0
                };
                assert(n == next_count(shape, c as int, x));
                assert(longest_prefix(text, shape, i + off + 1, n as int));
                if n == pattern.len() {
                    let end: usize = i + 1;
                    let start: usize = end - (n - 1);
                    let found = instruction(k);
                    proof {
                        assert(shape.take(n as int) =~= shape);
                        assert(ends_at(text, shape, i + off + 1));
                        assert forall|j: int| 0 <= j < k implies !#[trigger] ends_at(
                            text,
                            instruction_text(j),
                            i + off + 1,
                        ) by {
                            assert(counts@[j] < instruction_text(j).len());
                            assert(instruction_text(j).take(instruction_text(j).len() as int)
                                =~= instruction_text(j));
                            assert(!matched_prefix(
                                text,
                                instruction_text(j),
                                i + off + 1,
                                instruction_text(j).len() as int,
                            ));
                        }
                        assert(is_first_match(text, i + off + 1, k as int));
                    }
                    let length: usize = found.unicode_len();
                    return (
                        input.substring_char(0, start),
                        Some(found.substring_char(1, length)),
                        input.substring_char(end, chars.len()),
                    );
                }
                counts.set(k, n);
                k += 1;
            }
            proof {
                assert forall|d: int, j: int| 0 <= d <= i + 1 + off && 0 <= j < 7 implies !#[trigger] ends_at(
                    text,
                    instruction_text(j),
                    d,
                ) by {
                    if d == i + 1 + off {
                        assert(instruction_text(j).take(instruction_text(j).len() as int)
                            =~= instruction_text(j));
                        assert(counts@[j] < instruction_text(j).len());
                        assert(!matched_prefix(
                            text,
                            instruction_text(j),
                            i + off + 1,
                            instruction_text(j).len() as int,
                        ));
                    }
                }
            }
            i += 1;
        }
        assert(no_match(text));
        (input.substring_char(0, 0), None, input)
    }
}

} // verus!

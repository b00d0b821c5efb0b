//! The program's source as the trace lists it.

use crate::text::{
    first_index, lemma_first_index, lines_of, rows, same_text, split_lines, starts_with, texts,
    to_chars, to_text, trim, trimmed,
};
use vstd::prelude::*;

verus! {

/// The line that introduces the program's source.
pub open spec fn source_header() -> Seq<char> {
    "SED PROGRAM:"@
}

/// Begins the line that follows the program's source: the first cycle's
/// input.
pub open spec fn source_end_marker() -> Seq<char> {
    "INPUT:   '"@
}

/// Whether a line ends the program's source.
pub open spec fn ends_source(line: Seq<char>) -> bool {
    source_end_marker().is_prefix_of(line)
}

/// The lines that follow the header; none where there is no header.
pub open spec fn after_header(lines: Seq<Seq<char>>) -> Seq<Seq<char>> {
    let h = first_index(lines, |line: Seq<char>| line == source_header());
    if h < lines.len() {
        lines.skip(h + 1)
    } else {
        Seq::empty()
    }
}

/// The program's source: the lines between the header and the first cycle's
/// input, each trimmed. It is empty where the trace has no header or no
/// first cycle.
pub open spec fn program_source_of(lines: Seq<Seq<char>>) -> Seq<Seq<char>> {
    let body = after_header(lines);
    let e = first_index(body, |line: Seq<char>| ends_source(line));
    if e < body.len() {
        body.take(e).map_values(|line: Seq<char>| trimmed(line))
    } else {
        Seq::empty()
    }
}

/// The program's source in a trace that is given line by line.
pub fn source_from_lines(lines: &Vec<Vec<char>>) -> (source: Vec<String>)
    ensures
        texts(source@) == program_source_of(rows(lines@)),
{
    let header = to_chars("SED PROGRAM:");
    let end_marker = to_chars("INPUT:   '");
    let ghost all = rows(lines@);
    let mut h: usize = 0;
    while h < lines.len() && !same_text(&lines[h], &header)
        invariant
            h <= lines.len(),
            all == rows(lines@),
            header@ == source_header(),
            forall|k: int| 0 <= k < h ==> #[trigger] all[k] != source_header(),
        decreases lines.len() - h,
    {
        h += 1;
    }
    proof {
        lemma_first_index(all, |line: Seq<char>| line == source_header(), h as int);
    }
    let mut source: Vec<String> = Vec::new();
    if h == lines.len() {
        assert(texts(source@) =~= Seq::empty());
        return source;
    }
    let ghost body = all.skip(h + 1);
    let mut e: usize = h + 1;
    while e < lines.len() && !starts_with(&lines[e], &end_marker)
        invariant
            h < e <= lines.len(),
            all == rows(lines@),
            body == all.skip(h + 1),
            end_marker@ == source_end_marker(),
            forall|k: int| 0 <= k < e - h - 1 ==> !ends_source(#[trigger] body[k]),
        decreases lines.len() - e,
    {
        e += 1;
    }
    proof {
        lemma_first_index(body, |line: Seq<char>| ends_source(line), e - h - 1);
    }
    if e == lines.len() {
        assert(texts(source@) =~= Seq::empty());
        return source;
    }
    let mut i: usize = h + 1;
    while i < e
        invariant
            h < i <= e < lines.len(),
            all == rows(lines@),
            body == all.skip(h + 1),
            texts(source@) =~= body.take(i - h - 1).map_values(|line: Seq<char>| trimmed(line)),
        decreases e - i,
    {
        let ghost before = source@;
        let line = to_text(&trim(&lines[i]));
        source.push(line);
        assert(texts(source@) =~= texts(before).push(trimmed(all[i as int])));
        i += 1;
    }
    source
}

/// The program's source as a trace lists it.
pub fn read_source(trace: &str) -> (source: Vec<String>)
    ensures
        texts(source@) == program_source_of(lines_of(trace@)),
{
    let lines = split_lines(&to_chars(trace));
    source_from_lines(&lines)
}

} // verus!

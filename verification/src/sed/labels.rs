//! Jump labels of a program and the lines they stand on.

use crate::text::{copy_range, same_text, texts, to_chars, trim, trimmed};
use vstd::prelude::*;

verus! {

/// The map that a list of entries stands for: a later entry replaces an
/// earlier one of the same name.
pub open spec fn entries_map(entries: Seq<(Vec<char>, usize)>) -> Map<Seq<char>, usize>
    decreases entries.len(),
{
    if entries.len() == 0 {
        Map::empty()
    } else {
        entries_map(entries.drop_last()).insert(entries.last().0@, entries.last().1)
    }
}

/// Whether a source line declares a label: trimmed, it begins with a colon.
pub open spec fn declares_label(line: Seq<char>) -> bool {
    trimmed(line).len() > 0 && trimmed(line)[0] == ':'
}

/// The name that a declaring line gives its label: what follows the colon.
pub open spec fn declared_label(line: Seq<char>) -> Seq<char> {
    trimmed(line).skip(1)
}

/// The labels of a source listing, each with the index of the last line that
/// declares it.
pub open spec fn labels_of(source: Seq<Seq<char>>) -> Map<Seq<char>, usize>
    decreases source.len(),
{
    if source.len() == 0 {
        Map::empty()
    } else if declares_label(source.last()) {
        labels_of(source.drop_last()).insert(
            declared_label(source.last()),
            (source.len() - 1) as usize,
        )
    } else {
        labels_of(source.drop_last())
    }
}

/// A name is a label of a listing exactly if some line declares it, and the
/// line recorded for it is the last such line.
pub proof fn lemma_labels_of(source: Seq<Seq<char>>, name: Seq<char>)
    requires
        source.len() <= usize::MAX,
    ensures
        labels_of(source).contains_key(name) <==> exists|i: int|
            0 <= i < source.len() && declares_label(#[trigger] source[i]) && declared_label(
                source[i],
            ) == name,
        labels_of(source).contains_key(name) ==> {
            let t = labels_of(source)[name] as int;
            &&& 0 <= t < source.len()
            &&& declares_label(source[t])
            &&& declared_label(source[t]) == name
            &&& forall|j: int|
                t < j < source.len() ==> !(declares_label(#[trigger] source[j]) && declared_label(
                    source[j],
                ) == name)
        },
    decreases source.len(),
{
    if source.len() > 0 {
        let front = source.drop_last();
        lemma_labels_of(front, name);
        let last = source.len() - 1;
        if declares_label(source.last()) && declared_label(source.last()) == name {
            assert(declares_label(source[last]) && declared_label(source[last]) == name);
        } else if labels_of(front).contains_key(name) {
            let i = choose|i: int|
                0 <= i < front.len() && declares_label(#[trigger] front[i]) && declared_label(
                    front[i],
                ) == name;
            assert(source[i] == front[i]);
            let t = labels_of(front)[name] as int;
            assert(source[t] == front[t]);
            assert forall|j: int| t < j < source.len() implies !(declares_label(
                #[trigger] source[j],
            ) && declared_label(source[j]) == name) by {
                if j < last {
                    assert(source[j] == front[j]);
                }
            }
        } else {
            assert forall|i: int| 0 <= i < source.len() implies !(declares_label(
                #[trigger] source[i],
            ) && declared_label(source[i]) == name) by {
                if i < last {
                    assert(source[i] == front[i]);
                }
            }
        }
    }
}

/// Label names and the index of the line each one stands on.
pub struct LabelMap {
    entries: Vec<(Vec<char>, usize)>,
}

impl View for LabelMap {
    type V = Map<Seq<char>, usize>;

    closed spec fn view(&self) -> Map<Seq<char>, usize> {
        entries_map(self.entries@)
    }
}

impl LabelMap {
    /// A map without labels.
    pub fn new() -> (m: LabelMap)
        ensures
            m@ == Map::<Seq<char>, usize>::empty(),
    {
        LabelMap { entries: Vec::new() }
    }

    /// The labels of a source listing.
    pub fn from_source(source: &Vec<String>) -> (m: LabelMap)
        ensures
            m@ == labels_of(texts(source@)),
    {
        let mut m = LabelMap::new();
        let mut i: usize = 0;
        let ghost lines = texts(source@);
        while i < source.len()
            invariant
                i <= source.len(),
                lines == texts(source@),
                m@ == labels_of(lines.take(i as int)),
            decreases source.len() - i,
        {
            let line = trim(&to_chars(source[i].as_str()));
            assert(lines.take(i + 1).drop_last() =~= lines.take(i as int));
            assert(lines.take(i + 1).last() == source@[i as int]@);
            if line.len() > 0 && line[0] == ':' {
                let name = copy_range(&line, 1, line.len());
                assert(name@ =~= line@.skip(1));
                m.insert_chars(name, i);
            }
            i += 1;
        }
        assert(lines.take(i as int) =~= lines);
        m
    }

    /// Records that `name` stands on line `target`, replacing what was
    /// recorded for the name before.
    pub fn insert(&mut self, name: &str, target: usize)
        ensures
            final(self)@ == old(self)@.insert(name@, target),
    {
        self.insert_chars(to_chars(name), target);
    }

    /// As `insert`, with the name given as characters.
    pub fn insert_chars(&mut self, name: Vec<char>, target: usize)
        ensures
            final(self)@ == old(self)@.insert(name@, target),
    {
        let ghost before = self.entries@;
        self.entries.push((name, target));
        assert(self.entries@.drop_last() =~= before);
    }

    /// The line recorded for `name`, if any.
    pub fn get(&self, name: &str) -> (r: Option<usize>)
        ensures
            r == (if self@.contains_key(name@) {
                Some(self@[name@])
            } else {
                None
            }),
    {
        let n = to_chars(name);
        self.get_chars(&n)
    }

    /// As `get`, with the name given as characters.
    pub fn get_chars(&self, name: &Vec<char>) -> (r: Option<usize>)
        ensures
            r == (if self@.contains_key(name@) {
                Some(self@[name@])
            } else {
                None
            }),
    {
        let mut j: usize = self.entries.len();
        assert(self.entries@.take(j as int) =~= self.entries@);
        while j > 0
            invariant
                j <= self.entries@.len(),
                self@.contains_key(name@) == entries_map(self.entries@.take(j as int)).contains_key(
                    name@,
                ),
                self@.contains_key(name@) ==> self@[name@] == entries_map(
                    self.entries@.take(j as int),
                )[name@],
            decreases j,
        {
            assert(self.entries@.take(j as int).drop_last() =~= self.entries@.take(j - 1));
            if same_text(&self.entries[j - 1].0, name) {
                return Some(self.entries[j - 1].1);
            }
            j -= 1;
        }
        None
    }
}

} // verus!

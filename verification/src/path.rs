//! Paths and their classification.
//!
//! A path is a string of segments separated by `/`. Empty segments do not
//! count, so repeated and trailing separators change nothing. The filesystem
//! is flat: an absolute path with no segment is the root, one with a single
//! segment may name a file, and every other path names nothing.

use vstd::prelude::*;

verus! {

/// The character that separates the segments of a path.
pub const SEPARATOR: char = '/';

/// The segments of `path`, in order: its maximal runs of characters other
/// than the separator.
pub open spec fn segments(path: Seq<char>) -> Seq<Seq<char>>
    decreases path.len(),
{
    if path.len() == 0 {
        Seq::empty()
    } else {
        let before = segments(path.drop_last());
        let c = path.last();
        if c == SEPARATOR {
            before
        } else if path.len() >= 2 && path[path.len() - 2] != SEPARATOR {
            before.drop_last().push(before.last().push(c))
        } else {
            before.push(seq![c])
        }
    }
}

/// Whether `path` starts at the root.
pub open spec fn is_absolute(path: Seq<char>) -> bool {
    path.len() > 0 && path[0] == SEPARATOR
}

/// What a path can be, by the number of its segments.
pub enum PathShape {
    /// The root directory: an absolute path without segments.
    Root,
    /// An absolute path of one segment, which may name a file.
    CandidateFile(Seq<char>),
    /// Any other path: relative, empty, or deeper than one segment.
    Invalid,
}

/// The shape of `path`.
pub open spec fn shape_of(path: Seq<char>) -> PathShape {
    if !is_absolute(path) {
        PathShape::Invalid
    } else if segments(path).len() == 0 {
        PathShape::Root
    } else if segments(path).len() == 1 {
        PathShape::CandidateFile(segments(path)[0])
    } else {
        PathShape::Invalid
    }
}

/// A classified path; a candidate file carries its one segment.
#[derive(Clone, Copy, Debug, PartialEq, Eq)]
pub enum PathClass<'a> {
    Root,
    CandidateFile(&'a str),
    Invalid,
}

impl<'a> View for PathClass<'a> {
    type V = PathShape;

    open spec fn view(&self) -> PathShape {
        match *self {
            PathClass::Root => PathShape::Root,
            PathClass::CandidateFile(name) => PathShape::CandidateFile(name@),
            PathClass::Invalid => PathShape::Invalid,
        }
    }
}

/// Classifies `path` by counting its segments.
pub fn classify<'a>(path: &'a str) -> (class: PathClass<'a>)
    ensures
        class@ == shape_of(path@),
{
    let len: usize = path.unicode_len();
    // Segments seen so far, counted up to two; the first one is `start..end`.
    let mut count: u8 = 0;
    let mut start: usize = 0;
    let mut end: usize = 0;
    let mut in_segment = false;
    let mut absolute = false;
    let mut i: usize = 0;
    for c in it: path.chars()
        invariant
            i == it.index(),
            it.seq() == path@,
            len == path@.len(),
            i <= len,
            absolute == (i > 0 && path@[0] == SEPARATOR),
            in_segment == (i > 0 && path@[i - 1] != SEPARATOR),
            count <= 2,
            count < 2 ==> segments(path@.take(i as int)).len() == count,
            count == 2 ==> segments(path@.take(i as int)).len() >= 2,
            count >= 1 ==> start < end <= i && segments(path@.take(i as int))[0]
                == path@.subrange(start as int, end as int),
            count == 1 && in_segment ==> end == i,
    {
        proof {
            let prefix = path@.take(i + 1);
            assert(prefix.drop_last() =~= path@.take(i as int));
            if c != SEPARATOR && in_segment && count == 1 {
                assert(path@.subrange(start as int, i as int).push(c) =~= path@.subrange(
                    start as int,
                    i + 1,
                ));
            }
            if c != SEPARATOR && !in_segment && count == 0 {
                assert(seq![c] =~= path@.subrange(i as int, i + 1));
            }
        }
        if i == 0 {
            absolute = c == SEPARATOR;
        }
        if c == SEPARATOR {
            in_segment = false;
        } else if in_segment {
            if count == 1 {
                end = i + 1;
            }
        } else {
            if count == 0 {
                start = i;
                end = i + 1;
                count = 1;
            } else {
                count = 2;
            }
            in_segment = true;
        }
        i = i + 1;
    }
    assert(path@.take(len as int) =~= path@);
    if !absolute {
        PathClass::Invalid
    } else if count == 0 {
        PathClass::Root
    } else if count == 1 {
        PathClass::CandidateFile(path.substring_char(start, end))
    } else {
        PathClass::Invalid
    }
}

/// Whether no character of `s` is the separator.
pub open spec fn separator_free(s: Seq<char>) -> bool {
    forall|i: int| 0 <= i < s.len() ==> s[i] != SEPARATOR
}

/// Every segment of a path is non-empty and holds no separator, and a path
/// has a segment exactly when it has a character other than the separator.
pub proof fn lemma_segments_are_names(path: Seq<char>)
    ensures
        forall|k: int|
            0 <= k < segments(path).len() ==> (#[trigger] segments(path)[k]).len() > 0
                && separator_free(segments(path)[k]),
        segments(path).len() == 0 <==> forall|i: int|
            0 <= i < path.len() ==> path[i] == SEPARATOR,
    decreases path.len(),
{
    if path.len() > 0 {
        let shorter = path.drop_last();
        lemma_segments_are_names(shorter);
        assert forall|i: int| 0 <= i < shorter.len() implies shorter[i] == path[i] by {}
        if path.last() != SEPARATOR && path.len() >= 2 && path[path.len() - 2] != SEPARATOR {
            assert(shorter[shorter.len() - 1] != SEPARATOR);
        }
        if path.last() == SEPARATOR {
            if forall|i: int| 0 <= i < shorter.len() ==> shorter[i] == SEPARATOR {
                assert forall|i: int| 0 <= i < path.len() implies path[i] == SEPARATOR by {
                    if i < shorter.len() {
                        assert(shorter[i] == path[i]);
                    }
                }
            }
        }
    }
}

/// The path of the root alone has the shape of the root.
pub proof fn lemma_root_shape()
    ensures
        shape_of(seq![SEPARATOR]) == PathShape::Root,
{
    let root = seq![SEPARATOR];
    assert(root.drop_last() =~= Seq::<char>::empty());
    assert(segments(root.drop_last()) == Seq::<Seq<char>>::empty());
    assert(segments(root) == Seq::<Seq<char>>::empty());
}

/// The separator followed by a name has that name as its only segment, so
/// it has the shape of a candidate file of that name.
pub proof fn lemma_single_segment(name: Seq<char>)
    requires
        name.len() > 0,
        separator_free(name),
    ensures
        segments(seq![SEPARATOR] + name) == seq![name],
        shape_of(seq![SEPARATOR] + name) == PathShape::CandidateFile(name),
    decreases name.len(),
{
    let path = seq![SEPARATOR] + name;
    let c = name.last();
    assert(path.last() == c);
    assert(path[0] == SEPARATOR);
    if name.len() == 1 {
        lemma_root_shape();
        assert(path.drop_last() =~= seq![SEPARATOR]);
        assert(path[path.len() - 2] == SEPARATOR);
        assert(segments(path) == Seq::<Seq<char>>::empty().push(seq![c]));
        assert(Seq::<Seq<char>>::empty().push(seq![c]) =~= seq![seq![c]]);
        assert(seq![c] =~= name);
    } else {
        let shorter = name.drop_last();
        assert forall|i: int| 0 <= i < shorter.len() implies shorter[i] != SEPARATOR by {
            assert(shorter[i] == name[i]);
        }
        lemma_single_segment(shorter);
        assert(path.drop_last() =~= seq![SEPARATOR] + shorter);
        assert(path[path.len() - 2] == name[name.len() - 2]);
        let before = seq![shorter];
        assert(segments(path) == before.drop_last().push(before.last().push(c)));
        assert(before.drop_last().push(before.last().push(c)) =~= seq![shorter.push(c)]);
        assert(shorter.push(c) =~= name);
    }
    assert(segments(path)[0] == name);
}

} // verus!

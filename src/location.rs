//! Source locations for error messages.
use vstd::prelude::*;
use vstd::string::StringSliceAdditionalSpecFns;

verus! {

/// A location that is suitable for error messages: a file relative to the root of the checked
/// tree, with a 1-based line and column.
#[derive(Clone, Debug, PartialEq, Eq)]
pub struct Location {
    pub file: String,
    pub line: usize,
    pub column: usize,
}

impl Location {
    pub fn new(file: String, line: usize, column: usize) -> (r: Self)
        ensures
            r.file == file,
            r.line == line,
            r.column == column,
    {
        Location { file, line, column }
    }
}

/// The byte indices of the newlines of `b`, in order.
pub open spec fn newline_indices(b: Seq<u8>) -> Seq<usize>
    decreases b.len(),
{
    if b.len() == 0 {
        Seq::empty()
    } else if b.last() == 10u8 {
        newline_indices(b.drop_last()).push((b.len() - 1) as usize)
    } else {
        newline_indices(b.drop_last())
    }
}

/// The byte index of the last byte of every line of `b`: each newline, and the last byte of
/// `b` when it does not end in a newline.
pub open spec fn line_ends(b: Seq<u8>) -> Seq<usize> {
    if b.len() > 0 && b.last() != 10u8 {
        newline_indices(b).push((b.len() - 1) as usize)
    } else {
        newline_indices(b)
    }
}

/// Whether the entries of `s` strictly increase.
pub open spec fn strictly_increasing(s: Seq<usize>) -> bool {
    forall|i: int, j: int| 0 <= i < j < s.len() ==> s[i] < s[j]
}

/// Finds the line of a byte index into a string, and the byte index of a line and column.
///
/// Newlines never split a character, so byte indices of newlines are the same whatever the
/// encoding of the rest.
pub struct LineIndex {
    /// The byte index of the last byte of each line.
    newlines: Vec<usize>,
}

impl View for LineIndex {
    type V = Seq<usize>;

    closed spec fn view(&self) -> Seq<usize> {
        self.newlines@
    }
}

proof fn lemma_newline_indices_bounded(b: Seq<u8>)
    requires
        b.len() <= usize::MAX,
    ensures
        newline_indices(b).len() <= b.len(),
        forall|k: int| 0 <= k < newline_indices(b).len() ==> newline_indices(b)[k] < b.len(),
        forall|k: int| 0 <= k < newline_indices(b).len() ==> b[newline_indices(b)[k] as int] == 10u8,
        strictly_increasing(newline_indices(b)),
    decreases b.len(),
{
    if b.len() > 0 {
        let init = b.drop_last();
        lemma_newline_indices_bounded(init);
        let prev = newline_indices(init);
        assert forall|k: int| 0 <= k < prev.len() implies b[prev[k] as int] == 10u8 by {
            assert(b[prev[k] as int] == init[prev[k] as int]);
        }
        if b.last() == 10u8 {
            let cur = prev.push((b.len() - 1) as usize);
            assert forall|i: int, j: int| 0 <= i < j < cur.len() implies cur[i] < cur[j] by {
                assert(cur[i] == prev[i]);
                if j < prev.len() {
                    assert(cur[j] == prev[j]);
                }
            }
            assert forall|k: int| 0 <= k < cur.len() implies b[cur[k] as int] == 10u8 by {
                if k < prev.len() {
                    assert(cur[k] == prev[k]);
                }
            }
        }
    }
}

impl LineIndex {
    #[verifier::type_invariant]
    closed spec fn inv(&self) -> bool {
        &&& strictly_increasing(self.newlines@)
        &&& self.newlines@.len() < usize::MAX
    }

    pub fn new(s: &str) -> (r: Self)
        requires
            s.spec_bytes().len() < usize::MAX,
        ensures
            r@ == line_ends(s.spec_bytes()),
    {
        let bytes = s.as_bytes();
        let ghost b = s.spec_bytes();
        let mut newlines: Vec<usize> = Vec::new();
        let mut i: usize = 0;
        while i < bytes.len()
            invariant
                bytes@ == b,
                i <= b.len(),
                newlines@ == newline_indices(b.take(i as int)),
            decreases b.len() - i,
        {
            proof {
                assert(b.take(i + 1).drop_last() =~= b.take(i as int));
            }
            if bytes[i] == 10u8 {
                newlines.push(i);
            }
            i = i + 1;
        }
        proof {
            assert(b.take(b.len() as int) =~= b);
            lemma_newline_indices_bounded(b);
        }
        if bytes.len() > 0 && bytes[bytes.len() - 1] != 10u8 {
            let ghost prev = newlines@;
            proof {
                lemma_newline_indices_bounded(b.drop_last());
                assert(newline_indices(b) == newline_indices(b.drop_last()));
            }
            newlines.push(bytes.len() - 1);
            proof {
                assert forall|i: int, j: int| 0 <= i < j < newlines@.len() implies newlines@[i]
                    < newlines@[j] by {
                    if j == prev.len() {
                        assert(b[prev[i] as int] == 10u8);
                    } else {
                        assert(newlines@[i] == prev[i] && newlines@[j] == prev[j]);
                    }
                }
            }
        }
        LineIndex { newlines }
    }

    /// The 1-based line of a byte index. An index of a newline belongs to the line that the
    /// newline ends.
    pub fn line(&self, index: usize) -> (r: usize)
        ensures
            1 <= r <= self@.len() + 1,
            forall|k: int| 0 <= k < r - 1 ==> self@[k] < index,
            forall|k: int| r - 1 <= k < self@.len() ==> self@[k] >= index,
    {
        proof {
            use_type_invariant(self);
        }
        let mut low: usize = 0;
        let mut high: usize = self.newlines.len();
        while low < high
            invariant
                strictly_increasing(self.newlines@),
                low <= high <= self.newlines@.len(),
                forall|k: int| 0 <= k < low ==> self.newlines@[k] < index,
                forall|k: int| high <= k < self.newlines@.len() ==> self.newlines@[k] >= index,
            decreases high - low,
        {
            let mid = low + (high - low) / 2;
            if self.newlines[mid] < index {
                low = mid + 1;
            } else {
                high = mid;
            }
        }
        low + 1
    }

    /// The number of lines.
    pub fn line_count(&self) -> (r: usize)
        ensures
            r == self@.len(),
    {
        self.newlines.len()
    }

    /// The byte index of a 1-based line and column.
    pub fn fromlinecolumn(&self, line: usize, column: usize) -> (r: usize)
        requires
            line >= 1,
            column >= 1,
            line >= 2 ==> line - 2 < self@.len() && self@[line - 2] + column <= usize::MAX,
        ensures
            line == 1 ==> r == column - 1,
            line >= 2 ==> r == self@[line - 2] + column,
    {
        if line == 1 {
            column - 1
        } else {
            self.newlines[line - 2] + column
        }
    }
}

} // verus!

//! A range of indexes together with the text that it is a range of.

use vstd::prelude::*;
use vstd::string::*;
use vstd::utf8::*;
use crate::utils::parse::Span;
use crate::utils::scan::boundary;
use crate::utils::slice::{
    compare_range, compare_range_no_case, lemma_boundary_in_prefix, spec_compare,
    spec_compare_no_case, CompareResult,
};

verus! {

/// A range of a text that is borrowed from its owner.
#[derive(Clone, Copy, Debug, PartialEq)]
pub struct StringAndSlice<'a> {
    pub string: &'a String,
    pub slice: Span,
}

impl<'a> StringAndSlice<'a> {
    /// The bytes of the whole text.
    pub open spec fn source(&self) -> Seq<u8> {
        encode_utf8(self.string@)
    }

    /// The range lies inside the text, between two characters at either end.
    pub open spec fn wf(&self) -> bool {
        &&& self.slice.start <= self.slice.end
        &&& boundary(self.source(), self.slice.start as int)
        &&& boundary(self.source(), self.slice.end as int)
    }

    /// The range that covers the whole of `string`.
    pub fn from(string: &'a String) -> (r: Self)
        ensures
            r.string == string,
            r.slice.start == 0,
            r.slice.end == r.source().len(),
            r.wf(),
    {
        proof {
            encode_utf8_valid_utf8(string@);
            is_char_boundary_start_end_of_seq(encode_utf8(string@));
        }
        Self { string, slice: Span { start: 0, end: string.as_str().as_bytes().len() } }
    }

    /// Number of bytes covered.
    pub fn len(&self) -> (r: usize)
        requires
            self.slice.start <= self.slice.end,
        ensures
            r == self.slice.end - self.slice.start,
    {
        self.slice.end - self.slice.start
    }

    /// The smallest range that covers both `self` and `other`.
    pub fn spanning(&self, other: &Self) -> (r: Self)
        ensures
            r.string == self.string,
            r.slice.start == if self.slice.start <= other.slice.start {
                self.slice.start
            } else {
                other.slice.start
            },
            r.slice.end == if self.slice.end >= other.slice.end {
                self.slice.end
            } else {
                other.slice.end
            },
    {
        let start = if self.slice.start <= other.slice.start {
            self.slice.start
        } else {
            other.slice.start
        };
        let end = if self.slice.end >= other.slice.end {
            self.slice.end
        } else {
            other.slice.end
        };
        Self { string: self.string, slice: Span { start, end } }
    }

    /// The range from `start` to `end`, both counted from the start of
    /// `self`; without an `end`, up to the end of `self`.
    pub fn slice_range(&self, start: usize, end: Option<usize>) -> (r: Self)
        requires
            self.slice.start + start <= usize::MAX,
            end matches Some(e) ==> self.slice.start + e <= usize::MAX,
        ensures
            r.string == self.string,
            r.slice.start == self.slice.start + start,
            r.slice.end == match end {
                Some(e) => self.slice.start + e,
                None => self.slice.end as int,
            },
    {
        let new_end = match end {
            Some(e) => self.slice.start + e,
            None => self.slice.end,
        };
        Self { string: self.string, slice: Span { start: self.slice.start + start, end: new_end } }
    }

    /// The covered text.
    pub fn as_str(&self) -> (r: &'a str)
        requires
            self.wf(),
        ensures
            r.spec_bytes() == self.source().subrange(
                self.slice.start as int,
                self.slice.end as int,
            ),
    {
        let whole = self.string.as_str();
        let (head, _) = whole.split_at(self.slice.end);
        proof {
            encode_utf8_valid_utf8(self.string@);
            valid_utf8_split(self.source(), self.slice.end as int);
            lemma_boundary_in_prefix(
                self.source(),
                self.slice.start as int,
                self.slice.end as int,
            );
        }
        let (_, r) = head.split_at(self.slice.start);
        assert(r.spec_bytes() =~= self.source().subrange(
            self.slice.start as int,
            self.slice.end as int,
        ));
        r
    }

    /// Number of bytes of input that are left.
    pub fn input_len(&self) -> (r: usize)
        requires
            self.slice.start <= self.slice.end,
        ensures
            r == self.slice.end - self.slice.start,
    {
        self.len()
    }

    /// The first `count` bytes.
    pub fn take(&self, count: usize) -> (r: Self)
        requires
            self.slice.start + count <= usize::MAX,
        ensures
            r.string == self.string,
            r.slice.start == self.slice.start,
            r.slice.end == self.slice.start + count,
    {
        self.slice_range(0, Some(count))
    }

    /// Splits after `count` bytes: what is left comes first, what was taken
    /// second.
    pub fn take_split(&self, count: usize) -> (r: (Self, Self))
        requires
            self.slice.start + count <= usize::MAX,
        ensures
            r.0.string == self.string,
            r.0.slice.start == self.slice.start + count,
            r.0.slice.end == self.slice.end,
            r.1.string == self.string,
            r.1.slice.start == self.slice.start,
            r.1.slice.end == self.slice.start + count,
    {
        (self.slice_range(count, None), self.slice_range(0, Some(count)))
    }

    /// Compares the start of the covered text with a literal.
    pub fn compare(&self, t: &str) -> (r: CompareResult)
        requires
            self.slice.start <= self.slice.end <= self.source().len(),
        ensures
            r == spec_compare(
                self.source().subrange(self.slice.start as int, self.slice.end as int),
                t.spec_bytes(),
            ),
    {
        compare_range(self.string.as_str().as_bytes(), self.slice.start, self.slice.end, t)
    }

    /// Compares the start of the covered text with a literal, character by
    /// character, whatever the case of the letters.
    pub fn compare_no_case(&self, t: &str) -> (r: CompareResult)
        requires
            self.wf(),
        ensures
            r == spec_compare_no_case(
                self.source(),
                self.slice.start as int,
                self.slice.end as int,
                t.spec_bytes(),
            ),
    {
        compare_range_no_case(self.string.as_str(), self.slice.start, self.slice.end, t)
    }

    /// How far into `self` the range `second` starts.
    pub fn offset(&self, second: &Self) -> (r: usize)
        requires
            self.slice.start <= second.slice.start,
        ensures
            r == second.slice.start - self.slice.start,
    {
        second.slice.start - self.slice.start
    }
}

} // verus!

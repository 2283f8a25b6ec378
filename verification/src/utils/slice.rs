use std::rc::Rc;
use vstd::prelude::*;
use vstd::string::*;
use vstd::utf8::*;
use crate::utils::scan::{
    boundary, char_at, differ_no_case, differs_no_case, lemma_inside_character, lemma_step,
    next_char, width_at,
};

verus! {

/// `Rc::clone`: another handle to the same allocation, so the value behind
/// the result is the value behind the argument.
#[verifier::external_body]
pub(crate) fn share<T>(shared: &Rc<T>) -> (r: Rc<T>)
    ensures
        r == *shared,
{
    Rc::clone(shared)
}

/// A half-open byte range `start..end` into a shared, immutable source text.
#[derive(Debug, Eq)]
pub struct Slice {
    pub full_string: Rc<String>,
    pub start: usize,
    pub end: usize,
}

impl Slice {
    /// The UTF-8 bytes of the whole backing text.
    pub open spec fn source(&self) -> Seq<u8> {
        encode_utf8(self.full_string@)
    }

    /// The range lies inside the text.
    pub open spec fn in_bounds(&self) -> bool {
        self.start <= self.end <= self.source().len()
    }

    /// The range lies inside the text and both of its ends fall between
    /// characters, so the range is itself a piece of text.
    pub open spec fn wf(&self) -> bool {
        &&& self.in_bounds()
        &&& is_char_boundary(self.source(), self.start as int)
        &&& is_char_boundary(self.source(), self.end as int)
    }

    /// The bytes the range covers; empty when the range is not inside the text.
    pub open spec fn bytes(&self) -> Seq<u8> {
        range_of(self.source(), self.start as int, self.end as int)
    }

    /// The range that covers the whole of `full_string`.
    pub fn new(full_string: Rc<String>) -> (r: Self)
        ensures
            r.full_string == full_string,
            r.start == 0,
            r.end == r.source().len(),
            r.wf(),
    {
        let end = full_string.as_str().as_bytes().len();
        proof {
            encode_utf8_valid_utf8(full_string@);
            is_char_boundary_start_end_of_seq(encode_utf8(full_string@));
        }
        Self { full_string, start: 0, end }
    }

    /// Number of bytes covered.
    pub fn len(&self) -> (r: usize)
        requires
            self.start <= self.end,
        ensures
            r == self.end - self.start,
    {
        self.end - self.start
    }

    /// Range containment: every position of `other` is a position of `self`.
    pub fn contains(&self, other: &Slice) -> (r: bool)
        ensures
            r == (self.start <= other.start && other.end <= self.end),
    {
        self.start <= other.start && self.end >= other.end
    }

    /// The smallest range of the text of `self` that covers both `self`
    /// and `other`.
    pub open spec fn spec_join(self, other: Slice) -> Slice {
        Slice {
            full_string: self.full_string,
            start: if self.start <= other.start {
                self.start
            } else {
                other.start
            },
            end: if self.end >= other.end {
                self.end
            } else {
                other.end
            },
        }
    }

    /// The smallest range that covers both `self` and `other`.
    pub fn join(self, other: &Slice) -> (r: Slice)
        ensures
            r == self.spec_join(*other),
    {
        let start = if self.start <= other.start { self.start } else { other.start };
        let end = if self.end >= other.end { self.end } else { other.end };
        Self { full_string: self.full_string, start, end }
    }

    /// The range from `start` to `end`, both counted from the start of
    /// `self`; without an `end`, up to the end of `self`.
    pub fn slice_range(self, start: usize, end: Option<usize>) -> (r: Slice)
        requires
            self.start + start <= usize::MAX,
            end matches Some(e) ==> self.start + e <= usize::MAX,
        ensures
            r.full_string == self.full_string,
            r.start == self.start + start,
            r.end == match end {
                Some(e) => self.start + e,
                None => self.end as int,
            },
    {
        let new_end = match end {
            Some(e) => self.start + e,
            None => self.end,
        };
        Self { full_string: self.full_string, start: self.start + start, end: new_end }
    }

    /// Number of bytes of input that are left.
    pub fn input_len(&self) -> (r: usize)
        requires
            self.start <= self.end,
        ensures
            r == self.end - self.start,
    {
        self.len()
    }

    /// The first `count` bytes.
    pub fn take(&self, count: usize) -> (r: Slice)
        requires
            self.start + count <= usize::MAX,
        ensures
            r.full_string == self.full_string,
            r.start == self.start,
            r.end == self.start + count,
    {
        self.clone().slice_range(0, Some(count))
    }

    /// Splits after `count` bytes: what is left comes first, what was taken
    /// second.
    pub fn take_split(&self, count: usize) -> (r: (Slice, Slice))
        requires
            self.start + count <= usize::MAX,
        ensures
            r.0.full_string == self.full_string,
            r.0.start == self.start + count,
            r.0.end == self.end,
            r.1.full_string == self.full_string,
            r.1.start == self.start,
            r.1.end == self.start + count,
    {
        (self.clone().slice_range(count, None), self.clone().slice_range(0, Some(count)))
    }

    /// How far into `self` the range `second` starts.
    pub fn offset(&self, second: &Slice) -> (r: usize)
        requires
            self.start <= second.start,
        ensures
            r == second.start - self.start,
    {
        second.start - self.start
    }

    /// Compares the start of the covered text with a literal.
    pub fn compare(&self, t: &str) -> (r: CompareResult)
        requires
            self.in_bounds(),
        ensures
            r == spec_compare(self.bytes(), t.spec_bytes()),
    {
        compare_range(self.full_string.as_str().as_bytes(), self.start, self.end, t)
    }

    /// Compares the start of the covered text with a literal, character by
    /// character, whatever the case of the letters.
    pub fn compare_no_case(&self, t: &str) -> (r: CompareResult)
        requires
            self.wf(),
        ensures
            r == spec_compare_no_case(
                self.source(),
                self.start as int,
                self.end as int,
                t.spec_bytes(),
            ),
    {
        compare_range_no_case(self.full_string.as_str(), self.start, self.end, t)
    }

    /// What is left of the range from `start` on, counted from the start of
    /// `self`.
    pub fn slice_from(&self, start: usize) -> (r: Slice)
        requires
            self.start + start <= usize::MAX,
        ensures
            r.full_string == self.full_string,
            r.start == self.start + start,
            r.end == self.end,
    {
        self.clone().slice_range(start, None)
    }

    /// How far into the range the first character stands that `predicate`
    /// accepts; nothing where it accepts none.
    pub fn position<P: Fn(char) -> bool>(&self, predicate: P) -> (r: Option<usize>)
        requires
            self.wf(),
            forall|c: char| predicate.requires((c,)),
        ensures
            match r {
                Some(at) => {
                    &&& self.start + at < self.end
                    &&& refused(self.source(), self.start as int, self.start + at, predicate)
                    &&& predicate.ensures((char_at(self.source(), self.start + at),), true)
                },
                None => refused(self.source(), self.start as int, self.end as int, predicate),
            },
    {
        let text = self.full_string.as_str();
        let mut at = self.start;
        while at < self.end
            invariant
                self.wf(),
                text@ == self.full_string@,
                self.start <= at <= self.end,
                boundary(self.source(), at as int),
                forall|c: char| predicate.requires((c,)),
                refused(self.source(), self.start as int, at as int, predicate),
            decreases self.end - at,
        {
            proof {
                encode_utf8_valid_utf8(self.full_string@);
                lemma_step(self.source(), at as int);
                lemma_inside_character(self.source(), at as int, self.end as int);
            }
            let (c, next) = next_char(text, at);
            if predicate(c) {
                return Some(at - self.start);
            }
            proof {
                lemma_refused_more(self.source(), self.start as int, at as int, predicate);
            }
            at = next;
        }
        None
    }

    /// How far into the range the character number `count` starts, the
    /// first being number 0, or the range ends where it has just `count`
    /// characters; nothing where it has fewer.
    pub fn slice_index(&self, count: usize) -> (r: Option<usize>)
        requires
            self.wf(),
        ensures
            match r {
                Some(at) => self.start + at <= self.end && steps(
                    self.source(),
                    self.start as int,
                    self.start + at,
                ) == Some(count as nat),
                None => steps(self.source(), self.start as int, self.end as int) matches Some(n)
                    && n < count,
            },
    {
        let text = self.full_string.as_str();
        let mut at = self.start;
        let mut seen: usize = 0;
        proof {
            encode_utf8_valid_utf8(self.full_string@);
        }
        while at < self.end && seen < count
            invariant
                self.wf(),
                valid_utf8(self.source()),
                text@ == self.full_string@,
                self.start <= at <= self.end,
                boundary(self.source(), at as int),
                seen <= count,
                steps(self.source(), self.start as int, at as int) == Some(seen as nat),
            decreases self.end - at,
        {
            proof {
                lemma_step(self.source(), at as int);
                lemma_inside_character(self.source(), at as int, self.end as int);
                lemma_steps_more(self.source(), self.start as int, at as int);
            }
            let (_, next) = next_char(text, at);
            at = next;
            seen += 1;
        }
        if seen == count {
            Some(at - self.start)
        } else {
            None
        }
    }

    /// A cursor over the characters of the range, each with the position
    /// in the whole text at which it starts.
    pub fn iter_indices(&self) -> (r: SliceCharIndices)
        requires
            self.wf(),
        ensures
            r.wf(),
            r.source() == self.source(),
            r.position() == self.start,
            r.limit() == self.end,
    {
        SliceCharIndices { code: share(&self.full_string), index: self.start, end: self.end }
    }

    /// A cursor over the characters of the range.
    pub fn iter_elements(&self) -> (r: SliceChars)
        requires
            self.wf(),
        ensures
            r.wf(),
            r.source() == self.source(),
            r.position() == self.start,
            r.limit() == self.end,
    {
        SliceChars { code: share(&self.full_string), index: self.start, end: self.end }
    }

    /// The covered text.
    pub fn as_str(&self) -> (r: &str)
        requires
            self.wf(),
        ensures
            r.spec_bytes() == self.bytes(),
            r@ == decode_utf8(self.bytes()),
    {
        let whole = self.full_string.as_str();
        let (head, _) = whole.split_at(self.end);
        proof {
            encode_utf8_valid_utf8(self.full_string@);
            valid_utf8_split(self.source(), self.end as int);
            lemma_boundary_in_prefix(self.source(), self.start as int, self.end as int);
        }
        let (_, r) = head.split_at(self.start);
        proof {
            assert(r.spec_bytes() =~= self.bytes());
            encode_utf8_decode_utf8(r@);
        }
        r
    }
}

/// From `at`, character after character up to `end`, `predicate` accepts
/// none.
pub open spec fn refused<P: Fn(char) -> bool>(text: Seq<u8>, at: int, end: int, predicate: P) -> bool
    decreases end - at,
{
    if at >= end {
        at == end
    } else if 0 < width_at(text, at) <= end - at {
        predicate.ensures((char_at(text, at),), false) && refused(
            text,
            at + width_at(text, at),
            end,
            predicate,
        )
    } else {
        false
    }
}

/// A run of refused characters with one more refused after it is a run of
/// refused characters.
pub proof fn lemma_refused_more<P: Fn(char) -> bool>(text: Seq<u8>, at: int, end: int, predicate: P)
    requires
        refused(text, at, end, predicate),
        0 < width_at(text, end),
        predicate.ensures((char_at(text, end),), false),
    ensures
        refused(text, at, end + width_at(text, end), predicate),
    decreases end - at,
{
    if at < end {
        lemma_refused_more(text, at + width_at(text, at), end, predicate);
    } else {
        assert(refused(text, end + width_at(text, end), end + width_at(text, end), predicate));
    }
}

/// How many characters lie between `at` and `end`; nothing where `end` is
/// not reached from `at` character by character.
pub open spec fn steps(text: Seq<u8>, at: int, end: int) -> Option<nat>
    decreases end - at,
{
    if at >= end {
        if at == end {
            Some(0)
        } else {
            None
        }
    } else if 0 < width_at(text, at) <= end - at {
        match steps(text, at + width_at(text, at), end) {
            Some(n) => Some(n + 1),
            None => None,
        }
    } else {
        None
    }
}

/// One character more is one step more.
pub proof fn lemma_steps_more(text: Seq<u8>, at: int, end: int)
    requires
        steps(text, at, end) is Some,
        0 < width_at(text, end),
    ensures
        steps(text, at, end + width_at(text, end)) == Some(steps(text, at, end)->0 + 1),
    decreases end - at,
{
    if at < end {
        lemma_steps_more(text, at + width_at(text, at), end);
    } else {
        assert(steps(text, end + width_at(text, end), end + width_at(text, end)) == Some(0nat));
    }
}

/// How the start of a text compares with a literal.
#[derive(Clone, Copy, Debug, PartialEq, Eq)]
pub enum CompareResult {
    /// The text starts with the literal.
    Matches,
    /// The text ends before the literal does, and agrees with it so far.
    Incomplete,
    /// The text differs from the literal.
    Differs,
}

/// Compares the bytes of `text` from `start` to `end` with a literal.
pub fn compare_range(text: &[u8], start: usize, end: usize, t: &str) -> (r: CompareResult)
    requires
        start <= end <= text@.len(),
    ensures
        r == spec_compare(text@.subrange(start as int, end as int), t.spec_bytes()),
{
    let wanted = t.as_bytes();
    let len = end - start;
    let common = if len < wanted.len() { len } else { wanted.len() };
    let ghost mine = text@.subrange(start as int, end as int);
    let mut i: usize = 0;
    while i < common
        invariant
            i <= common,
            common <= len,
            common <= wanted.len(),
            start <= end <= text@.len(),
            len == end - start,
            wanted@ == t.spec_bytes(),
            mine == text@.subrange(start as int, end as int),
            forall|k: int| 0 <= k < i ==> mine[k] == wanted@[k],
        decreases common - i,
    {
        if text[start + i] != wanted[i] {
            assert(mine[i as int] != wanted@[i as int]);
            return CompareResult::Differs;
        }
        i += 1;
    }
    if len >= wanted.len() {
        CompareResult::Matches
    } else {
        CompareResult::Incomplete
    }
}

/// The outcome of comparing the text of `text` from `start` to `end` with
/// `literal`, whatever the case of the letters: they differ where two
/// characters that meet differ in lower case; else the text matches where
/// it has as many bytes as the literal or more.
pub open spec fn spec_compare_no_case(
    text: Seq<u8>,
    start: int,
    end: int,
    literal: Seq<u8>,
) -> CompareResult {
    if differs_no_case(text, start, end, literal, 0) {
        CompareResult::Differs
    } else if end - start >= literal.len() {
        CompareResult::Matches
    } else {
        CompareResult::Incomplete
    }
}

/// Compares the text of `text` from `start` to `end` with a literal,
/// whatever the case of the letters.
pub fn compare_range_no_case(text: &str, start: usize, end: usize, t: &str) -> (r: CompareResult)
    requires
        start <= end,
        boundary(text.spec_bytes(), start as int),
        boundary(text.spec_bytes(), end as int),
    ensures
        r == spec_compare_no_case(text.spec_bytes(), start as int, end as int, t.spec_bytes()),
{
    if differ_no_case(text, start, end, t) {
        CompareResult::Differs
    } else if end - start >= t.as_bytes().len() {
        CompareResult::Matches
    } else {
        CompareResult::Incomplete
    }
}

/// The outcome of comparing `text` with `literal` from the start.
pub open spec fn spec_compare(text: Seq<u8>, literal: Seq<u8>) -> CompareResult {
    if exists|k: int| 0 <= k < text.len() && k < literal.len() && text[k] != literal[k] {
        CompareResult::Differs
    } else if text.len() >= literal.len() {
        CompareResult::Matches
    } else {
        CompareResult::Incomplete
    }
}

/// A cursor over the characters of a range that yields each with its position.
pub struct SliceCharIndices {
    code: Rc<String>,
    index: usize,
    end: usize,
}

impl SliceCharIndices {
    pub closed spec fn source(&self) -> Seq<u8> {
        encode_utf8(self.code@)
    }

    /// The position of the next character.
    pub closed spec fn position(&self) -> int {
        self.index as int
    }

    /// The position at which the cursor stops.
    pub closed spec fn limit(&self) -> int {
        self.end as int
    }

    pub closed spec fn wf(&self) -> bool {
        &&& self.index <= self.end
        &&& boundary(self.source(), self.index as int)
        &&& boundary(self.source(), self.end as int)
    }

    /// The next character with its position, or nothing at the limit.
    pub fn next(&mut self) -> (r: Option<(usize, char)>)
        requires
            old(self).wf(),
        ensures
            final(self).wf(),
            final(self).source() == old(self).source(),
            final(self).limit() == old(self).limit(),
            match r {
                None => old(self).position() == old(self).limit() && final(self).position()
                    == old(self).position(),
                Some((at, c)) => {
                    &&& at == old(self).position()
                    &&& at < old(self).limit()
                    &&& c == char_at(old(self).source(), at as int)
                    &&& final(self).position() == at + width_at(old(self).source(), at as int)
                },
            },
    {
        if self.index >= self.end {
            return None;
        }
        proof {
            encode_utf8_valid_utf8(self.code@);
            lemma_inside_character(self.source(), self.index as int, self.end as int);
        }
        let at = self.index;
        let (c, next) = next_char(self.code.as_str(), at);
        self.index = next;
        Some((at, c))
    }
}

/// A cursor over the characters of a range.
pub struct SliceChars {
    code: Rc<String>,
    index: usize,
    end: usize,
}

impl SliceChars {
    pub closed spec fn source(&self) -> Seq<u8> {
        encode_utf8(self.code@)
    }

    /// The position of the next character.
    pub closed spec fn position(&self) -> int {
        self.index as int
    }

    /// The position at which the cursor stops.
    pub closed spec fn limit(&self) -> int {
        self.end as int
    }

    pub closed spec fn wf(&self) -> bool {
        &&& self.index <= self.end
        &&& boundary(self.source(), self.index as int)
        &&& boundary(self.source(), self.end as int)
    }

    /// The next character, or nothing at the limit.
    pub fn next(&mut self) -> (r: Option<char>)
        requires
            old(self).wf(),
        ensures
            final(self).wf(),
            final(self).source() == old(self).source(),
            final(self).limit() == old(self).limit(),
            match r {
                None => old(self).position() == old(self).limit() && final(self).position()
                    == old(self).position(),
                Some(c) => {
                    &&& old(self).position() < old(self).limit()
                    &&& c == char_at(old(self).source(), old(self).position())
                    &&& final(self).position() == old(self).position() + width_at(
                        old(self).source(),
                        old(self).position(),
                    )
                },
            },
    {
        if self.index >= self.end {
            return None;
        }
        proof {
            encode_utf8_valid_utf8(self.code@);
            lemma_inside_character(self.source(), self.index as int, self.end as int);
        }
        let (c, next) = next_char(self.code.as_str(), self.index);
        self.index = next;
        Some(c)
    }
}

/// What has a place in the source text.
pub trait Slicable {
    /// The range that `self` occupies.
    spec fn spec_slice(&self) -> Slice;

    fn slice(&self) -> (r: &Slice)
        ensures
            *r == self.spec_slice(),
    ;
}

impl Slicable for Slice {
    open spec fn spec_slice(&self) -> Slice {
        *self
    }

    fn slice(&self) -> (r: &Slice) {
        self
    }
}

/// The smallest range that covers both `first` and `other`.
pub fn spanning<A: Slicable, B: Slicable>(first: &A, other: &B) -> (r: Slice)
    ensures
        r == first.spec_slice().spec_join(other.spec_slice()),
{
    let this_slice = first.slice().clone();
    let other_slice = other.slice();
    this_slice.join(other_slice)
}

/// The join of two ranges covers both, and every range that covers both
/// covers their join.
pub proof fn lemma_join_is_least(a: Slice, b: Slice, outer: Slice)
    ensures
        a.spec_join(b).start <= a.start && a.end <= a.spec_join(b).end,
        a.spec_join(b).start <= b.start && b.end <= a.spec_join(b).end,
        outer.start <= a.start && a.end <= outer.end && outer.start <= b.start && b.end
            <= outer.end ==> outer.start <= a.spec_join(b).start && a.spec_join(b).end
            <= outer.end,
{
}

/// A boundary of a text is a boundary of each prefix that reaches it.
pub proof fn lemma_boundary_in_prefix(bytes: Seq<u8>, i: int, j: int)
    requires
        valid_utf8(bytes),
        0 <= i <= j <= bytes.len(),
        is_char_boundary(bytes, i),
        is_char_boundary(bytes, j),
    ensures
        is_char_boundary(bytes.subrange(0, j), i),
{
    valid_utf8_split(bytes, j);
    let prefix = bytes.subrange(0, j);
    if i == j {
        is_char_boundary_start_end_of_seq(prefix);
    } else {
        is_char_boundary_iff_not_is_continuation_byte(bytes, i);
        is_char_boundary_iff_not_is_continuation_byte(prefix, i);
    }
}

/// The bytes of `text` from `start` up to `end`; none when that is no range
/// of `text`.
pub open spec fn range_of(text: Seq<u8>, start: int, end: int) -> Seq<u8> {
    if 0 <= start <= end <= text.len() {
        text.subrange(start, end)
    } else {
        Seq::empty()
    }
}

/// Whether two ranges, each of its own text, hold the same bytes.
pub fn ranges_equal(
    a: &[u8],
    a_start: usize,
    a_end: usize,
    b: &[u8],
    b_start: usize,
    b_end: usize,
) -> (r: bool)
    ensures
        r == (range_of(a@, a_start as int, a_end as int) == range_of(
            b@,
            b_start as int,
            b_end as int,
        )),
{
    let a_ok = a_start <= a_end && a_end <= a.len();
    let b_ok = b_start <= b_end && b_end <= b.len();
    let a_len: usize = if a_ok { a_end - a_start } else { 0 };
    let b_len: usize = if b_ok { b_end - b_start } else { 0 };
    let ghost left = range_of(a@, a_start as int, a_end as int);
    let ghost right = range_of(b@, b_start as int, b_end as int);
    assert(left.len() == a_len && right.len() == b_len);
    if a_len != b_len {
        return false;
    }
    let mut i: usize = 0;
    while i < a_len
        invariant
            i <= a_len,
            a_len == b_len,
            a_len > 0 ==> a_ok && b_ok,
            a_ok ==> a_start <= a_end <= a.len() && a_len == a_end - a_start,
            b_ok ==> b_start <= b_end <= b.len() && b_len == b_end - b_start,
            left == range_of(a@, a_start as int, a_end as int),
            right == range_of(b@, b_start as int, b_end as int),
            left.len() == a_len,
            right.len() == b_len,
            forall|k: int| 0 <= k < i ==> left[k] == right[k],
        decreases a_len - i,
    {
        if a[a_start + i] != b[b_start + i] {
            assert(left[i as int] != right[i as int]);
            return false;
        }
        i += 1;
    }
    assert(left =~= right);
    true
}

impl PartialEq for Slice {
    /// Two ranges are equal when they cover the same text, wherever they lie.
    fn eq(&self, other: &Self) -> (r: bool) {
        ranges_equal(
            self.full_string.as_str().as_bytes(),
            self.start,
            self.end,
            other.full_string.as_str().as_bytes(),
            other.start,
            other.end,
        )
    }
}

impl vstd::std_specs::cmp::PartialEqSpecImpl for Slice {
    open spec fn obeys_eq_spec() -> bool {
        true
    }

    open spec fn eq_spec(&self, other: &Self) -> bool {
        self.bytes() == other.bytes()
    }
}

impl Clone for Slice {
    fn clone(&self) -> (r: Self)
        ensures
            r == *self,
    {
        Slice { full_string: share(&self.full_string), start: self.start, end: self.end }
    }
}

} // verus!

//! Reading a text by index: steps that give what they read together with
//! the index after it.

use vstd::prelude::*;
use vstd::string::*;
use vstd::utf8::*;
use crate::utils::scan::{
    boundary, char_at, is_whitespace, lemma_step, next_char, white_space, width_at,
};

verus! {

/// What a step read, and the index after it.
#[derive(Clone, Debug, PartialEq)]
pub struct ParsedAndIndex<T> {
    pub parsed: T,
    pub index: usize,
}

impl<T> ParsedAndIndex<T> {
    /// The same index with `cb` applied to what was read.
    pub fn map<R, F: FnOnce(T) -> R>(self, cb: F) -> (r: ParsedAndIndex<R>)
        requires
            cb.requires((self.parsed,)),
        ensures
            cb.ensures((self.parsed,), r.parsed),
            r.index == self.index,
    {
        ParsedAndIndex { parsed: cb(self.parsed), index: self.index }
    }

    /// The same index with `cb` applied to what was read.
    pub fn map_parsed<R, F: FnOnce(T) -> R>(self, cb: F) -> (r: ParsedAndIndex<R>)
        requires
            cb.requires((self.parsed,)),
        ensures
            cb.ensures((self.parsed,), r.parsed),
            r.index == self.index,
    {
        ParsedAndIndex { parsed: cb(self.parsed), index: self.index }
    }
}

/// A range of indexes.
#[derive(Clone, Copy, Debug, PartialEq, Eq)]
pub struct Span {
    pub start: usize,
    pub end: usize,
}

/// A value with the range of text that it was read from, where it was
/// read from text.
#[derive(Debug, Clone, PartialEq)]
pub struct Sourced<T> {
    pub ast: T,
    pub span: Option<Span>,
}

impl<T> Sourced<T> {
    /// The same range with `cb` applied to the value.
    pub fn map<R, F: FnOnce(T) -> R>(self, cb: F) -> (r: Sourced<R>)
        requires
            cb.requires((self.ast,)),
        ensures
            cb.ensures((self.ast,), r.ast),
            r.span == self.span,
    {
        Sourced { ast: cb(self.ast), span: self.span }
    }
}

/// What can be given a place in the text.
pub trait Sourcable: Sized {
    /// `self` as read from `span`.
    fn spanning(self, span: Span) -> (r: Sourced<Self>)
        ensures
            r.ast == self,
            r.span == Some(span),
    ;

    /// `self` as read from nowhere.
    fn unsourced(self) -> (r: Sourced<Self>)
        ensures
            r.ast == self,
            r.span is None,
    ;
}

impl<T> Sourcable for T {
    fn spanning(self, span: Span) -> (r: Sourced<Self>) {
        Sourced { ast: self, span: Some(span) }
    }

    fn unsourced(self) -> (r: Sourced<Self>) {
        Sourced { ast: self, span: None }
    }
}

/// What went wrong while reading, and at which index.
#[derive(Debug, Clone, PartialEq, Eq)]
pub struct ParseError {
    pub msg: String,
    pub index: usize,
}

/// What a step gives: what it read, a failure, or nothing where the step
/// does not apply.
#[derive(Clone, Debug, PartialEq)]
pub enum ParseResult<T> {
    Parsed(ParsedAndIndex<T>),
    Failed(ParseError),
    Nothing,
}

impl<T> ParseResult<T> {
    /// What was read where something was read, and else nothing.
    pub fn from(opt: Option<ParsedAndIndex<T>>) -> (r: Self)
        ensures
            r == match opt {
                Some(read) => ParseResult::Parsed(read),
                None => ParseResult::Nothing,
            },
    {
        match opt {
            Some(read) => ParseResult::Parsed(read),
            None => ParseResult::Nothing,
        }
    }

    /// The same outcome with `cb` applied to what was read.
    pub fn map<R, F: FnOnce(T) -> R>(self, cb: F) -> (r: ParseResult<R>)
        requires
            self matches ParseResult::Parsed(read) ==> cb.requires((read.parsed,)),
        ensures
            match self {
                ParseResult::Parsed(read) => r matches ParseResult::Parsed(mapped) && cb.ensures(
                    (read.parsed,),
                    mapped.parsed,
                ) && mapped.index == read.index,
                ParseResult::Failed(err) => r == ParseResult::<R>::Failed(err),
                ParseResult::Nothing => r == ParseResult::<R>::Nothing,
            },
    {
        match self {
            ParseResult::Parsed(ParsedAndIndex { parsed, index }) => ParseResult::Parsed(
                ParsedAndIndex { parsed: cb(parsed), index },
            ),
            ParseResult::Failed(err) => ParseResult::Failed(err),
            ParseResult::Nothing => ParseResult::Nothing,
        }
    }

    /// The next step, taken where this one read something.
    pub fn given<R, F: FnOnce(ParsedAndIndex<T>) -> ParseResult<R>>(self, cb: F) -> (r: ParseResult<R>)
        requires
            self matches ParseResult::Parsed(read) ==> cb.requires((read,)),
        ensures
            match self {
                ParseResult::Parsed(read) => cb.ensures((read,), r),
                ParseResult::Failed(err) => r == ParseResult::<R>::Failed(err),
                ParseResult::Nothing => r == ParseResult::<R>::Nothing,
            },
    {
        match self {
            ParseResult::Parsed(read) => cb(read),
            ParseResult::Failed(err) => ParseResult::Failed(err),
            ParseResult::Nothing => ParseResult::Nothing,
        }
    }

    /// The next step, taken where this one read something; where this one
    /// did not apply, the failure `err` at `index`.
    pub fn expec<R, F: FnOnce(ParsedAndIndex<T>) -> ParseResult<R>>(
        self,
        err: &str,
        index: usize,
        cb: F,
    ) -> (r: ParseResult<R>)
        requires
            self matches ParseResult::Parsed(read) ==> cb.requires((read,)),
        ensures
            match self {
                ParseResult::Parsed(read) => cb.ensures((read,), r),
                ParseResult::Failed(failed) => r == ParseResult::<R>::Failed(failed),
                ParseResult::Nothing => r matches ParseResult::Failed(failed) && failed.msg@
                    == err@ && failed.index == index,
            },
    {
        match self {
            ParseResult::Parsed(read) => cb(read),
            ParseResult::Failed(failed) => ParseResult::Failed(failed),
            ParseResult::Nothing => ParseResult::Failed(ParseError { msg: err.to_owned(), index }),
        }
    }

    /// This outcome, or that of another step where this one did not apply.
    pub fn or<F: FnOnce() -> Self>(self, cb: F) -> (r: Self)
        requires
            self is Nothing ==> cb.requires(()),
        ensures
            match self {
                ParseResult::Nothing => cb.ensures((), r),
                _ => r == self,
            },
    {
        match self {
            ParseResult::Nothing => cb(),
            _ => self,
        }
    }

    /// The next step, taken with what this one read, or with nothing at
    /// `index` where this one did not apply.
    pub fn optional<R, F: FnOnce(ParsedAndIndex<Option<T>>) -> ParseResult<R>>(
        self,
        index: usize,
        cb: F,
    ) -> (r: ParseResult<R>)
        requires
            self matches ParseResult::Parsed(read) ==> cb.requires(
                ((ParsedAndIndex { parsed: Some(read.parsed), index: read.index }),),
            ),
            self is Nothing ==> cb.requires(((ParsedAndIndex { parsed: None, index }),)),
        ensures
            match self {
                ParseResult::Parsed(read) => cb.ensures(
                    ((ParsedAndIndex { parsed: Some(read.parsed), index: read.index }),),
                    r,
                ),
                ParseResult::Failed(err) => r == ParseResult::<R>::Failed(err),
                ParseResult::Nothing => cb.ensures(((ParsedAndIndex { parsed: None, index }),), r),
            },
    {
        match self {
            ParseResult::Parsed(read) => cb(
                ParsedAndIndex { parsed: Some(read.parsed), index: read.index },
            ),
            ParseResult::Failed(err) => ParseResult::Failed(err),
            ParseResult::Nothing => cb(ParsedAndIndex { parsed: None, index }),
        }
    }

    /// What was read.
    pub fn unwrap(self) -> (r: T)
        requires
            self is Parsed,
        ensures
            self matches ParseResult::Parsed(read) && r == read.parsed,
    {
        match self {
            ParseResult::Parsed(read) => read.parsed,
            _ => vstd::pervasive::unreached(),
        }
    }
}

/// The decimal digits of `n`.
pub open spec fn decimal(n: nat) -> Seq<char>
    decreases n,
{
    let last = ((n % 10) as u8 + 48) as char;
    if n < 10 {
        seq![last]
    } else {
        decimal(n / 10).push(last)
    }
}

/// `format!` of an index, written in decimal, and a message, after fixed
/// words and with `: ` between them.
#[verifier::external_body]
fn error_line(index: usize, msg: &str) -> (r: String)
    ensures
        r@ == "Parse error at index "@ + decimal(index as nat) + ": "@ + msg@,
{
    format!("Parse error at index {}: {}", index, msg)
}

impl ParseError {
    /// The error as a line of text.
    pub fn to_string(&self) -> (r: String)
        ensures
            r@ == "Parse error at index "@ + decimal(self.index as nat) + ": "@ + self.msg@,
    {
        error_line(self.index, self.msg.as_str())
    }
}

/// `index` is a place in `code` between two characters.
pub open spec fn at_char(code: &str, index: int) -> bool {
    boundary(code.spec_bytes(), index)
}

/// An ASCII capital as its small letter, any other character as itself.
pub open spec fn lower(c: char) -> char {
    if 'A' <= c <= 'Z' {
        ((c as u8) + 32) as char
    } else {
        c
    }
}

/// Whether the characters of `s` stand in `code` at `index`, capitals and
/// small letters of ASCII taken as the same.
pub open spec fn stands_at(code: Seq<u8>, index: int, s: Seq<u8>) -> bool {
    s.len() == 0 || {
        &&& 0 <= index
        &&& index + s.len() <= code.len()
        &&& forall|k: int| 0 <= k < s.len() ==> fold(#[trigger] code[index + k]) == fold(s[k])
    }
}

/// An ASCII capital as its small letter, any other byte as itself.
pub open spec fn fold(b: u8) -> u8 {
    if 65 <= b <= 90 {
        (b + 32) as u8
    } else {
        b
    }
}

/// An ASCII capital as its small letter, any other byte as itself.
pub fn fold_byte(b: u8) -> (r: u8)
    ensures
        r == fold(b),
{
    if 65 <= b && b <= 90 {
        b + 32
    } else {
        b
    }
}

/// Reads `s` at `index`, byte by byte, whatever the case of its ASCII
/// letters. Gives `s` and the index after it. The empty text stands at
/// every index, also past the end.
pub fn consume<'a>(code: &'a str, index: usize, s: &'static str) -> (r: ParseResult<&'a str>)
    ensures
        match r {
            ParseResult::Parsed(read) => stands_at(
                code.spec_bytes(),
                index as int,
                s.spec_bytes(),
            ) && read.parsed@ == s@ && read.index == index + s.spec_bytes().len(),
            ParseResult::Nothing => !stands_at(code.spec_bytes(), index as int, s.spec_bytes()),
            ParseResult::Failed(_) => false,
        },
{
    let text = code.as_bytes();
    let wanted = s.as_bytes();
    if wanted.len() == 0 {
        return ParseResult::Parsed(ParsedAndIndex { parsed: s, index });
    }
    if index > text.len() || wanted.len() > text.len() - index {
        return ParseResult::Nothing;
    }
    let mut k: usize = 0;
    while k < wanted.len()
        invariant
            k <= wanted.len(),
            index + wanted.len() <= text.len(),
            text@ == code.spec_bytes(),
            wanted@ == s.spec_bytes(),
            forall|j: int| 0 <= j < k ==> fold(#[trigger] text@[index + j]) == fold(wanted@[j]),
        decreases wanted.len() - k,
    {
        if fold_byte(text[index + k]) != fold_byte(wanted[k]) {
            assert(fold(code.spec_bytes()[index + k]) != fold(s.spec_bytes()[k as int]));
            return ParseResult::Nothing;
        }
        k += 1;
    }
    ParseResult::Parsed(ParsedAndIndex { parsed: s, index: index + wanted.len() })
}

/// Whether `c` is a blank: a character with the property White_Space.
pub open spec fn blank(c: char) -> bool {
    white_space(c)
}

/// Where the blanks and comments that start at `index` end. A comment
/// starts with `comment_start` and runs to the end of its line;
/// `in_comment` says whether `index` is inside one.
pub open spec fn blanks_end(code: Seq<u8>, index: int, comment_start: char, in_comment: bool) -> int
    decreases code.len() - index,
{
    if 0 <= index < code.len() && 0 < width_at(code, index) <= code.len() - index {
        let c = char_at(code, index);
        let inside = if c == comment_start {
            true
        } else if c == '\n' {
            false
        } else {
            in_comment
        };
        if blank(c) || c == comment_start || inside {
            blanks_end(code, index + width_at(code, index), comment_start, inside)
        } else {
            index
        }
    } else {
        index
    }
}

/// Skips blanks and comments; gives the index after them, twice.
pub fn consume_whitespace_and_comments(code: &str, index: usize, comment_start: char) -> (r:
    ParseResult<usize>)
    requires
        at_char(code, index as int),
    ensures
        r matches ParseResult::Parsed(read) && read.parsed == read.index && read.index
            == blanks_end(code.spec_bytes(), index as int, comment_start, false) && index
            <= read.index <= code.spec_bytes().len() && at_char(code, read.index as int),
{
    let len = code.as_bytes().len();
    let mut at = index;
    let mut in_comment = false;
    while at < len
        invariant
            index <= at <= len,
            len == code.spec_bytes().len(),
            at_char(code, at as int),
            blanks_end(code.spec_bytes(), index as int, comment_start, false) == blanks_end(
                code.spec_bytes(),
                at as int,
                comment_start,
                in_comment,
            ),
        decreases len - at,
    {
        proof {
            encode_utf8_valid_utf8(code@);
            lemma_step(code.spec_bytes(), at as int);
        }
        let (c, next) = next_char(code, at);
        if c == comment_start {
            in_comment = true;
        } else if c == '\n' {
            in_comment = false;
        }
        let is_blank = is_whitespace(c);
        if !(is_blank || c == comment_start || in_comment) {
            return ParseResult::Parsed(ParsedAndIndex { parsed: at, index: at });
        }
        at = next;
    }
    ParseResult::Parsed(ParsedAndIndex { parsed: at, index: at })
}

/// Skips blanks and comments. With `required`, fails where there are none.
pub fn parse_whitespace_and_comments(
    code: &str,
    start_index: usize,
    comment_start: char,
    required: bool,
) -> (r: ParseResult<usize>)
    requires
        at_char(code, start_index as int),
    ensures
        ({
            let end = blanks_end(code.spec_bytes(), start_index as int, comment_start, false);
            if !required || end > start_index {
                r matches ParseResult::Parsed(read) && read.parsed == end && read.index == end
            } else {
                r matches ParseResult::Failed(err) && err.index == end && err.msg@
                    == "Expected whitespace"@
            }
        }),
{
    let index = consume_whitespace_and_comments(code, start_index, comment_start).unwrap();
    if !required || index > start_index {
        ParseResult::Parsed(ParsedAndIndex { parsed: index, index })
    } else {
        ParseResult::Failed(ParseError { msg: "Expected whitespace".to_owned(), index })
    }
}

/// Whether no character that is no blank starts at `index`: the text ends
/// at `index` or before it, or `index` lies inside a character, or a blank
/// starts there.
pub fn next_char_is_break(code: &str, index: usize) -> (r: bool)
    ensures
        r == (index >= code.spec_bytes().len() || !at_char(code, index as int) || blank(
            char_at(code.spec_bytes(), index as int),
        )),
{
    if index >= code.as_bytes().len() {
        return true;
    }
    if !code.is_char_boundary(index) {
        return true;
    }
    let (c, _) = next_char(code, index);
    is_whitespace(c)
}

/// From `at`, character after character up to `end`, `pred` accepts each
/// with its distance from `start`.
pub open spec fn accepted<F: Fn((usize, char)) -> bool>(
    code: Seq<u8>,
    start: int,
    at: int,
    end: int,
    pred: F,
) -> bool
    decreases end - at,
{
    if at >= end {
        at == end
    } else if 0 < width_at(code, at) <= end - at {
        pred.ensures((((at - start) as usize, char_at(code, at)),), true) && accepted(
            code,
            start,
            at + width_at(code, at),
            end,
            pred,
        )
    } else {
        false
    }
}

/// A run of accepted characters with one more accepted after it is a run
/// of accepted characters.
pub proof fn lemma_accepted_more<F: Fn((usize, char)) -> bool>(
    code: Seq<u8>,
    start: int,
    at: int,
    end: int,
    pred: F,
)
    requires
        accepted(code, start, at, end, pred),
        0 < width_at(code, end),
        pred.ensures((((end - start) as usize, char_at(code, end)),), true),
    ensures
        accepted(code, start, at, end + width_at(code, end), pred),
    decreases end - at,
{
    if at < end {
        lemma_accepted_more(code, start, at + width_at(code, at), end, pred);
    } else {
        assert(accepted(code, start, end + width_at(code, end), end + width_at(code, end), pred));
    }
}

/// Reads the longest run of characters that `pred` accepts, each given
/// with its distance from `start_index`. Gives the run and the index
/// after it.
pub fn consume_while<'a, F: Fn((usize, char)) -> bool>(
    code: &'a str,
    start_index: usize,
    pred: F,
) -> (r: ParseResult<&'a str>)
    requires
        at_char(code, start_index as int),
        forall|i: usize, c: char| pred.requires(((i, c),)),
    ensures
        r matches ParseResult::Parsed(read) && {
            let bytes = code.spec_bytes();
            &&& start_index <= read.index <= bytes.len()
            &&& at_char(code, read.index as int)
            &&& read.parsed.spec_bytes() == bytes.subrange(start_index as int, read.index as int)
            &&& accepted(bytes, start_index as int, start_index as int, read.index as int, pred)
            &&& read.index == bytes.len() || pred.ensures(
                (((read.index - start_index) as usize, char_at(bytes, read.index as int)),),
                false,
            )
        },
{
    let len = code.as_bytes().len();
    let mut at = start_index;
    let mut open = true;
    while open && at < len
        invariant
            start_index <= at <= len,
            len == code.spec_bytes().len(),
            at_char(code, at as int),
            at_char(code, start_index as int),
            forall|i: usize, c: char| pred.requires(((i, c),)),
            accepted(code.spec_bytes(), start_index as int, start_index as int, at as int, pred),
            !open ==> at < len && pred.ensures(
                (((at - start_index) as usize, char_at(code.spec_bytes(), at as int)),),
                false,
            ),
        decreases len - at, if open { 1int } else { 0int },
    {
        proof {
            encode_utf8_valid_utf8(code@);
            lemma_step(code.spec_bytes(), at as int);
        }
        let (c, next) = next_char(code, at);
        if pred((at - start_index, c)) {
            proof {
                lemma_accepted_more(
                    code.spec_bytes(),
                    start_index as int,
                    start_index as int,
                    at as int,
                    pred,
                );
            }
            at = next;
        } else {
            open = false;
        }
    }
    proof {
        encode_utf8_valid_utf8(code@);
        valid_utf8_split(code.spec_bytes(), at as int);
        crate::utils::slice::lemma_boundary_in_prefix(
            code.spec_bytes(),
            start_index as int,
            at as int,
        );
    }
    let (head, _) = code.split_at(at);
    let (_, run) = head.split_at(start_index);
    assert(run.spec_bytes() =~= code.spec_bytes().subrange(start_index as int, at as int));
    ParseResult::Parsed(ParsedAndIndex { parsed: run, index: at })
}

} // verus!

//! What the two grammars share: what a failed rule hands back, and the
//! literals for strings and numbers.

pub mod errors;
pub mod literal;
pub mod parse;
pub mod scan;
pub mod slice;
pub mod string_and_slice;

use vstd::prelude::*;
use vstd::string::*;
use vstd::utf8::*;
use crate::utils::scan::{boundary, has_tag, run_end, tag_at, take_while, CharClass};
use crate::utils::slice::{share, Slice};

verus! {

/// The rules that can fail. Each fails where the text does not start with
/// what it asks for.
#[derive(Clone, Copy, Debug, PartialEq, Eq)]
pub enum ErrorKind {
    /// A fixed piece of text was expected.
    Tag,
    /// At least one character of a class was expected.
    TakeWhile1,
}

/// What a failed rule says of its failure.
#[derive(Debug, Clone, PartialEq)]
pub enum RawParseErrorDetails {
    Kind(ErrorKind),
    Char(char),
}

/// A failed rule: the input from the place of the failure on, and what was
/// expected there.
#[derive(Debug, Clone, PartialEq)]
pub struct RawParseError {
    pub src: Slice,
    pub details: RawParseErrorDetails,
}

impl RawParseError {
    /// The failure of a rule of kind `kind` on `input`.
    pub fn from_error_kind(input: Slice, kind: ErrorKind) -> (r: Self)
        ensures
            r == (RawParseError { src: input, details: RawParseErrorDetails::Kind(kind) }),
    {
        Self { src: input, details: RawParseErrorDetails::Kind(kind) }
    }

    /// The failure of a rule that asked for the character `ch` on `input`.
    pub fn from_char(input: Slice, ch: char) -> (r: Self)
        ensures
            r == (RawParseError { src: input, details: RawParseErrorDetails::Char(ch) }),
    {
        Self { src: input, details: RawParseErrorDetails::Char(ch) }
    }

    /// The failure of a rule of kind `kind` on `input`, whatever went wrong
    /// outside the grammar.
    pub fn from_external_error<E>(input: Slice, kind: ErrorKind, _e: E) -> (r: Self)
        ensures
            r == (RawParseError { src: input, details: RawParseErrorDetails::Kind(kind) }),
    {
        Self { src: input, details: RawParseErrorDetails::Kind(kind) }
    }

    /// The failure of a rule that another failure came up through: the
    /// failure that came up.
    pub fn append(_input: Slice, _kind: ErrorKind, other: Self) -> (r: Self)
        ensures
            r == other,
    {
        other
    }

    /// The failure of a rule that has a name: the failure itself.
    pub fn add_context(_input: Slice, _ctx: &'static str, other: Self) -> (r: Self)
        ensures
            r == other,
    {
        other
    }
}

/// How a rule fails.
#[derive(Debug, Clone, PartialEq)]
pub enum ParseFailure {
    /// The rule does not apply here; another may.
    Error(RawParseError),
    /// The rule applies and the text breaks it: no other rule is tried.
    Failure(RawParseError),
}

/// What a rule gives: the rest of the input with what was read, or a failure.
pub type ParseResult<T> = Result<(Slice, T), ParseFailure>;

/// A failed rule by position: where, what was expected, and whether other
/// rules may still be tried.
#[derive(Clone, Copy, Debug, PartialEq, Eq)]
pub struct Fault {
    pub at: usize,
    pub kind: ErrorKind,
    pub committed: bool,
}

/// A failed rule as a mathematical value.
pub struct Miss {
    pub at: int,
    pub kind: ErrorKind,
    pub committed: bool,
}

/// What a rule makes of a text at a position: it ends at a position, or it
/// fails.
pub enum Outcome {
    Hit(int),
    Miss(Miss),
}

impl View for Fault {
    type V = Miss;

    open spec fn view(&self) -> Miss {
        Miss { at: self.at as int, kind: self.kind, committed: self.committed }
    }
}

/// A failure at `at` after which other rules may be tried.
pub open spec fn miss(at: int, kind: ErrorKind) -> Outcome {
    Outcome::Miss(Miss { at, kind, committed: false })
}

/// The same outcome, with a failure made final.
pub open spec fn cut(outcome: Outcome) -> Outcome {
    match outcome {
        Outcome::Hit(end) => Outcome::Hit(end),
        Outcome::Miss(m) => Outcome::Miss(Miss { committed: true, ..m }),
    }
}

/// What a rule that returns only a position did is what `outcome` says.
pub open spec fn agrees(r: Result<usize, Fault>, outcome: Outcome) -> bool {
    match r {
        Ok(end) => outcome == Outcome::Hit(end as int),
        Err(fault) => outcome == Outcome::Miss(fault@),
    }
}

/// The description of a kind of rule, `nom::error::ErrorKind::description`:
/// for these two kinds the name of the kind.
#[verifier::external_body]
pub(crate) fn describe(kind: ErrorKind) -> (r: String)
    ensures
        r@ == match kind {
            ErrorKind::Tag => "Tag"@,
            ErrorKind::TakeWhile1 => "TakeWhile1"@,
        },
{
    let outside = match kind {
        ErrorKind::Tag => nom::error::ErrorKind::Tag,
        ErrorKind::TakeWhile1 => nom::error::ErrorKind::TakeWhile1,
    };
    outside.description().to_owned()
}

/// `format!` of a character between `Expected '` and `'`.
#[verifier::external_body]
pub(crate) fn expected_char(ch: char) -> (r: String)
    ensures
        r@ == "Expected '"@ + seq![ch] + "'"@,
{
    format!("Expected '{}'", ch)
}

/// The message for a failed rule.
pub fn message_of(details: &RawParseErrorDetails) -> (r: String)
    ensures
        r@ == spec_message_of(*details),
{
    match details {
        RawParseErrorDetails::Kind(kind) => describe(*kind),
        RawParseErrorDetails::Char(ch) => expected_char(*ch),
    }
}

pub open spec fn spec_message_of(details: RawParseErrorDetails) -> Seq<char> {
    match details {
        RawParseErrorDetails::Kind(ErrorKind::Tag) => "Tag"@,
        RawParseErrorDetails::Kind(ErrorKind::TakeWhile1) => "TakeWhile1"@,
        RawParseErrorDetails::Char(ch) => "Expected '"@ + seq![ch] + "'"@,
    }
}

// --- The text that a rule reads ---

/// The text that rules read when their input is `input`: the backing text
/// up to the end of `input`.
pub open spec fn text_of(input: Slice) -> Seq<u8> {
    input.source().subrange(0, input.end as int)
}

/// The piece of the backing text of `input` from `start` up to `end`.
pub open spec fn piece(input: Slice, start: int, end: int) -> Slice {
    Slice { full_string: input.full_string, start: start as usize, end: end as usize }
}

/// The text that rules read when their input is `input`.
pub fn readable(input: &Slice) -> (r: &str)
    requires
        input.wf(),
    ensures
        r.spec_bytes() == text_of(*input),
        boundary(r.spec_bytes(), input.start as int),
{
    let (r, _) = input.full_string.as_str().split_at(input.end);
    proof {
        encode_utf8_valid_utf8(input.full_string@);
        crate::utils::slice::lemma_boundary_in_prefix(
            input.source(),
            input.start as int,
            input.end as int,
        );
    }
    r
}

/// The piece of the backing text of `input` from `start` up to `end`.
pub fn cut_piece(input: &Slice, start: usize, end: usize) -> (r: Slice)
    ensures
        r == piece(*input, start as int, end as int),
{
    Slice { full_string: share(&input.full_string), start, end }
}

/// A piece between two boundaries of the readable text is a piece of text.
pub proof fn lemma_piece_wf(input: Slice, start: int, end: int)
    requires
        input.wf(),
        boundary(text_of(input), start),
        boundary(text_of(input), end),
        start <= end,
    ensures
        piece(input, start, end).wf(),
{
    let whole = input.source();
    let prefix = text_of(input);
    encode_utf8_valid_utf8(input.full_string@);
    valid_utf8_split(whole, input.end as int);
    crate::utils::scan::lemma_boundary_of_prefix(whole, input.end as int, start);
    crate::utils::scan::lemma_boundary_of_prefix(whole, input.end as int, end);
}

/// The input of the rules: the range to read, and the text up to its end.
pub struct Reader<'a> {
    pub code: &'a Slice,
    pub text: &'a str,
}

impl<'a> Reader<'a> {
    pub open spec fn wf(&self) -> bool {
        self.code.wf() && self.text.spec_bytes() == text_of(*self.code)
    }

    /// The bytes that the rules read.
    pub open spec fn bytes(&self) -> Seq<u8> {
        text_of(*self.code)
    }

    /// `pos` is a place of the input between two characters.
    pub open spec fn place(&self, pos: int) -> bool {
        self.code.start <= pos <= self.code.end && boundary(self.bytes(), pos)
    }
}

/// The bytes of a piece of the readable text are the bytes of the text
/// between its ends.
pub proof fn lemma_piece_bytes(input: Slice, start: int, end: int)
    requires
        input.in_bounds(),
        0 <= start <= end <= input.end,
    ensures
        piece(input, start, end).bytes() == text_of(input).subrange(start, end),
{
    assert(piece(input, start, end).bytes() =~= text_of(input).subrange(start, end));
}

// --- Numbers ---

/// A run of digits, at least one.
pub open spec fn numeric_at(text: Seq<u8>, pos: int) -> Outcome {
    let end = run_end(text, pos, CharClass::Numeric);
    if end > pos {
        Outcome::Hit(end)
    } else {
        miss(pos, ErrorKind::TakeWhile1)
    }
}

/// Where the digits of a number start: after a `-`, when there is one.
pub open spec fn number_digits(text: Seq<u8>, pos: int) -> int {
    if has_tag(text, pos, "-".spec_bytes()) {
        pos + "-".spec_bytes().len()
    } else {
        pos
    }
}

/// A number: an optional `-`, digits, and optionally `.` and more digits.
/// Once the `.` is read the digits after it must follow.
pub open spec fn number_at(text: Seq<u8>, pos: int) -> Outcome {
    match numeric_at(text, number_digits(text, pos)) {
        Outcome::Miss(m) => Outcome::Miss(m),
        Outcome::Hit(whole) => if has_tag(text, whole, ".".spec_bytes()) {
            cut(numeric_at(text, whole + ".".spec_bytes().len()))
        } else {
            Outcome::Hit(whole)
        },
    }
}

/// Whether the number at `pos` has a fraction.
pub open spec fn number_has_fraction(text: Seq<u8>, pos: int) -> bool {
    match numeric_at(text, number_digits(text, pos)) {
        Outcome::Miss(_) => false,
        Outcome::Hit(whole) => has_tag(text, whole, ".".spec_bytes()),
    }
}

/// Reads a run of digits.
pub fn numeric_from(text: &str, pos: usize) -> (r: Result<usize, Fault>)
    requires
        boundary(text.spec_bytes(), pos as int),
    ensures
        agrees(r, numeric_at(text.spec_bytes(), pos as int)),
        r matches Ok(end) ==> pos < end && boundary(text.spec_bytes(), end as int),
{
    let end = take_while(text, pos, CharClass::Numeric);
    if end > pos {
        Ok(end)
    } else {
        Err(Fault { at: pos, kind: ErrorKind::TakeWhile1, committed: false })
    }
}

/// Reads a number; with the end, says whether it has a fraction.
pub fn number_from(text: &str, pos: usize) -> (r: Result<(usize, bool), Fault>)
    requires
        boundary(text.spec_bytes(), pos as int),
    ensures
        match r {
            Ok((end, fraction)) => number_at(text.spec_bytes(), pos as int) == Outcome::Hit(
                end as int,
            ) && fraction == number_has_fraction(text.spec_bytes(), pos as int) && pos < end
                && boundary(text.spec_bytes(), end as int),
            Err(fault) => number_at(text.spec_bytes(), pos as int) == Outcome::Miss(fault@),
        },
{
    let digits = match tag_at(text, pos, "-") {
        Some(after) => after,
        None => pos,
    };
    let whole = match numeric_from(text, digits) {
        Ok(whole) => whole,
        Err(fault) => {
            return Err(fault);
        },
    };
    match tag_at(text, whole, ".") {
        Some(after) => match numeric_from(text, after) {
            Ok(end) => Ok((end, true)),
            Err(fault) => Err(Fault { committed: true, ..fault }),
        },
        None => Ok((whole, false)),
    }
}

// --- Strings ---

/// Where the contents of a string end: before the first `"`, or at the end
/// of the text. A backslash is a character like another.
pub open spec fn string_contents_end(text: Seq<u8>, pos: int) -> int {
    run_end(text, pos, CharClass::NotQuote)
}

/// A string: `"`, contents, `"`. Once the opening quote is read the closing
/// one must follow.
pub open spec fn string_at(text: Seq<u8>, pos: int) -> Outcome {
    let quote = "\"".spec_bytes();
    if has_tag(text, pos, quote) {
        let close = string_contents_end(text, pos + quote.len());
        if has_tag(text, close, quote) {
            Outcome::Hit(close + quote.len())
        } else {
            Outcome::Miss(Miss { at: close, kind: ErrorKind::Tag, committed: true })
        }
    } else {
        miss(pos, ErrorKind::Tag)
    }
}

/// A quote is one byte.
pub proof fn lemma_quote_len()
    ensures
        "\"".spec_bytes().len() == 1,
{
    let quote = "\"";
    reveal_strlit("\"");
    assert(is_ascii(quote)) by {
        assert forall|i: int| 0 <= i < quote@.len() implies '\0' <= #[trigger] quote@[i]
            <= '\u{7f}' by {
        }
    }
    is_ascii_spec_bytes(quote);
}

/// Reads a string; with the end, gives where the contents start and end.
pub fn string_from(text: &str, pos: usize) -> (r: Result<(usize, usize, usize), Fault>)
    requires
        boundary(text.spec_bytes(), pos as int),
    ensures
        match r {
            Ok((end, open, close)) => {
                &&& string_at(text.spec_bytes(), pos as int) == Outcome::Hit(end as int)
                &&& open == pos + "\"".spec_bytes().len()
                &&& close == string_contents_end(text.spec_bytes(), open as int)
                &&& end == close + "\"".spec_bytes().len()
                &&& pos < open <= close < end
                &&& boundary(text.spec_bytes(), open as int)
                &&& boundary(text.spec_bytes(), close as int)
                &&& boundary(text.spec_bytes(), end as int)
            },
            Err(fault) => string_at(text.spec_bytes(), pos as int) == Outcome::Miss(fault@),
        },
{
    proof {
        lemma_quote_len();
    }
    let open = match tag_at(text, pos, "\"") {
        Some(open) => open,
        None => {
            return Err(Fault { at: pos, kind: ErrorKind::Tag, committed: false });
        },
    };
    let close = take_while(text, open, CharClass::NotQuote);
    match tag_at(text, close, "\"") {
        Some(end) => Ok((end, open, close)),
        None => Err(Fault { at: close, kind: ErrorKind::Tag, committed: true }),
    }
}

// --- The same rules, from input to rest of input ---

/// What is left of `input` from `pos` on.
pub open spec fn rest_of(input: Slice, pos: int) -> Slice {
    piece(input, pos, input.end as int)
}

/// The failure that `fault` is, with the input that is left at its place.
pub open spec fn failure_of(input: Slice, m: Miss) -> ParseFailure {
    let error = RawParseError {
        src: rest_of(input, m.at),
        details: RawParseErrorDetails::Kind(m.kind),
    };
    if m.committed {
        ParseFailure::Failure(error)
    } else {
        ParseFailure::Error(error)
    }
}

/// The failure that `fault` is, with the input that is left at its place.
pub fn fail(input: &Slice, fault: Fault) -> (r: ParseFailure)
    ensures
        r == failure_of(*input, fault@),
{
    let error = RawParseError {
        src: cut_piece(input, fault.at, input.end),
        details: RawParseErrorDetails::Kind(fault.kind),
    };
    if fault.committed {
        ParseFailure::Failure(error)
    } else {
        ParseFailure::Error(error)
    }
}

/// What a rule that gives the text it read makes of `input`, where
/// `outcome` is what the rule makes of the readable text at the start of
/// `input`: the rest of the input and the piece read, or the failure.
pub open spec fn lifted(input: Slice, outcome: Outcome) -> ParseResult<Slice> {
    match outcome {
        Outcome::Hit(end) => Ok((rest_of(input, end), piece(input, input.start as int, end))),
        Outcome::Miss(m) => Err(failure_of(input, m)),
    }
}

/// A string literal, quotes included.
pub fn string_literal(i: Slice) -> (r: ParseResult<Slice>)
    requires
        i.wf(),
    ensures
        r == lifted(i, string_at(text_of(i), i.start as int)),
        r matches Ok((rest, read)) ==> rest.wf() && read.wf(),
{
    let text = readable(&i);
    match string_from(text, i.start) {
        Ok((end, _, _)) => {
            proof {
                lemma_end_boundary(i);
                lemma_piece_wf(i, i.start as int, end as int);
                lemma_piece_wf(i, end as int, i.end as int);
            }
            Ok((cut_piece(&i, end, i.end), cut_piece(&i, i.start, end)))
        },
        Err(fault) => Err(fail(&i, fault)),
    }
}

/// The contents of a string: everything up to the next `"`.
pub fn string_contents(i: Slice) -> (r: ParseResult<Slice>)
    requires
        i.wf(),
    ensures
        r == lifted(i, Outcome::Hit(string_contents_end(text_of(i), i.start as int))),
        r matches Ok((rest, read)) ==> rest.wf() && read.wf(),
{
    let text = readable(&i);
    let end = take_while(text, i.start, CharClass::NotQuote);
    proof {
        lemma_end_boundary(i);
        lemma_piece_wf(i, i.start as int, end as int);
        lemma_piece_wf(i, end as int, i.end as int);
    }
    Ok((cut_piece(&i, end, i.end), cut_piece(&i, i.start, end)))
}

/// A number literal.
pub fn number_literal(i: Slice) -> (r: ParseResult<Slice>)
    requires
        i.wf(),
    ensures
        r == lifted(i, number_at(text_of(i), i.start as int)),
        r matches Ok((rest, read)) ==> rest.wf() && read.wf(),
{
    let text = readable(&i);
    match number_from(text, i.start) {
        Ok((end, _)) => {
            proof {
                lemma_end_boundary(i);
                lemma_piece_wf(i, i.start as int, end as int);
                lemma_piece_wf(i, end as int, i.end as int);
            }
            Ok((cut_piece(&i, end, i.end), cut_piece(&i, i.start, end)))
        },
        Err(fault) => Err(fail(&i, fault)),
    }
}

/// A run of digits, at least one.
pub fn numeric(i: Slice) -> (r: ParseResult<Slice>)
    requires
        i.wf(),
    ensures
        r == lifted(i, numeric_at(text_of(i), i.start as int)),
        r matches Ok((rest, read)) ==> rest.wf() && read.wf(),
{
    let text = readable(&i);
    match numeric_from(text, i.start) {
        Ok(end) => {
            proof {
                lemma_end_boundary(i);
                lemma_piece_wf(i, i.start as int, end as int);
                lemma_piece_wf(i, end as int, i.end as int);
            }
            Ok((cut_piece(&i, end, i.end), cut_piece(&i, i.start, end)))
        },
        Err(fault) => Err(fail(&i, fault)),
    }
}

/// The end of the readable text falls between two characters.
pub proof fn lemma_end_boundary(input: Slice)
    requires
        input.wf(),
    ensures
        boundary(text_of(input), input.end as int),
        valid_utf8(text_of(input)),
{
    encode_utf8_valid_utf8(input.full_string@);
    valid_utf8_split(input.source(), input.end as int);
    is_char_boundary_start_end_of_seq(text_of(input));
}

} // verus!

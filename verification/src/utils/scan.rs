//! Reading a text one character at a time, by byte position.

use vstd::prelude::*;
use vstd::string::*;
use vstd::utf8::*;

verus! {

/// The bytes of `text` from `pos` on.
pub open spec fn tail(text: Seq<u8>, pos: int) -> Seq<u8> {
    text.subrange(pos, text.len() as int)
}

/// `pos` is a position of `text` that falls between two characters.
pub open spec fn boundary(text: Seq<u8>, pos: int) -> bool {
    0 <= pos <= text.len() && is_char_boundary(text, pos)
}

/// The character whose encoding starts at `pos`.
pub open spec fn char_at(text: Seq<u8>, pos: int) -> char {
    decode_first_scalar(tail(text, pos)) as char
}

/// The number of bytes that encode the character at `pos`.
pub open spec fn width_at(text: Seq<u8>, pos: int) -> int {
    length_of_first_scalar(tail(text, pos))
}

/// A position whose prefix is itself well-formed text falls between two
/// characters.
pub proof fn lemma_prefix_boundary(text: Seq<u8>, pos: int)
    requires
        valid_utf8(text),
        0 <= pos <= text.len(),
        valid_utf8(text.subrange(0, pos)),
    ensures
        is_char_boundary(text, pos),
    decreases text.len(),
{
    if pos != 0 {
        let prefix = text.subrange(0, pos);
        let k = length_of_first_scalar(text);
        assert(prefix[0] == text[0]);
        assert(length_of_first_scalar(prefix) == k);
        assert(k <= pos);
        assert(pop_first_scalar(prefix) =~= pop_first_scalar(text).subrange(0, pos - k));
        lemma_prefix_boundary(pop_first_scalar(text), pos - k);
    }
}

/// After a whole piece of text that starts between two characters comes
/// the next place between two characters.
pub proof fn lemma_piece_boundary(text: Seq<u8>, pos: int, next: int)
    requires
        valid_utf8(text),
        boundary(text, pos),
        pos <= next <= text.len(),
        valid_utf8(text.subrange(pos, next)),
    ensures
        boundary(text, next),
{
    valid_utf8_split(text, pos);
    valid_utf8_concat(text.subrange(0, pos), text.subrange(pos, next));
    assert(text.subrange(0, pos) + text.subrange(pos, next) =~= text.subrange(0, next));
    lemma_prefix_boundary(text, next);
}

/// From a place between two characters that is not the end, one character
/// of one to four bytes leads to the next such place.
pub proof fn lemma_step(text: Seq<u8>, pos: int)
    requires
        valid_utf8(text),
        boundary(text, pos),
        pos < text.len(),
    ensures
        valid_first_scalar(tail(text, pos)),
        1 <= width_at(text, pos) <= 4,
        pos + width_at(text, pos) <= text.len(),
        boundary(text, pos + width_at(text, pos)),
{
    valid_utf8_split(text, pos);
    let rest = tail(text, pos);
    let k = length_of_first_scalar(rest);
    assert(valid_first_scalar(rest));
    assert(valid_utf8(pop_first_scalar(rest)));
    assert(valid_utf8(take_first_scalar(rest))) by {
        reveal_with_fuel(valid_utf8, 2);
        assert(pop_first_scalar(take_first_scalar(rest)).len() == 0);
    }
    assert(take_first_scalar(rest) =~= text.subrange(pos, pos + k));
    lemma_piece_boundary(text, pos, pos + k);
}

/// No place between two characters lies inside a character.
pub proof fn lemma_inside_character(text: Seq<u8>, pos: int, other: int)
    requires
        valid_utf8(text),
        boundary(text, pos),
        boundary(text, other),
        pos < other,
    ensures
        pos + width_at(text, pos) <= other,
{
    lemma_step(text, pos);
    let rest = tail(text, pos);
    if other < pos + width_at(text, pos) {
        assert(rest[other - pos] == text[other]);
        is_char_boundary_iff_not_is_continuation_byte(text, other);
    }
}

/// The place after a byte of ASCII falls between two characters.
pub proof fn lemma_after_ascii(text: Seq<u8>, pos: int)
    requires
        valid_utf8(text),
        0 < pos <= text.len(),
        text[pos - 1] <= 0x7f,
    ensures
        boundary(text, pos),
{
    is_char_boundary_iff_not_is_continuation_byte(text, pos - 1);
    lemma_step(text, pos - 1);
    assert(tail(text, pos - 1)[0] == text[pos - 1]);
}

/// The character at `pos` and the position after it.
pub fn next_char(text: &str, pos: usize) -> (r: (char, usize))
    requires
        boundary(text.spec_bytes(), pos as int),
        pos < text.spec_bytes().len(),
    ensures
        r.0 == char_at(text.spec_bytes(), pos as int),
        r.1 == pos + width_at(text.spec_bytes(), pos as int),
        boundary(text.spec_bytes(), r.1 as int),
{
    let ghost bytes = text.spec_bytes();
    proof {
        encode_utf8_valid_utf8(text@);
        lemma_step(bytes, pos as int);
    }
    let lead = text.as_bytes()[pos];
    let width: usize = if lead <= 0x7f {
        1
    } else if 0xc0 <= lead && lead <= 0xdf {
        2
    } else if 0xe0 <= lead && lead <= 0xef {
        3
    } else {
        4
    };
    let (_, rest) = text.split_at(pos);
    let mut chars = rest.chars();
    let first = chars.next();
    proof {
        assert(rest.spec_bytes() == tail(bytes, pos as int));
        encode_utf8_decode_utf8(rest@);
        assert(tail(bytes, pos as int)[0] == bytes[pos as int]);
        assert(width == width_at(bytes, pos as int));
        let b = rest.spec_bytes();
        encode_utf8_valid_utf8(rest@);
        assert(decode_utf8(b) == seq![decode_first_scalar(b) as char] + decode_utf8(
            pop_first_scalar(b),
        ));
        assert(rest@ == decode_utf8(b));
        assert(rest@[0] == char_at(bytes, pos as int));
        assert(first == Some(rest@[0]));
    }
    match first {
        Some(c) => (c, pos + width),
        None => {
            proof {
                assert(false);
            }
            (' ', pos + width)
        },
    }
}

/// Whether the bytes of `tag` stand in `text` at `pos`.
pub open spec fn has_tag(text: Seq<u8>, pos: int, tag: Seq<u8>) -> bool {
    0 <= pos && pos + tag.len() <= text.len() && text.subrange(pos, pos + tag.len()) == tag
}

/// Compares `text` at `pos` with the literal `tag`, byte by byte, and gives
/// the position after the literal where it stands there.
pub fn tag_at(text: &str, pos: usize, tag: &str) -> (r: Option<usize>)
    requires
        boundary(text.spec_bytes(), pos as int),
    ensures
        match r {
            Some(end) => has_tag(text.spec_bytes(), pos as int, tag.spec_bytes()) && end == pos
                + tag.spec_bytes().len() && boundary(text.spec_bytes(), end as int),
            None => !has_tag(text.spec_bytes(), pos as int, tag.spec_bytes()),
        },
{
    let bytes = text.as_bytes();
    let wanted = tag.as_bytes();
    if wanted.len() > bytes.len() - pos {
        return None;
    }
    let ghost found = bytes@.subrange(pos as int, pos + wanted@.len());
    let mut i: usize = 0;
    while i < wanted.len()
        invariant
            i <= wanted.len(),
            pos + wanted.len() <= bytes.len(),
            bytes@ == text.spec_bytes(),
            wanted@ == tag.spec_bytes(),
            found == bytes@.subrange(pos as int, pos + wanted@.len()),
            forall|k: int| 0 <= k < i ==> found[k] == wanted@[k],
        decreases wanted.len() - i,
    {
        if bytes[pos + i] != wanted[i] {
            assert(found[i as int] == bytes@[pos + i]);
            assert(found != wanted@);
            return None;
        }
        i += 1;
    }
    proof {
        assert(found =~= wanted@);
        encode_utf8_valid_utf8(text@);
        encode_utf8_valid_utf8(tag@);
        lemma_piece_boundary(bytes@, pos as int, pos + wanted@.len());
    }
    Some(pos + wanted.len())
}

/// Whether two pieces of text spell the same.
pub fn same_str(a: &str, b: &str) -> (r: bool)
    ensures
        r == (a@ == b@),
{
    let left = a.as_bytes();
    let right = b.as_bytes();
    proof {
        encode_utf8_decode_utf8(a@);
        encode_utf8_decode_utf8(b@);
    }
    if left.len() != right.len() {
        return false;
    }
    let mut i: usize = 0;
    while i < left.len()
        invariant
            i <= left.len(),
            left.len() == right.len(),
            left@ == a.spec_bytes(),
            right@ == b.spec_bytes(),
            decode_utf8(a.spec_bytes()) == a@,
            decode_utf8(b.spec_bytes()) == b@,
            forall|k: int| 0 <= k < i ==> left@[k] == right@[k],
        decreases left.len() - i,
    {
        if left[i] != right[i] {
            return false;
        }
        i += 1;
    }
    assert(left@ =~= right@);
    true
}

/// What Unicode counts as a letter or a number; `char::is_alphanumeric`
/// decides it.
pub uninterp spec fn unicode_alphanumeric(c: char) -> bool;

/// What Unicode counts as a number; `char::is_numeric` decides it.
pub uninterp spec fn unicode_numeric(c: char) -> bool;

/// The characters that have the property White_Space of Unicode: the
/// blanks of ASCII from the tab to the carriage return and the space, the
/// next line and the no-break space, and the spaces and line separators
/// from U+1680 on.
pub open spec fn white_space(c: char) -> bool {
    let n = c as u32;
    ||| 0x09 <= n <= 0x0d
    ||| n == 0x20
    ||| n == 0x85
    ||| n == 0xa0
    ||| n == 0x1680
    ||| 0x2000 <= n <= 0x200a
    ||| n == 0x2028
    ||| n == 0x2029
    ||| n == 0x202f
    ||| n == 0x205f
    ||| n == 0x3000
}

/// The letters and the digits of ASCII.
pub open spec fn ascii_alphanumeric(c: char) -> bool {
    ('a' <= c <= 'z') || ('A' <= c <= 'Z') || ('0' <= c <= '9')
}

/// `char::is_whitespace`: whether the character has the property
/// White_Space.
#[verifier::external_body]
pub(crate) fn is_whitespace(c: char) -> (r: bool)
    ensures
        r == white_space(c),
{
    c.is_whitespace()
}

/// Whether a character is a letter or a number: of the characters of
/// ASCII the letters and the digits, and beyond ASCII what Unicode counts
/// as one.
pub open spec fn alphanumeric(c: char) -> bool {
    if c <= '\u{7f}' {
        ascii_alphanumeric(c)
    } else {
        unicode_alphanumeric(c)
    }
}

/// Whether a character is a number: of the characters of ASCII the digits,
/// and beyond ASCII what Unicode counts as one.
pub open spec fn numeric(c: char) -> bool {
    if c <= '\u{7f}' {
        '0' <= c <= '9'
    } else {
        unicode_numeric(c)
    }
}

/// `char::is_alphanumeric`: the answer depends on the character alone; of
/// the characters of ASCII the letters and the digits are alphanumeric,
/// and no other.
#[verifier::external_body]
pub(crate) fn is_alphanumeric(c: char) -> (r: bool)
    ensures
        r == unicode_alphanumeric(c),
        r == alphanumeric(c),
{
    c.is_alphanumeric()
}

/// `char::is_numeric`: the answer depends on the character alone; of the
/// characters of ASCII the digits are numeric, and no other.
#[verifier::external_body]
pub(crate) fn is_numeric(c: char) -> (r: bool)
    ensures
        r == unicode_numeric(c),
        r == numeric(c),
{
    c.is_numeric()
}

/// The lower case of a character of ASCII: the small letter of a capital,
/// and the character itself where it is no capital.
pub open spec fn ascii_lower(c: char) -> char {
    if 'A' <= c <= 'Z' {
        ((c as u8) + 32) as char
    } else {
        c
    }
}

/// The lower case of a character, which may be more than one character;
/// `char::to_lowercase` decides it.
pub uninterp spec fn unicode_lowercase(c: char) -> Seq<char>;

/// `char::to_lowercase`, with what it yields gathered in order: the
/// answer depends on the character alone, and a character of ASCII has
/// its lower case of ASCII.
#[verifier::external_body]
pub(crate) fn to_lowercase(c: char) -> (r: Vec<char>)
    ensures
        r@ == unicode_lowercase(c),
        r@ == lowercase(c),
{
    c.to_lowercase().collect()
}

/// The lower case of a character: that of ASCII for a character of ASCII,
/// and beyond ASCII what Unicode gives.
pub open spec fn lowercase(c: char) -> Seq<char> {
    if c <= '\u{7f}' {
        seq![ascii_lower(c)]
    } else {
        unicode_lowercase(c)
    }
}

/// Whether two lists of characters are the same.
pub fn same_chars(a: &Vec<char>, b: &Vec<char>) -> (r: bool)
    ensures
        r == (a@ == b@),
{
    if a.len() != b.len() {
        return false;
    }
    let mut i: usize = 0;
    while i < a.len()
        invariant
            i <= a.len(),
            a.len() == b.len(),
            forall|k: int| 0 <= k < i ==> a@[k] == b@[k],
        decreases a.len() - i,
    {
        if a[i] != b[i] {
            return false;
        }
        i += 1;
    }
    assert(a@ =~= b@);
    true
}

/// Whether, going through two texts character by character, from `i` in
/// `a` and from `j` in `b`, two characters that meet differ in their lower
/// case before either text ends, `a` at `a_end`.
pub open spec fn differs_no_case(a: Seq<u8>, i: int, a_end: int, b: Seq<u8>, j: int) -> bool
    decreases a_end - i,
{
    if i < a_end && j < b.len() && 0 < width_at(a, i) <= a_end - i && 0 < width_at(b, j) {
        lowercase(char_at(a, i)) != lowercase(char_at(b, j)) || differs_no_case(
            a,
            i + width_at(a, i),
            a_end,
            b,
            j + width_at(b, j),
        )
    } else {
        false
    }
}

/// Whether the text of `text` from `start` to `end` and the text `t`
/// differ in lower case where their characters meet.
pub fn differ_no_case(text: &str, start: usize, end: usize, t: &str) -> (r: bool)
    requires
        start <= end,
        boundary(text.spec_bytes(), start as int),
        boundary(text.spec_bytes(), end as int),
    ensures
        r == differs_no_case(text.spec_bytes(), start as int, end as int, t.spec_bytes(), 0),
{
    let t_len = t.as_bytes().len();
    let mut i = start;
    let mut j: usize = 0;
    proof {
        encode_utf8_valid_utf8(text@);
        encode_utf8_valid_utf8(t@);
        is_char_boundary_start_end_of_seq(t.spec_bytes());
    }
    while i < end && j < t_len
        invariant
            start <= i <= end,
            j <= t_len,
            t_len == t.spec_bytes().len(),
            valid_utf8(text.spec_bytes()),
            valid_utf8(t.spec_bytes()),
            boundary(text.spec_bytes(), i as int),
            boundary(text.spec_bytes(), end as int),
            boundary(t.spec_bytes(), j as int),
            differs_no_case(text.spec_bytes(), start as int, end as int, t.spec_bytes(), 0)
                == differs_no_case(text.spec_bytes(), i as int, end as int, t.spec_bytes(), j as int),
        decreases end - i,
    {
        proof {
            lemma_step(text.spec_bytes(), i as int);
            lemma_inside_character(text.spec_bytes(), i as int, end as int);
            lemma_step(t.spec_bytes(), j as int);
        }
        let (a, next_i) = next_char(text, i);
        let (b, next_j) = next_char(t, j);
        if !same_chars(&to_lowercase(a), &to_lowercase(b)) {
            return true;
        }
        i = next_i;
        j = next_j;
    }
    false
}

/// The sets of characters that the grammars take runs of.
#[derive(Clone, Copy, Debug, PartialEq, Eq)]
pub enum CharClass {
    /// A space, a line feed or a carriage return.
    Blank,
    /// A space, a line feed, a carriage return or a tab.
    BlankOrTab,
    /// Anything but a line feed.
    NotNewline,
    /// Anything but a double quote.
    NotQuote,
    /// A letter, a number, `_` or `$`.
    Word,
    /// A letter, a number, `_` or `/`.
    Key,
    /// A number.
    Numeric,
}

impl CharClass {
    /// Whether `c` belongs to the class.
    pub open spec fn admits(self, c: char) -> bool {
        match self {
            CharClass::Blank => c == ' ' || c == '\n' || c == '\r',
            CharClass::BlankOrTab => c == ' ' || c == '\n' || c == '\t' || c == '\r',
            CharClass::NotNewline => c != '\n',
            CharClass::NotQuote => c != '"',
            CharClass::Word => alphanumeric(c) || c == '_' || c == '$',
            CharClass::Key => alphanumeric(c) || c == '_' || c == '/',
            CharClass::Numeric => numeric(c),
        }
    }

    pub fn accepts(self, c: char) -> (r: bool)
        ensures
            r == self.admits(c),
    {
        match self {
            CharClass::Blank => c == ' ' || c == '\n' || c == '\r',
            CharClass::BlankOrTab => c == ' ' || c == '\n' || c == '\t' || c == '\r',
            CharClass::NotNewline => c != '\n',
            CharClass::NotQuote => c != '"',
            CharClass::Word => is_alphanumeric(c) || c == '_' || c == '$',
            CharClass::Key => is_alphanumeric(c) || c == '_' || c == '/',
            CharClass::Numeric => is_numeric(c),
        }
    }
}

/// Where the longest run of characters of `class` that starts at `pos` ends.
#[verifier::opaque]
pub open spec fn run_end(text: Seq<u8>, pos: int, class: CharClass) -> int
    decreases text.len() - pos,
{
    if 0 <= pos < text.len() && class.admits(char_at(text, pos)) && 0 < width_at(text, pos)
        <= text.len() - pos {
        run_end(text, pos + width_at(text, pos), class)
    } else {
        pos
    }
}

/// A run ends where it starts or later, inside the text.
pub proof fn lemma_run_end_bounds(text: Seq<u8>, pos: int, class: CharClass)
    requires
        0 <= pos <= text.len(),
    ensures
        pos <= run_end(text, pos, class) <= text.len(),
    decreases text.len() - pos,
{
    reveal_with_fuel(run_end, 1);
    if 0 <= pos < text.len() && class.admits(char_at(text, pos)) && 0 < width_at(text, pos)
        <= text.len() - pos {
        lemma_run_end_bounds(text, pos + width_at(text, pos), class);
    }
}

/// A place between two characters of a prefix is one of the whole text,
/// where the prefix ends between two characters.
pub proof fn lemma_boundary_of_prefix(text: Seq<u8>, end: int, pos: int)
    requires
        valid_utf8(text),
        boundary(text, end),
        boundary(text.subrange(0, end), pos),
    ensures
        boundary(text, pos),
{
    let prefix = text.subrange(0, end);
    valid_utf8_split(text, end);
    valid_utf8_split(prefix, pos);
    assert(prefix.subrange(0, pos) =~= text.subrange(0, pos));
    lemma_prefix_boundary(text, pos);
}

/// Skips the longest run of characters of `class`.
pub fn take_while(text: &str, pos: usize, class: CharClass) -> (r: usize)
    requires
        boundary(text.spec_bytes(), pos as int),
    ensures
        r == run_end(text.spec_bytes(), pos as int, class),
        pos <= r <= text.spec_bytes().len(),
        boundary(text.spec_bytes(), r as int),
{
    let len = text.as_bytes().len();
    let mut at = pos;
    while at < len
        invariant
            pos <= at <= len,
            len == text.spec_bytes().len(),
            boundary(text.spec_bytes(), at as int),
            run_end(text.spec_bytes(), pos as int, class) == run_end(
                text.spec_bytes(),
                at as int,
                class,
            ),
        decreases len - at,
    {
        let (c, next) = next_char(text, at);
        proof {
            encode_utf8_valid_utf8(text@);
            lemma_step(text.spec_bytes(), at as int);
            reveal_with_fuel(run_end, 1);
        }
        if !class.accepts(c) {
            return at;
        }
        at = next;
    }
    proof {
        reveal_with_fuel(run_end, 1);
    }
    at
}

/// Where the blanks and comments that start at `pos` end. A blank is a run
/// of characters of `class`; a comment starts with `comment` and runs to
/// the end of its line.
#[verifier::opaque]
pub open spec fn skip_blank(text: Seq<u8>, pos: int, class: CharClass, comment: Seq<u8>) -> int
    decreases text.len() - pos,
{
    let after_run = run_end(text, pos, class);
    if pos < after_run <= text.len() {
        skip_blank(text, after_run, class, comment)
    } else if has_tag(text, pos, comment) {
        let after_comment = run_end(text, pos + comment.len(), CharClass::NotNewline);
        if pos < after_comment <= text.len() {
            skip_blank(text, after_comment, class, comment)
        } else {
            pos
        }
    } else {
        pos
    }
}

/// Blanks and comments end where they start or later, inside the text.
pub proof fn lemma_skip_blank_bounds(text: Seq<u8>, pos: int, class: CharClass, comment: Seq<u8>)
    requires
        0 <= pos <= text.len(),
    ensures
        pos <= skip_blank(text, pos, class, comment) <= text.len(),
    decreases text.len() - pos,
{
    reveal_with_fuel(skip_blank, 1);
    lemma_run_end_bounds(text, pos, class);
    let after_run = run_end(text, pos, class);
    if pos < after_run <= text.len() {
        lemma_skip_blank_bounds(text, after_run, class, comment);
    } else if has_tag(text, pos, comment) {
        let after_comment = run_end(text, pos + comment.len(), CharClass::NotNewline);
        if pos < after_comment <= text.len() {
            lemma_skip_blank_bounds(text, after_comment, class, comment);
        }
    }
}

/// Skips blanks and comments.
pub fn skip_blank_from(text: &str, pos: usize, class: CharClass, comment: &str) -> (r: usize)
    requires
        boundary(text.spec_bytes(), pos as int),
    ensures
        r == skip_blank(text.spec_bytes(), pos as int, class, comment.spec_bytes()),
        pos <= r <= text.spec_bytes().len(),
        boundary(text.spec_bytes(), r as int),
{
    let mut at = pos;
    loop
        invariant
            pos <= at <= text.spec_bytes().len(),
            boundary(text.spec_bytes(), at as int),
            skip_blank(text.spec_bytes(), pos as int, class, comment.spec_bytes()) == skip_blank(
                text.spec_bytes(),
                at as int,
                class,
                comment.spec_bytes(),
            ),
        decreases text.spec_bytes().len() - at,
    {
        proof {
            reveal_with_fuel(skip_blank, 1);
        }
        let after_run = take_while(text, at, class);
        if after_run > at {
            at = after_run;
        } else {
            match tag_at(text, at, comment) {
                Some(after_tag) => {
                    let after_comment = take_while(text, after_tag, CharClass::NotNewline);
                    if after_comment > at {
                        at = after_comment;
                    } else {
                        return at;
                    }
                },
                None => {
                    return at;
                },
            }
        }
    }
}

/// What a rule that asks for the fixed text `lit`, which is not empty,
/// makes of `text` at `pos`: where `lit` ends, when it stands there.
pub open spec fn tag_end(text: Seq<u8>, pos: int, lit: Seq<u8>) -> Option<int> {
    if has_tag(text, pos, lit) && lit.len() > 0 {
        Some(pos + lit.len())
    } else {
        None
    }
}

/// Reads the fixed text `lit`, which is not empty.
pub fn read_tag(text: &str, pos: usize, lit: &str) -> (r: Option<usize>)
    requires
        boundary(text.spec_bytes(), pos as int),
    ensures
        r == match tag_end(text.spec_bytes(), pos as int, lit.spec_bytes()) {
            Some(end) => Some(end as usize),
            None => None,
        },
        r matches Some(end) ==> pos < end <= text.spec_bytes().len() && boundary(
            text.spec_bytes(),
            end as int,
        ) && tag_end(text.spec_bytes(), pos as int, lit.spec_bytes()) == Some(end as int),
{
    match tag_at(text, pos, lit) {
        Some(end) => if end > pos {
            Some(end)
        } else {
            None
        },
        None => None,
    }
}

} // verus!

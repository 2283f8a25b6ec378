//! The grammar of metadata files: from text to the entries of a project.

use vstd::prelude::*;
use vstd::string::*;
use crate::gdproject_metadata::ast::{
    distinct_keys, lemma_models_of, map_of, model_of, models_of, set_entry, set_section,
    EntryModel, EntryValue, GDProjectMetadata, Item, MetadataModel, Section,
};
use crate::utils::errors::ParseError;
use crate::utils::scan::{
    read_tag, run_end, skip_blank, skip_blank_from, tag_end, take_while, CharClass,
};
use crate::utils::slice::Slice;
use crate::utils::{
    cut_piece, describe, lemma_end_boundary, lemma_piece_bytes, number_at, number_from, piece,
    readable, rest_of, string_at, string_contents_end, string_from, text_of, ErrorKind, Fault,
    Miss, Outcome, RawParseErrorDetails, Reader,
};

verus! {

/// What a rule that reads a value makes of a text at a position: the value
/// and where it ends, or a failure.
pub enum Parsed<T> {
    Hit(T, int),
    Miss(Miss),
}

/// The same outcome with `first` put before the list that was read.
pub open spec fn after<T>(first: Seq<T>, rest: Parsed<Seq<T>>) -> Parsed<Seq<T>> {
    match rest {
        Parsed::Hit(items, end) => Parsed::Hit(first + items, end),
        Parsed::Miss(m) => Parsed::Miss(m),
    }
}

/// `to` lies ahead of `from` in the text.
pub open spec fn ahead(text: Seq<u8>, from: int, to: int) -> bool {
    from < to <= text.len()
}

/// Where the blanks and comments that start at `pos` end: spaces, tabs,
/// line ends, and `;` with the rest of its line.
pub open spec fn ws(text: Seq<u8>, pos: int) -> int {
    skip_blank(text, pos, CharClass::BlankOrTab, ";".spec_bytes())
}

/// Where the key that starts at `pos` ends: a run of letters, numbers, `_`
/// and `/`.
pub open spec fn key_end(text: Seq<u8>, pos: int) -> int {
    run_end(text, pos, CharClass::Key)
}

/// A key: at least one character of a key; where it ends.
pub open spec fn key_at(text: Seq<u8>, pos: int) -> Option<int> {
    if key_end(text, pos) > pos {
        Some(key_end(text, pos))
    } else {
        None
    }
}

/// The text between the quotes of the string that starts at `pos`.
pub open spec fn string_text(text: Seq<u8>, pos: int) -> Seq<u8> {
    let open = pos + "\"".spec_bytes().len();
    text.subrange(open, string_contents_end(text, open))
}

/// A string with or without `&` before it, or else a number.
pub open spec fn scalar_at(text: Seq<u8>, pos: int) -> Parsed<EntryModel> {
    let quote = match tag_end(text, pos, "&".spec_bytes()) {
        Some(end) => end,
        None => pos,
    };
    match string_at(text, quote) {
        Outcome::Hit(end) => Parsed::Hit(
            EntryModel::String { s: string_text(text, quote), ampersand: quote != pos },
            end,
        ),
        Outcome::Miss(m) => if m.committed {
            Parsed::Miss(m)
        } else {
            match number_at(text, pos) {
                Outcome::Hit(end) => Parsed::Hit(EntryModel::Number(text.subrange(pos, end)), end),
                Outcome::Miss(m) => Parsed::Miss(m),
            }
        },
    }
}

/// `true`, `false` or `null`.
pub open spec fn keyword_at(text: Seq<u8>, pos: int) -> Parsed<EntryModel> {
    match tag_end(text, pos, "true".spec_bytes()) {
        Some(end) => Parsed::Hit(EntryModel::Boolean(true), end),
        None => match tag_end(text, pos, "false".spec_bytes()) {
            Some(end) => Parsed::Hit(EntryModel::Boolean(false), end),
            None => match tag_end(text, pos, "null".spec_bytes()) {
                Some(end) => Parsed::Hit(EntryModel::Null, end),
                None => Parsed::Miss(Miss { at: pos, kind: ErrorKind::Tag, committed: false }),
            },
        },
    }
}

/// Whether other rules may be tried after this outcome.
pub open spec fn passes<T>(outcome: Parsed<T>) -> bool {
    outcome matches Parsed::Miss(m) && !m.committed
}

/// A value: the first that applies of a string, a number, a list, a
/// dictionary, an object, a constructed value, `true`, `false` and `null`.
pub open spec fn value_at(text: Seq<u8>, pos: int) -> Parsed<EntryModel>
    decreases text.len() - pos, 5int,
{
    if !passes(scalar_at(text, pos)) {
        scalar_at(text, pos)
    } else if !passes(list_at(text, pos)) {
        list_at(text, pos)
    } else if !passes(dict_at(text, pos)) {
        dict_at(text, pos)
    } else if !passes(object_at(text, pos)) {
        object_at(text, pos)
    } else if !passes(constructed_at(text, pos)) {
        constructed_at(text, pos)
    } else {
        keyword_at(text, pos)
    }
}

/// The fixed text `lit` after blanks: where it ends.
pub open spec fn token_at(text: Seq<u8>, pos: int, lit: Seq<u8>) -> Option<int> {
    tag_end(text, ws(text, pos), lit)
}

/// The failure of a rule at `pos` after blanks.
pub open spec fn miss_after_blank<T>(text: Seq<u8>, pos: int) -> Parsed<T> {
    Parsed::Miss(Miss { at: ws(text, pos), kind: ErrorKind::Tag, committed: false })
}

/// A list: `[`, values between commas, `]`, with blanks between any two
/// of them.
pub open spec fn list_at(text: Seq<u8>, pos: int) -> Parsed<EntryModel>
    decreases text.len() - pos, 4int,
{
    match tag_end(text, pos, "[".spec_bytes()) {
        None => Parsed::Miss(Miss { at: pos, kind: ErrorKind::Tag, committed: false }),
        Some(open) => if ahead(text, pos, ws(text, open)) {
            match values_at(text, ws(text, open)) {
                Parsed::Miss(m) => Parsed::Miss(m),
                Parsed::Hit(values, last) => match token_at(text, last, "]".spec_bytes()) {
                    Some(end) => Parsed::Hit(EntryModel::List(values), end),
                    None => miss_after_blank(text, last),
                },
            }
        } else {
            Parsed::Miss(Miss { at: pos, kind: ErrorKind::Tag, committed: false })
        },
    }
}

/// Values between commas, none or more, each after blanks.
pub open spec fn values_at(text: Seq<u8>, pos: int) -> Parsed<Seq<EntryModel>>
    decreases text.len() - pos, 6int,
{
    if pos <= ws(text, pos) <= text.len() {
        match value_at(text, ws(text, pos)) {
            Parsed::Miss(m) => if m.committed {
                Parsed::Miss(m)
            } else {
                Parsed::Hit(Seq::empty(), pos)
            },
            Parsed::Hit(value, end) => if ahead(text, pos, end) {
                after(seq![value], more_values_at(text, end, true))
            } else {
                Parsed::Hit(Seq::empty(), pos)
            },
        }
    } else {
        Parsed::Hit(Seq::empty(), pos)
    }
}

/// The values that follow one that ends at `pos`: each after a comma; with
/// `blank`, blanks may stand between the comma and the value.
pub open spec fn more_values_at(text: Seq<u8>, pos: int, blank: bool) -> Parsed<Seq<EntryModel>>
    decreases text.len() - pos, 0int,
{
    match token_at(text, pos, ",".spec_bytes()) {
        None => Parsed::Hit(Seq::empty(), pos),
        Some(comma) => {
            let start = if blank {
                ws(text, comma)
            } else {
                comma
            };
            if ahead(text, pos, start) {
                match value_at(text, start) {
                    Parsed::Miss(m) => if m.committed {
                        Parsed::Miss(m)
                    } else {
                        Parsed::Hit(Seq::empty(), pos)
                    },
                    Parsed::Hit(value, end) => if ahead(text, pos, end) {
                        after(seq![value], more_values_at(text, end, blank))
                    } else {
                        Parsed::Hit(Seq::empty(), pos)
                    },
                }
            } else {
                Parsed::Hit(Seq::empty(), pos)
            }
        },
    }
}

/// One entry of a dictionary: a string, `:` and a value, with blanks
/// between them.
pub open spec fn entry_at(text: Seq<u8>, pos: int) -> Parsed<(Seq<u8>, EntryModel)>
    decreases text.len() - pos, 7int,
{
    match string_at(text, pos) {
        Outcome::Miss(m) => Parsed::Miss(m),
        Outcome::Hit(key_end) => match token_at(text, key_end, ":".spec_bytes()) {
            None => miss_after_blank(text, key_end),
            Some(colon) => if ahead(text, pos, ws(text, colon)) {
                match value_at(text, ws(text, colon)) {
                    Parsed::Miss(m) => Parsed::Miss(m),
                    Parsed::Hit(value, end) => Parsed::Hit((string_text(text, pos), value), end),
                }
            } else {
                miss_after_blank(text, key_end)
            },
        },
    }
}

/// Entries between commas, none or more, each after blanks.
pub open spec fn entries_at(text: Seq<u8>, pos: int) -> Parsed<Seq<(Seq<u8>, EntryModel)>>
    decreases text.len() - pos, 8int,
{
    if pos <= ws(text, pos) <= text.len() {
        match entry_at(text, ws(text, pos)) {
            Parsed::Miss(m) => if m.committed {
                Parsed::Miss(m)
            } else {
                Parsed::Hit(Seq::empty(), pos)
            },
            Parsed::Hit(entry, end) => if ahead(text, pos, end) {
                after(seq![entry], more_entries_at(text, end))
            } else {
                Parsed::Hit(Seq::empty(), pos)
            },
        }
    } else {
        Parsed::Hit(Seq::empty(), pos)
    }
}

/// Entries between commas, at least one, each after blanks.
pub open spec fn entries1_at(text: Seq<u8>, pos: int) -> Parsed<Seq<(Seq<u8>, EntryModel)>>
    decreases text.len() - pos, 8int,
{
    if pos <= ws(text, pos) <= text.len() {
        match entry_at(text, ws(text, pos)) {
            Parsed::Miss(m) => Parsed::Miss(m),
            Parsed::Hit(entry, end) => if ahead(text, pos, end) {
                after(seq![entry], more_entries_at(text, end))
            } else {
                Parsed::Miss(Miss { at: pos, kind: ErrorKind::Tag, committed: false })
            },
        }
    } else {
        Parsed::Miss(Miss { at: pos, kind: ErrorKind::Tag, committed: false })
    }
}

/// The entries that follow one that ends at `pos`: each after a comma.
pub open spec fn more_entries_at(text: Seq<u8>, pos: int) -> Parsed<Seq<(Seq<u8>, EntryModel)>>
    decreases text.len() - pos, 0int,
{
    match token_at(text, pos, ",".spec_bytes()) {
        None => Parsed::Hit(Seq::empty(), pos),
        Some(comma) => if ahead(text, pos, ws(text, comma)) {
            match entry_at(text, ws(text, comma)) {
                Parsed::Miss(m) => if m.committed {
                    Parsed::Miss(m)
                } else {
                    Parsed::Hit(Seq::empty(), pos)
                },
                Parsed::Hit(entry, end) => if ahead(text, pos, end) {
                    after(seq![entry], more_entries_at(text, end))
                } else {
                    Parsed::Hit(Seq::empty(), pos)
                },
            }
        } else {
            Parsed::Hit(Seq::empty(), pos)
        },
    }
}

/// The map that entries read in order make: a later entry replaces an
/// earlier one of the same key.
pub open spec fn gathered(entries: Seq<(Seq<u8>, EntryModel)>) -> Map<Seq<u8>, EntryModel>
    decreases entries.len(),
{
    if entries.len() == 0 {
        Map::empty()
    } else {
        gathered(entries.drop_last()).insert(entries.last().0, entries.last().1)
    }
}

/// A dictionary: `{`, entries between commas, `}`, with blanks between
/// any two of them.
pub open spec fn dict_at(text: Seq<u8>, pos: int) -> Parsed<EntryModel>
    decreases text.len() - pos, 4int,
{
    match tag_end(text, pos, "{".spec_bytes()) {
        None => Parsed::Miss(Miss { at: pos, kind: ErrorKind::Tag, committed: false }),
        Some(open) => if ahead(text, pos, ws(text, open)) {
            match entries_at(text, ws(text, open)) {
                Parsed::Miss(m) => Parsed::Miss(m),
                Parsed::Hit(entries, last) => match token_at(text, last, "}".spec_bytes()) {
                    Some(end) => Parsed::Hit(EntryModel::Dict(gathered(entries)), end),
                    None => miss_after_blank(text, last),
                },
            }
        } else {
            Parsed::Miss(Miss { at: pos, kind: ErrorKind::Tag, committed: false })
        },
    }
}

/// An object: `Object`, `(`, the name of a class, `,`, entries between
/// commas, at least one, and `)`, with blanks between any two of them.
pub open spec fn object_at(text: Seq<u8>, pos: int) -> Parsed<EntryModel>
    decreases text.len() - pos, 4int,
{
    match tag_end(text, pos, "Object".spec_bytes()) {
        None => Parsed::Miss(Miss { at: pos, kind: ErrorKind::Tag, committed: false }),
        Some(keyword) => match token_at(text, keyword, "(".spec_bytes()) {
            None => miss_after_blank(text, keyword),
            Some(open) => match key_at(text, ws(text, open)) {
                None => Parsed::Miss(
                    Miss { at: ws(text, open), kind: ErrorKind::TakeWhile1, committed: false },
                ),
                Some(class_end) => match token_at(text, class_end, ",".spec_bytes()) {
                    None => miss_after_blank(text, class_end),
                    Some(comma) => if ahead(text, pos, comma) {
                        match entries1_at(text, comma) {
                            Parsed::Miss(m) => Parsed::Miss(m),
                            Parsed::Hit(entries, last) => match token_at(
                                text,
                                last,
                                ")".spec_bytes(),
                            ) {
                                Some(end) => Parsed::Hit(
                                    EntryModel::Object {
                                        class: text.subrange(ws(text, open), class_end),
                                        properties: gathered(entries),
                                    },
                                    end,
                                ),
                                None => miss_after_blank(text, last),
                            },
                        }
                    } else {
                        miss_after_blank(text, class_end)
                    },
                },
            },
        },
    }
}

/// A constructed value: the name of a class, `(`, values between commas,
/// at least one, and `)`. Blanks may stand before the brackets and the
/// commas, and not before the values.
pub open spec fn constructed_at(text: Seq<u8>, pos: int) -> Parsed<EntryModel>
    decreases text.len() - pos, 4int,
{
    match key_at(text, pos) {
        None => Parsed::Miss(Miss { at: pos, kind: ErrorKind::TakeWhile1, committed: false }),
        Some(class_end) => match token_at(text, class_end, "(".spec_bytes()) {
            None => miss_after_blank(text, class_end),
            Some(open) => if ahead(text, pos, open) {
                match value_at(text, open) {
                    Parsed::Miss(m) => Parsed::Miss(m),
                    Parsed::Hit(first, first_end) => if ahead(text, open, first_end) {
                        match more_values_at(text, first_end, false) {
                            Parsed::Miss(m) => Parsed::Miss(m),
                            Parsed::Hit(rest, last) => match token_at(text, last, ")".spec_bytes()) {
                                Some(end) => Parsed::Hit(
                                    EntryModel::Constructed {
                                        class: text.subrange(pos, class_end),
                                        entries: seq![first] + rest,
                                    },
                                    end,
                                ),
                                None => miss_after_blank(text, last),
                            },
                        }
                    } else {
                        miss_after_blank(text, class_end)
                    },
                }
            } else {
                miss_after_blank(text, class_end)
            },
        },
    }
}

// --- Reading ---

/// Skips blanks and comments.
fn blanks<'a>(rd: &Reader<'a>, pos: usize) -> (r: usize)
    requires
        rd.wf(),
        rd.place(pos as int),
    ensures
        r == ws(rd.bytes(), pos as int),
        pos <= r,
        rd.place(r as int),
{
    skip_blank_from(rd.text, pos, CharClass::BlankOrTab, ";")
}

/// Reads the fixed text `lit` after blanks; where it is not there, gives
/// the place after the blanks.
fn token<'a>(rd: &Reader<'a>, pos: usize, lit: &str) -> (r: Result<usize, Fault>)
    requires
        rd.wf(),
        rd.place(pos as int),
    ensures
        match r {
            Ok(end) => token_at(rd.bytes(), pos as int, lit.spec_bytes()) == Some(end as int)
                && pos < end && rd.place(end as int),
            Err(fault) => token_at(rd.bytes(), pos as int, lit.spec_bytes()) is None && fault@ == (
            Miss { at: ws(rd.bytes(), pos as int), kind: ErrorKind::Tag, committed: false }),
        },
{
    let at = blanks(rd, pos);
    match read_tag(rd.text, at, lit) {
        Some(end) => Ok(end),
        None => Err(Fault { at, kind: ErrorKind::Tag, committed: false }),
    }
}

/// The piece of the input from `start` to `end`.
fn take<'a>(rd: &Reader<'a>, start: usize, end: usize) -> (r: Slice)
    requires
        rd.wf(),
        rd.place(start as int),
        rd.place(end as int),
        start <= end,
    ensures
        r == piece(*rd.code, start as int, end as int),
        r.bytes() == rd.bytes().subrange(start as int, end as int),
        r.wf(),
{
    proof {
        lemma_piece_bytes(*rd.code, start as int, end as int);
        crate::utils::lemma_piece_wf(*rd.code, start as int, end as int);
    }
    cut_piece(rd.code, start, end)
}

fn parse_key<'a>(rd: &Reader<'a>, pos: usize) -> (r: Option<(Slice, usize)>)
    requires
        rd.wf(),
        rd.place(pos as int),
    ensures
        match r {
            Some((key, end)) => key_at(rd.bytes(), pos as int) == Some(end as int) && key.bytes()
                == rd.bytes().subrange(pos as int, end as int) && key.wf() && pos < end
                && rd.place(end as int),
            None => key_at(rd.bytes(), pos as int) is None,
        },
{
    let end = take_while(rd.text, pos, CharClass::Key);
    if end > pos {
        Some((take(rd, pos, end), end))
    } else {
        None
    }
}

/// Reads a string and gives the text between its quotes.
fn parse_string<'a>(rd: &Reader<'a>, pos: usize) -> (r: Result<(Slice, usize), Fault>)
    requires
        rd.wf(),
        rd.place(pos as int),
    ensures
        match r {
            Ok((contents, end)) => string_at(rd.bytes(), pos as int) == Outcome::Hit(end as int)
                && contents.bytes() == string_text(rd.bytes(), pos as int) && contents.wf() && pos
                < end && rd.place(end as int),
            Err(fault) => string_at(rd.bytes(), pos as int) == Outcome::Miss(fault@),
        },
{
    match string_from(rd.text, pos) {
        Ok((end, open, close)) => Ok((take(rd, open, close), end)),
        Err(fault) => Err(fault),
    }
}

fn parse_scalar<'a>(rd: &Reader<'a>, pos: usize) -> (r: Result<(EntryValue, usize), Fault>)
    requires
        rd.wf(),
        rd.place(pos as int),
    ensures
        match r {
            Ok((value, end)) => scalar_at(rd.bytes(), pos as int) == Parsed::Hit(
                model_of(value),
                end as int,
            ) && pos < end && rd.place(end as int),
            Err(fault) => scalar_at(rd.bytes(), pos as int) == Parsed::<EntryModel>::Miss(fault@),
        },
{
    let (quote, ampersand) = match read_tag(rd.text, pos, "&") {
        Some(end) => (end, true),
        None => (pos, false),
    };
    match parse_string(rd, quote) {
        Ok((s, end)) => {
            return Ok((EntryValue::StringValue { s, ampersand }, end));
        },
        Err(fault) => if fault.committed {
            return Err(fault);
        },
    }
    match number_from(rd.text, pos) {
        Ok((end, _)) => Ok((EntryValue::NumberValue(take(rd, pos, end)), end)),
        Err(fault) => Err(fault),
    }
}

fn parse_keyword<'a>(rd: &Reader<'a>, pos: usize) -> (r: Result<(EntryValue, usize), Fault>)
    requires
        rd.wf(),
        rd.place(pos as int),
    ensures
        match r {
            Ok((value, end)) => keyword_at(rd.bytes(), pos as int) == Parsed::Hit(
                model_of(value),
                end as int,
            ) && pos < end && rd.place(end as int),
            Err(fault) => keyword_at(rd.bytes(), pos as int) == Parsed::<EntryModel>::Miss(fault@),
        },
{
    if let Some(end) = read_tag(rd.text, pos, "true") {
        return Ok((EntryValue::BooleanValue(true), end));
    }
    if let Some(end) = read_tag(rd.text, pos, "false") {
        return Ok((EntryValue::BooleanValue(false), end));
    }
    if let Some(end) = read_tag(rd.text, pos, "null") {
        return Ok((EntryValue::Null, end));
    }
    Err(Fault { at: pos, kind: ErrorKind::Tag, committed: false })
}

/// What reading a value gave is what `outcome` says.
pub open spec fn value_read(r: Result<(EntryValue, usize), Fault>, outcome: Parsed<EntryModel>) -> bool {
    match r {
        Ok((value, end)) => outcome == Parsed::Hit(model_of(value), end as int),
        Err(fault) => outcome == Parsed::<EntryModel>::Miss(fault@),
    }
}

fn parse_value<'a>(rd: &Reader<'a>, pos: usize) -> (r: Result<(EntryValue, usize), Fault>)
    requires
        rd.wf(),
        rd.place(pos as int),
    ensures
        value_read(r, value_at(rd.bytes(), pos as int)),
        r matches Ok((_, end)) ==> pos < end && rd.place(end as int),
    decreases rd.bytes().len() - pos, 5int,
{
    match parse_scalar(rd, pos) {
        Ok(read) => {
            return Ok(read);
        },
        Err(fault) => if fault.committed {
            return Err(fault);
        },
    }
    match parse_list(rd, pos) {
        Ok(read) => {
            return Ok(read);
        },
        Err(fault) => if fault.committed {
            return Err(fault);
        },
    }
    match parse_dict(rd, pos) {
        Ok(read) => {
            return Ok(read);
        },
        Err(fault) => if fault.committed {
            return Err(fault);
        },
    }
    match parse_object(rd, pos) {
        Ok(read) => {
            return Ok(read);
        },
        Err(fault) => if fault.committed {
            return Err(fault);
        },
    }
    match parse_constructed(rd, pos) {
        Ok(read) => {
            return Ok(read);
        },
        Err(fault) => if fault.committed {
            return Err(fault);
        },
    }
    parse_keyword(rd, pos)
}

/// Reads the values that follow one that ends at `pos`, and adds them to
/// `values`.
fn parse_more_values<'a>(rd: &Reader<'a>, pos: usize, blank: bool, values: &mut Vec<EntryValue>) -> (r:
    Result<usize, Fault>)
    requires
        rd.wf(),
        rd.place(pos as int),
    ensures
        match r {
            Ok(end) => more_values_at(rd.bytes(), pos as int, blank) matches Parsed::Hit(more, to)
                && to == end && models_of(final(values)@) == models_of(old(values)@) + more && pos
                <= end && rd.place(end as int),
            Err(fault) => more_values_at(rd.bytes(), pos as int, blank) == Parsed::<
                Seq<EntryModel>,
            >::Miss(fault@),
        },
    decreases rd.bytes().len() - pos, 0int,
{
    let comma = match token(rd, pos, ",") {
        Ok(comma) => comma,
        Err(_) => {
            assert(models_of(values@) + Seq::<EntryModel>::empty() =~= models_of(values@));
            return Ok(pos);
        },
    };
    let start = if blank {
        blanks(rd, comma)
    } else {
        comma
    };
    match parse_value(rd, start) {
        Err(fault) => if fault.committed {
            Err(fault)
        } else {
            assert(models_of(values@) + Seq::<EntryModel>::empty() =~= models_of(values@));
            Ok(pos)
        },
        Ok((value, end)) => {
            let ghost before = values@;
            values.push(value);
            assert(values@.drop_last() == before);
            let r = parse_more_values(rd, end, blank, values);
            proof {
                if let Parsed::Hit(more, _) = more_values_at(rd.bytes(), end as int, blank) {
                    assert(models_of(before) + (seq![model_of(value)] + more) =~= models_of(
                        before,
                    ).push(model_of(value)) + more);
                }
            }
            r
        },
    }
}

fn parse_list<'a>(rd: &Reader<'a>, pos: usize) -> (r: Result<(EntryValue, usize), Fault>)
    requires
        rd.wf(),
        rd.place(pos as int),
    ensures
        value_read(r, list_at(rd.bytes(), pos as int)),
        r matches Ok((_, end)) ==> pos < end && rd.place(end as int),
    decreases rd.bytes().len() - pos, 4int,
{
    let open = match read_tag(rd.text, pos, "[") {
        Some(open) => open,
        None => {
            return Err(Fault { at: pos, kind: ErrorKind::Tag, committed: false });
        },
    };
    let first = blanks(rd, open);
    let mut values: Vec<EntryValue> = Vec::new();
    let start = blanks(rd, first);
    let last = match parse_value(rd, start) {
        Err(fault) => if fault.committed {
            return Err(fault);
        } else {
            first
        },
        Ok((value, end)) => {
            values.push(value);
            proof {
                assert(values@.drop_last() =~= Seq::<EntryValue>::empty());
                lemma_models_of(values@);
                assert(models_of(values@) =~= seq![model_of(value)]);
            }
            match parse_more_values(rd, end, true, &mut values) {
                Ok(last) => last,
                Err(fault) => {
                    return Err(fault);
                },
            }
        },
    };
    match token(rd, last, "]") {
        Ok(end) => Ok((EntryValue::ListValue(values), end)),
        Err(fault) => Err(fault),
    }
}

/// What reading an entry gave is what `outcome` says.
pub open spec fn entry_read(
    r: Result<(Slice, EntryValue, usize), Fault>,
    outcome: Parsed<(Seq<u8>, EntryModel)>,
) -> bool {
    match r {
        Ok((key, value, end)) => outcome == Parsed::Hit((key.bytes(), model_of(value)), end as int),
        Err(fault) => outcome == Parsed::<(Seq<u8>, EntryModel)>::Miss(fault@),
    }
}

fn parse_dict_entry<'a>(rd: &Reader<'a>, pos: usize) -> (r: Result<(Slice, EntryValue, usize), Fault>)
    requires
        rd.wf(),
        rd.place(pos as int),
    ensures
        entry_read(r, entry_at(rd.bytes(), pos as int)),
        r matches Ok((_, _, end)) ==> pos < end && rd.place(end as int),
    decreases rd.bytes().len() - pos, 7int,
{
    let (key, key_end) = match parse_string(rd, pos) {
        Ok(read) => read,
        Err(fault) => {
            return Err(fault);
        },
    };
    let colon = match token(rd, key_end, ":") {
        Ok(colon) => colon,
        Err(fault) => {
            return Err(fault);
        },
    };
    let start = blanks(rd, colon);
    match parse_value(rd, start) {
        Ok((value, end)) => Ok((key, value, end)),
        Err(fault) => Err(fault),
    }
}

/// Reads the entries that follow one that ends at `pos`, and sets each in
/// `entries`.
fn parse_more_entries<'a>(rd: &Reader<'a>, pos: usize, entries: &mut Vec<(Slice, EntryValue)>) -> (r:
    Result<(usize, Ghost<Seq<(Seq<u8>, EntryModel)>>), Fault>)
    requires
        rd.wf(),
        rd.place(pos as int),
        distinct_keys(old(entries)@),
    ensures
        match r {
            Ok((end, read)) => more_entries_at(rd.bytes(), pos as int) == Parsed::Hit(
                read@,
                end as int,
            ) && distinct_keys(final(entries)@) && map_of(final(entries)@) == set_all(
                map_of(old(entries)@),
                read@,
            ) && pos <= end && rd.place(end as int),
            Err(fault) => more_entries_at(rd.bytes(), pos as int) == Parsed::<
                Seq<(Seq<u8>, EntryModel)>,
            >::Miss(fault@),
        },
    decreases rd.bytes().len() - pos, 0int,
{
    let comma = match token(rd, pos, ",") {
        Ok(comma) => comma,
        Err(_) => {
            return Ok((pos, Ghost(Seq::empty())));
        },
    };
    let start = blanks(rd, comma);
    match parse_dict_entry(rd, start) {
        Err(fault) => if fault.committed {
            Err(fault)
        } else {
            Ok((pos, Ghost(Seq::empty())))
        },
        Ok((key, value, end)) => {
            let ghost entry = (key.bytes(), model_of(value));
            let ghost start_map = map_of(entries@);
            set_entry(entries, key, value);
            match parse_more_entries(rd, end, entries) {
                Ok((last, more)) => {
                    proof {
                        lemma_set_all_first(start_map, entry, more@);
                    }
                    Ok((last, Ghost(seq![entry] + more@)))
                },
                Err(fault) => Err(fault),
            }
        },
    }
}

/// The map `start` after each of `entries` is set in it, in order.
pub open spec fn set_all(start: Map<Seq<u8>, EntryModel>, entries: Seq<(Seq<u8>, EntryModel)>) -> Map<
    Seq<u8>,
    EntryModel,
>
    decreases entries.len(),
{
    if entries.len() == 0 {
        start
    } else {
        set_all(start, entries.drop_last()).insert(entries.last().0, entries.last().1)
    }
}

/// Setting one entry and then more sets them all, the one first.
pub proof fn lemma_set_all_first(
    start: Map<Seq<u8>, EntryModel>,
    first: (Seq<u8>, EntryModel),
    more: Seq<(Seq<u8>, EntryModel)>,
)
    ensures
        set_all(start.insert(first.0, first.1), more) == set_all(start, seq![first] + more),
    decreases more.len(),
{
    let all = seq![first] + more;
    reveal_with_fuel(set_all, 2);
    if more.len() == 0 {
        assert(all.drop_last() =~= Seq::<(Seq<u8>, EntryModel)>::empty());
        assert(all.last() == first);
        assert(set_all(start, all.drop_last()) == start);
    } else {
        lemma_set_all_first(start, first, more.drop_last());
        assert(all.drop_last() =~= seq![first] + more.drop_last());
        assert(all.last() == more.last());
    }
}

/// Gathering entries sets them all in the empty map.
pub proof fn lemma_gathered(entries: Seq<(Seq<u8>, EntryModel)>)
    ensures
        gathered(entries) == set_all(Map::empty(), entries),
    decreases entries.len(),
{
    if entries.len() > 0 {
        lemma_gathered(entries.drop_last());
    }
}

/// Reads entries between commas into a list of keys with their values:
/// at least one with `needed`, else none or more.
fn parse_entries<'a>(rd: &Reader<'a>, pos: usize, needed: bool) -> (r: Result<
    (Vec<(Slice, EntryValue)>, usize),
    Fault,
>)
    requires
        rd.wf(),
        rd.place(pos as int),
    ensures
        match r {
            Ok((entries, end)) => (if needed {
                entries1_at(rd.bytes(), pos as int)
            } else {
                entries_at(rd.bytes(), pos as int)
            }) matches Parsed::Hit(read, to) && to == end && map_of(entries@) == gathered(read)
                && distinct_keys(entries@) && pos <= end && rd.place(end as int),
            Err(fault) => (if needed {
                entries1_at(rd.bytes(), pos as int)
            } else {
                entries_at(rd.bytes(), pos as int)
            }) == Parsed::<Seq<(Seq<u8>, EntryModel)>>::Miss(fault@),
        },
    decreases rd.bytes().len() - pos, 8int,
{
    let mut entries: Vec<(Slice, EntryValue)> = Vec::new();
    let start = blanks(rd, pos);
    match parse_dict_entry(rd, start) {
        Err(fault) => if fault.committed || needed {
            Err(fault)
        } else {
            Ok((entries, pos))
        },
        Ok((key, value, end)) => {
            let ghost entry = (key.bytes(), model_of(value));
            set_entry(&mut entries, key, value);
            match parse_more_entries(rd, end, &mut entries) {
                Ok((last, more)) => {
                    proof {
                        lemma_set_all_first(Map::empty(), entry, more@);
                        lemma_gathered(seq![entry] + more@);
                    }
                    Ok((entries, last))
                },
                Err(fault) => Err(fault),
            }
        },
    }
}

fn parse_dict<'a>(rd: &Reader<'a>, pos: usize) -> (r: Result<(EntryValue, usize), Fault>)
    requires
        rd.wf(),
        rd.place(pos as int),
    ensures
        value_read(r, dict_at(rd.bytes(), pos as int)),
        r matches Ok((_, end)) ==> pos < end && rd.place(end as int),
    decreases rd.bytes().len() - pos, 4int,
{
    let open = match read_tag(rd.text, pos, "{") {
        Some(open) => open,
        None => {
            return Err(Fault { at: pos, kind: ErrorKind::Tag, committed: false });
        },
    };
    let first = blanks(rd, open);
    let (entries, last) = match parse_entries(rd, first, false) {
        Ok(read) => read,
        Err(fault) => {
            return Err(fault);
        },
    };
    match token(rd, last, "}") {
        Ok(end) => Ok((EntryValue::DictValue(entries), end)),
        Err(fault) => Err(fault),
    }
}

fn parse_object<'a>(rd: &Reader<'a>, pos: usize) -> (r: Result<(EntryValue, usize), Fault>)
    requires
        rd.wf(),
        rd.place(pos as int),
    ensures
        value_read(r, object_at(rd.bytes(), pos as int)),
        r matches Ok((_, end)) ==> pos < end && rd.place(end as int),
    decreases rd.bytes().len() - pos, 4int,
{
    let keyword = match read_tag(rd.text, pos, "Object") {
        Some(end) => end,
        None => {
            return Err(Fault { at: pos, kind: ErrorKind::Tag, committed: false });
        },
    };
    let open = match token(rd, keyword, "(") {
        Ok(open) => open,
        Err(fault) => {
            return Err(fault);
        },
    };
    let class_at = blanks(rd, open);
    let (class, class_end) = match parse_key(rd, class_at) {
        Some(read) => read,
        None => {
            return Err(Fault { at: class_at, kind: ErrorKind::TakeWhile1, committed: false });
        },
    };
    let comma = match token(rd, class_end, ",") {
        Ok(comma) => comma,
        Err(fault) => {
            return Err(fault);
        },
    };
    let (properties, last) = match parse_entries(rd, comma, true) {
        Ok(read) => read,
        Err(fault) => {
            return Err(fault);
        },
    };
    match token(rd, last, ")") {
        Ok(end) => Ok((EntryValue::ObjectValue { class, properties }, end)),
        Err(fault) => Err(fault),
    }
}

fn parse_constructed<'a>(rd: &Reader<'a>, pos: usize) -> (r: Result<(EntryValue, usize), Fault>)
    requires
        rd.wf(),
        rd.place(pos as int),
    ensures
        value_read(r, constructed_at(rd.bytes(), pos as int)),
        r matches Ok((_, end)) ==> pos < end && rd.place(end as int),
    decreases rd.bytes().len() - pos, 4int,
{
    let (class, class_end) = match parse_key(rd, pos) {
        Some(read) => read,
        None => {
            return Err(Fault { at: pos, kind: ErrorKind::TakeWhile1, committed: false });
        },
    };
    let open = match token(rd, class_end, "(") {
        Ok(open) => open,
        Err(fault) => {
            return Err(fault);
        },
    };
    let mut entries: Vec<EntryValue> = Vec::new();
    let first_end = match parse_value(rd, open) {
        Ok((value, end)) => {
            entries.push(value);
            proof {
                assert(entries@.drop_last() =~= Seq::<EntryValue>::empty());
                lemma_models_of(entries@);
                assert(models_of(entries@) =~= seq![model_of(value)]);
            }
            end
        },
        Err(fault) => {
            return Err(fault);
        },
    };
    let last = match parse_more_values(rd, first_end, false, &mut entries) {
        Ok(last) => last,
        Err(fault) => {
            return Err(fault);
        },
    };
    match token(rd, last, ")") {
        Ok(end) => Ok((EntryValue::ConstructedValue { class, entries }, end)),
        Err(fault) => Err(fault),
    }
}

// --- Items ---

/// One line of a metadata file as a mathematical value.
pub enum ItemModel {
    Section(Seq<u8>),
    Entry(Seq<u8>, EntryModel),
}

/// What an item is as a mathematical value.
pub open spec fn item_model(item: Item) -> ItemModel {
    match item {
        Item::SectionName(name) => ItemModel::Section(name.bytes()),
        Item::KeyAndValue((key, value)) => ItemModel::Entry(key.bytes(), model_of(value)),
    }
}

/// A section header: `[`, a name and `]`, with blanks between them.
pub open spec fn section_at(text: Seq<u8>, pos: int) -> Parsed<ItemModel> {
    match tag_end(text, pos, "[".spec_bytes()) {
        None => Parsed::Miss(Miss { at: pos, kind: ErrorKind::Tag, committed: false }),
        Some(open) => match key_at(text, ws(text, open)) {
            None => Parsed::Miss(
                Miss { at: ws(text, open), kind: ErrorKind::TakeWhile1, committed: false },
            ),
            Some(name_end) => match token_at(text, name_end, "]".spec_bytes()) {
                Some(end) => Parsed::Hit(
                    ItemModel::Section(text.subrange(ws(text, open), name_end)),
                    end,
                ),
                None => miss_after_blank(text, name_end),
            },
        },
    }
}

/// An entry: a key, `=` and a value, with blanks between them.
pub open spec fn key_value_at(text: Seq<u8>, pos: int) -> Parsed<ItemModel> {
    match key_at(text, pos) {
        None => Parsed::Miss(Miss { at: pos, kind: ErrorKind::TakeWhile1, committed: false }),
        Some(key_end) => match token_at(text, key_end, "=".spec_bytes()) {
            None => miss_after_blank(text, key_end),
            Some(equals) => match value_at(text, ws(text, equals)) {
                Parsed::Hit(value, end) => Parsed::Hit(
                    ItemModel::Entry(text.subrange(pos, key_end), value),
                    end,
                ),
                Parsed::Miss(m) => Parsed::Miss(m),
            },
        },
    }
}

/// An item: a section header, or else an entry.
pub open spec fn item_at(text: Seq<u8>, pos: int) -> Parsed<ItemModel> {
    if !passes(section_at(text, pos)) {
        section_at(text, pos)
    } else {
        key_value_at(text, pos)
    }
}

/// The items of a file from `pos` on, each between blanks: what they are
/// and where they end. Reading stops without failure before text that is
/// no item.
#[verifier::opaque]
pub open spec fn items_at(text: Seq<u8>, pos: int) -> Parsed<Seq<ItemModel>>
    decreases text.len() - pos,
{
    match item_at(text, ws(text, pos)) {
        Parsed::Miss(m) => if m.committed {
            Parsed::Miss(m)
        } else {
            Parsed::Hit(Seq::empty(), pos)
        },
        Parsed::Hit(item, end) => if ahead(text, pos, ws(text, end)) {
            after(seq![item], items_at(text, ws(text, end)))
        } else {
            Parsed::Hit(Seq::empty(), pos)
        },
    }
}

/// What has been gathered from the items read so far: the metadata of the
/// sections that are closed, and the name and the entries of the one that
/// is open.
pub struct Gathering {
    pub closed: MetadataModel,
    pub name: Option<Seq<u8>>,
    pub entries: Map<Seq<u8>, EntryModel>,
}

/// The metadata with the open section closed: its entries become the
/// section of its name, in place of an earlier section of that name, or
/// the front section where it has no name.
pub open spec fn close(state: Gathering) -> MetadataModel {
    match state.name {
        Some(name) => MetadataModel {
            sections: state.closed.sections.insert(name, state.entries),
            ..state.closed
        },
        None => MetadataModel { front: state.entries, ..state.closed },
    }
}

/// What has been gathered after one more item: a header closes the open
/// section and opens one of its name, without entries; an entry is set in
/// the open section.
pub open spec fn gather_one(state: Gathering, item: ItemModel) -> Gathering {
    match item {
        ItemModel::Section(name) => Gathering {
            closed: close(state),
            name: Some(name),
            entries: Map::empty(),
        },
        ItemModel::Entry(key, value) => Gathering {
            entries: state.entries.insert(key, value),
            ..state
        },
    }
}

/// What has been gathered after `items`.
pub open spec fn gather(items: Seq<ItemModel>) -> Gathering
    decreases items.len(),
{
    if items.len() == 0 {
        Gathering {
            closed: MetadataModel { front: Map::empty(), sections: Map::empty() },
            name: None,
            entries: Map::empty(),
        }
    } else {
        gather_one(gather(items.drop_last()), items.last())
    }
}

/// The metadata that a file with the items `items` holds.
pub open spec fn metadata_of(items: Seq<ItemModel>) -> MetadataModel {
    close(gather(items))
}

fn parse_section_name<'a>(rd: &Reader<'a>, pos: usize) -> (r: Result<(Item, usize), Fault>)
    requires
        rd.wf(),
        rd.place(pos as int),
    ensures
        item_read(r, section_at(rd.bytes(), pos as int)),
        r matches Ok((_, end)) ==> pos < end && rd.place(end as int),
{
    let open = match read_tag(rd.text, pos, "[") {
        Some(open) => open,
        None => {
            return Err(Fault { at: pos, kind: ErrorKind::Tag, committed: false });
        },
    };
    let name_at = blanks(rd, open);
    let (name, name_end) = match parse_key(rd, name_at) {
        Some(read) => read,
        None => {
            return Err(Fault { at: name_at, kind: ErrorKind::TakeWhile1, committed: false });
        },
    };
    match token(rd, name_end, "]") {
        Ok(end) => Ok((Item::SectionName(name), end)),
        Err(fault) => Err(fault),
    }
}

fn parse_key_and_value<'a>(rd: &Reader<'a>, pos: usize) -> (r: Result<(Item, usize), Fault>)
    requires
        rd.wf(),
        rd.place(pos as int),
    ensures
        item_read(r, key_value_at(rd.bytes(), pos as int)),
        r matches Ok((_, end)) ==> pos < end && rd.place(end as int),
{
    let (key, key_end) = match parse_key(rd, pos) {
        Some(read) => read,
        None => {
            return Err(Fault { at: pos, kind: ErrorKind::TakeWhile1, committed: false });
        },
    };
    let equals = match token(rd, key_end, "=") {
        Ok(equals) => equals,
        Err(fault) => {
            return Err(fault);
        },
    };
    let start = blanks(rd, equals);
    match parse_value(rd, start) {
        Ok((value, end)) => Ok((Item::KeyAndValue((key, value)), end)),
        Err(fault) => Err(fault),
    }
}

/// What reading an item gave is what `outcome` says.
pub open spec fn item_read(r: Result<(Item, usize), Fault>, outcome: Parsed<ItemModel>) -> bool {
    match r {
        Ok((item, end)) => outcome == Parsed::Hit(item_model(item), end as int),
        Err(fault) => outcome == Parsed::<ItemModel>::Miss(fault@),
    }
}

fn parse_item<'a>(rd: &Reader<'a>, pos: usize) -> (r: Result<(Item, usize), Fault>)
    requires
        rd.wf(),
        rd.place(pos as int),
    ensures
        item_read(r, item_at(rd.bytes(), pos as int)),
        r matches Ok((_, end)) ==> pos < end && rd.place(end as int),
{
    match parse_section_name(rd, pos) {
        Ok(read) => {
            return Ok(read);
        },
        Err(fault) => if fault.committed {
            return Err(fault);
        },
    }
    parse_key_and_value(rd, pos)
}

/// The items of a file where the next is there: it, and the rest.
proof fn lemma_items_more(text: Seq<u8>, pos: int, item: ItemModel, end: int)
    requires
        item_at(text, ws(text, pos)) == Parsed::Hit(item, end),
        ahead(text, pos, ws(text, end)),
    ensures
        items_at(text, pos) == after(seq![item], items_at(text, ws(text, end))),
{
    reveal_with_fuel(items_at, 1);
}

/// The items of a file where the next is not there: none.
proof fn lemma_items_done(text: Seq<u8>, pos: int)
    requires
        item_at(text, ws(text, pos)) is Miss,
    ensures
        item_at(text, ws(text, pos))->Miss_0.committed ==> items_at(text, pos) == Parsed::<
            Seq<ItemModel>,
        >::Miss(item_at(text, ws(text, pos))->Miss_0),
        !item_at(text, ws(text, pos))->Miss_0.committed ==> items_at(text, pos) == Parsed::Hit(
            Seq::<ItemModel>::empty(),
            pos,
        ),
{
    reveal_with_fuel(items_at, 1);
}

/// The metadata that the exec state stands for while items are gathered.
pub open spec fn gathering_of(
    project: GDProjectMetadata,
    name: Option<Slice>,
    entries: Section,
) -> Gathering {
    Gathering {
        closed: project@,
        name: match name {
            Some(name) => Some(name.bytes()),
            None => None,
        },
        entries: map_of(entries@),
    }
}

/// Reads a metadata file.
///
/// An entry belongs to the section whose header it follows, and to the
/// front section where it follows none. A value that breaks off inside a
/// string or a number is an error at the place where it breaks off;
/// reading ends without error before other text that is no item.
pub fn parse_gdproject_metadata(code: Slice) -> (r: Result<GDProjectMetadata, ParseError>)
    requires
        code.wf(),
    ensures
        match r {
            Ok(project) => items_at(text_of(code), code.start as int) matches Parsed::Hit(items, _)
                && project@ == metadata_of(items) && project.wf(),
            Err(error) => items_at(text_of(code), code.start as int) matches Parsed::Miss(m)
                && error.module_id is None && error.src == rest_of(code, m.at) && error.message@
                == crate::utils::spec_message_of(RawParseErrorDetails::Kind(m.kind)),
        },
{
    let text = readable(&code);
    let rd = Reader { code: &code, text };
    let ghost bytes = rd.bytes();
    let mut project = GDProjectMetadata::new();
    let mut current_section_name: Option<Slice> = None;
    let mut current_section_entries: Section = Vec::new();
    let ghost mut read: Seq<ItemModel> = Seq::empty();
    let mut at = code.start;
    let mut more = true;
    proof {
        lemma_end_boundary(code);
        assert(after(Seq::<ItemModel>::empty(), items_at(bytes, at as int)) == items_at(
            bytes,
            at as int,
        )) by {
            if let Parsed::Hit(items, _) = items_at(bytes, at as int) {
                assert(Seq::<ItemModel>::empty() + items =~= items);
            }
        }
    }
    while more
        invariant
            rd.wf(),
            rd.code == &code,
            bytes == rd.bytes(),
            rd.place(at as int),
            project.wf(),
            distinct_keys(current_section_entries@),
            gathering_of(project, current_section_name, current_section_entries) == gather(read),
            more ==> items_at(bytes, code.start as int) == after(read, items_at(bytes, at as int)),
            !more ==> (items_at(bytes, code.start as int) matches Parsed::Hit(items, _) && items
                == read),
        decreases rd.bytes().len() - at, if more { 1int } else { 0int },
    {
        let start = blanks(&rd, at);
        match parse_item(&rd, start) {
            Err(fault) => {
                proof {
                    lemma_items_done(bytes, at as int);
                    assert(read + Seq::<ItemModel>::empty() =~= read);
                }
                if fault.committed {
                    return Err(
                        ParseError {
                            module_id: None,
                            src: cut_piece(&code, fault.at, code.end),
                            message: describe(fault.kind),
                        },
                    );
                }
                more = false;
            },
            Ok((item, end)) => {
                let next = blanks(&rd, end);
                proof {
                    lemma_items_more(bytes, at as int, item_model(item), end as int);
                    let rest = items_at(bytes, next as int);
                    if let Parsed::Hit(items, _) = rest {
                        assert(read + (seq![item_model(item)] + items) =~= read.push(
                            item_model(item),
                        ) + items);
                    }
                    assert(read.push(item_model(item)).drop_last() == read);
                    read = read.push(item_model(item));
                }
                match item {
                    Item::SectionName(new_section_name) => {
                        let mut closed: Section = Vec::new();
                        std::mem::swap(&mut closed, &mut current_section_entries);
                        match current_section_name {
                            Some(name) => {
                                set_section(&mut project.other_sections, name, closed);
                            },
                            None => {
                                project.front_section = closed;
                            },
                        }
                        current_section_name = Some(new_section_name);
                        assert(map_of(current_section_entries@) =~= Map::empty());
                    },
                    Item::KeyAndValue((key, value)) => {
                        set_entry(&mut current_section_entries, key, value);
                    },
                }
                at = next;
            },
        }
    }
    match current_section_name {
        Some(name) => {
            set_section(&mut project.other_sections, name, current_section_entries);
        },
        None => {
            project.front_section = current_section_entries;
        },
    }
    Ok(project)
}

impl GDProjectMetadata {
    /// The metadata that the text of `value` holds.
    pub fn try_from(value: Slice) -> (r: Result<Self, ParseError>)
        requires
            value.wf(),
        ensures
            match r {
                Ok(project) => items_at(text_of(value), value.start as int) matches Parsed::Hit(
                    items,
                    _,
                ) && project@ == metadata_of(items) && project.wf(),
                Err(error) => items_at(text_of(value), value.start as int) matches Parsed::Miss(
                    m,
                ) && error.module_id is None && error.src == rest_of(value, m.at)
                    && error.message@ == crate::utils::spec_message_of(
                    RawParseErrorDetails::Kind(m.kind),
                ),
            },
    {
        parse_gdproject_metadata(value)
    }
}

} // verus!

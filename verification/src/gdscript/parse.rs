//! The grammar of scripts: from source text to a syntax tree.

use vstd::prelude::*;
use vstd::string::*;
use vstd::utf8::*;
use crate::gdscript::ast::{
    covers, flat, lemma_flat_handles, names, within, ASTInner, Annotation, Any, ArrayLiteral, Block,
    BooleanLiteral, Break, ClassNameDeclaration, Declaration, Expression, ExtendsDeclaration,
    FloatLiteral, FloatType, FuncDeclaration, GDScript, IntLiteral, IntType, ModuleID,
    NullLiteral, Parentable, Pass, PlainIdentifier, Statement, StringType, SyntaxTree,
    TypeExpression, ValueDeclaration, AST,
};
use crate::gdscript::kinds::Kind;
use crate::gdscript::resolve::ids_of;
use crate::utils::scan::{
    has_tag, lemma_run_end_bounds, lemma_skip_blank_bounds, read_tag, run_end, skip_blank,
    skip_blank_from, tag_at, tag_end, take_while, CharClass,
};
use crate::utils::slice::Slice;
use crate::utils::errors::ParseError;
use crate::utils::{
    cut, cut_piece, Reader, describe, lemma_end_boundary, lemma_piece_wf, miss, number_at, number_from,
    number_has_fraction, piece, readable, rest_of, text_of, ErrorKind, Fault, Miss, Outcome,
};

verus! {

// --- What the rules read and what they build ---

/// `after` is `before` with new nodes that nothing in `before` holds, the
/// last of them `root`, which no node holds yet; and `after` is sound.
pub open spec fn grown(before: Seq<ASTInner>, after: &SyntaxTree, code: Slice, root: int) -> bool {
    &&& ready(after, code)
    &&& keeps(before, after@)
    &&& before.len() <= root
    &&& root + 1 == after@.len()
    &&& after@[root].parent is None
    &&& loose(after, before.len() as int, seq![root as usize])
}

/// Every node from `base` on that no node holds is one of `roots`.
#[verifier::opaque]
pub open spec fn loose(tree: &SyntaxTree, base: int, roots: Seq<usize>) -> bool {
    forall|i: int|
        base <= i < tree@.len() && (#[trigger] tree@[i]).parent is None ==> names(roots, i)
}

/// After a step that adds nodes under one new root, the nodes that no node
/// holds are those of before and the new root.
pub proof fn lemma_loose_more(
    before: &SyntaxTree,
    tree: &SyntaxTree,
    code: Slice,
    base: int,
    roots: Seq<usize>,
    root: int,
)
    requires
        loose(before, base, roots),
        grown(before@, tree, code, root),
        0 <= base <= before@.len(),
    ensures
        loose(tree, base, roots.push(root as usize)),
{
    reveal(loose);
    reveal(keeps);
    let all = roots.push(root as usize);
    assert forall|i: int| base <= i < tree@.len() && (#[trigger] tree@[i]).parent is None implies names(
        all,
        i,
    ) by {
        if i < before@.len() {
            lemma_kept(before, tree, i);
            let k = choose|k: int| 0 <= k < roots.len() && #[trigger] roots[k] == i;
            assert(all[k] == i);
        } else {
            assert(names(seq![root as usize], i));
            assert(i == root);
            assert(all[roots.len() as int] == root);
        }
    }
}

/// In a store that has not grown past `base`, no node from `base` on is
/// without a holder.
pub proof fn lemma_loose_none(tree: &SyntaxTree, base: int)
    requires
        tree@.len() <= base,
    ensures
        loose(tree, base, Seq::empty()),
{
    reveal(loose);
}

/// What holds of the nodes without a holder holds in a store with the same
/// nodes.
pub proof fn lemma_loose_same(before: &SyntaxTree, tree: &SyntaxTree, base: int, roots: Seq<usize>)
    requires
        loose(before, base, roots),
        tree@ == before@,
    ensures
        loose(tree, base, roots),
{
    reveal(loose);
}

/// A store that the rules can add to: its nodes form trees, the span of
/// each covers the spans of the nodes that it holds, and each span is a
/// piece of text of `code`.
#[verifier::opaque]
pub open spec fn ready(tree: &SyntaxTree, code: Slice) -> bool {
    tree.wf() && tree.covered() && tree.sourced(code)
}

/// `after` starts with the nodes of `before`, unchanged.
#[verifier::opaque]
pub open spec fn keeps(before: Seq<ASTInner>, after: Seq<ASTInner>) -> bool {
    &&& before.len() <= after.len()
    &&& forall|i: int| 0 <= i < before.len() ==> #[trigger] after[i] == before[i]
}

/// What keeps the nodes of a store that keeps the nodes of another keeps
/// the nodes of that other.
pub proof fn lemma_keeps_on(first: Seq<ASTInner>, then: Seq<ASTInner>, last: Seq<ASTInner>)
    requires
        keeps(first, then),
        keeps(then, last),
    ensures
        keeps(first, last),
{
    reveal(keeps);
}

/// A store keeps its own nodes.
pub proof fn lemma_keeps_self(nodes: Seq<ASTInner>)
    ensures
        keeps(nodes, nodes),
{
    reveal(keeps);
}

/// What a store that keeps the nodes of another, and has more, says of
/// the nodes that it keeps.
pub proof fn lemma_kept(before: &SyntaxTree, after: &SyntaxTree, id: int)
    requires
        keeps(before@, after@),
        before.has(id),
    ensures
        after@[id] == before@[id],
        after.has(id),
        after.extends(before),
{
    reveal(keeps);
}

/// Adds a node that holds no other.
fn leaf<'a, K: Kind>(rd: &Reader<'a>, tree: &mut SyntaxTree, payload: K, start: usize, end: usize) -> (r:
    AST<K>)
    requires
        rd.wf(),
        ready(old(tree), *rd.code),
        rd.place(start as int),
        rd.place(end as int),
        start <= end,
        payload.widen().children().len() == 0,
        payload.widen().sound(old(tree)),
    ensures
        grown(old(tree)@, final(tree), *rd.code, r.id as int),
        final(tree).details_of(r.id as int) == payload.widen(),
        final(tree).span_of(r.id as int) == piece(*rd.code, start as int, end as int),
        final(tree).holds(r),
{
    let src = cut_piece(rd.code, start, end);
    proof {
        lemma_piece_wf(*rd.code, start as int, end as int);
    }
    proof {
        reveal(ready);
        reveal(keeps);
    }
    let made = tree.make_node(payload, src);
    proof {
        assert forall|i: int| 0 <= i < old(tree)@.len() implies #[trigger] tree@[i] == old(
            tree,
        )@[i] by {
            assert(!names(payload.widen().children(), i));
        }
        assert forall|i: int| tree.has(i) implies within(*rd.code, #[trigger] tree.span_of(i)) by {
            if i < old(tree)@.len() {
                assert(tree@[i] == old(tree)@[i]);
                assert(old(tree).has(i));
                assert(within(*rd.code, old(tree).span_of(i)));
            } else {
                assert(i == made.id);
                assert(tree.span_of(i) == src);
                assert(src.wf());
            }
        }
        assert(loose(tree, old(tree)@.len() as int, seq![made.id])) by {
            reveal(loose);
            assert(seq![made.id][0] == made.id);
        }
    }
    made
}

/// Adds a node that holds nodes added since the store was `base`, none of
/// them held yet.
fn branch<'a, K: Kind>(
    rd: &Reader<'a>,
    tree: &mut SyntaxTree,
    payload: K,
    start: usize,
    end: usize,
    Ghost(base): Ghost<Seq<ASTInner>>,
) -> (r: AST<K>)
    requires
        rd.wf(),
        ready(old(tree), *rd.code),
        rd.place(start as int),
        rd.place(end as int),
        start <= end,
        payload.widen().sound(old(tree)),
        keeps(base, old(tree)@),
        loose(old(tree), base.len() as int, payload.widen().children()),
        forall|k: int|
            0 <= k < payload.widen().children().len() ==> {
                let c = #[trigger] payload.widen().children()[k];
                &&& base.len() <= c < old(tree)@.len()
                &&& old(tree)@[c as int].parent is None
                &&& covers(piece(*rd.code, start as int, end as int), old(tree).span_of(c as int))
            },
    ensures
        grown(base, final(tree), *rd.code, r.id as int),
        final(tree).extends(old(tree)),
        r.id == old(tree)@.len(),
        final(tree).details_of(r.id as int) == payload.widen(),
        final(tree).span_of(r.id as int) == piece(*rd.code, start as int, end as int),
        final(tree).holds(r),
{
    let src = cut_piece(rd.code, start, end);
    proof {
        lemma_piece_wf(*rd.code, start as int, end as int);
    }
    proof {
        reveal(ready);
        reveal(keeps);
    }
    let made = tree.make_node(payload, src);
    proof {
        let held = payload.widen().children();
        assert forall|i: int| 0 <= i < base.len() implies #[trigger] tree@[i] == base[i] by {
            if names(held, i) {
                let k = choose|k: int| 0 <= k < held.len() && #[trigger] held[k] == i;
                assert(base.len() <= held[k]);
            }
            assert(tree@[i] == old(tree)@[i]);
        }
        assert forall|i: int| tree.has(i) implies within(*rd.code, #[trigger] tree.span_of(i)) by {
            if i < old(tree)@.len() {
                assert(tree@.take(old(tree)@.len() as int)[i].slice == old(tree)@[i].slice);
                assert(old(tree).has(i));
                assert(within(*rd.code, old(tree).span_of(i)));
            } else {
                assert(i == made.id);
                assert(tree.span_of(i) == src);
                assert(src.wf());
            }
        }
        assert forall|i: int| 0 <= i < old(tree)@.len() implies (#[trigger] tree@[i]).details
            == old(tree)@[i].details && tree@[i].slice == old(tree)@[i].slice by {
            assert(tree@.take(old(tree)@.len() as int)[i].slice == old(tree)@[i].slice);
        }
        assert(loose(tree, base.len() as int, seq![made.id])) by {
            reveal(loose);
            assert forall|i: int|
                base.len() <= i < tree@.len() && (#[trigger] tree@[i]).parent is None implies names(
                seq![made.id],
                i,
            ) by {
                if i < old(tree)@.len() {
                    let now = tree@.take(old(tree)@.len() as int)[i];
                    if names(held, i) {
                        assert(now.parent == Some(made.id));
                    } else {
                        assert(now.parent == old(tree)@[i].parent);
                    }
                } else {
                    assert(seq![made.id][0] == made.id);
                }
            }
        }
    }
    made
}

/// Whether a store is sound depends on its nodes alone.
pub proof fn lemma_ready_by_view(tree: &SyntaxTree, same: &SyntaxTree, code: Slice)
    requires
        ready(tree, code),
        same@ == tree@,
    ensures
        ready(same, code),
{
    reveal(ready);
    assert forall|i: int| same.has(i) implies #[trigger] same.node_ok(i) by {
        assert(tree.node_ok(i));
        crate::gdscript::ast::lemma_any_sound_stable(tree.details_of(i), tree, same);
    }
    assert forall|i: int, k: int|
        same.has(i) && 0 <= k < same.details_of(i).children().len() implies covers(
        same.span_of(i),
        same.span_of(#[trigger] same.details_of(i).children()[k] as int),
    ) by {
        assert(covers(tree.span_of(i), tree.span_of(tree.details_of(i).children()[k] as int)));
    }
    assert forall|i: int| same.has(i) implies within(code, #[trigger] same.span_of(i)) by {
        assert(within(code, tree.span_of(i)));
    }
}

/// Takes the store back to what it was with its first `len` nodes.
fn drop_from<'a>(
    rd: &Reader<'a>,
    tree: &mut SyntaxTree,
    len: usize,
    Ghost(start): Ghost<&SyntaxTree>,
)
    requires
        ready(start, *rd.code),
        len == start@.len(),
        keeps(start@, old(tree)@),
    ensures
        final(tree)@ == start@,
        ready(final(tree), *rd.code),
{
    proof {
        reveal(keeps);
    }
    tree.nodes.truncate(len);
    assert(tree@ =~= start@);
    proof {
        lemma_ready_by_view(start, tree, *rd.code);
    }
}

// --- Blanks ---

/// Where the blanks and comments that start at `pos` end: spaces, line
/// ends, and `#` with the rest of its line.
pub open spec fn ws(text: Seq<u8>, pos: int) -> int {
    skip_blank(text, pos, CharClass::Blank, "#".spec_bytes())
}

/// Skips blanks and comments.
fn whitespace_and_comments<'a>(rd: &Reader<'a>, pos: usize) -> (r: usize)
    requires
        rd.wf(),
        rd.place(pos as int),
    ensures
        r == ws(rd.bytes(), pos as int),
        pos <= r,
        rd.place(r as int),
{
    let r = skip_blank_from(rd.text, pos, CharClass::Blank, "#");
    r
}

/// Blanks and comments, at least one.
pub open spec fn ws1(text: Seq<u8>, pos: int) -> Outcome {
    if ws(text, pos) > pos {
        Outcome::Hit(ws(text, pos))
    } else {
        miss(pos, ErrorKind::Tag)
    }
}

/// Skips blanks and comments, at least one.
fn whitespace_and_comments1<'a>(rd: &Reader<'a>, pos: usize) -> (r: Result<usize, Fault>)
    requires
        rd.wf(),
        rd.place(pos as int),
    ensures
        crate::utils::agrees(r, ws1(rd.bytes(), pos as int)),
        r matches Ok(end) ==> pos < end && rd.place(end as int),
{
    let end = whitespace_and_comments(rd, pos);
    if end > pos {
        Ok(end)
    } else {
        Err(Fault { at: pos, kind: ErrorKind::Tag, committed: false })
    }
}

// --- Names ---

/// Where the name that starts at `pos` ends: a run of letters, numbers,
/// `_` and `$`.
pub open spec fn name_end(text: Seq<u8>, pos: int) -> int {
    run_end(text, pos, CharClass::Word)
}

/// A name: at least one character of a name.
pub open spec fn identifier_at(text: Seq<u8>, pos: int) -> Outcome {
    if name_end(text, pos) > pos {
        Outcome::Hit(name_end(text, pos))
    } else {
        miss(pos, ErrorKind::TakeWhile1)
    }
}

/// Node `id` is the name that the text spells at `pos`.
pub open spec fn ident_ok(tree: &SyntaxTree, code: Slice, id: int, pos: int) -> bool {
    let span = piece(code, pos, name_end(text_of(code), pos));
    &&& tree.has(id)
    &&& tree.span_of(id) == span
    &&& tree.details_of(id) == Any::PlainIdentifier(PlainIdentifier { name: span })
}

fn plain_identifier<'a>(rd: &Reader<'a>, tree: &mut SyntaxTree, pos: usize) -> (r: Result<
    (AST<PlainIdentifier>, usize),
    Fault,
>)
    requires
        rd.wf(),
        ready(old(tree), *rd.code),
        rd.place(pos as int),
    ensures
        match r {
            Ok((node, end)) => {
                &&& identifier_at(rd.bytes(), pos as int) == Outcome::Hit(end as int)
                &&& grown(old(tree)@, final(tree), *rd.code, node.id as int)
                &&& ident_ok(final(tree), *rd.code, node.id as int, pos as int)
                &&& pos < end
                &&& rd.place(end as int)
            },
            Err(fault) => identifier_at(rd.bytes(), pos as int) == Outcome::Miss(fault@)
                && final(tree)@ == old(tree)@ && ready(final(tree), *rd.code),
        },
{
    let end = take_while(rd.text, pos, CharClass::Word);
    if end > pos {
        let name = cut_piece(rd.code, pos, end);
        let node = leaf(rd, tree, PlainIdentifier { name }, pos, end);
        Ok((node, end))
    } else {
        Err(Fault { at: pos, kind: ErrorKind::TakeWhile1, committed: false })
    }
}

// --- Statements ---

/// Where the statement that starts at `pos` ends: after `pass` or `break`.
pub open spec fn statement_end(text: Seq<u8>, pos: int) -> Option<int> {
    match tag_end(text, pos, "pass".spec_bytes()) {
        Some(end) => Some(end),
        None => tag_end(text, pos, "break".spec_bytes()),
    }
}

/// A statement.
pub open spec fn statement_at(text: Seq<u8>, pos: int) -> Outcome {
    match statement_end(text, pos) {
        Some(end) => Outcome::Hit(end),
        None => miss(pos, ErrorKind::Tag),
    }
}

/// Node `id` is the statement that the text spells at `pos`.
pub open spec fn statement_ok(tree: &SyntaxTree, code: Slice, id: int, pos: int) -> bool {
    let text = text_of(code);
    &&& tree.has(id)
    &&& match tag_end(text, pos, "pass".spec_bytes()) {
        Some(end) => tree.span_of(id) == piece(code, pos, end) && tree.details_of(id) == Any::Pass(
            Pass,
        ),
        None => match tag_end(text, pos, "break".spec_bytes()) {
            Some(end) => tree.span_of(id) == piece(code, pos, end) && tree.details_of(id)
                == Any::Break(Break),
            None => false,
        },
    }
}

fn parse_statement<'a>(rd: &Reader<'a>, tree: &mut SyntaxTree, pos: usize) -> (r: Result<
    (AST<Statement>, usize),
    Fault,
>)
    requires
        rd.wf(),
        ready(old(tree), *rd.code),
        rd.place(pos as int),
    ensures
        match r {
            Ok((node, end)) => {
                &&& statement_at(rd.bytes(), pos as int) == Outcome::Hit(end as int)
                &&& grown(old(tree)@, final(tree), *rd.code, node.id as int)
                &&& statement_ok(final(tree), *rd.code, node.id as int, pos as int)
                &&& final(tree).holds(node)
                &&& pos < end
                &&& rd.place(end as int)
            },
            Err(fault) => statement_at(rd.bytes(), pos as int) == Outcome::Miss(fault@)
                && final(tree)@ == old(tree)@ && ready(final(tree), *rd.code),
        },
{
    if let Some(end) = read_tag(rd.text, pos, "pass") {
        let node = leaf(rd, tree, Pass, pos, end);
        return Ok((node.recast::<Statement>(), end));
    }
    if let Some(end) = read_tag(rd.text, pos, "break") {
        let node = leaf(rd, tree, Break, pos, end);
        return Ok((node.recast::<Statement>(), end));
    }
    Err(Fault { at: pos, kind: ErrorKind::Tag, committed: false })
}

// --- Blocks ---

/// The tabs that start a line `indentation` levels deep.
pub fn get_indentation_str_tabs(indentation: usize) -> (r: &'static str)
    requires
        indentation <= 5,
    ensures
        r.spec_bytes() == tabs(indentation as nat),
{
    match indentation {
        0 => "",
        1 => "\t",
        2 => "\t\t",
        3 => "\t\t\t",
        4 => "\t\t\t\t",
        _ => "\t\t\t\t\t",
    }
}

/// The spaces that start a line `indentation` levels deep: four a level.
pub fn get_indentation_str_spaces(indentation: usize) -> (r: &'static str)
    requires
        indentation <= 5,
    ensures
        r.spec_bytes() == spaces(indentation as nat),
{
    match indentation {
        0 => "",
        1 => "    ",
        2 => "        ",
        3 => "            ",
        4 => "                ",
        _ => "                    ",
    }
}

/// The bytes of `level` tabs, for up to five levels.
pub open spec fn tabs(level: nat) -> Seq<u8> {
    if level == 0 {
        "".spec_bytes()
    } else if level == 1 {
        "\t".spec_bytes()
    } else if level == 2 {
        "\t\t".spec_bytes()
    } else if level == 3 {
        "\t\t\t".spec_bytes()
    } else if level == 4 {
        "\t\t\t\t".spec_bytes()
    } else {
        "\t\t\t\t\t".spec_bytes()
    }
}

/// The bytes of four spaces a level, for up to five levels.
pub open spec fn spaces(level: nat) -> Seq<u8> {
    if level == 0 {
        "".spec_bytes()
    } else if level == 1 {
        "    ".spec_bytes()
    } else if level == 2 {
        "        ".spec_bytes()
    } else if level == 3 {
        "            ".spec_bytes()
    } else if level == 4 {
        "                ".spec_bytes()
    } else {
        "                    ".spec_bytes()
    }
}

/// Where the indentation that starts at `pos` ends: after the tabs of the
/// level, or after its spaces.
pub open spec fn indentation_end(text: Seq<u8>, pos: int, level: nat) -> Option<int> {
    if has_tag(text, pos, tabs(level)) {
        Some(pos + tabs(level).len())
    } else if has_tag(text, pos, spaces(level)) {
        Some(pos + spaces(level).len())
    } else {
        None
    }
}

fn parse_indentation<'a>(rd: &Reader<'a>, pos: usize, indentation: usize) -> (r: Option<usize>)
    requires
        rd.wf(),
        rd.place(pos as int),
        indentation <= 5,
    ensures
        match r {
            Some(end) => indentation_end(rd.bytes(), pos as int, indentation as nat) == Some(
                end as int,
            ) && pos <= end && rd.place(end as int),
            None => indentation_end(rd.bytes(), pos as int, indentation as nat) is None,
        },
{
    if let Some(end) = tag_at(rd.text, pos, get_indentation_str_tabs(indentation)) {
        return Some(end);
    }
    tag_at(rd.text, pos, get_indentation_str_spaces(indentation))
}

/// The place after the last line feed between `from` and `to`, and `from`
/// where there is none.
pub open spec fn last_line(text: Seq<u8>, from: int, to: int) -> int
    decreases to - from,
{
    if to <= from {
        from
    } else if text[to - 1] == 10 {
        to
    } else {
        last_line(text, from, to - 1)
    }
}

/// Where the indentation of the block line that follows `pos` starts: of
/// the blanks and comments after `pos`, those up to the last line feed are
/// passed over, so that the spaces that stand at the start of the line are
/// left for the indentation.
pub open spec fn line_begin(text: Seq<u8>, pos: int) -> int {
    last_line(text, pos, ws(text, pos))
}

/// Where the statement of the block line that follows `pos` starts: after
/// the indentation of the level, tabs or spaces, at the start of the line.
pub open spec fn line_start(text: Seq<u8>, pos: int, level: nat) -> Option<int> {
    indentation_end(text, line_begin(text, pos), level)
}

/// One line of a block: blanks and comments up to the start of the line,
/// the indentation of the level, a statement.
pub open spec fn line_at(text: Seq<u8>, pos: int, level: nat) -> Outcome {
    match line_start(text, pos, level) {
        None => miss(line_begin(text, pos), ErrorKind::Tag),
        Some(start) => statement_at(text, start),
    }
}

/// Passes over blanks and comments up to the start of the line on which
/// they end.
fn start_of_line<'a>(rd: &Reader<'a>, pos: usize) -> (r: usize)
    requires
        rd.wf(),
        rd.place(pos as int),
    ensures
        r == line_begin(rd.bytes(), pos as int),
        pos <= r,
        rd.place(r as int),
{
    let after = whitespace_and_comments(rd, pos);
    let bytes = rd.text.as_bytes();
    let mut at = after;
    while at > pos
        invariant
            rd.wf(),
            rd.place(pos as int),
            bytes@ == rd.bytes(),
            pos <= at <= after <= bytes@.len(),
            after <= rd.code.end,
            after == ws(rd.bytes(), pos as int),
            last_line(bytes@, pos as int, after as int) == last_line(bytes@, pos as int, at as int),
        decreases at,
    {
        if bytes[at - 1] == 10 {
            proof {
                vstd::utf8::encode_utf8_valid_utf8(rd.text@);
                crate::utils::scan::lemma_after_ascii(bytes@, at as int);
            }
            return at;
        }
        at -= 1;
    }
    pos
}

/// Where the statements of the lines of a block that starts at `pos` start.
pub open spec fn block_starts(text: Seq<u8>, pos: int, level: nat) -> Seq<int>
    decreases text.len() - pos,
{
    match line_at(text, pos, level) {
        Outcome::Hit(end) => if pos < end <= text.len() {
            seq![line_start(text, pos, level)->0] + block_starts(text, end, level)
        } else {
            Seq::empty()
        },
        Outcome::Miss(_) => Seq::empty(),
    }
}

/// Where the lines of a block that starts at `pos` end.
pub open spec fn block_end(text: Seq<u8>, pos: int, level: nat) -> int
    decreases text.len() - pos,
{
    match line_at(text, pos, level) {
        Outcome::Hit(end) => if pos < end <= text.len() {
            block_end(text, end, level)
        } else {
            pos
        },
        Outcome::Miss(_) => pos,
    }
}

/// A block: one line or more.
pub open spec fn block_at(text: Seq<u8>, pos: int, level: nat) -> Outcome {
    match line_at(text, pos, level) {
        Outcome::Miss(m) => Outcome::Miss(m),
        Outcome::Hit(_) => Outcome::Hit(block_end(text, pos, level)),
    }
}

/// Node `id` is the block that the text spells at `pos`: it holds one
/// statement for each line, in order, and spans from the first statement to
/// the end of the last.
pub open spec fn block_ok(tree: &SyntaxTree, code: Slice, id: int, pos: int, level: nat) -> bool {
    let text = text_of(code);
    let starts = block_starts(text, pos, level);
    &&& tree.has(id)
    &&& starts.len() > 0
    &&& tree.span_of(id) == piece(code, starts[0], block_end(text, pos, level))
    &&& tree.details_of(id) matches Any::Block(block) && {
        &&& block.statements@.len() == starts.len()
        &&& tree.span_of(id) == tree.span_of(block.statements@[0].id as int).spec_join(
            tree.span_of(block.statements@.last().id as int),
        )
        &&& forall|i: int|
            0 <= i < starts.len() ==> statement_ok(
                tree,
                code,
                (#[trigger] block.statements@[i]).id as int,
                starts[i],
            )
    }
}

/// A statement that is the statement at a place stays so when nodes are
/// added.
pub proof fn lemma_statement_stays(
    tree: &SyntaxTree,
    later: &SyntaxTree,
    code: Slice,
    id: int,
    pos: int,
)
    requires
        statement_ok(tree, code, id, pos),
        later.extends(tree),
    ensures
        statement_ok(later, code, id, pos),
{
    assert(later@[id].details == tree@[id].details);
}

fn parse_line<'a>(rd: &Reader<'a>, tree: &mut SyntaxTree, pos: usize, indentation: usize) -> (r:
    Result<(AST<Statement>, usize, usize), Fault>)
    requires
        rd.wf(),
        ready(old(tree), *rd.code),
        rd.place(pos as int),
        indentation <= 5,
    ensures
        match r {
            Ok((node, end, start)) => {
                &&& line_at(rd.bytes(), pos as int, indentation as nat) == Outcome::Hit(end as int)
                &&& line_start(rd.bytes(), pos as int, indentation as nat) == Some(start as int)
                &&& grown(old(tree)@, final(tree), *rd.code, node.id as int)
                &&& statement_ok(final(tree), *rd.code, node.id as int, start as int)
                &&& final(tree).holds(node)
                &&& pos <= start < end
                &&& rd.place(start as int)
                &&& rd.place(end as int)
            },
            Err(fault) => line_at(rd.bytes(), pos as int, indentation as nat) == Outcome::Miss(
                fault@,
            ) && final(tree)@ == old(tree)@ && ready(final(tree), *rd.code),
        },
{
    let after_blanks = start_of_line(rd, pos);
    let start = match parse_indentation(rd, after_blanks, indentation) {
        Some(start) => start,
        None => {
            return Err(Fault { at: after_blanks, kind: ErrorKind::Tag, committed: false });
        },
    };
    match parse_statement(rd, tree, start) {
        Ok((node, end)) => Ok((node, end, start)),
        Err(fault) => Err(fault),
    }
}

/// The statements read so far are in place: one node for each start, each
/// the statement at its start, added since the store had `base` nodes,
/// held by no node yet, and inside the text from `lo` to `hi`.
#[verifier::opaque]
pub open spec fn lines_ok(
    tree: &SyntaxTree,
    code: Slice,
    base: int,
    statements: Seq<AST<Statement>>,
    starts: Seq<int>,
    lo: int,
    hi: int,
) -> bool {
    &&& statements.len() == starts.len()
    &&& loose(tree, base, ids_of(statements))
    &&& statements.len() > 0 ==> tree.span_of(statements[0].id as int).start == lo && tree.span_of(
        statements.last().id as int,
    ).end == hi
    &&& forall|i: int|
        0 <= i < statements.len() ==> {
            let id = (#[trigger] statements[i]).id as int;
            &&& base <= id < tree@.len()
            &&& tree@[id].parent is None
            &&& tree.holds(statements[i])
            &&& statement_ok(tree, code, id, starts[i])
            &&& lo <= tree.span_of(id).start
            &&& tree.span_of(id).end <= hi
        }
}

/// Statements that are in place stay so when one more is read.
proof fn lemma_lines_grow(
    before: &SyntaxTree,
    tree: &SyntaxTree,
    code: Slice,
    base: int,
    statements: Seq<AST<Statement>>,
    starts: Seq<int>,
    lo: int,
    hi: int,
    node: AST<Statement>,
    start: int,
    end: int,
)
    requires
        lines_ok(before, code, base, statements, starts, lo, hi),
        grown(before@, tree, code, node.id as int),
        0 <= base <= before@.len(),
        statement_ok(tree, code, node.id as int, start),
        tree.holds(node),
        lo <= tree.span_of(node.id as int).start,
        statements.len() == 0 ==> tree.span_of(node.id as int).start == lo,
        tree.span_of(node.id as int).end == end,
        hi <= end,
    ensures
        lines_ok(tree, code, base, statements.push(node), starts.push(start), lo, end),
{
    reveal(lines_ok);
    lemma_loose_more(before, tree, code, base, ids_of(statements), node.id as int);
    assert(ids_of(statements).push(node.id) =~= ids_of(statements.push(node)));
    let all = statements.push(node);
    let all_starts = starts.push(start);
    assert forall|i: int| 0 <= i < all.len() implies {
        let id = (#[trigger] all[i]).id as int;
        &&& base <= id < tree@.len()
        &&& tree@[id].parent is None
        &&& tree.holds(all[i])
        &&& statement_ok(tree, code, id, all_starts[i])
        &&& lo <= tree.span_of(id).start
        &&& tree.span_of(id).end <= end
    } by {
        if i < statements.len() {
            let id = statements[i].id as int;
            assert(all[i] == statements[i]);
            lemma_kept(before, tree, id);
            lemma_statement_stays(before, tree, code, id, starts[i]);
        }
    }
}

/// Statements that are in place stay so in a store with the same nodes.
proof fn lemma_block_same(
    before: &SyntaxTree,
    tree: &SyntaxTree,
    code: Slice,
    base: Seq<ASTInner>,
    statements: Seq<AST<Statement>>,
    starts: Seq<int>,
    lo: int,
    hi: int,
)
    requires
        lines_ok(before, code, base.len() as int, statements, starts, lo, hi),
        keeps(base, before@),
        tree@ == before@,
    ensures
        lines_ok(tree, code, base.len() as int, statements, starts, lo, hi),
        keeps(base, tree@),
{
    reveal(lines_ok);
    lemma_loose_same(before, tree, base.len() as int, ids_of(statements));
    assert forall|i: int| 0 <= i < statements.len() implies {
        let id = (#[trigger] statements[i]).id as int;
        &&& statement_ok(tree, code, id, starts[i])
    } by {
        lemma_statement_stays(before, tree, code, statements[i].id as int, starts[i]);
    }
}

fn parse_block<'a>(rd: &Reader<'a>, tree: &mut SyntaxTree, pos: usize, indentation: usize) -> (r:
    Result<(AST<Block>, usize), Fault>)
    requires
        rd.wf(),
        ready(old(tree), *rd.code),
        rd.place(pos as int),
        indentation <= 5,
    ensures
        match r {
            Ok((node, end)) => {
                &&& block_at(rd.bytes(), pos as int, indentation as nat) == Outcome::Hit(end as int)
                &&& grown(old(tree)@, final(tree), *rd.code, node.id as int)
                &&& block_ok(final(tree), *rd.code, node.id as int, pos as int, indentation as nat)
                &&& final(tree).holds(node)
                &&& pos < end
                &&& pos <= final(tree).span_of(node.id as int).start
                &&& final(tree).span_of(node.id as int).end == end
                &&& rd.place(end as int)
            },
            Err(fault) => block_at(rd.bytes(), pos as int, indentation as nat) == Outcome::Miss(
                fault@,
            ) && final(tree)@ == old(tree)@ && ready(final(tree), *rd.code),
        },
{
    let ghost base = tree@;
    let ghost text = rd.bytes();
    let ghost level = indentation as nat;
    let (first, first_end, first_start) = match parse_line(rd, tree, pos, indentation) {
        Ok(line) => line,
        Err(fault) => {
            return Err(fault);
        },
    };
    let mut statements: Vec<AST<Statement>> = Vec::new();
    let ghost mut starts: Seq<int> = seq![first_start as int];
    proof {
        lemma_loose_none(old(tree), base.len() as int);
        assert(ids_of(Seq::<AST<Statement>>::empty()) =~= Seq::<usize>::empty());
        reveal(lines_ok);
        reveal(statement_ok);
        lemma_lines_grow(
            old(tree),
            tree,
            *rd.code,
            base.len() as int,
            statements@,
            Seq::empty(),
            first_start as int,
            first_start as int,
            first,
            first_start as int,
            first_end as int,
        );
        assert(Seq::<int>::empty().push(first_start as int) =~= starts);
    }
    statements.push(first);
    let mut at = first_end;
    let mut more = true;
    while more
        invariant
            !more ==> line_at(text, at as int, level) is Miss,
            rd.wf(),
            indentation <= 5,
            level == indentation as nat,
            text == rd.bytes(),
            ready(tree, *rd.code),
            rd.place(at as int),
            pos < at,
            pos <= first_start,
            rd.place(first_start as int),
            first_start < at,
            keeps(base, tree@),
            starts.len() == statements@.len(),
            starts.len() > 0,
            starts[0] == first_start,
            block_starts(text, pos as int, level) == starts + block_starts(text, at as int, level),
            block_end(text, pos as int, level) == block_end(text, at as int, level),
            lines_ok(
                tree,
                *rd.code,
                base.len() as int,
                statements@,
                starts,
                first_start as int,
                at as int,
            ),
        decreases rd.bytes().len() - at, if more { 1int } else { 0int },
    {
        let ghost before = *tree;
        match parse_line(rd, tree, at, indentation) {
            Ok((node, end, start)) => {
                proof {
                    lemma_grown_keeps(before@, tree, *rd.code, node.id as int);
                    lemma_keeps_on(base, before@, tree@);
                    lemma_keeps_len(base, before@);
                    lemma_lines_grow(
                        &before,
                        tree,
                        *rd.code,
                        base.len() as int,
                        statements@,
                        starts,
                        first_start as int,
                        at as int,
                        node,
                        start as int,
                        end as int,
                    );
                    assert(starts + block_starts(text, at as int, level) =~= starts.push(
                        start as int,
                    ) + block_starts(text, end as int, level));
                    starts = starts.push(start as int);
                }
                statements.push(node);
                at = end;
            },
            Err(_) => {
                proof {
                    lemma_block_same(
                        &before,
                        tree,
                        *rd.code,
                        base,
                        statements@,
                        starts,
                        first_start as int,
                        at as int,
                    );
                }
                more = false;
            },
        }
    }
    proof {
        assert(block_starts(text, at as int, level) =~= Seq::empty());
        assert(block_starts(text, pos as int, level) =~= starts);
        lemma_flat_handles(statements@);
        reveal(lines_ok);
        reveal(statement_ok);
        reveal(ready);
        assert(flat(statements@) =~= ids_of(statements@));
        let first_span = tree.span_of(statements@[0].id as int);
        let last_span = tree.span_of(statements@.last().id as int);
        assert(within(*rd.code, first_span));
        assert(within(*rd.code, last_span));
        assert(first_span.spec_join(last_span) == piece(*rd.code, first_start as int, at as int));
    }
    let ghost lined = *tree;
    let ghost held = statements@;
    let node = branch(rd, tree, Block { statements }, first_start, at, Ghost(base));
    proof {
        lemma_kept_spans(&lined, tree, held[0].id as int);
        lemma_kept_spans(&lined, tree, held.last().id as int);
        assert forall|i: int| 0 <= i < starts.len() implies statement_ok(
            tree,
            *rd.code,
            (#[trigger] held[i]).id as int,
            starts[i],
        ) by {
            lemma_statement_stays(&lined, tree, *rd.code, held[i].id as int, starts[i]);
        }
    }
    Ok((node, at))
}

// --- Types ---

/// Where the type that starts at `pos` ends: after `int`, `float` or
/// `String`.
pub open spec fn type_end(text: Seq<u8>, pos: int) -> Option<int> {
    match tag_end(text, pos, "int".spec_bytes()) {
        Some(end) => Some(end),
        None => match tag_end(text, pos, "float".spec_bytes()) {
            Some(end) => Some(end),
            None => tag_end(text, pos, "String".spec_bytes()),
        },
    }
}

/// Node `id` is the type that the text spells at `pos`.
pub open spec fn type_ok(tree: &SyntaxTree, code: Slice, id: int, pos: int) -> bool {
    let text = text_of(code);
    &&& tree.has(id)
    &&& type_end(text, pos) matches Some(end) && tree.span_of(id) == piece(code, pos, end)
    &&& tree.details_of(id) == if tag_end(text, pos, "int".spec_bytes()) is Some {
        Any::IntType(IntType)
    } else if tag_end(text, pos, "float".spec_bytes()) is Some {
        Any::FloatType(FloatType)
    } else {
        Any::StringType(StringType)
    }
}

fn parse_type<'a>(rd: &Reader<'a>, tree: &mut SyntaxTree, pos: usize) -> (r: Option<
    (AST<TypeExpression>, usize),
>)
    requires
        rd.wf(),
        ready(old(tree), *rd.code),
        rd.place(pos as int),
    ensures
        match r {
            Some((node, end)) => {
                &&& type_end(rd.bytes(), pos as int) == Some(end as int)
                &&& grown(old(tree)@, final(tree), *rd.code, node.id as int)
                &&& type_ok(final(tree), *rd.code, node.id as int, pos as int)
                &&& final(tree).holds(node)
                &&& pos < end
                &&& rd.place(end as int)
            },
            None => type_end(rd.bytes(), pos as int) is None && final(tree)@ == old(tree)@
                && ready(final(tree), *rd.code),
        },
{
    if let Some(end) = read_tag(rd.text, pos, "int") {
        let node = leaf(rd, tree, IntType, pos, end);
        return Some((node.recast::<TypeExpression>(), end));
    }
    if let Some(end) = read_tag(rd.text, pos, "float") {
        let node = leaf(rd, tree, FloatType, pos, end);
        return Some((node.recast::<TypeExpression>(), end));
    }
    if let Some(end) = read_tag(rd.text, pos, "String") {
        let node = leaf(rd, tree, StringType, pos, end);
        return Some((node.recast::<TypeExpression>(), end));
    }
    None
}

// --- Expressions ---

/// `to` lies ahead of `from` in the text, or at it.
pub open spec fn ahead(text: Seq<u8>, from: int, to: int) -> bool {
    from <= to <= text.len()
}

/// An expression that is no array: `true`, `false`, `null` or a number.
pub open spec fn plain_expression_at(text: Seq<u8>, pos: int) -> Outcome {
    match tag_end(text, pos, "true".spec_bytes()) {
        Some(end) => Outcome::Hit(end),
        None => match tag_end(text, pos, "false".spec_bytes()) {
            Some(end) => Outcome::Hit(end),
            None => match tag_end(text, pos, "null".spec_bytes()) {
                Some(end) => Outcome::Hit(end),
                None => number_at(text, pos),
            },
        },
    }
}

/// An expression: an array, or else a plain expression. An array that
/// breaks off is no array, unless it breaks off inside a number that has
/// its `.` and no digits after it.
#[verifier::opaque]
pub open spec fn expression_at(text: Seq<u8>, pos: int) -> Outcome
    decreases text.len() - pos, 2int,
{
    match array_at(text, pos) {
        Outcome::Hit(end) => Outcome::Hit(end),
        Outcome::Miss(m) => if m.committed {
            Outcome::Miss(m)
        } else {
            plain_expression_at(text, pos)
        },
    }
}

/// An array: `[`, members between commas, `]`, with blanks between any two
/// of them. A comma that no member follows is not read.
#[verifier::opaque]
pub open spec fn array_at(text: Seq<u8>, pos: int) -> Outcome
    decreases text.len() - pos, 1int,
{
    match tag_end(text, pos, "[".spec_bytes()) {
        None => miss(pos, ErrorKind::Tag),
        Some(open) => if ahead(text, pos + 1, ws(text, open)) {
            match members_at(text, ws(text, open)) {
                Outcome::Miss(m) => Outcome::Miss(m),
                Outcome::Hit(last) => match tag_end(text, ws(text, last), "]".spec_bytes()) {
                    Some(close) => Outcome::Hit(close),
                    None => miss(ws(text, last), ErrorKind::Tag),
                },
            }
        } else {
            miss(pos, ErrorKind::Tag)
        },
    }
}

/// The members of an array, from the first on: where they end.
#[verifier::opaque]
pub open spec fn members_at(text: Seq<u8>, pos: int) -> Outcome
    decreases text.len() - pos, 3int,
{
    if ahead(text, pos, ws(text, pos)) {
        match expression_at(text, ws(text, pos)) {
            Outcome::Miss(m) => if m.committed {
                Outcome::Miss(m)
            } else {
                Outcome::Hit(pos)
            },
            Outcome::Hit(end) => if ahead(text, pos + 1, end) {
                more_members_at(text, end)
            } else {
                Outcome::Hit(pos)
            },
        }
    } else {
        Outcome::Hit(pos)
    }
}

/// The members of an array after one of them: where they end.
#[verifier::opaque]
pub open spec fn more_members_at(text: Seq<u8>, pos: int) -> Outcome
    decreases text.len() - pos, 0int,
{
    match tag_end(text, ws(text, pos), ",".spec_bytes()) {
        None => Outcome::Hit(pos),
        Some(comma) => if ahead(text, pos + 1, ws(text, comma)) {
            match expression_at(text, ws(text, comma)) {
                Outcome::Miss(m) => if m.committed {
                    Outcome::Miss(m)
                } else {
                    Outcome::Hit(pos)
                },
                Outcome::Hit(end) => if ahead(text, pos + 1, end) {
                    more_members_at(text, end)
                } else {
                    Outcome::Hit(pos)
                },
            }
        } else {
            Outcome::Hit(pos)
        },
    }
}

/// Where the members of an array start, from the first on.
#[verifier::opaque]
pub open spec fn member_starts(text: Seq<u8>, pos: int) -> Seq<int>
    decreases text.len() - pos, 1int,
{
    match expression_at(text, ws(text, pos)) {
        Outcome::Hit(end) => if ahead(text, pos + 1, end) {
            seq![ws(text, pos)] + more_member_starts(text, end)
        } else {
            Seq::empty()
        },
        Outcome::Miss(_) => Seq::empty(),
    }
}

/// Where the members of an array start, after one of them.
#[verifier::opaque]
pub open spec fn more_member_starts(text: Seq<u8>, pos: int) -> Seq<int>
    decreases text.len() - pos, 0int,
{
    match tag_end(text, ws(text, pos), ",".spec_bytes()) {
        None => Seq::empty(),
        Some(comma) => match expression_at(text, ws(text, comma)) {
            Outcome::Hit(end) => if ahead(text, pos + 1, end) {
                seq![ws(text, comma)] + more_member_starts(text, end)
            } else {
                Seq::empty()
            },
            Outcome::Miss(_) => Seq::empty(),
        },
    }
}

/// Node `id` is the expression that the text spells at `pos`: its span is
/// the text of the expression, and it is
/// - an array literal that holds, in order, the expressions that the text
///   spells where the members start, or else
/// - the boolean literal of `true` or of `false`, or else
/// - the null literal, or else
/// - a float literal where the number has a fraction and else an integer
///   literal, either with the text of the number.
#[verifier::opaque]
pub open spec fn expr_ok(tree: &SyntaxTree, code: Slice, id: int, pos: int) -> bool
    decreases id,
{
    let text = text_of(code);
    &&& tree.has(id)
    &&& expression_at(text, pos) matches Outcome::Hit(end) && tree.span_of(id) == piece(
        code,
        pos,
        end,
    ) && if array_at(text, pos) is Hit {
        let starts = member_starts(text, ws(text, tag_end(text, pos, "[".spec_bytes())->0));
        tree.details_of(id) matches Any::ArrayLiteral(array) && {
            &&& array.members@.len() == starts.len()
            &&& forall|i: int|
                0 <= i < starts.len() ==> (#[trigger] array.members@[i]).id < id && expr_ok(
                    tree,
                    code,
                    array.members@[i].id as int,
                    starts[i],
                )
        }
    } else if tag_end(text, pos, "true".spec_bytes()) is Some {
        tree.details_of(id) == Any::BooleanLiteral(BooleanLiteral { value: true })
    } else if tag_end(text, pos, "false".spec_bytes()) is Some {
        tree.details_of(id) == Any::BooleanLiteral(BooleanLiteral { value: false })
    } else if tag_end(text, pos, "null".spec_bytes()) is Some {
        tree.details_of(id) == Any::NullLiteral(NullLiteral)
    } else if number_has_fraction(text, pos) {
        tree.details_of(id) == Any::FloatLiteral(FloatLiteral { value_raw: piece(code, pos, end) })
    } else {
        tree.details_of(id) == Any::IntLiteral(IntLiteral { value_raw: piece(code, pos, end) })
    }
}

/// What a plain expression at `pos` that ends at `end` is as a node.
pub open spec fn plain_details(code: Slice, pos: int, end: int) -> Any {
    let text = text_of(code);
    if tag_end(text, pos, "true".spec_bytes()) is Some {
        Any::BooleanLiteral(BooleanLiteral { value: true })
    } else if tag_end(text, pos, "false".spec_bytes()) is Some {
        Any::BooleanLiteral(BooleanLiteral { value: false })
    } else if tag_end(text, pos, "null".spec_bytes()) is Some {
        Any::NullLiteral(NullLiteral)
    } else if number_has_fraction(text, pos) {
        Any::FloatLiteral(FloatLiteral { value_raw: piece(code, pos, end) })
    } else {
        Any::IntLiteral(IntLiteral { value_raw: piece(code, pos, end) })
    }
}

/// An array is an expression.
proof fn lemma_expr_array(tree: &SyntaxTree, code: Slice, id: int, pos: int, end: int)
    requires
        array_at(text_of(code), pos) == Outcome::Hit(end),
        array_ok(tree, code, id, pos),
        tree.span_of(id) == piece(code, pos, end),
    ensures
        expression_at(text_of(code), pos) == Outcome::Hit(end),
        expr_ok(tree, code, id, pos),
{
    reveal_with_fuel(expression_at, 1);
    reveal_with_fuel(array_at, 1);
    reveal_with_fuel(members_at, 1);
    reveal_with_fuel(more_members_at, 1);
    reveal_with_fuel(expr_ok, 1);
}

/// Where no array stands, a plain expression is an expression.
proof fn lemma_expr_plain(tree: &SyntaxTree, code: Slice, id: int, pos: int, end: int)
    requires
        array_at(text_of(code), pos) matches Outcome::Miss(m) && !m.committed,
        plain_expression_at(text_of(code), pos) == Outcome::Hit(end),
        tree.has(id),
        tree.span_of(id) == piece(code, pos, end),
        tree.details_of(id) == plain_details(code, pos, end),
    ensures
        expression_at(text_of(code), pos) == Outcome::Hit(end),
        expr_ok(tree, code, id, pos),
{
    reveal_with_fuel(expression_at, 1);
    reveal_with_fuel(array_at, 1);
    reveal_with_fuel(members_at, 1);
    reveal_with_fuel(more_members_at, 1);
    reveal_with_fuel(expr_ok, 1);
}

/// Where neither an array nor a plain expression stands, none stands.
proof fn lemma_expr_miss(text: Seq<u8>, pos: int)
    requires
        array_at(text, pos) is Miss,
    ensures
        array_at(text, pos)->Miss_0.committed ==> expression_at(text, pos) == array_at(text, pos),
        !array_at(text, pos)->Miss_0.committed ==> expression_at(text, pos) == plain_expression_at(
            text,
            pos,
        ),
{
    reveal_with_fuel(expression_at, 1);
    reveal_with_fuel(array_at, 1);
    reveal_with_fuel(members_at, 1);
    reveal_with_fuel(more_members_at, 1);
}

/// The span of an expression is the text that spells it.
proof fn lemma_expr_span(tree: &SyntaxTree, code: Slice, id: int, pos: int, end: int)
    requires
        expr_ok(tree, code, id, pos),
        expression_at(text_of(code), pos) == Outcome::Hit(end),
    ensures
        tree.has(id),
        tree.span_of(id) == piece(code, pos, end),
{
    reveal_with_fuel(expr_ok, 1);
}

/// An expression that is the expression at a place stays so when nodes
/// are added.
pub proof fn lemma_expr_stays(tree: &SyntaxTree, later: &SyntaxTree, code: Slice, id: int, pos: int)
    requires
        expr_ok(tree, code, id, pos),
        later.extends(tree),
    ensures
        expr_ok(later, code, id, pos),
    decreases id,
{
    let text = text_of(code);
    reveal_with_fuel(expr_ok, 1);
    assert(later@[id].details == tree@[id].details);
    if array_at(text, pos) is Hit {
        let starts = member_starts(text, ws(text, tag_end(text, pos, "[".spec_bytes())->0));
        let array = tree.details_of(id)->ArrayLiteral_0;
        assert forall|i: int| 0 <= i < starts.len() implies (#[trigger] array.members@[i]).id < id
            && expr_ok(later, code, array.members@[i].id as int, starts[i]) by {
            lemma_expr_stays(tree, later, code, array.members@[i].id as int, starts[i]);
        }
    }
}

fn parse_expression<'a>(rd: &Reader<'a>, tree: &mut SyntaxTree, pos: usize) -> (r: Result<
    (AST<Expression>, usize),
    Fault,
>)
    requires
        rd.wf(),
        ready(old(tree), *rd.code),
        rd.place(pos as int),
    ensures
        match r {
            Ok((node, end)) => {
                &&& expression_at(rd.bytes(), pos as int) == Outcome::Hit(end as int)
                &&& grown(old(tree)@, final(tree), *rd.code, node.id as int)
                &&& expr_ok(final(tree), *rd.code, node.id as int, pos as int)
                &&& final(tree).holds(node)
                &&& pos < end
                &&& rd.place(end as int)
            },
            Err(fault) => expression_at(rd.bytes(), pos as int) == Outcome::Miss(fault@)
                && final(tree)@ == old(tree)@ && ready(final(tree), *rd.code),
        },
    decreases rd.bytes().len() - pos, 2int,
{
    let ghost text = rd.bytes();
    match parse_array_literal(rd, tree, pos) {
        Ok((node, end)) => {
            proof {
                lemma_expr_array(tree, *rd.code, node.id as int, pos as int, end as int);
            }
            return Ok((node.recast::<Expression>(), end));
        },
        Err(fault) => {
            proof {
                lemma_expr_miss(text, pos as int);
            }
            if fault.committed {
                return Err(fault);
            }
        },
    }
    if let Some(end) = read_tag(rd.text, pos, "true") {
        let node = leaf(rd, tree, BooleanLiteral { value: true }, pos, end);
        proof {
            lemma_expr_plain(tree, *rd.code, node.id as int, pos as int, end as int);
        }
        return Ok((node.recast::<Expression>(), end));
    }
    if let Some(end) = read_tag(rd.text, pos, "false") {
        let node = leaf(rd, tree, BooleanLiteral { value: false }, pos, end);
        proof {
            lemma_expr_plain(tree, *rd.code, node.id as int, pos as int, end as int);
        }
        return Ok((node.recast::<Expression>(), end));
    }
    if let Some(end) = read_tag(rd.text, pos, "null") {
        let node = leaf(rd, tree, NullLiteral, pos, end);
        proof {
            lemma_expr_plain(tree, *rd.code, node.id as int, pos as int, end as int);
        }
        return Ok((node.recast::<Expression>(), end));
    }
    match number_from(rd.text, pos) {
        Ok((end, fraction)) => {
            let value_raw = cut_piece(rd.code, pos, end);
            if fraction {
                let node = leaf(rd, tree, FloatLiteral { value_raw }, pos, end);
                proof {
                    lemma_expr_plain(tree, *rd.code, node.id as int, pos as int, end as int);
                }
                Ok((node.recast::<Expression>(), end))
            } else {
                let node = leaf(rd, tree, IntLiteral { value_raw }, pos, end);
                proof {
                    lemma_expr_plain(tree, *rd.code, node.id as int, pos as int, end as int);
                }
                Ok((node.recast::<Expression>(), end))
            }
        },
        Err(fault) => Err(fault),
    }
}

/// The members read so far are in place: one node for each start, each
/// the expression at its start, added since the store had `base` nodes,
/// held by no node yet, and inside the text from `lo` to `hi`.
#[verifier::opaque]
pub open spec fn members_ok(
    tree: &SyntaxTree,
    code: Slice,
    base: int,
    members: Seq<AST<Expression>>,
    starts: Seq<int>,
    lo: int,
    hi: int,
) -> bool {
    &&& members.len() == starts.len()
    &&& loose(tree, base, ids_of(members))
    &&& forall|i: int|
        0 <= i < members.len() ==> {
            let id = (#[trigger] members[i]).id as int;
            &&& base <= id < tree@.len()
            &&& tree@[id].parent is None
            &&& tree.holds(members[i])
            &&& expr_ok(tree, code, id, starts[i])
            &&& lo <= tree.span_of(id).start
            &&& tree.span_of(id).end <= hi
        }
}

/// Members that are in place stay so when one more is read.
proof fn lemma_members_grow(
    before: &SyntaxTree,
    tree: &SyntaxTree,
    code: Slice,
    base: int,
    members: Seq<AST<Expression>>,
    starts: Seq<int>,
    lo: int,
    hi: int,
    node: AST<Expression>,
    start: int,
    end: int,
)
    requires
        members_ok(before, code, base, members, starts, lo, hi),
        grown(before@, tree, code, node.id as int),
        0 <= base <= before@.len(),
        expr_ok(tree, code, node.id as int, start),
        tree.holds(node),
        lo <= tree.span_of(node.id as int).start,
        tree.span_of(node.id as int).end <= end,
        hi <= end,
    ensures
        members_ok(tree, code, base, members.push(node), starts.push(start), lo, end),
{
    reveal(members_ok);
    lemma_loose_more(before, tree, code, base, ids_of(members), node.id as int);
    assert(ids_of(members).push(node.id) =~= ids_of(members.push(node)));
    let all = members.push(node);
    let all_starts = starts.push(start);
    assert forall|i: int| 0 <= i < all.len() implies {
        let id = (#[trigger] all[i]).id as int;
        &&& base <= id < tree@.len()
        &&& tree@[id].parent is None
        &&& tree.holds(all[i])
        &&& expr_ok(tree, code, id, all_starts[i])
        &&& lo <= tree.span_of(id).start
        &&& tree.span_of(id).end <= end
    } by {
        if i < members.len() {
            let id = members[i].id as int;
            assert(all[i] == members[i]);
            lemma_kept(before, tree, id);
            lemma_expr_stays(before, tree, code, id, starts[i]);
        }
    }
}

/// The members of an array where the first is missing: none.
proof fn lemma_no_member(text: Seq<u8>, pos: int)
    requires
        0 <= pos <= text.len(),
        expression_at(text, ws(text, pos)) is Miss,
    ensures
        expression_at(text, ws(text, pos))->Miss_0.committed ==> members_at(text, pos)
            == expression_at(text, ws(text, pos)),
        !expression_at(text, ws(text, pos))->Miss_0.committed ==> members_at(text, pos)
            == Outcome::Hit(pos),
        member_starts(text, pos) == Seq::<int>::empty(),
{
    reveal_with_fuel(expression_at, 1);
    reveal_with_fuel(array_at, 1);
    reveal_with_fuel(members_at, 1);
    reveal_with_fuel(more_members_at, 1);
    reveal_with_fuel(member_starts, 1);
    reveal_with_fuel(more_member_starts, 1);
    lemma_skip_blank_bounds(text, pos, CharClass::Blank, "#".spec_bytes());
}

/// The members of an array where the first is there: it, and those after it.
proof fn lemma_first_member(text: Seq<u8>, pos: int, end: int)
    requires
        0 <= pos <= text.len(),
        expression_at(text, ws(text, pos)) == Outcome::Hit(end),
        pos < end <= text.len(),
    ensures
        members_at(text, pos) == more_members_at(text, end),
        member_starts(text, pos) == seq![ws(text, pos)] + more_member_starts(text, end),
{
    reveal_with_fuel(expression_at, 1);
    reveal_with_fuel(array_at, 1);
    reveal_with_fuel(members_at, 1);
    reveal_with_fuel(more_members_at, 1);
    reveal_with_fuel(member_starts, 1);
    reveal_with_fuel(more_member_starts, 1);
    lemma_skip_blank_bounds(text, pos, CharClass::Blank, "#".spec_bytes());
}

/// The members of an array after one of them, where no comma follows: none.
proof fn lemma_no_comma(text: Seq<u8>, pos: int)
    requires
        tag_end(text, ws(text, pos), ",".spec_bytes()) is None,
    ensures
        more_members_at(text, pos) == Outcome::Hit(pos),
        more_member_starts(text, pos) == Seq::<int>::empty(),
{
    reveal_with_fuel(expression_at, 1);
    reveal_with_fuel(array_at, 1);
    reveal_with_fuel(members_at, 1);
    reveal_with_fuel(more_members_at, 1);
    reveal_with_fuel(member_starts, 1);
    reveal_with_fuel(more_member_starts, 1);
}

/// The members of an array after one of them, where a comma follows and no
/// member follows the comma: none, and the comma is not read.
proof fn lemma_no_next_member(text: Seq<u8>, pos: int)
    requires
        0 <= pos <= text.len(),
        tag_end(text, ws(text, pos), ",".spec_bytes()) matches Some(comma) && expression_at(
            text,
            ws(text, comma),
        ) is Miss,
    ensures
        ({
            let m = expression_at(
                text,
                ws(text, tag_end(text, ws(text, pos), ",".spec_bytes())->0),
            );
            &&& m->Miss_0.committed ==> more_members_at(text, pos) == m
            &&& !m->Miss_0.committed ==> more_members_at(text, pos) == Outcome::Hit(pos)
        }),
        more_member_starts(text, pos) == Seq::<int>::empty(),
{
    reveal_with_fuel(expression_at, 1);
    reveal_with_fuel(array_at, 1);
    reveal_with_fuel(members_at, 1);
    reveal_with_fuel(more_members_at, 1);
    reveal_with_fuel(member_starts, 1);
    reveal_with_fuel(more_member_starts, 1);
    let comma = tag_end(text, ws(text, pos), ",".spec_bytes())->0;
    lemma_skip_blank_bounds(text, pos, CharClass::Blank, "#".spec_bytes());
    lemma_skip_blank_bounds(text, comma, CharClass::Blank, "#".spec_bytes());
}

/// The members of an array after one of them, where a comma and a member
/// follow: that member, and those after it.
proof fn lemma_next_member(text: Seq<u8>, pos: int, end: int)
    requires
        0 <= pos <= text.len(),
        tag_end(text, ws(text, pos), ",".spec_bytes()) matches Some(comma) && expression_at(
            text,
            ws(text, comma),
        ) == Outcome::Hit(end),
        pos < end <= text.len(),
    ensures
        more_members_at(text, pos) == more_members_at(text, end),
        more_member_starts(text, pos) == seq![
            ws(text, tag_end(text, ws(text, pos), ",".spec_bytes())->0),
        ] + more_member_starts(text, end),
{
    reveal_with_fuel(expression_at, 1);
    reveal_with_fuel(array_at, 1);
    reveal_with_fuel(members_at, 1);
    reveal_with_fuel(more_members_at, 1);
    reveal_with_fuel(member_starts, 1);
    reveal_with_fuel(more_member_starts, 1);
    let comma = tag_end(text, ws(text, pos), ",".spec_bytes())->0;
    lemma_skip_blank_bounds(text, pos, CharClass::Blank, "#".spec_bytes());
    lemma_skip_blank_bounds(text, comma, CharClass::Blank, "#".spec_bytes());
}

/// Reads one member of an array: blanks and an expression. Gives nothing
/// where no expression starts.
fn parse_member<'a>(rd: &Reader<'a>, tree: &mut SyntaxTree, from: usize) -> (r: Result<
    Option<(AST<Expression>, usize, usize)>,
    Fault,
>)
    requires
        rd.wf(),
        ready(old(tree), *rd.code),
        rd.place(from as int),
    ensures
        match r {
            Ok(Some((node, end, start))) => {
                &&& start == ws(rd.bytes(), from as int)
                &&& expression_at(rd.bytes(), start as int) == Outcome::Hit(end as int)
                &&& grown(old(tree)@, final(tree), *rd.code, node.id as int)
                &&& expr_ok(final(tree), *rd.code, node.id as int, start as int)
                &&& final(tree).holds(node)
                &&& final(tree).span_of(node.id as int).start == start
                &&& final(tree).span_of(node.id as int).end == end
                &&& from <= start < end
                &&& rd.place(end as int)
            },
            Ok(None) => expression_at(rd.bytes(), ws(rd.bytes(), from as int)) matches Outcome::Miss(m)
                && !m.committed && final(tree)@ == old(tree)@ && ready(final(tree), *rd.code),
            Err(fault) => expression_at(rd.bytes(), ws(rd.bytes(), from as int)) == Outcome::Miss(
                fault@,
            ) && fault.committed && final(tree)@ == old(tree)@ && ready(final(tree), *rd.code),
        },
    decreases rd.bytes().len() - from, 3int,
{
    let start = whitespace_and_comments(rd, from);
    match parse_expression(rd, tree, start) {
        Ok((node, end)) => {
            proof {
                lemma_expr_span(tree, *rd.code, node.id as int, start as int, end as int);
            }
            Ok(Some((node, end, start)))
        },
        Err(fault) => if fault.committed {
            Err(fault)
        } else {
            Ok(None)
        },
    }
}

/// Reads the members of an array, from the first on.
fn parse_members<'a>(rd: &Reader<'a>, tree: &mut SyntaxTree, pos: usize) -> (r: Result<
    (Vec<AST<Expression>>, usize),
    Fault,
>)
    requires
        rd.wf(),
        ready(old(tree), *rd.code),
        rd.place(pos as int),
    ensures
        match r {
            Ok((members, end)) => {
                &&& members_at(rd.bytes(), pos as int) == Outcome::Hit(end as int)
                &&& ready(final(tree), *rd.code)
                &&& keeps(old(tree)@, final(tree)@)
                &&& members_ok(
                    final(tree),
                    *rd.code,
                    old(tree)@.len() as int,
                    members@,
                    member_starts(rd.bytes(), pos as int),
                    pos as int,
                    end as int,
                )
                &&& pos <= end
                &&& rd.place(end as int)
            },
            Err(fault) => members_at(rd.bytes(), pos as int) == Outcome::Miss(fault@)
                && final(tree)@ == old(tree)@ && ready(final(tree), *rd.code),
        },
    decreases rd.bytes().len() - pos, 4int,
{
    let ghost base = *tree;
    let ghost text = rd.bytes();
    let base_len = tree.len();
    let mut members: Vec<AST<Expression>> = Vec::new();
    let (first, first_end, first_start) = match parse_member(rd, tree, pos) {
        Ok(Some(read)) => read,
        Ok(None) => {
            proof {
                lemma_no_member(text, pos as int);
                lemma_members_none(&base, *rd.code, base_len as int, pos as int);
                lemma_members_same(
                    &base,
                    tree,
                    *rd.code,
                    base_len as int,
                    Seq::empty(),
                    Seq::empty(),
                    pos as int,
                    pos as int,
                );
                lemma_keeps_self(base@);
            }
            return Ok((members, pos));
        },
        Err(fault) => {
            proof {
                lemma_no_member(text, pos as int);
            }
            return Err(fault);
        },
    };
    let ghost mut starts: Seq<int> = seq![first_start as int];
    proof {
        lemma_first_member(text, pos as int, first_end as int);
        lemma_members_none(&base, *rd.code, base_len as int, pos as int);
        lemma_members_grow(
            &base,
            tree,
            *rd.code,
            base_len as int,
            members@,
            Seq::empty(),
            pos as int,
            pos as int,
            first,
            first_start as int,
            first_end as int,
        );
        assert(Seq::<int>::empty().push(first_start as int) =~= starts);
        lemma_grown_keeps(base@, tree, *rd.code, first.id as int);
    }
    members.push(first);
    let mut at = first_end;
    let mut more = true;
    while more
        invariant
            rd.wf(),
            text == rd.bytes(),
            ready(tree, *rd.code),
            ready(&base, *rd.code),
            base@ == old(tree)@,
            base_len == base@.len(),
            rd.place(at as int),
            rd.place(pos as int),
            pos < at,
            keeps(base@, tree@),
            members_at(text, pos as int) == more_members_at(text, at as int),
            more ==> member_starts(text, pos as int) == starts + more_member_starts(text, at as int),
            !more ==> member_starts(text, pos as int) == starts,
            !more ==> more_members_at(text, at as int) == Outcome::Hit(at as int),
            members_ok(tree, *rd.code, base_len as int, members@, starts, pos as int, at as int),
        decreases rd.bytes().len() - at, if more { 1int } else { 0int },
    {
        let comma_at = whitespace_and_comments(rd, at);
        match read_tag(rd.text, comma_at, ",") {
            None => {
                proof {
                    lemma_no_comma(text, at as int);
                    assert(starts + Seq::<int>::empty() =~= starts);
                }
                more = false;
            },
            Some(after_comma) => {
                let ghost before = *tree;
                match parse_member(rd, tree, after_comma) {
                    Ok(Some((node, end, start))) => {
                        proof {
                            lemma_next_member(text, at as int, end as int);
                            lemma_grown_keeps(before@, tree, *rd.code, node.id as int);
                            lemma_keeps_on(base@, before@, tree@);
                            lemma_keeps_len(base@, before@);
                            lemma_members_grow(
                                &before,
                                tree,
                                *rd.code,
                                base_len as int,
                                members@,
                                starts,
                                pos as int,
                                at as int,
                                node,
                                start as int,
                                end as int,
                            );
                            assert(starts + (seq![start as int] + more_member_starts(
                                text,
                                end as int,
                            )) =~= starts.push(start as int) + more_member_starts(text, end as int));
                            starts = starts.push(start as int);
                        }
                        members.push(node);
                        at = end;
                    },
                    Ok(None) => {
                        proof {
                            lemma_no_next_member(text, at as int);
                            assert(starts + Seq::<int>::empty() =~= starts);
                            lemma_members_same(
                                &before,
                                tree,
                                *rd.code,
                                base_len as int,
                                members@,
                                starts,
                                pos as int,
                                at as int,
                            );
                        }
                        more = false;
                    },
                    Err(fault) => {
                        proof {
                            lemma_no_next_member(text, at as int);
                        }
                        drop_from(rd, tree, base_len, Ghost(&base));
                        return Err(fault);
                    },
                }
            },
        }
    }
    Ok((members, at))
}

/// No members are in place wherever there are none.
proof fn lemma_members_none(tree: &SyntaxTree, code: Slice, base: int, pos: int)
    requires
        tree@.len() <= base,
    ensures
        members_ok(tree, code, base, Seq::empty(), Seq::empty(), pos, pos),
{
    reveal(members_ok);
    lemma_loose_none(tree, base);
    assert(ids_of(Seq::<AST<Expression>>::empty()) =~= Seq::<usize>::empty());
}

/// A store that extends another has its spans.
pub proof fn lemma_kept_spans(before: &SyntaxTree, after: &SyntaxTree, id: int)
    requires
        after.extends(before),
        before.has(id),
    ensures
        after.span_of(id) == before.span_of(id),
        after.details_of(id) == before.details_of(id),
{
}

/// A store that has grown keeps the nodes that it had.
pub proof fn lemma_grown_keeps(before: Seq<ASTInner>, after: &SyntaxTree, code: Slice, root: int)
    requires
        grown(before, after, code, root),
    ensures
        keeps(before, after@),
        ready(after, code),
        before.len() <= after@.len(),
{
    reveal(keeps);
}

/// What keeps the nodes of a store has as many nodes or more.
pub proof fn lemma_keeps_len(before: Seq<ASTInner>, after: Seq<ASTInner>)
    requires
        keeps(before, after),
    ensures
        before.len() <= after.len(),
{
    reveal(keeps);
}

/// Members that are in place stay so in a store with the same nodes.
proof fn lemma_members_same(
    before: &SyntaxTree,
    tree: &SyntaxTree,
    code: Slice,
    base: int,
    members: Seq<AST<Expression>>,
    starts: Seq<int>,
    lo: int,
    hi: int,
)
    requires
        members_ok(before, code, base, members, starts, lo, hi),
        tree@ == before@,
    ensures
        members_ok(tree, code, base, members, starts, lo, hi),
{
    reveal(members_ok);
    lemma_loose_same(before, tree, base, ids_of(members));
    assert forall|i: int| 0 <= i < members.len() implies {
        let id = (#[trigger] members[i]).id as int;
        &&& base <= id < tree@.len()
        &&& tree@[id].parent is None
        &&& tree.holds(members[i])
        &&& expr_ok(tree, code, id, starts[i])
        &&& lo <= tree.span_of(id).start
        &&& tree.span_of(id).end <= hi
    } by {
        lemma_expr_stays(before, tree, code, members[i].id as int, starts[i]);
    }
}

fn parse_array_literal<'a>(rd: &Reader<'a>, tree: &mut SyntaxTree, pos: usize) -> (r: Result<
    (AST<ArrayLiteral>, usize),
    Fault,
>)
    requires
        rd.wf(),
        ready(old(tree), *rd.code),
        rd.place(pos as int),
    ensures
        match r {
            Ok((node, end)) => {
                &&& array_at(rd.bytes(), pos as int) == Outcome::Hit(end as int)
                &&& grown(old(tree)@, final(tree), *rd.code, node.id as int)
                &&& array_ok(final(tree), *rd.code, node.id as int, pos as int)
                &&& final(tree).span_of(node.id as int) == piece(*rd.code, pos as int, end as int)
                &&& final(tree).holds(node)
                &&& pos < end
                &&& rd.place(end as int)
            },
            Err(fault) => array_at(rd.bytes(), pos as int) == Outcome::Miss(fault@)
                && final(tree)@ == old(tree)@ && ready(final(tree), *rd.code),
        },
    decreases rd.bytes().len() - pos, 1int,
{
    let ghost base = *tree;
    let ghost text = rd.bytes();
    let base_len = tree.len();
    let open = match read_tag(rd.text, pos, "[") {
        Some(open) => open,
        None => {
            proof {
                lemma_array_closed(text, pos as int);
            }
            return Err(Fault { at: pos, kind: ErrorKind::Tag, committed: false });
        },
    };
    let first = whitespace_and_comments(rd, open);
    proof {
        lemma_array_closed(text, pos as int);
    }
    let (members, last) = match parse_members(rd, tree, first) {
        Ok(read) => read,
        Err(fault) => {
            return Err(fault);
        },
    };
    let close_at = whitespace_and_comments(rd, last);
    let end = match read_tag(rd.text, close_at, "]") {
        Some(end) => end,
        None => {
            drop_from(rd, tree, base_len, Ghost(&base));
            return Err(Fault { at: close_at, kind: ErrorKind::Tag, committed: false });
        },
    };
    proof {
        lemma_flat_handles(members@);
        assert(flat(members@) =~= ids_of(members@));
        lemma_members_spread(
            tree,
            *rd.code,
            base_len as int,
            members@,
            member_starts(text, first as int),
            first as int,
            last as int,
        );
    }
    let ghost held = members@;
    let ghost grown_tree = *tree;
    let node = branch(rd, tree, ArrayLiteral { members }, pos, end, Ghost(base@));
    proof {
        let starts = member_starts(text, first as int);
        assert forall|i: int| 0 <= i < starts.len() implies (#[trigger] held[i]).id < node.id
            && expr_ok(tree, *rd.code, held[i].id as int, starts[i]) by {
            lemma_expr_stays(&grown_tree, tree, *rd.code, held[i].id as int, starts[i]);
        }
    }
    Ok((node, end))
}

/// What `members_ok` says of each member.
proof fn lemma_members_spread(
    tree: &SyntaxTree,
    code: Slice,
    base: int,
    members: Seq<AST<Expression>>,
    starts: Seq<int>,
    lo: int,
    hi: int,
)
    requires
        members_ok(tree, code, base, members, starts, lo, hi),
    ensures
        members.len() == starts.len(),
        loose(tree, base, ids_of(members)),
        forall|i: int|
            0 <= i < members.len() ==> {
                let id = (#[trigger] members[i]).id as int;
                &&& base <= id < tree@.len()
                &&& tree@[id].parent is None
                &&& tree.holds(members[i])
                &&& expr_ok(tree, code, id, starts[i])
                &&& lo <= tree.span_of(id).start
                &&& tree.span_of(id).end <= hi
            },
{
    reveal(members_ok);
}

/// What an array is, one step unfolded.
proof fn lemma_array_closed(text: Seq<u8>, pos: int)
    requires
        0 <= pos <= text.len(),
    ensures
        array_at(text, pos) == match tag_end(text, pos, "[".spec_bytes()) {
            None => miss(pos, ErrorKind::Tag),
            Some(open) => match members_at(text, ws(text, open)) {
                Outcome::Miss(m) => Outcome::Miss(m),
                Outcome::Hit(last) => match tag_end(text, ws(text, last), "]".spec_bytes()) {
                    Some(close) => Outcome::Hit(close),
                    None => miss(ws(text, last), ErrorKind::Tag),
                },
            },
        },
{
    reveal_with_fuel(expression_at, 1);
    reveal_with_fuel(array_at, 1);
    reveal_with_fuel(members_at, 1);
    reveal_with_fuel(more_members_at, 1);
    if let Some(open) = tag_end(text, pos, "[".spec_bytes()) {
        lemma_skip_blank_bounds(text, open, CharClass::Blank, "#".spec_bytes());
    }
}

/// Node `id` is the array that the text spells at `pos`: it holds, in
/// order, the expressions that the text spells where the members start.
pub open spec fn array_ok(tree: &SyntaxTree, code: Slice, id: int, pos: int) -> bool {
    let text = text_of(code);
    let starts = member_starts(text, ws(text, tag_end(text, pos, "[".spec_bytes())->0));
    &&& tree.has(id)
    &&& tree.details_of(id) matches Any::ArrayLiteral(array) && {
        &&& array.members@.len() == starts.len()
        &&& forall|i: int|
            0 <= i < starts.len() ==> (#[trigger] array.members@[i]).id < id && expr_ok(
                tree,
                code,
                array.members@[i].id as int,
                starts[i],
            )
    }
}

// --- Declarations ---

/// The same failure, made final.
fn commit(fault: Fault) -> (r: Fault)
    ensures
        r@ == (Miss { committed: true, ..fault@ }),
{
    Fault { committed: true, ..fault }
}

/// What the first of two rules makes of the text where it reads it or
/// breaks on it, and else what the second makes of it.
pub open spec fn or_else(first: Outcome, second: Outcome) -> Outcome {
    match first {
        Outcome::Hit(_) => first,
        Outcome::Miss(m) => if m.committed {
            first
        } else {
            second
        },
    }
}

/// A name after a keyword that ends at `keyword_end`: blanks, at least
/// one, and the name.
pub open spec fn name_after_blank(text: Seq<u8>, keyword_end: int) -> Outcome {
    match ws1(text, keyword_end) {
        Outcome::Miss(m) => Outcome::Miss(m),
        Outcome::Hit(start) => identifier_at(text, start),
    }
}

/// `extends Base`. Once the keyword is read the rest must follow.
pub open spec fn extends_at(text: Seq<u8>, pos: int) -> Outcome {
    match tag_end(text, pos, "extends".spec_bytes()) {
        None => miss(pos, ErrorKind::Tag),
        Some(keyword_end) => cut(name_after_blank(text, keyword_end)),
    }
}

/// Node `id` is the `extends` declaration that the text spells at `pos`:
/// it holds the name that follows the keyword, and spans from the keyword
/// to the end of the name.
pub open spec fn extends_ok(tree: &SyntaxTree, code: Slice, id: int, pos: int) -> bool {
    let text = text_of(code);
    let start = ws(text, tag_end(text, pos, "extends".spec_bytes())->0);
    &&& tree.has(id)
    &&& tree.span_of(id) == piece(code, pos, name_end(text, start))
    &&& tree.details_of(id) matches Any::ExtendsDeclaration(d) && d.extends_class.id < id
        && ident_ok(tree, code, d.extends_class.id as int, start)
}

fn parse_extends<'a>(rd: &Reader<'a>, tree: &mut SyntaxTree, pos: usize) -> (r: Result<
    (AST<ExtendsDeclaration>, usize),
    Fault,
>)
    requires
        rd.wf(),
        ready(old(tree), *rd.code),
        rd.place(pos as int),
    ensures
        match r {
            Ok((node, end)) => {
                &&& extends_at(rd.bytes(), pos as int) == Outcome::Hit(end as int)
                &&& grown(old(tree)@, final(tree), *rd.code, node.id as int)
                &&& extends_ok(final(tree), *rd.code, node.id as int, pos as int)
                &&& final(tree).holds(node)
                &&& pos < end
                &&& rd.place(end as int)
            },
            Err(fault) => extends_at(rd.bytes(), pos as int) == Outcome::Miss(fault@)
                && final(tree)@ == old(tree)@ && ready(final(tree), *rd.code),
        },
{
    let ghost base = tree@;
    let keyword_end = match read_tag(rd.text, pos, "extends") {
        Some(end) => end,
        None => {
            return Err(Fault { at: pos, kind: ErrorKind::Tag, committed: false });
        },
    };
    let start = match whitespace_and_comments1(rd, keyword_end) {
        Ok(start) => start,
        Err(fault) => {
            return Err(commit(fault));
        },
    };
    let (extends_class, end) = match plain_identifier(rd, tree, start) {
        Ok(read) => read,
        Err(fault) => {
            return Err(commit(fault));
        },
    };
    proof {
        lemma_grown_keeps(base, tree, *rd.code, extends_class.id as int);
    }
    let node = branch(rd, tree, ExtendsDeclaration { extends_class }, pos, end, Ghost(base));
    Ok((node, end))
}

/// `class_name Name`. Once the keyword is read the rest must follow.
pub open spec fn class_name_at(text: Seq<u8>, pos: int) -> Outcome {
    match tag_end(text, pos, "class_name".spec_bytes()) {
        None => miss(pos, ErrorKind::Tag),
        Some(keyword_end) => cut(name_after_blank(text, keyword_end)),
    }
}

/// Node `id` is the `class_name` declaration that the text spells at
/// `pos`: it holds the name that follows the keyword, and spans from the
/// keyword to the end of the name.
pub open spec fn class_name_ok(tree: &SyntaxTree, code: Slice, id: int, pos: int) -> bool {
    let text = text_of(code);
    let start = ws(text, tag_end(text, pos, "class_name".spec_bytes())->0);
    &&& tree.has(id)
    &&& tree.span_of(id) == piece(code, pos, name_end(text, start))
    &&& tree.details_of(id) matches Any::ClassNameDeclaration(d) && d.class_name.id < id
        && ident_ok(tree, code, d.class_name.id as int, start)
}

fn parse_class_name<'a>(rd: &Reader<'a>, tree: &mut SyntaxTree, pos: usize) -> (r: Result<
    (AST<ClassNameDeclaration>, usize),
    Fault,
>)
    requires
        rd.wf(),
        ready(old(tree), *rd.code),
        rd.place(pos as int),
    ensures
        match r {
            Ok((node, end)) => {
                &&& class_name_at(rd.bytes(), pos as int) == Outcome::Hit(end as int)
                &&& grown(old(tree)@, final(tree), *rd.code, node.id as int)
                &&& class_name_ok(final(tree), *rd.code, node.id as int, pos as int)
                &&& final(tree).holds(node)
                &&& pos < end
                &&& rd.place(end as int)
            },
            Err(fault) => class_name_at(rd.bytes(), pos as int) == Outcome::Miss(fault@)
                && final(tree)@ == old(tree)@ && ready(final(tree), *rd.code),
        },
{
    let ghost base = tree@;
    let keyword_end = match read_tag(rd.text, pos, "class_name") {
        Some(end) => end,
        None => {
            return Err(Fault { at: pos, kind: ErrorKind::Tag, committed: false });
        },
    };
    let start = match whitespace_and_comments1(rd, keyword_end) {
        Ok(start) => start,
        Err(fault) => {
            return Err(commit(fault));
        },
    };
    let (class_name, end) = match plain_identifier(rd, tree, start) {
        Ok(read) => read,
        Err(fault) => {
            return Err(commit(fault));
        },
    };
    proof {
        lemma_grown_keeps(base, tree, *rd.code, class_name.id as int);
    }
    let node = branch(rd, tree, ClassNameDeclaration { class_name }, pos, end, Ghost(base));
    Ok((node, end))
}

/// `@name`. Once the `@` is read the name must follow.
pub open spec fn annotation_at(text: Seq<u8>, pos: int) -> Outcome {
    match tag_end(text, pos, "@".spec_bytes()) {
        None => miss(pos, ErrorKind::Tag),
        Some(keyword_end) => cut(identifier_at(text, ws(text, keyword_end))),
    }
}

/// Node `id` is the annotation that the text spells at `pos`: it holds
/// the name that follows the `@` and no arguments, and spans from the `@`
/// to the end of the name.
pub open spec fn annotation_ok(tree: &SyntaxTree, code: Slice, id: int, pos: int) -> bool {
    let text = text_of(code);
    let start = ws(text, tag_end(text, pos, "@".spec_bytes())->0);
    &&& tree.has(id)
    &&& tree.span_of(id) == piece(code, pos, name_end(text, start))
    &&& tree.details_of(id) matches Any::Annotation(d) && d.name.id < id && ident_ok(
        tree,
        code,
        d.name.id as int,
        start,
    ) && d.arguments@.len() == 0
}

fn parse_annotation<'a>(rd: &Reader<'a>, tree: &mut SyntaxTree, pos: usize) -> (r: Result<
    (AST<Annotation>, usize),
    Fault,
>)
    requires
        rd.wf(),
        ready(old(tree), *rd.code),
        rd.place(pos as int),
    ensures
        match r {
            Ok((node, end)) => {
                &&& annotation_at(rd.bytes(), pos as int) == Outcome::Hit(end as int)
                &&& grown(old(tree)@, final(tree), *rd.code, node.id as int)
                &&& annotation_ok(final(tree), *rd.code, node.id as int, pos as int)
                &&& final(tree).holds(node)
                &&& pos < end
                &&& rd.place(end as int)
            },
            Err(fault) => annotation_at(rd.bytes(), pos as int) == Outcome::Miss(fault@)
                && final(tree)@ == old(tree)@ && ready(final(tree), *rd.code),
        },
{
    let ghost base = tree@;
    let keyword_end = match read_tag(rd.text, pos, "@") {
        Some(end) => end,
        None => {
            return Err(Fault { at: pos, kind: ErrorKind::Tag, committed: false });
        },
    };
    let start = whitespace_and_comments(rd, keyword_end);
    let (name, end) = match plain_identifier(rd, tree, start) {
        Ok(read) => read,
        Err(fault) => {
            return Err(commit(fault));
        },
    };
    let arguments: Vec<AST<Expression>> = Vec::new();
    proof {
        lemma_grown_keeps(base, tree, *rd.code, name.id as int);
        lemma_flat_handles(arguments@);
    }
    let node = branch(rd, tree, Annotation { name, arguments }, pos, end, Ghost(base));
    Ok((node, end))
}

/// Where the keyword of a value declaration ends, and whether it is
/// `const`: after `var`, or else after `const`.
pub open spec fn value_keyword(text: Seq<u8>, pos: int) -> Option<(int, bool)> {
    match tag_end(text, pos, "var".spec_bytes()) {
        Some(end) => Some((end, false)),
        None => match tag_end(text, pos, "const".spec_bytes()) {
            Some(end) => Some((end, true)),
            None => None,
        },
    }
}

/// The declared type after a name that ends at `pos`: where it starts and
/// ends. There is one where `:` and a type follow, with blanks before
/// either; where they do not, nothing is read.
pub open spec fn declared_type_at(text: Seq<u8>, pos: int) -> Option<(int, int)> {
    match tag_end(text, ws(text, pos), ":".spec_bytes()) {
        None => None,
        Some(colon) => match type_end(text, ws(text, colon)) {
            None => None,
            Some(end) => Some((ws(text, colon), end)),
        },
    }
}

/// The initial value of a declaration whose name and type end at `pos`.
pub enum InitialValue {
    /// `=` and an expression follow: where the expression starts and ends.
    Given(int, int),
    /// They do not: nothing is read.
    Absent,
    /// They follow, and the expression breaks off in a number.
    Broken(Miss),
}

/// The initial value after a name and type that end at `pos`.
pub open spec fn initial_value_at(text: Seq<u8>, pos: int) -> InitialValue {
    match tag_end(text, ws(text, pos), "=".spec_bytes()) {
        None => InitialValue::Absent,
        Some(equals) => match expression_at(text, ws(text, equals)) {
            Outcome::Hit(end) => InitialValue::Given(ws(text, equals), end),
            Outcome::Miss(m) => if m.committed {
                InitialValue::Broken(m)
            } else {
                InitialValue::Absent
            },
        },
    }
}

/// Where the name and the type of a value declaration end, given where
/// the name ends.
pub open spec fn typed_end(text: Seq<u8>, named: int) -> int {
    match declared_type_at(text, named) {
        Some((_, end)) => end,
        None => named,
    }
}

/// A value declaration: `var` or `const`, a name, and optionally `: Type`
/// and `= value`. Once the keyword is read the name must follow.
pub open spec fn value_at(text: Seq<u8>, pos: int) -> Outcome {
    match value_keyword(text, pos) {
        None => miss(pos, ErrorKind::Tag),
        Some((keyword_end, _)) => match identifier_at(text, ws(text, keyword_end)) {
            Outcome::Miss(m) => cut(Outcome::Miss(m)),
            Outcome::Hit(named) => match initial_value_at(text, typed_end(text, named)) {
                InitialValue::Given(_, end) => Outcome::Hit(end),
                InitialValue::Absent => Outcome::Hit(typed_end(text, named)),
                InitialValue::Broken(m) => Outcome::Miss(m),
            },
        },
    }
}

/// Node `id` is the value declaration that the text spells at `pos`: it
/// is `const` where the keyword is, it holds the name, the declared type
/// where there is one and the initial value where there is one, and it
/// spans from the keyword to the end of the last of them.
pub open spec fn value_ok(tree: &SyntaxTree, code: Slice, id: int, pos: int) -> bool {
    let text = text_of(code);
    let keyword = value_keyword(text, pos)->0;
    let start = ws(text, keyword.0);
    let named = name_end(text, start);
    let typed = typed_end(text, named);
    &&& tree.has(id)
    &&& value_at(text, pos) matches Outcome::Hit(end) && tree.span_of(id) == piece(code, pos, end)
    &&& tree.details_of(id) matches Any::ValueDeclaration(d) && {
        &&& d.is_const == keyword.1
        &&& d.name.id < id
        &&& ident_ok(tree, code, d.name.id as int, start)
        &&& match declared_type_at(text, named) {
            Some((at, _)) => d.declared_type matches Some(t) && t.id < id && type_ok(
                tree,
                code,
                t.id as int,
                at,
            ),
            None => d.declared_type is None,
        }
        &&& match initial_value_at(text, typed) {
            InitialValue::Given(at, _) => d.value matches Some(v) && v.id < id && expr_ok(
                tree,
                code,
                v.id as int,
                at,
            ),
            _ => d.value is None,
        }
    }
}

/// Reads `: Type`, where it follows.
fn parse_type_declaration<'a>(rd: &Reader<'a>, tree: &mut SyntaxTree, pos: usize) -> (r: Option<
    (AST<TypeExpression>, usize),
>)
    requires
        rd.wf(),
        ready(old(tree), *rd.code),
        rd.place(pos as int),
    ensures
        match r {
            Some((node, end)) => {
                &&& declared_type_at(rd.bytes(), pos as int) matches Some((at, to)) && to == end
                    && type_ok(final(tree), *rd.code, node.id as int, at) && pos <= at
                &&& grown(old(tree)@, final(tree), *rd.code, node.id as int)
                &&& final(tree).holds(node)
                &&& pos <= final(tree).span_of(node.id as int).start
                &&& final(tree).span_of(node.id as int).end == end
                &&& pos < end
                &&& rd.place(end as int)
            },
            None => declared_type_at(rd.bytes(), pos as int) is None && final(tree)@ == old(
                tree,
            )@ && ready(final(tree), *rd.code),
        },
{
    let colon_at = whitespace_and_comments(rd, pos);
    let colon = match read_tag(rd.text, colon_at, ":") {
        Some(colon) => colon,
        None => {
            return None;
        },
    };
    let at = whitespace_and_comments(rd, colon);
    parse_type(rd, tree, at)
}

/// Reads `= value`, where it follows.
fn parse_initial_value<'a>(rd: &Reader<'a>, tree: &mut SyntaxTree, pos: usize) -> (r: Result<
    Option<(AST<Expression>, usize)>,
    Fault,
>)
    requires
        rd.wf(),
        ready(old(tree), *rd.code),
        rd.place(pos as int),
    ensures
        match r {
            Ok(Some((node, end))) => {
                &&& initial_value_at(rd.bytes(), pos as int) matches InitialValue::Given(at, to)
                    && to == end && expr_ok(final(tree), *rd.code, node.id as int, at) && pos
                    <= at
                &&& grown(old(tree)@, final(tree), *rd.code, node.id as int)
                &&& final(tree).holds(node)
                &&& pos <= final(tree).span_of(node.id as int).start
                &&& final(tree).span_of(node.id as int).end == end
                &&& pos < end
                &&& rd.place(end as int)
            },
            Ok(None) => initial_value_at(rd.bytes(), pos as int) is Absent && final(tree)@ == old(
                tree,
            )@ && ready(final(tree), *rd.code),
            Err(fault) => initial_value_at(rd.bytes(), pos as int) == InitialValue::Broken(fault@)
                && final(tree)@ == old(tree)@ && ready(final(tree), *rd.code),
        },
{
    let equals_at = whitespace_and_comments(rd, pos);
    let equals = match read_tag(rd.text, equals_at, "=") {
        Some(equals) => equals,
        None => {
            return Ok(None);
        },
    };
    match parse_member(rd, tree, equals) {
        Ok(Some((node, end, _))) => Ok(Some((node, end))),
        Ok(None) => Ok(None),
        Err(fault) => Err(fault),
    }
}

fn parse_val_declaration<'a>(rd: &Reader<'a>, tree: &mut SyntaxTree, pos: usize) -> (r: Result<
    (AST<ValueDeclaration>, usize),
    Fault,
>)
    requires
        rd.wf(),
        ready(old(tree), *rd.code),
        rd.place(pos as int),
    ensures
        match r {
            Ok((node, end)) => {
                &&& value_at(rd.bytes(), pos as int) == Outcome::Hit(end as int)
                &&& grown(old(tree)@, final(tree), *rd.code, node.id as int)
                &&& value_ok(final(tree), *rd.code, node.id as int, pos as int)
                &&& final(tree).holds(node)
                &&& pos < end
                &&& rd.place(end as int)
            },
            Err(fault) => value_at(rd.bytes(), pos as int) == Outcome::Miss(fault@)
                && final(tree)@ == old(tree)@ && ready(final(tree), *rd.code),
        },
{
    let ghost base = *tree;
    let base_len = tree.len();
    let (keyword_end, is_const) = match read_tag(rd.text, pos, "var") {
        Some(end) => (end, false),
        None => match read_tag(rd.text, pos, "const") {
            Some(end) => (end, true),
            None => {
                return Err(Fault { at: pos, kind: ErrorKind::Tag, committed: false });
            },
        },
    };
    let start = whitespace_and_comments(rd, keyword_end);
    let (name, named) = match plain_identifier(rd, tree, start) {
        Ok(read) => read,
        Err(fault) => {
            return Err(commit(fault));
        },
    };
    let ghost with_name = *tree;
    proof {
        lemma_grown_keeps(base@, tree, *rd.code, name.id as int);
    }
    let (declared_type, typed) = match parse_type_declaration(rd, tree, named) {
        Some((node, end)) => (Some(node), end),
        None => (None, named),
    };
    let ghost with_type = *tree;
    let ghost mut roots: Seq<usize> = seq![name.id];
    proof {
        lemma_keeps_len(base@, with_name@);
        if let Some(node) = declared_type {
            lemma_grown_keeps(with_name@, tree, *rd.code, node.id as int);
            lemma_keeps_on(base@, with_name@, tree@);
            lemma_kept(&with_name, tree, name.id as int);
            lemma_loose_more(&with_name, tree, *rd.code, base_len as int, roots, node.id as int);
            roots = roots.push(node.id);
        } else {
            lemma_loose_same(&with_name, tree, base_len as int, roots);
        }
    }
    let (value, end) = match parse_initial_value(rd, tree, typed) {
        Ok(Some((node, end))) => (Some(node), end),
        Ok(None) => (None, typed),
        Err(fault) => {
            proof {
                if declared_type is None {
                    reveal(keeps);
                }
            }
            drop_from(rd, tree, base_len, Ghost(&base));
            return Err(fault);
        },
    };
    proof {
        lemma_keeps_len(base@, with_type@);
        if let Some(node) = value {
            lemma_grown_keeps(with_type@, tree, *rd.code, node.id as int);
            lemma_keeps_on(base@, with_type@, tree@);
            lemma_kept(&with_type, tree, name.id as int);
            if let Some(t) = declared_type {
                lemma_kept(&with_type, tree, t.id as int);
            }
            lemma_loose_more(&with_type, tree, *rd.code, base_len as int, roots, node.id as int);
            roots = roots.push(node.id);
        } else {
            reveal(keeps);
            lemma_loose_same(&with_type, tree, base_len as int, roots);
        }
        assert(roots =~= name.nodes() + declared_type.nodes() + value.nodes());
    }
    let ghost read_all = *tree;
    let node = branch(
        rd,
        tree,
        ValueDeclaration { is_const, name, declared_type, value },
        pos,
        end,
        Ghost(base@),
    );
    proof {
        if let Some(v) = value {
            lemma_expr_stays(
                &read_all,
                tree,
                *rd.code,
                v.id as int,
                initial_value_at(rd.bytes(), typed as int)->Given_0,
            );
        }
    }
    Ok((node, end))
}

/// The closed tag `lit` after blanks: where it ends, or the failure at the
/// place after the blanks.
pub open spec fn token_at(text: Seq<u8>, pos: int, lit: Seq<u8>) -> Outcome {
    match tag_end(text, ws(text, pos), lit) {
        Some(end) => Outcome::Hit(end),
        None => miss(ws(text, pos), ErrorKind::Tag),
    }
}

/// Reads the fixed text `lit` after blanks.
fn token<'a>(rd: &Reader<'a>, pos: usize, lit: &str) -> (r: Result<usize, Fault>)
    requires
        rd.wf(),
        rd.place(pos as int),
    ensures
        crate::utils::agrees(r, token_at(rd.bytes(), pos as int, lit.spec_bytes())),
        r matches Ok(end) ==> pos < end && rd.place(end as int),
{
    let at = whitespace_and_comments(rd, pos);
    match read_tag(rd.text, at, lit) {
        Some(end) => Ok(end),
        None => Err(Fault { at, kind: ErrorKind::Tag, committed: false }),
    }
}

/// What follows the name of a function that ends at `pos`: `(`, `)`, `:`
/// and a block one level deeper than `level`, with blanks before each.
pub open spec fn func_rest_at(text: Seq<u8>, pos: int, level: nat) -> Outcome {
    match token_at(text, pos, "(".spec_bytes()) {
        Outcome::Miss(m) => Outcome::Miss(m),
        Outcome::Hit(opened) => match token_at(text, opened, ")".spec_bytes()) {
            Outcome::Miss(m) => Outcome::Miss(m),
            Outcome::Hit(closed) => match token_at(text, closed, ":".spec_bytes()) {
                Outcome::Miss(m) => Outcome::Miss(m),
                Outcome::Hit(colon) => block_at(text, colon, level + 1),
            },
        },
    }
}

/// Where the body of a function whose name ends at `pos` starts: after
/// `(`, `)` and `:`.
pub open spec fn func_body_at(text: Seq<u8>, pos: int) -> int {
    token_at(
        text,
        token_at(text, token_at(text, pos, "(".spec_bytes())->Hit_0, ")".spec_bytes())->Hit_0,
        ":".spec_bytes(),
    )->Hit_0
}

/// A function: `func`, a name, `(`, `)`, `:` and a block. Once the keyword
/// is read the rest must follow.
pub open spec fn func_at(text: Seq<u8>, pos: int, level: nat) -> Outcome {
    match tag_end(text, pos, "func".spec_bytes()) {
        None => miss(pos, ErrorKind::Tag),
        Some(keyword_end) => match identifier_at(text, ws(text, keyword_end)) {
            Outcome::Miss(m) => cut(Outcome::Miss(m)),
            Outcome::Hit(named) => cut(func_rest_at(text, named, level)),
        },
    }
}

/// Node `id` is the function that the text spells at `pos`: it is not
/// static, it holds the name and the body, no arguments and no return
/// type, and it spans from the keyword to the end of the body.
pub open spec fn func_ok(tree: &SyntaxTree, code: Slice, id: int, pos: int, level: nat) -> bool {
    let text = text_of(code);
    let start = ws(text, tag_end(text, pos, "func".spec_bytes())->0);
    let named = name_end(text, start);
    &&& tree.has(id)
    &&& func_at(text, pos, level) matches Outcome::Hit(end) && tree.span_of(id) == piece(
        code,
        pos,
        end,
    )
    &&& tree.details_of(id) matches Any::FuncDeclaration(d) && {
        &&& !d.is_static
        &&& d.args@.len() == 0
        &&& d.return_type is None
        &&& d.name.id < id
        &&& ident_ok(tree, code, d.name.id as int, start)
        &&& d.body.id < id
        &&& block_ok(tree, code, d.body.id as int, func_body_at(text, named), level + 1)
    }
}

/// The span of a block is the join of the spans of the statements that it
/// holds: it starts where the first starts and ends where the last ends.
pub proof fn lemma_block_span(tree: &SyntaxTree, code: Slice, id: int, pos: int, level: nat)
    requires
        block_ok(tree, code, id, pos, level),
    ensures
        tree.details_of(id) matches Any::Block(block) && block.statements@.len() > 0
            && tree.span_of(id) == tree.span_of(block.statements@[0].id as int).spec_join(
            tree.span_of(block.statements@.last().id as int),
        ),
{
}

/// A block that is the block at a place stays so when nodes are added.
pub proof fn lemma_block_stays(
    tree: &SyntaxTree,
    later: &SyntaxTree,
    code: Slice,
    id: int,
    pos: int,
    level: nat,
)
    requires
        block_ok(tree, code, id, pos, level),
        later.extends(tree),
        tree.wf(),
    ensures
        block_ok(later, code, id, pos, level),
{
    let starts = block_starts(text_of(code), pos, level);
    let block = tree.details_of(id)->Block_0;
    assert(later@[id].details == tree@[id].details);
    assert(statement_ok(tree, code, block.statements@[0].id as int, starts[0]));
    assert(statement_ok(tree, code, block.statements@.last().id as int, starts[starts.len() - 1]));
    lemma_kept_spans(tree, later, block.statements@[0].id as int);
    lemma_kept_spans(tree, later, block.statements@.last().id as int);
    assert forall|i: int| 0 <= i < starts.len() implies statement_ok(
        later,
        code,
        (#[trigger] block.statements@[i]).id as int,
        starts[i],
    ) by {
        lemma_statement_stays(tree, later, code, block.statements@[i].id as int, starts[i]);
    }
}

fn parse_func<'a>(rd: &Reader<'a>, tree: &mut SyntaxTree, pos: usize, indentation: usize) -> (r:
    Result<(AST<FuncDeclaration>, usize), Fault>)
    requires
        rd.wf(),
        ready(old(tree), *rd.code),
        rd.place(pos as int),
        indentation < 5,
    ensures
        match r {
            Ok((node, end)) => {
                &&& func_at(rd.bytes(), pos as int, indentation as nat) == Outcome::Hit(end as int)
                &&& grown(old(tree)@, final(tree), *rd.code, node.id as int)
                &&& func_ok(final(tree), *rd.code, node.id as int, pos as int, indentation as nat)
                &&& final(tree).holds(node)
                &&& pos < end
                &&& rd.place(end as int)
            },
            Err(fault) => func_at(rd.bytes(), pos as int, indentation as nat) == Outcome::Miss(
                fault@,
            ) && final(tree)@ == old(tree)@ && ready(final(tree), *rd.code),
        },
{
    let ghost base = *tree;
    let base_len = tree.len();
    let keyword_end = match read_tag(rd.text, pos, "func") {
        Some(end) => end,
        None => {
            return Err(Fault { at: pos, kind: ErrorKind::Tag, committed: false });
        },
    };
    let start = whitespace_and_comments(rd, keyword_end);
    let (name, named) = match plain_identifier(rd, tree, start) {
        Ok(read) => read,
        Err(fault) => {
            return Err(commit(fault));
        },
    };
    let ghost with_name = *tree;
    proof {
        lemma_grown_keeps(base@, tree, *rd.code, name.id as int);
    }
    let opened = match token(rd, named, "(") {
        Ok(end) => end,
        Err(fault) => {
            drop_from(rd, tree, base_len, Ghost(&base));
            return Err(commit(fault));
        },
    };
    let closed = match token(rd, opened, ")") {
        Ok(end) => end,
        Err(fault) => {
            drop_from(rd, tree, base_len, Ghost(&base));
            return Err(commit(fault));
        },
    };
    let colon = match token(rd, closed, ":") {
        Ok(end) => end,
        Err(fault) => {
            drop_from(rd, tree, base_len, Ghost(&base));
            return Err(commit(fault));
        },
    };
    let (body, end) = match parse_block(rd, tree, colon, indentation + 1) {
        Ok(read) => read,
        Err(fault) => {
            drop_from(rd, tree, base_len, Ghost(&base));
            return Err(commit(fault));
        },
    };
    let args: Vec<(AST<PlainIdentifier>, Option<AST<TypeExpression>>)> = Vec::new();
    let ghost read_all = *tree;
    proof {
        lemma_grown_keeps(with_name@, tree, *rd.code, body.id as int);
        lemma_keeps_on(base@, with_name@, tree@);
        lemma_kept(&with_name, tree, name.id as int);
        assert(args.nodes() =~= Seq::<usize>::empty());
        lemma_keeps_len(base@, with_name@);
        lemma_loose_more(&with_name, tree, *rd.code, base_len as int, seq![name.id], body.id as int);
        let none: Option<AST<TypeExpression>> = None;
        assert(seq![name.id].push(body.id) =~= name.nodes() + args.nodes() + none.nodes()
            + body.nodes());
        reveal(ready);
    }
    let node = branch(
        rd,
        tree,
        FuncDeclaration { is_static: false, name, args, return_type: None, body },
        pos,
        end,
        Ghost(base@),
    );
    proof {
        lemma_block_stays(
            &read_all,
            tree,
            *rd.code,
            body.id as int,
            colon as int,
            (indentation + 1) as nat,
        );
    }
    Ok((node, end))
}

// --- Any declaration ---

/// A declaration: the first that applies of `extends`, `class_name`, a
/// value, a function and an annotation.
pub open spec fn declaration_at(text: Seq<u8>, pos: int) -> Outcome {
    or_else(
        extends_at(text, pos),
        or_else(
            class_name_at(text, pos),
            or_else(
                value_at(text, pos),
                or_else(func_at(text, pos, 0), annotation_at(text, pos)),
            ),
        ),
    )
}

/// Node `id` is the declaration that the text spells at `pos`: that of
/// the first rule that applies.
pub open spec fn declaration_ok(tree: &SyntaxTree, code: Slice, id: int, pos: int) -> bool {
    let text = text_of(code);
    if extends_at(text, pos) is Hit {
        extends_ok(tree, code, id, pos)
    } else if class_name_at(text, pos) is Hit {
        class_name_ok(tree, code, id, pos)
    } else if value_at(text, pos) is Hit {
        value_ok(tree, code, id, pos)
    } else if func_at(text, pos, 0) is Hit {
        func_ok(tree, code, id, pos, 0)
    } else {
        annotation_at(text, pos) is Hit && annotation_ok(tree, code, id, pos)
    }
}

fn parse_declaration<'a>(rd: &Reader<'a>, tree: &mut SyntaxTree, pos: usize) -> (r: Result<
    (AST<Declaration>, usize),
    Fault,
>)
    requires
        rd.wf(),
        ready(old(tree), *rd.code),
        rd.place(pos as int),
    ensures
        match r {
            Ok((node, end)) => {
                &&& declaration_at(rd.bytes(), pos as int) == Outcome::Hit(end as int)
                &&& grown(old(tree)@, final(tree), *rd.code, node.id as int)
                &&& declaration_ok(final(tree), *rd.code, node.id as int, pos as int)
                &&& final(tree).holds(node)
                &&& pos <= final(tree).span_of(node.id as int).start
                &&& final(tree).span_of(node.id as int).end <= end
                &&& pos < end
                &&& rd.place(end as int)
            },
            Err(fault) => declaration_at(rd.bytes(), pos as int) == Outcome::Miss(fault@)
                && final(tree)@ == old(tree)@ && ready(final(tree), *rd.code),
        },
{
    match parse_extends(rd, tree, pos) {
        Ok((node, end)) => {
            return Ok((node.recast::<Declaration>(), end));
        },
        Err(fault) => if fault.committed {
            return Err(fault);
        },
    }
    match parse_class_name(rd, tree, pos) {
        Ok((node, end)) => {
            return Ok((node.recast::<Declaration>(), end));
        },
        Err(fault) => if fault.committed {
            return Err(fault);
        },
    }
    match parse_val_declaration(rd, tree, pos) {
        Ok((node, end)) => {
            return Ok((node.recast::<Declaration>(), end));
        },
        Err(fault) => if fault.committed {
            return Err(fault);
        },
    }
    match parse_func(rd, tree, pos, 0) {
        Ok((node, end)) => {
            return Ok((node.recast::<Declaration>(), end));
        },
        Err(fault) => if fault.committed {
            return Err(fault);
        },
    }
    match parse_annotation(rd, tree, pos) {
        Ok((node, end)) => Ok((node.recast::<Declaration>(), end)),
        Err(fault) => Err(fault),
    }
}

/// A declaration that is the declaration at a place stays so when nodes
/// are added.
pub proof fn lemma_declaration_stays(
    tree: &SyntaxTree,
    later: &SyntaxTree,
    code: Slice,
    id: int,
    pos: int,
)
    requires
        declaration_ok(tree, code, id, pos),
        later.extends(tree),
        tree.wf(),
    ensures
        declaration_ok(later, code, id, pos),
{
    let text = text_of(code);
    if extends_at(text, pos) is Hit {
        assert(later@[id].details == tree@[id].details);
    } else if class_name_at(text, pos) is Hit {
        assert(later@[id].details == tree@[id].details);
    } else if value_at(text, pos) is Hit {
        assert(later@[id].details == tree@[id].details);
        let d = tree.details_of(id)->ValueDeclaration_0;
        let keyword = value_keyword(text, pos)->0;
        let named = name_end(text, ws(text, keyword.0));
        if let InitialValue::Given(at, _) = initial_value_at(text, typed_end(text, named)) {
            lemma_expr_stays(tree, later, code, d.value->0.id as int, at);
        }
    } else if func_at(text, pos, 0) is Hit {
        assert(later@[id].details == tree@[id].details);
        let d = tree.details_of(id)->FuncDeclaration_0;
        let named = name_end(text, ws(text, tag_end(text, pos, "func".spec_bytes())->0));
        lemma_block_stays(tree, later, code, d.body.id as int, func_body_at(text, named), 1);
    } else {
        assert(later@[id].details == tree@[id].details);
    }
}

// --- Scripts ---

/// Where the declarations of a script start, from `pos` on: each after
/// blanks.
#[verifier::opaque]
pub open spec fn script_starts(text: Seq<u8>, pos: int) -> Seq<int>
    decreases text.len() - pos,
{
    match declaration_at(text, ws(text, pos)) {
        Outcome::Hit(end) => if ahead(text, pos + 1, end) {
            seq![ws(text, pos)] + script_starts(text, end)
        } else {
            Seq::empty()
        },
        Outcome::Miss(_) => Seq::empty(),
    }
}

/// Where the declarations of a script end, from `pos` on; or the failure
/// of the declaration that breaks off.
#[verifier::opaque]
pub open spec fn script_end(text: Seq<u8>, pos: int) -> Outcome
    decreases text.len() - pos,
{
    match declaration_at(text, ws(text, pos)) {
        Outcome::Hit(end) => if ahead(text, pos + 1, end) {
            script_end(text, end)
        } else {
            Outcome::Hit(pos)
        },
        Outcome::Miss(m) => if m.committed {
            Outcome::Miss(m)
        } else {
            Outcome::Hit(pos)
        },
    }
}

/// What reading a whole script comes to.
pub enum ScriptOutcome {
    /// Declarations and blanks up to the end of the text.
    Parsed,
    /// A declaration breaks off.
    Broken(Miss),
    /// After the declarations and the blanks that follow them, text is
    /// left at this place.
    Leftover(int),
}

/// What reading a whole script from `pos` comes to.
pub open spec fn script_at(text: Seq<u8>, pos: int) -> ScriptOutcome {
    match script_end(text, pos) {
        Outcome::Miss(m) => ScriptOutcome::Broken(m),
        Outcome::Hit(last) => if ws(text, last) == text.len() {
            ScriptOutcome::Parsed
        } else {
            ScriptOutcome::Leftover(ws(text, last))
        },
    }
}

/// The message of the error for text that is left over.
pub open spec fn leftover_message() -> Seq<char> {
    "Failed to parse entire input"@
}

/// The nodes stand in source order: each ends before the next starts.
pub open spec fn in_order<K>(tree: &SyntaxTree, nodes: Seq<AST<K>>) -> bool {
    forall|i: int, j: int|
        0 <= i < j < nodes.len() ==> tree.span_of((#[trigger] nodes[i]).id as int).end
            <= tree.span_of((#[trigger] nodes[j]).id as int).start
}

/// The declarations read so far are in place: one node for each start,
/// each the declaration at its start, held by no node yet, and inside the
/// text from `lo` to `hi`.
#[verifier::opaque]
pub open spec fn declarations_ok(
    tree: &SyntaxTree,
    code: Slice,
    declarations: Seq<AST<Declaration>>,
    starts: Seq<int>,
    lo: int,
    hi: int,
) -> bool {
    &&& declarations.len() == starts.len()
    &&& loose(tree, 0, ids_of(declarations))
    &&& in_order(tree, declarations)
    &&& forall|i: int|
        0 <= i < declarations.len() ==> {
            let id = (#[trigger] declarations[i]).id as int;
            &&& 0 <= id < tree@.len()
            &&& tree@[id].parent is None
            &&& tree.holds(declarations[i])
            &&& declaration_ok(tree, code, id, starts[i])
            &&& lo <= tree.span_of(id).start
            &&& tree.span_of(id).end <= hi
        }
}

/// Declarations that are in place stay so when one more is read.
proof fn lemma_declarations_grow(
    before: &SyntaxTree,
    tree: &SyntaxTree,
    code: Slice,
    declarations: Seq<AST<Declaration>>,
    starts: Seq<int>,
    lo: int,
    hi: int,
    node: AST<Declaration>,
    start: int,
    end: int,
)
    requires
        declarations_ok(before, code, declarations, starts, lo, hi),
        ready(before, code),
        grown(before@, tree, code, node.id as int),
        declaration_ok(tree, code, node.id as int, start),
        tree.holds(node),
        lo <= tree.span_of(node.id as int).start,
        hi <= tree.span_of(node.id as int).start,
        tree.span_of(node.id as int).end <= end,
        hi <= end,
    ensures
        declarations_ok(tree, code, declarations.push(node), starts.push(start), lo, end),
{
    reveal(declarations_ok);
    lemma_loose_more(before, tree, code, 0, ids_of(declarations), node.id as int);
    assert(ids_of(declarations).push(node.id) =~= ids_of(declarations.push(node)));
    reveal(ready);
    let all = declarations.push(node);
    let all_starts = starts.push(start);
    assert forall|i: int| 0 <= i < all.len() implies {
        let id = (#[trigger] all[i]).id as int;
        &&& 0 <= id < tree@.len()
        &&& tree@[id].parent is None
        &&& tree.holds(all[i])
        &&& declaration_ok(tree, code, id, all_starts[i])
        &&& lo <= tree.span_of(id).start
        &&& tree.span_of(id).end <= end
    } by {
        if i < declarations.len() {
            let id = declarations[i].id as int;
            assert(all[i] == declarations[i]);
            lemma_kept(before, tree, id);
            lemma_declaration_stays(before, tree, code, id, starts[i]);
        }
    }
    assert forall|i: int, j: int| 0 <= i < j < all.len() implies tree.span_of(
        (#[trigger] all[i]).id as int,
    ).end <= tree.span_of((#[trigger] all[j]).id as int).start by {
        assert(all[i] == declarations[i]);
        lemma_kept(before, tree, declarations[i].id as int);
        if j < declarations.len() {
            assert(all[j] == declarations[j]);
            lemma_kept(before, tree, declarations[j].id as int);
        }
    }
}

/// Declarations that are in place stay so in a store with the same nodes.
proof fn lemma_declarations_same(
    before: &SyntaxTree,
    tree: &SyntaxTree,
    code: Slice,
    declarations: Seq<AST<Declaration>>,
    starts: Seq<int>,
    lo: int,
    hi: int,
)
    requires
        declarations_ok(before, code, declarations, starts, lo, hi),
        ready(before, code),
        tree@ == before@,
    ensures
        declarations_ok(tree, code, declarations, starts, lo, hi),
{
    reveal(declarations_ok);
    lemma_loose_same(before, tree, 0, ids_of(declarations));
    reveal(ready);
    assert forall|i: int| 0 <= i < declarations.len() implies {
        let id = (#[trigger] declarations[i]).id as int;
        &&& declaration_ok(tree, code, id, starts[i])
    } by {
        lemma_declaration_stays(before, tree, code, declarations[i].id as int, starts[i]);
    }
}

/// No declarations are in place wherever there are none.
proof fn lemma_declarations_none(tree: &SyntaxTree, code: Slice, pos: int)
    requires
        tree@.len() == 0,
    ensures
        declarations_ok(tree, code, Seq::empty(), Seq::empty(), pos, pos),
{
    reveal(declarations_ok);
    lemma_loose_none(tree, 0);
    assert(ids_of(Seq::<AST<Declaration>>::empty()) =~= Seq::<usize>::empty());
}

/// A script whose next declaration is there: it, and the rest.
proof fn lemma_script_more(text: Seq<u8>, pos: int, end: int)
    requires
        0 <= pos <= text.len(),
        declaration_at(text, ws(text, pos)) == Outcome::Hit(end),
        pos < end <= text.len(),
    ensures
        script_end(text, pos) == script_end(text, end),
        script_starts(text, pos) == seq![ws(text, pos)] + script_starts(text, end),
{
    reveal_with_fuel(script_end, 1);
    reveal_with_fuel(script_starts, 1);
}

/// A script whose next declaration is not there: no more declarations.
proof fn lemma_script_done(text: Seq<u8>, pos: int)
    requires
        declaration_at(text, ws(text, pos)) is Miss,
    ensures
        declaration_at(text, ws(text, pos))->Miss_0.committed ==> script_end(text, pos)
            == declaration_at(text, ws(text, pos)),
        !declaration_at(text, ws(text, pos))->Miss_0.committed ==> script_end(text, pos)
            == Outcome::Hit(pos),
        script_starts(text, pos) == Seq::<int>::empty(),
{
    reveal_with_fuel(script_end, 1);
    reveal_with_fuel(script_starts, 1);
}

/// Node `id` is the script that the text of `code` spells: it spans
/// `code`, no node holds it, and it holds one declaration for each place
/// where a declaration starts, in order, each the declaration that the
/// text spells there.
pub open spec fn script_ok(tree: &SyntaxTree, code: Slice, id: int) -> bool {
    let starts = script_starts(text_of(code), code.start as int);
    &&& tree.has(id)
    &&& tree.span_of(id) == code
    &&& tree@[id].parent is None
    &&& tree.details_of(id) matches Any::GDScript(script) && {
        &&& script.declarations@.len() == starts.len()
        &&& in_order(tree, script.declarations@)
        &&& forall|i: int|
            0 <= i < starts.len() ==> (#[trigger] script.declarations@[i]).id < id
                && declaration_ok(tree, code, script.declarations@[i].id as int, starts[i])
    }
}

/// The declarations of a script stand in source order: of two, the one
/// that comes first in the list ends before the other starts.
pub proof fn lemma_declarations_in_order(tree: &SyntaxTree, code: Slice, id: int, i: int, j: int)
    requires
        script_ok(tree, code, id),
        tree.details_of(id) matches Any::GDScript(script) && 0 <= i < j
            < script.declarations@.len(),
    ensures
        tree.details_of(id) matches Any::GDScript(script) && tree.span_of(
            script.declarations@[i].id as int,
        ).end <= tree.span_of(script.declarations@[j].id as int).start,
{
}

/// No declaration starts at the end of the text.
pub proof fn lemma_no_declaration_at_end(text: Seq<u8>)
    ensures
        declaration_at(text, text.len() as int) matches Outcome::Miss(m) && !m.committed,
{
}

/// A script that is one `extends` declaration between blanks parses, to
/// one declaration that spans from the keyword to the end of the name.
pub proof fn lemma_extends_parses(tree: &SyntaxTree, code: Slice, id: int)
    requires
        code.wf(),
        script_ok(tree, code, id),
        extends_at(text_of(code), ws(text_of(code), code.start as int)) matches Outcome::Hit(end)
            && ws(text_of(code), end) == text_of(code).len(),
    ensures
        script_at(text_of(code), code.start as int) is Parsed,
        tree.details_of(id) matches Any::GDScript(script) && script.declarations@.len() == 1 && {
            let text = text_of(code);
            let start = ws(text, code.start as int);
            let keyword_end = tag_end(text, start, "extends".spec_bytes())->0;
            tree.span_of(script.declarations@[0].id as int) == piece(
                code,
                start,
                name_end(text, ws(text, keyword_end)),
            )
        },
{
    let text = text_of(code);
    let start = ws(text, code.start as int);
    let end = extends_at(text, start)->Hit_0;
    lemma_skip_blank_bounds(text, code.start as int, CharClass::Blank, "#".spec_bytes());
    let keyword_end = tag_end(text, start, "extends".spec_bytes())->0;
    lemma_skip_blank_bounds(text, keyword_end, CharClass::Blank, "#".spec_bytes());
    lemma_run_end_bounds(text, ws(text, keyword_end), CharClass::Word);
    lemma_script_more(text, code.start as int, end);
    lemma_no_declaration_at_end(text);
    lemma_skip_blank_bounds(text, end, CharClass::Blank, "#".spec_bytes());
    lemma_script_done(text, end);
    assert(script_starts(text, code.start as int) =~= seq![start]);
    let script = tree.details_of(id)->GDScript_0;
    assert(declaration_ok(tree, code, script.declarations@[0].id as int, start));
}

/// A script that is one `class_name` declaration between blanks parses,
/// to one declaration that spans from the keyword to the end of the name.
pub proof fn lemma_class_name_parses(tree: &SyntaxTree, code: Slice, id: int)
    requires
        code.wf(),
        script_ok(tree, code, id),
        class_name_at(text_of(code), ws(text_of(code), code.start as int)) matches Outcome::Hit(
            end,
        ) && ws(text_of(code), end) == text_of(code).len(),
    ensures
        script_at(text_of(code), code.start as int) is Parsed,
        tree.details_of(id) matches Any::GDScript(script) && script.declarations@.len() == 1 && {
            let text = text_of(code);
            let start = ws(text, code.start as int);
            let keyword_end = tag_end(text, start, "class_name".spec_bytes())->0;
            tree.span_of(script.declarations@[0].id as int) == piece(
                code,
                start,
                name_end(text, ws(text, keyword_end)),
            )
        },
{
    let text = text_of(code);
    let start = ws(text, code.start as int);
    let end = class_name_at(text, start)->Hit_0;
    lemma_skip_blank_bounds(text, code.start as int, CharClass::Blank, "#".spec_bytes());
    let keyword_end = tag_end(text, start, "class_name".spec_bytes())->0;
    lemma_skip_blank_bounds(text, keyword_end, CharClass::Blank, "#".spec_bytes());
    lemma_run_end_bounds(text, ws(text, keyword_end), CharClass::Word);
    lemma_extends_excluded(text, start);
    lemma_script_more(text, code.start as int, end);
    lemma_no_declaration_at_end(text);
    lemma_skip_blank_bounds(text, end, CharClass::Blank, "#".spec_bytes());
    lemma_script_done(text, end);
    assert(script_starts(text, code.start as int) =~= seq![start]);
    let script = tree.details_of(id)->GDScript_0;
    assert(declaration_ok(tree, code, script.declarations@[0].id as int, start));
}

/// Where `class_name` stands, `extends` does not.
pub proof fn lemma_extends_excluded(text: Seq<u8>, pos: int)
    requires
        tag_end(text, pos, "class_name".spec_bytes()) is Some,
    ensures
        tag_end(text, pos, "extends".spec_bytes()) is None,
{
    reveal_strlit("class_name");
    reveal_strlit("extends");
    let c = "class_name";
    let e = "extends";
    vstd::string::is_ascii_spec_bytes(c);
    vstd::string::is_ascii_spec_bytes(e);
    assert(c@[0] == 'c');
    assert(e@[0] == 'e');
    assert(is_ascii(c)) by {
        assert forall|i: int| 0 <= i < c@.len() implies '\0' <= #[trigger] c@[i] <= '\u{7f}' by {
        }
    }
    assert(is_ascii(e)) by {
        assert forall|i: int| 0 <= i < e@.len() implies '\0' <= #[trigger] e@[i] <= '\u{7f}' by {
        }
    }
    if tag_end(text, pos, e.spec_bytes()) is Some {
        assert(text.subrange(pos, pos + c.spec_bytes().len())[0] == c.spec_bytes()[0]);
        assert(text.subrange(pos, pos + e.spec_bytes().len())[0] == e.spec_bytes()[0]);
    }
}

/// Reads a whole script. The tree that comes back has the script as its
/// last node.
///
/// A declaration that breaks off after its keyword is an error at the
/// place where it breaks off, with the description of the rule that
/// failed there; text that is left over after the last declaration and
/// the blanks after it is an error at that text.
pub fn parse_script(module_id: ModuleID, code: Slice) -> (r: Result<SyntaxTree, ParseError>)
    requires
        code.wf(),
    ensures
        match r {
            Ok(tree) => {
                &&& script_at(text_of(code), code.start as int) is Parsed
                &&& tree.wf()
                &&& tree.covered()
                &&& tree.sourced(code)
                &&& tree@.len() > 0
                &&& script_ok(&tree, code, tree@.len() - 1)
                &&& forall|i: int|
                    0 <= i < tree@.len() - 1 ==> (#[trigger] tree@[i]).parent is Some
            },
            Err(error) => {
                &&& error.module_id is None
                &&& match script_at(text_of(code), code.start as int) {
                    ScriptOutcome::Parsed => false,
                    ScriptOutcome::Broken(m) => error.src == rest_of(code, m.at) && error.message@
                        == crate::utils::spec_message_of(
                        crate::utils::RawParseErrorDetails::Kind(m.kind),
                    ),
                    ScriptOutcome::Leftover(at) => error.src == rest_of(code, at) && error.message@
                        == leftover_message(),
                }
            },
        },
{
    let text = readable(&code);
    let rd = Reader { code: &code, text };
    let mut tree = SyntaxTree::new();
    let ghost bytes = rd.bytes();
    let ghost empty = tree;
    proof {
        lemma_end_boundary(code);
        assert(ready(&tree, code)) by {
            reveal(ready);
        }
        lemma_declarations_none(&tree, code, code.start as int);
        lemma_keeps_self(tree@);
    }
    let mut declarations: Vec<AST<Declaration>> = Vec::new();
    let ghost mut starts: Seq<int> = Seq::empty();
    let mut at = code.start;
    let mut more = true;
    while more
        invariant
            rd.wf(),
            rd.code == &code,
            bytes == rd.bytes(),
            ready(&tree, code),
            rd.place(at as int),
            code.start <= at,
            script_end(bytes, code.start as int) == script_end(bytes, at as int),
            more ==> script_starts(bytes, code.start as int) == starts + script_starts(
                bytes,
                at as int,
            ),
            !more ==> script_starts(bytes, code.start as int) == starts,
            !more ==> script_end(bytes, at as int) == Outcome::Hit(at as int),
            declarations_ok(&tree, code, declarations@, starts, code.start as int, at as int),
        decreases rd.bytes().len() - at, if more { 1int } else { 0int },
    {
        let start = whitespace_and_comments(&rd, at);
        let ghost before = tree;
        match parse_declaration(&rd, &mut tree, start) {
            Ok((node, end)) => {
                proof {
                    lemma_script_more(bytes, at as int, end as int);
                    lemma_declarations_grow(
                        &before,
                        &tree,
                        code,
                        declarations@,
                        starts,
                        code.start as int,
                        at as int,
                        node,
                        start as int,
                        end as int,
                    );
                    assert(starts + (seq![start as int] + script_starts(bytes, end as int))
                        =~= starts.push(start as int) + script_starts(bytes, end as int));
                    starts = starts.push(start as int);
                }
                declarations.push(node);
                at = end;
            },
            Err(fault) => {
                proof {
                    lemma_script_done(bytes, at as int);
                    lemma_declarations_same(
                        &before,
                        &tree,
                        code,
                        declarations@,
                        starts,
                        code.start as int,
                        at as int,
                    );
                    assert(starts + Seq::<int>::empty() =~= starts);
                }
                if fault.committed {
                    return Err(
                        ParseError {
                            module_id: None,
                            src: cut_piece(&code, fault.at, code.end),
                            message: describe(fault.kind),
                        },
                    );
                }
                more = false;
            },
        }
    }
    let trailer = whitespace_and_comments(&rd, at);
    if trailer != code.end {
        return Err(
            ParseError {
                module_id: None,
                src: cut_piece(&code, trailer, code.end),
                message: "Failed to parse entire input".to_owned(),
            },
        );
    }
    let ghost held = declarations@;
    let ghost read_all = tree;
    proof {
        lemma_flat_handles(declarations@);
        assert(flat(declarations@) =~= ids_of(declarations@));
        reveal(declarations_ok);
        reveal(ready);
        reveal(keeps);
    }
    let root = branch(
        &rd,
        &mut tree,
        GDScript { declarations },
        code.start,
        code.end,
        Ghost(Seq::empty()),
    );
    proof {
        reveal(ready);
        assert forall|i: int| 0 <= i < starts.len() implies (#[trigger] held[i]).id < root.id
            && declaration_ok(&tree, code, held[i].id as int, starts[i]) by {
            lemma_declaration_stays(&read_all, &tree, code, held[i].id as int, starts[i]);
        }
        assert forall|i: int, j: int| 0 <= i < j < held.len() implies tree.span_of(
            (#[trigger] held[i]).id as int,
        ).end <= tree.span_of((#[trigger] held[j]).id as int).start by {
            lemma_kept_spans(&read_all, &tree, held[i].id as int);
            lemma_kept_spans(&read_all, &tree, held[j].id as int);
        }
        assert forall|i: int| 0 <= i < tree@.len() - 1 implies (#[trigger] tree@[i]).parent is Some by {
            reveal(loose);
            if tree@[i].parent is None {
                assert(names(seq![root.id], i));
            }
        }
    }
    Ok(tree)
}

} // verus!

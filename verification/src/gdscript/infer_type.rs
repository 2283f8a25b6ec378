//! From an expression to the type of its value.

use vstd::prelude::*;
use vstd::std_specs::convert::FromSpecImpl;
use crate::gdscript::ast::{
    lemma_flat_names, Any, BinaryOperator, Expression, Parentable, SyntaxTree, ValueDeclaration,
    AST,
};
use crate::gdscript::check::CheckContext;
use crate::gdscript::gd_type::{models_of, pair_models_of, Type, TypeModel};
use crate::godot_project::GodotProject;
use crate::utils::literal::{int_value, parse_int};

verus! {

#[derive(Clone, Copy, Debug)]
pub struct InferTypeContext<'a> {
    pub godot_project: &'a GodotProject,
}

/// The part of a check's context that inference needs.
impl<'a> From<CheckContext<'a>> for InferTypeContext<'a> {
    fn from(ctx: CheckContext<'a>) -> (r: Self) {
        Self { godot_project: ctx.godot_project }
    }
}

impl<'a> FromSpecImpl<CheckContext<'a>> for InferTypeContext<'a> {
    open spec fn obeys_from_spec() -> bool {
        true
    }

    open spec fn from_spec(ctx: CheckContext<'a>) -> Self {
        InferTypeContext { godot_project: ctx.godot_project }
    }
}

/// The type of a comparison or of a membership test, the only operations
/// between two operands that have a type so far.
pub open spec fn binary_type(op: BinaryOperator) -> TypeModel {
    match op {
        BinaryOperator::Less
        | BinaryOperator::Greater
        | BinaryOperator::Equals
        | BinaryOperator::NotEquals
        | BinaryOperator::GreaterEqual
        | BinaryOperator::LessEqual
        | BinaryOperator::In => TypeModel::Boolean(None),
        _ => TypeModel::Unknown,
    }
}

impl SyntaxTree {
    /// The type of the expression at node `id`.
    ///
    /// A literal has the type of its kind with its own value; an integer
    /// literal too large for 64 bits keeps the kind and loses the value. An
    /// array or dictionary literal has the exact type made of the types of
    /// its parts. A comparison or membership test is a `Boolean` of unknown
    /// value; the other operators have no rules yet and give `Unknown`. A
    /// name has the declared type of the value declaration that it refers
    /// to, else the type of that declaration's initial value, else
    /// `Poisoned`; a name that refers to nothing is `Poisoned`.
    ///
    /// `hops` bounds how many names may be followed in a row from one to the
    /// initial value of the next: declarations that refer to each other in a
    /// circle end in `Poisoned` when it runs out.
    pub open spec fn spec_infer_type(&self, id: int, hops: nat) -> TypeModel
        decreases hops, id, 1int, 0int,
    {
        match self.details_of(id) {
            Any::NullLiteral(_) => TypeModel::Null,
            Any::BooleanLiteral(l) => TypeModel::Boolean(Some(l.value)),
            Any::IntLiteral(l) => TypeModel::Int(int_value(l.value_raw.bytes())),
            Any::FloatLiteral(l) => TypeModel::Float(Some(l.value_raw.bytes())),
            Any::StringLiteral(l) => TypeModel::String(Some(l.value.bytes())),
            Any::ArrayLiteral(l) => TypeModel::ExactArray {
                members: self.infer_members(l.members@, id, hops),
            },
            Any::DictionaryLiteral(l) => TypeModel::ExactDictionary {
                entries: self.infer_entries(l.entries@, id, hops),
            },
            Any::UnaryOperation(_) => TypeModel::Unknown,
            Any::BinaryOperation(o) => match self.details_of(o.op.id as int) {
                Any::BinaryOperator(op) => binary_type(op),
                _ => TypeModel::Unknown,
            },
            Any::LocalIdentifier(name) => match self.spec_resolve_symbol(id, name.name.bytes()) {
                Some(found) => match self.details_of(found) {
                    Any::ValueDeclaration(d) => match d.declared_type {
                        Some(declared) => self.spec_resolve_type(declared.id as int),
                        None => match d.value {
                            Some(value) => if hops > 0 {
                                self.spec_infer_type(value.id as int, (hops - 1) as nat)
                            } else {
                                TypeModel::Poisoned
                            },
                            None => TypeModel::Poisoned,
                        },
                    },
                    _ => TypeModel::Poisoned,
                },
                None => TypeModel::Poisoned,
            },
            _ => TypeModel::Unknown,
        }
    }

    /// The types of the members of an array literal, which node `above` holds.
    pub open spec fn infer_members(&self, members: Seq<AST<Expression>>, above: int, hops: nat) -> Seq<
        TypeModel,
    >
        decreases hops, above, 0int, members.len(),
    {
        if members.len() == 0 {
            Seq::empty()
        } else {
            self.infer_members(members.drop_last(), above, hops).push(
                if 0 <= members.last().id < above {
                    self.spec_infer_type(members.last().id as int, hops)
                } else {
                    TypeModel::Unknown
                },
            )
        }
    }

    /// The types of the entries of a dictionary literal, which node `above`
    /// holds.
    pub open spec fn infer_entries(
        &self,
        entries: Seq<(AST<Expression>, AST<Expression>)>,
        above: int,
        hops: nat,
    ) -> Seq<(TypeModel, TypeModel)>
        decreases hops, above, 0int, entries.len(),
    {
        if entries.len() == 0 {
            Seq::empty()
        } else {
            self.infer_entries(entries.drop_last(), above, hops).push(
                (
                    if 0 <= entries.last().0.id < above {
                        self.spec_infer_type(entries.last().0.id as int, hops)
                    } else {
                        TypeModel::Unknown
                    },
                    if 0 <= entries.last().1.id < above {
                        self.spec_infer_type(entries.last().1.id as int, hops)
                    } else {
                        TypeModel::Unknown
                    },
                ),
            )
        }
    }

    /// The type of the expression at node `id`, following at most `hops`
    /// names in a row.
    pub fn infer_type_at(&self, id: usize, hops: usize) -> (r: Type)
        requires
            self.wf(),
            self.has(id as int),
        ensures
            r@ == self.spec_infer_type(id as int, hops as nat),
        decreases hops, id,
    {
        assert(self.node_ok(id as int));
        match &self.nodes[id].details {
            Any::NullLiteral(_) => Type::Null,
            Any::BooleanLiteral(l) => Type::Boolean(Some(l.value)),
            Any::IntLiteral(l) => Type::Int(
                parse_int(
                    l.value_raw.full_string.as_str().as_bytes(),
                    l.value_raw.start,
                    l.value_raw.end,
                ),
            ),
            Any::FloatLiteral(l) => Type::Float(Some(l.value_raw.clone())),
            Any::StringLiteral(l) => Type::String(Some(l.value.clone())),
            Any::ArrayLiteral(l) => {
                let mut members: Vec<Type> = Vec::new();
                let mut i: usize = 0;
                proof {
                    assert forall|k: int| 0 <= k < l.members@.len() implies (
                    #[trigger] l.members@[k]).id < id by {
                        lemma_flat_names(l.members@, k, 0);
                        self.lemma_held(id as int, l.members@[k].id as int);
                    }
                }
                while i < l.members.len()
                    invariant
                        i <= l.members.len(),
                        self.wf(),
                        self.has(id as int),
                        members@.len() == i,
                        forall|k: int| 0 <= k < l.members@.len() ==> (#[trigger] l.members@[k]).id < id,
                        models_of(members@) == self.infer_members(
                            l.members@.take(i as int),
                            id as int,
                            hops as nat,
                        ),
                    decreases l.members.len() - i,
                {
                    let member = self.infer_type_at(l.members[i].id, hops);
                    let ghost before = members@;
                    members.push(member);
                    proof {
                        assert(l.members@.take(i + 1).drop_last() == l.members@.take(i as int));
                        assert(members@.drop_last() == before);
                    }
                    i += 1;
                }
                assert(l.members@.take(l.members@.len() as int) == l.members@);
                Type::ExactArray { members }
            },
            Any::DictionaryLiteral(l) => {
                let mut entries: Vec<(Type, Type)> = Vec::new();
                let mut i: usize = 0;
                proof {
                    assert forall|k: int| 0 <= k < l.entries@.len() implies (
                    #[trigger] l.entries@[k]).0.id < id && l.entries@[k].1.id < id by {
                        lemma_flat_names(l.entries@, k, 0);
                        lemma_flat_names(l.entries@, k, 1);
                        self.lemma_held(id as int, l.entries@[k].0.id as int);
                        self.lemma_held(id as int, l.entries@[k].1.id as int);
                    }
                }
                while i < l.entries.len()
                    invariant
                        i <= l.entries.len(),
                        self.wf(),
                        self.has(id as int),
                        entries@.len() == i,
                        forall|k: int|
                            0 <= k < l.entries@.len() ==> (#[trigger] l.entries@[k]).0.id < id
                                && l.entries@[k].1.id < id,
                        pair_models_of(entries@) == self.infer_entries(
                            l.entries@.take(i as int),
                            id as int,
                            hops as nat,
                        ),
                    decreases l.entries.len() - i,
                {
                    let key = self.infer_type_at(l.entries[i].0.id, hops);
                    let value = self.infer_type_at(l.entries[i].1.id, hops);
                    let ghost before = entries@;
                    entries.push((key, value));
                    proof {
                        assert(l.entries@.take(i + 1).drop_last() == l.entries@.take(i as int));
                        assert(entries@.drop_last() == before);
                    }
                    i += 1;
                }
                assert(l.entries@.take(l.entries@.len() as int) == l.entries@);
                Type::ExactDictionary { entries }
            },
            Any::UnaryOperation(_) => Type::Unknown,
            Any::BinaryOperation(o) => {
                assert((o.op.nodes() + o.left.nodes() + o.right.nodes())[0] == o.op.id);
                match &self.nodes[o.op.id].details {
                    Any::BinaryOperator(op) => match op {
                        BinaryOperator::Less
                        | BinaryOperator::Greater
                        | BinaryOperator::Equals
                        | BinaryOperator::NotEquals
                        | BinaryOperator::GreaterEqual
                        | BinaryOperator::LessEqual
                        | BinaryOperator::In => Type::Boolean(None),
                        _ => Type::Unknown,
                    },
                    _ => Type::Unknown,
                }
            },
            Any::LocalIdentifier(name) => {
                let text = name.name.full_string.as_str().as_bytes();
                let spelled = crate::utils::literal::range(text, name.name.start, name.name.end);
                match self.resolve_bytes(id, spelled) {
                    Some(found) => {
                        assert(self.node_ok(found as int));
                        match &self.nodes[found].details {
                            Any::ValueDeclaration(d) => match d.declared_type {
                                Some(declared) => self.resolve_type_at(declared.id),
                                None => match d.value {
                                    Some(value) => if hops > 0 {
                                        self.infer_type_at(value.id, hops - 1)
                                    } else {
                                        Type::Poisoned
                                    },
                                    None => Type::Poisoned,
                                },
                            },
                            _ => Type::Poisoned,
                        }
                    },
                    None => Type::Poisoned,
                }
            },
            _ => Type::Unknown,
        }
    }
}

impl SyntaxTree {
    /// Whether inferring the type at node `id` with `hops` comes to a name
    /// that it may no longer follow to its initial value.
    pub open spec fn runs_out(&self, id: int, hops: nat) -> bool
        decreases hops, id, 1int, 0int,
    {
        match self.details_of(id) {
            Any::ArrayLiteral(l) => self.members_run_out(l.members@, id, hops),
            Any::DictionaryLiteral(l) => self.entries_run_out(l.entries@, id, hops),
            Any::LocalIdentifier(name) => match self.spec_resolve_symbol(id, name.name.bytes()) {
                Some(found) => match self.details_of(found) {
                    Any::ValueDeclaration(d) => match d.declared_type {
                        Some(_) => false,
                        None => match d.value {
                            Some(value) => if hops > 0 {
                                self.runs_out(value.id as int, (hops - 1) as nat)
                            } else {
                                true
                            },
                            None => false,
                        },
                    },
                    _ => false,
                },
                None => false,
            },
            _ => false,
        }
    }

    /// Whether inferring the type of one of the members of an array
    /// literal, which node `above` holds, runs out of hops.
    pub open spec fn members_run_out(
        &self,
        members: Seq<AST<Expression>>,
        above: int,
        hops: nat,
    ) -> bool
        decreases hops, above, 0int, members.len(),
    {
        if members.len() == 0 {
            false
        } else {
            self.members_run_out(members.drop_last(), above, hops) || (0 <= members.last().id
                < above && self.runs_out(members.last().id as int, hops))
        }
    }

    /// Whether inferring the type of one of the keys or values of a
    /// dictionary literal, which node `above` holds, runs out of hops.
    pub open spec fn entries_run_out(
        &self,
        entries: Seq<(AST<Expression>, AST<Expression>)>,
        above: int,
        hops: nat,
    ) -> bool
        decreases hops, above, 0int, entries.len(),
    {
        if entries.len() == 0 {
            false
        } else {
            ||| self.entries_run_out(entries.drop_last(), above, hops)
            ||| (0 <= entries.last().0.id < above && self.runs_out(
                entries.last().0.id as int,
                hops,
            ))
            ||| (0 <= entries.last().1.id < above && self.runs_out(
                entries.last().1.id as int,
                hops,
            ))
        }
    }
}

/// Where inference does not run out of hops, it gives the same type with
/// more of them.
pub proof fn lemma_more_hops(tree: &SyntaxTree, id: int, hops: nat, more: nat)
    requires
        !tree.runs_out(id, hops),
        hops <= more,
    ensures
        tree.spec_infer_type(id, more) == tree.spec_infer_type(id, hops),
        !tree.runs_out(id, more),
    decreases hops, id, 1int, 0int,
{
    match tree.details_of(id) {
        Any::ArrayLiteral(l) => {
            lemma_more_hops_members(tree, l.members@, id, hops, more);
        },
        Any::DictionaryLiteral(l) => {
            lemma_more_hops_entries(tree, l.entries@, id, hops, more);
        },
        Any::LocalIdentifier(name) => {
            if let Some(found) = tree.spec_resolve_symbol(id, name.name.bytes()) {
                if let Any::ValueDeclaration(d) = tree.details_of(found) {
                    if d.declared_type is None {
                        if let Some(value) = d.value {
                            lemma_more_hops(
                                tree,
                                value.id as int,
                                (hops - 1) as nat,
                                (more - 1) as nat,
                            );
                        }
                    }
                }
            }
        },
        _ => {},
    }
}

/// Where inference does not run out of hops on the members of an array
/// literal, it gives the same types with more of them.
pub proof fn lemma_more_hops_members(
    tree: &SyntaxTree,
    members: Seq<AST<Expression>>,
    above: int,
    hops: nat,
    more: nat,
)
    requires
        !tree.members_run_out(members, above, hops),
        hops <= more,
    ensures
        tree.infer_members(members, above, more) == tree.infer_members(members, above, hops),
        !tree.members_run_out(members, above, more),
    decreases hops, above, 0int, members.len(),
{
    if members.len() > 0 {
        lemma_more_hops_members(tree, members.drop_last(), above, hops, more);
        if 0 <= members.last().id < above {
            lemma_more_hops(tree, members.last().id as int, hops, more);
        }
    }
}

/// Where inference does not run out of hops on the entries of a dictionary
/// literal, it gives the same types with more of them.
pub proof fn lemma_more_hops_entries(
    tree: &SyntaxTree,
    entries: Seq<(AST<Expression>, AST<Expression>)>,
    above: int,
    hops: nat,
    more: nat,
)
    requires
        !tree.entries_run_out(entries, above, hops),
        hops <= more,
    ensures
        tree.infer_entries(entries, above, more) == tree.infer_entries(entries, above, hops),
        !tree.entries_run_out(entries, above, more),
    decreases hops, above, 0int, entries.len(),
{
    if entries.len() > 0 {
        lemma_more_hops_entries(tree, entries.drop_last(), above, hops, more);
        if 0 <= entries.last().0.id < above {
            lemma_more_hops(tree, entries.last().0.id as int, hops, more);
        }
        if 0 <= entries.last().1.id < above {
            lemma_more_hops(tree, entries.last().1.id as int, hops, more);
        }
    }
}

impl SyntaxTree {
    /// The value declaration that the name at node `id` refers to; nothing
    /// where the node is no name, or the name refers to nothing or to
    /// something else.
    pub open spec fn named_value(&self, id: int) -> Option<ValueDeclaration> {
        match self.details_of(id) {
            Any::LocalIdentifier(name) => match self.spec_resolve_symbol(id, name.name.bytes()) {
                Some(found) => match self.details_of(found) {
                    Any::ValueDeclaration(d) => Some(d),
                    _ => None,
                },
                None => None,
            },
            _ => None,
        }
    }

    /// The initial value that the name at node `id` has its type from:
    /// that of the value declaration that the name refers to, where the
    /// declaration has no declared type.
    pub open spec fn followed(&self, id: int) -> Option<int> {
        match self.named_value(id) {
            Some(d) => match (d.declared_type, d.value) {
                (None, Some(value)) => Some(value.id as int),
                _ => None,
            },
            None => None,
        }
    }
}

/// A name that refers to a value declaration with a declared type has that
/// type.
pub proof fn lemma_name_has_declared_type(tree: &SyntaxTree, id: int, hops: nat)
    requires
        tree.named_value(id) matches Some(d) && d.declared_type is Some,
    ensures
        tree.spec_infer_type(id, hops) == tree.spec_resolve_type(
            tree.named_value(id)->0.declared_type->0.id as int,
        ),
{
}

/// A name that refers to a value declaration without a declared type has
/// the type of the initial value of the declaration, where the names that
/// the value leads to do not go in a circle: where inferring the type of
/// the value with one hop less does not run out.
pub proof fn lemma_name_has_type_of_value(tree: &SyntaxTree, id: int, hops: nat)
    requires
        hops > 0,
        tree.followed(id) matches Some(value) && !tree.runs_out(value, (hops - 1) as nat),
    ensures
        tree.spec_infer_type(id, hops) == tree.spec_infer_type(tree.followed(id)->0, hops),
{
    lemma_more_hops(tree, tree.followed(id)->0, (hops - 1) as nat, hops);
}

/// A name that refers to nothing has the type `Poisoned`.
pub proof fn lemma_unresolved_is_poisoned(tree: &SyntaxTree, id: int, hops: nat)
    requires
        tree.details_of(id) matches Any::LocalIdentifier(name) && tree.spec_resolve_symbol(
            id,
            name.name.bytes(),
        ) is None,
    ensures
        tree.spec_infer_type(id, hops) == TypeModel::Poisoned,
{
}

impl AST<Expression> {
    /// The type of this expression.
    pub fn infer_type<'a>(&self, tree: &SyntaxTree, ctx: InferTypeContext<'a>) -> (r: Type)
        requires
            tree.wf(),
            tree.has(self.id as int),
        ensures
            r@ == tree.spec_infer_type(self.id as int, tree@.len()),
    {
        tree.infer_type_at(self.id, tree.nodes.len())
    }
}

} // verus!

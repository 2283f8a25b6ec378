//! Walking a script and reporting what is wrong with it.

use vstd::prelude::*;
use crate::gdscript::ast::{names, Any, ModuleID, SyntaxTree, AST};
use crate::gdscript::gd_type::TypeModel;
use crate::gdscript::kinds::Kind;
use crate::godot_project::GodotProject;
use crate::utils::errors::GDError;

verus! {

#[derive(Clone, Copy, Debug)]
pub struct CheckContext<'a> {
    pub module_id: &'a ModuleID,
    pub godot_project: &'a GodotProject,
}

/// What can be checked.
pub trait Checkable {
    /// The nodes at which checking `self` finds a value that cannot be
    /// assigned, in the order in which it finds them.
    spec fn faults(&self, tree: &SyntaxTree) -> Seq<int>;

    /// Everything that checking may look at is in place.
    spec fn checkable(&self, tree: &SyntaxTree) -> bool;

    /// Checks `self` and all that lies below it, and appends one diagnostic
    /// to `errors` for each fault, in order.
    fn check<'a>(&self, tree: &SyntaxTree, ctx: CheckContext<'a>, errors: &mut Vec<GDError>)
        requires
            tree.wf(),
            self.checkable(tree),
        ensures
            reported(tree, *ctx.module_id, old(errors)@, final(errors)@, self.faults(tree)),
    ;
}

/// The text of the one diagnostic there is so far.
pub open spec fn cannot_assign() -> Seq<char> {
    "Can't assign!"@
}

/// `after` is `before` followed by one diagnostic for each of `faults`, in
/// order: a check error for the given module at the span of the faulty
/// node.
pub open spec fn reported(
    tree: &SyntaxTree,
    module_id: ModuleID,
    before: Seq<GDError>,
    after: Seq<GDError>,
    faults: Seq<int>,
) -> bool {
    &&& after.len() == before.len() + faults.len()
    &&& forall|i: int| 0 <= i < before.len() ==> after[i] == before[i]
    &&& forall|i: int|
        0 <= i < faults.len() ==> match #[trigger] after[before.len() + i] {
            GDError::CheckError { module_id: m, src, message } => m == module_id && src == Some(
                tree.span_of(faults[i]),
            ) && message@ == cannot_assign(),
            _ => false,
        }
}

/// Reporting one run of faults and then another reports the two runs, one
/// after the other.
pub proof fn lemma_reported_then(
    tree: &SyntaxTree,
    module_id: ModuleID,
    before: Seq<GDError>,
    between: Seq<GDError>,
    after: Seq<GDError>,
    first: Seq<int>,
    second: Seq<int>,
)
    requires
        reported(tree, module_id, before, between, first),
        reported(tree, module_id, between, after, second),
    ensures
        reported(tree, module_id, before, after, first + second),
{
    assert forall|i: int| 0 <= i < (first + second).len() implies match #[trigger] after[before.len()
        + i] {
        GDError::CheckError { module_id: m, src, message } => m == module_id && src == Some(
            tree.span_of((first + second)[i]),
        ) && message@ == cannot_assign(),
        _ => false,
    } by {
        if i < first.len() {
            assert(after[before.len() + i] == between[before.len() + i]);
        } else {
            assert(after[between.len() + (i - first.len())] == after[before.len() + i]);
        }
    }
}

impl SyntaxTree {
    /// The fault of node `id` itself: a value declaration with both a
    /// declared type and an initial value is at fault, at that value, when
    /// the declared type does not subsume the type of the value. Nothing is
    /// held against a value whose type is `Poisoned`: what is wrong with it
    /// has been said where it went wrong.
    pub open spec fn own_fault(&self, id: int) -> Seq<int> {
        match self.details_of(id) {
            Any::ValueDeclaration(d) => match (d.declared_type, d.value) {
                (Some(declared), Some(value)) => {
                    let wanted = self.spec_resolve_type(declared.id as int);
                    let given = self.spec_infer_type(value.id as int, self@.len());
                    if given != TypeModel::Poisoned && wanted != given {
                        seq![value.id as int]
                    } else {
                        Seq::empty()
                    }
                },
                _ => Seq::empty(),
            },
            _ => Seq::empty(),
        }
    }

    /// The faults of node `id` and of all that lies below it: first those of
    /// the nodes that it holds, in order, then its own.
    pub open spec fn spec_faults(&self, id: int) -> Seq<int>
        decreases id, 1int, 0int,
    {
        self.faults_of(self.details_of(id).children(), id) + self.own_fault(id)
    }

    /// The faults of the nodes `held`, which node `above` holds.
    pub open spec fn faults_of(&self, held: Seq<usize>, above: int) -> Seq<int>
        decreases above, 0int, held.len(),
    {
        if held.len() == 0 {
            Seq::empty()
        } else {
            self.faults_of(held.drop_last(), above) + if held.last() < above {
                self.spec_faults(held.last() as int)
            } else {
                Seq::empty()
            }
        }
    }

    /// The faults of a list of nodes, none below another.
    pub open spec fn faults_of_all(&self, ids: Seq<usize>) -> Seq<int>
        decreases ids.len(),
    {
        if ids.len() == 0 {
            Seq::empty()
        } else {
            self.faults_of_all(ids.drop_last()) + self.spec_faults(ids.last() as int)
        }
    }

    /// Checks node `id` and all that lies below it.
    pub fn check_node<'a>(&self, id: usize, ctx: CheckContext<'a>, errors: &mut Vec<GDError>)
        requires
            self.wf(),
            self.has(id as int),
        ensures
            reported(self, *ctx.module_id, old(errors)@, final(errors)@, self.spec_faults(id as int)),
        decreases id,
    {
        let held = self.nodes[id].details.child_ids();
        let ghost start = errors@;
        let mut k: usize = 0;
        while k < held.len()
            invariant
                k <= held.len(),
                self.wf(),
                self.has(id as int),
                held@ == self.details_of(id as int).children(),
                reported(
                    self,
                    *ctx.module_id,
                    start,
                    errors@,
                    self.faults_of(held@.take(k as int), id as int),
                ),
            decreases held.len() - k,
        {
            proof {
                assert(names(held@, held@[k as int] as int));
                self.lemma_held(id as int, held@[k as int] as int);
                assert(held@.take(k + 1).drop_last() == held@.take(k as int));
            }
            let ghost before = errors@;
            self.check_node(held[k], ctx, errors);
            proof {
                lemma_reported_then(
                    self,
                    *ctx.module_id,
                    start,
                    before,
                    errors@,
                    self.faults_of(held@.take(k as int), id as int),
                    self.spec_faults(held@[k as int] as int),
                );
            }
            k += 1;
        }
        assert(held@.take(held@.len() as int) == held@);
        assert(self.node_ok(id as int));
        let ghost walked = errors@;
        match &self.nodes[id].details {
            Any::ValueDeclaration(d) => {
                if let (Some(declared), Some(value)) = (d.declared_type, d.value) {
                    let wanted = self.resolve_type_at(declared.id);
                    let given = self.infer_type_at(value.id, self.nodes.len());
                    let poisoned = match given {
                        crate::gdscript::gd_type::Type::Poisoned => true,
                        _ => false,
                    };
                    if !poisoned && !wanted.subsumes(&given) {
                        errors.push(
                            GDError::CheckError {
                                module_id: ctx.module_id.clone(),
                                src: Some(self.nodes[value.id].slice.clone()),
                                message: "Can't assign!".to_owned(),
                            },
                        );
                    }
                }
            },
            _ => {},
        }
        proof {
            assert(reported(self, *ctx.module_id, walked, errors@, self.own_fault(id as int)));
            lemma_reported_then(
                self,
                *ctx.module_id,
                start,
                walked,
                errors@,
                self.faults_of(held@, id as int),
                self.own_fault(id as int),
            );
        }
    }
}

impl<TKind: Kind> Checkable for AST<TKind> {
    open spec fn faults(&self, tree: &SyntaxTree) -> Seq<int> {
        tree.spec_faults(self.id as int)
    }

    open spec fn checkable(&self, tree: &SyntaxTree) -> bool {
        tree.has(self.id as int)
    }

    fn check<'a>(&self, tree: &SyntaxTree, ctx: CheckContext<'a>, errors: &mut Vec<GDError>) {
        tree.check_node(self.id, ctx, errors);
    }
}

impl<T: Checkable> Checkable for Option<T> {
    open spec fn faults(&self, tree: &SyntaxTree) -> Seq<int> {
        match self {
            Some(held) => held.faults(tree),
            None => Seq::empty(),
        }
    }

    open spec fn checkable(&self, tree: &SyntaxTree) -> bool {
        match self {
            Some(held) => held.checkable(tree),
            None => true,
        }
    }

    fn check<'a>(&self, tree: &SyntaxTree, ctx: CheckContext<'a>, errors: &mut Vec<GDError>) {
        if let Some(held) = self {
            held.check(tree, ctx, errors);
        }
    }
}

/// The faults of the items of a list, item after item.
pub open spec fn faults_in<T: Checkable>(items: Seq<T>, tree: &SyntaxTree) -> Seq<int>
    decreases items.len(),
{
    if items.len() == 0 {
        Seq::empty()
    } else {
        faults_in(items.drop_last(), tree) + items.last().faults(tree)
    }
}

impl<T: Checkable> Checkable for Vec<T> {
    open spec fn faults(&self, tree: &SyntaxTree) -> Seq<int> {
        faults_in(self@, tree)
    }

    open spec fn checkable(&self, tree: &SyntaxTree) -> bool {
        forall|i: int| 0 <= i < self@.len() ==> (#[trigger] self@[i]).checkable(tree)
    }

    fn check<'a>(&self, tree: &SyntaxTree, ctx: CheckContext<'a>, errors: &mut Vec<GDError>) {
        let ghost start = errors@;
        let mut i: usize = 0;
        while i < self.len()
            invariant
                i <= self.len(),
                tree.wf(),
                self.checkable(tree),
                reported(tree, *ctx.module_id, start, errors@, faults_in(self@.take(i as int), tree)),
            decreases self.len() - i,
        {
            assert(self@.take(i + 1).drop_last() == self@.take(i as int));
            let ghost before = errors@;
            self[i].check(tree, ctx, errors);
            proof {
                lemma_reported_then(
                    tree,
                    *ctx.module_id,
                    start,
                    before,
                    errors@,
                    faults_in(self@.take(i as int), tree),
                    self@[i as int].faults(tree),
                );
            }
            i += 1;
        }
        assert(self@.take(self@.len() as int) == self@);
    }
}

impl<T: Checkable, U: Checkable> Checkable for (T, U) {
    open spec fn faults(&self, tree: &SyntaxTree) -> Seq<int> {
        self.0.faults(tree) + self.1.faults(tree)
    }

    open spec fn checkable(&self, tree: &SyntaxTree) -> bool {
        self.0.checkable(tree) && self.1.checkable(tree)
    }

    fn check<'a>(&self, tree: &SyntaxTree, ctx: CheckContext<'a>, errors: &mut Vec<GDError>) {
        self.0.check(tree, ctx, errors);
        let ghost between = errors@;
        self.1.check(tree, ctx, errors);
        proof {
            lemma_reported_then(
                tree,
                *ctx.module_id,
                old(errors)@,
                between,
                errors@,
                self.0.faults(tree),
                self.1.faults(tree),
            );
        }
    }
}

} // verus!

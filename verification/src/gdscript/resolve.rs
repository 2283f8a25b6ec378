//! Finding the declaration that a name refers to.

use vstd::prelude::*;
use vstd::string::*;
use crate::gdscript::ast::{Any, ASTAny, SyntaxTree, AST};
use crate::gdscript::kinds::Kind;
use crate::utils::slice::{range_of, ranges_equal};

verus! {

/// The nodes that a list of handles names, in order.
pub open spec fn ids_of<K>(handles: Seq<AST<K>>) -> Seq<usize> {
    Seq::new(handles.len(), |i: int| handles[i].id)
}

impl SyntaxTree {
    /// The name that an identifier node spells; nothing for another node.
    pub open spec fn ident_text(&self, id: int) -> Seq<u8> {
        match self.details_of(id) {
            Any::PlainIdentifier(named) => named.name.bytes(),
            _ => Seq::empty(),
        }
    }

    /// Whether node `id` declares `name`: a value declaration does, and at
    /// the top level of a script a function declaration does too.
    pub open spec fn declares(&self, id: int, name: Seq<u8>, module_scope: bool) -> bool {
        match self.details_of(id) {
            Any::ValueDeclaration(d) => self.ident_text(d.name.id as int) == name,
            Any::FuncDeclaration(d) => module_scope && self.ident_text(d.name.id as int) == name,
            _ => false,
        }
    }

    /// The first of `items` that declares `name`.
    pub open spec fn first_declaring(
        &self,
        items: Seq<usize>,
        name: Seq<u8>,
        module_scope: bool,
    ) -> Option<int>
        decreases items.len(),
    {
        if items.len() == 0 {
            None
        } else if self.declares(items[0] as int, name, module_scope) {
            Some(items[0] as int)
        } else {
            self.first_declaring(items.drop_first(), name, module_scope)
        }
    }

    /// The declaration of `name` that the scope `scope` holds directly: a
    /// script holds its top-level declarations, a block its statements, and
    /// no other node is a scope. Among several the first in the list wins,
    /// wherever the name is used.
    pub open spec fn scope_lookup(&self, scope: int, name: Seq<u8>) -> Option<int> {
        match self.details_of(scope) {
            Any::GDScript(script) => self.first_declaring(
                ids_of(script.declarations@),
                name,
                true,
            ),
            Any::Block(block) => self.first_declaring(ids_of(block.statements@), name, false),
            _ => None,
        }
    }

    /// The declaration that `name` refers to where node `id` stands: that of
    /// the nearest scope around `id` that declares the name.
    pub open spec fn spec_resolve_symbol(&self, id: int, name: Seq<u8>) -> Option<int>
        decreases self@.len() - id,
    {
        match self.parent_of(id) {
            None => None,
            Some(p) => if id < p {
                match self.scope_lookup(p, name) {
                    Some(found) => Some(found),
                    None => self.spec_resolve_symbol(p, name),
                }
            } else {
                None
            },
        }
    }

    /// Whether the identifier node `id` spells `name`.
    fn ident_is(&self, id: usize, name: &[u8]) -> (r: bool)
        requires
            self.has(id as int),
        ensures
            r == (self.ident_text(id as int) == name@),
    {
        assert(range_of(name@, 0, name@.len() as int) =~= name@);
        assert(name@.len() == 0 ==> name@ =~= Seq::<u8>::empty());
        match &self.nodes[id].details {
            Any::PlainIdentifier(named) => ranges_equal(
                named.name.full_string.as_str().as_bytes(),
                named.name.start,
                named.name.end,
                name,
                0,
                name.len(),
            ),
            _ => name.len() == 0,
        }
    }

    /// Whether node `id` declares `name`.
    fn node_declares(&self, id: usize, name: &[u8], module_scope: bool) -> (r: bool)
        requires
            self.wf(),
            self.has(id as int),
        ensures
            r == self.declares(id as int, name@, module_scope),
    {
        assert(self.node_ok(id as int));
        match &self.nodes[id].details {
            Any::ValueDeclaration(d) => self.ident_is(d.name.id, name),
            Any::FuncDeclaration(d) => module_scope && self.ident_is(d.name.id, name),
            _ => false,
        }
    }

    /// The first node that `items` names that declares `name`.
    fn find_declaring<K: Kind>(&self, items: &Vec<AST<K>>, name: &[u8], module_scope: bool) -> (r:
        Option<usize>)
        requires
            self.wf(),
            forall|i: int| 0 <= i < items@.len() ==> self.has((#[trigger] items@[i]).id as int),
        ensures
            match r {
                Some(found) => self.first_declaring(ids_of(items@), name@, module_scope) == Some(
                    found as int,
                ),
                None => self.first_declaring(ids_of(items@), name@, module_scope) is None,
            },
    {
        let ghost all = ids_of(items@);
        assert(all.skip(0) =~= all);
        let mut i: usize = 0;
        while i < items.len()
            invariant
                i <= items.len(),
                self.wf(),
                all == ids_of(items@),
                forall|k: int| 0 <= k < items@.len() ==> self.has((#[trigger] items@[k]).id as int),
                self.first_declaring(all, name@, module_scope) == self.first_declaring(
                    all.skip(i as int),
                    name@,
                    module_scope,
                ),
            decreases items.len() - i,
        {
            let id = items[i].id;
            assert(all.skip(i as int)[0] == id);
            assert(all.skip(i as int).drop_first() == all.skip(i + 1));
            if self.node_declares(id, name, module_scope) {
                return Some(id);
            }
            i += 1;
        }
        None
    }

    /// The declaration of `name` that the scope `scope` holds directly.
    fn lookup_in_scope(&self, scope: usize, name: &[u8]) -> (r: Option<usize>)
        requires
            self.wf(),
            self.has(scope as int),
        ensures
            match r {
                Some(found) => self.scope_lookup(scope as int, name@) == Some(found as int)
                    && self.has(found as int),
                None => self.scope_lookup(scope as int, name@) is None,
            },
    {
        assert(self.node_ok(scope as int));
        match &self.nodes[scope].details {
            Any::GDScript(script) => {
                let found = self.find_declaring(&script.declarations, name, true);
                proof {
                    self.lemma_first_declaring_in(ids_of(script.declarations@), name@, true);
                }
                found
            },
            Any::Block(block) => {
                let found = self.find_declaring(&block.statements, name, false);
                proof {
                    self.lemma_first_declaring_in(ids_of(block.statements@), name@, false);
                }
                found
            },
            _ => None,
        }
    }

    /// What `first_declaring` finds is one of the items.
    pub proof fn lemma_first_declaring_in(
        &self,
        items: Seq<usize>,
        name: Seq<u8>,
        module_scope: bool,
    )
        ensures
            self.first_declaring(items, name, module_scope) matches Some(found) ==> exists|k: int|
                0 <= k < items.len() && #[trigger] items[k] == found,
        decreases items.len(),
    {
        if items.len() > 0 && !self.declares(items[0] as int, name, module_scope) {
            self.lemma_first_declaring_in(items.drop_first(), name, module_scope);
            if let Some(found) = self.first_declaring(items, name, module_scope) {
                let k = choose|k: int|
                    0 <= k < items.drop_first().len() && #[trigger] items.drop_first()[k] == found;
                assert(items[k + 1] == found);
            }
        } else if items.len() > 0 {
            let found = self.first_declaring(items, name, module_scope)->0;
            assert(items[0] == found);
        }
    }

    /// The declaration that the name spelled by `name` refers to where node
    /// `id` stands.
    pub fn resolve_bytes(&self, id: usize, name: &[u8]) -> (r: Option<usize>)
        requires
            self.wf(),
            self.has(id as int),
        ensures
            match r {
                Some(found) => self.spec_resolve_symbol(id as int, name@) == Some(found as int)
                    && self.has(found as int),
                None => self.spec_resolve_symbol(id as int, name@) is None,
            },
    {
        let mut current = id;
        loop
            invariant
                self.wf(),
                self.has(current as int),
                self.spec_resolve_symbol(id as int, name@) == self.spec_resolve_symbol(
                    current as int,
                    name@,
                ),
            decreases self@.len() - current,
        {
            assert(self.node_ok(current as int));
            match self.nodes[current].parent {
                None => {
                    return None;
                },
                Some(p) => {
                    if let Some(found) = self.lookup_in_scope(p, name) {
                        return Some(found);
                    }
                    current = p;
                },
            }
        }
    }
}

/// Of the scopes around a node, the nearest that declares a name decides
/// what the name refers to at the node.
pub proof fn lemma_nearest_scope_wins(tree: &SyntaxTree, id: int, scope: int, name: Seq<u8>)
    requires
        tree.wf(),
        tree.has(id),
        tree.reaches(scope, id),
        scope != id,
        tree.scope_lookup(scope, name) is Some,
        forall|n: int|
            tree.reaches(n, id) && tree.reaches(scope, n) && n != scope && n != id
                ==> tree.scope_lookup(n, name) is None,
    ensures
        tree.spec_resolve_symbol(id, name) == tree.scope_lookup(scope, name),
    decreases tree@.len() - id,
{
    let p = tree.parent_of(id)->0;
    assert(tree.node_ok(id));
    if p != scope {
        assert(tree.reaches(p, p));
        assert(tree.reaches(p, id));
        assert forall|n: int|
            tree.reaches(n, p) && tree.reaches(scope, n) && n != scope && n != p
                implies tree.scope_lookup(n, name) is None by {
            crate::gdscript::ast::lemma_reaches_up(tree, n, p);
        }
        lemma_nearest_scope_wins(tree, p, scope, name);
    }
}

/// A name that no scope around a node declares refers to nothing there.
pub proof fn lemma_undeclared_is_unresolved(tree: &SyntaxTree, id: int, name: Seq<u8>)
    requires
        tree.wf(),
        tree.has(id),
        forall|n: int| tree.reaches(n, id) && n != id ==> tree.scope_lookup(n, name) is None,
    ensures
        tree.spec_resolve_symbol(id, name) is None,
    decreases tree@.len() - id,
{
    assert(tree.node_ok(id));
    if let Some(p) = tree.parent_of(id) {
        assert(tree.reaches(p, p));
        assert(tree.reaches(p, id));
        assert(tree.scope_lookup(p, name) is None);
        assert forall|n: int| tree.reaches(n, p) && n != p implies tree.scope_lookup(n, name)
            is None by {
            crate::gdscript::ast::lemma_reaches_up(tree, n, p);
            assert(tree.reaches(n, id));
        }
        lemma_undeclared_is_unresolved(tree, p, name);
    }
}

impl<TKind: Kind> AST<TKind> {
    /// The declaration that `symbol` refers to where this node stands:
    /// going up from the node, the first declaration of that name in the
    /// nearest block or script that has one. Nothing when no scope around
    /// the node declares the name.
    pub fn resolve_symbol(&self, tree: &SyntaxTree, symbol: &str) -> (r: Option<ASTAny>)
        requires
            tree.wf(),
            tree.has(self.id as int),
        ensures
            match r {
                Some(found) => tree.spec_resolve_symbol(self.id as int, symbol.spec_bytes())
                    == Some(found.id as int) && tree.has(found.id as int),
                None => tree.spec_resolve_symbol(self.id as int, symbol.spec_bytes()) is None,
            },
    {
        match tree.resolve_bytes(self.id, symbol.as_bytes()) {
            Some(found) => Some(AST::at(found)),
            None => None,
        }
    }
}

} // verus!

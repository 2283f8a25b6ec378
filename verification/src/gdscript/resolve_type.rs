//! From a type as it is written to the type that it names.

use std::rc::Rc;
use vstd::prelude::*;
use vstd::std_specs::convert::FromSpecImpl;
use crate::gdscript::ast::{lemma_flat_names, Any, Parentable, SyntaxTree, TypeExpression, AST};
use crate::gdscript::check::CheckContext;
use crate::gdscript::gd_type::{pair_models_of, Type, TypeModel};
use crate::gdscript::infer_type::InferTypeContext;
use crate::godot_project::GodotProject;

verus! {

#[derive(Clone, Copy, Debug)]
pub struct ResolveContext<'a> {
    pub godot_project: &'a GodotProject,
}

/// The part of a check's context that resolving needs.
impl<'a> From<CheckContext<'a>> for ResolveContext<'a> {
    fn from(ctx: CheckContext<'a>) -> (r: Self) {
        Self { godot_project: ctx.godot_project }
    }
}

impl<'a> FromSpecImpl<CheckContext<'a>> for ResolveContext<'a> {
    open spec fn obeys_from_spec() -> bool {
        true
    }

    open spec fn from_spec(ctx: CheckContext<'a>) -> Self {
        ResolveContext { godot_project: ctx.godot_project }
    }
}

/// The part of an inference's context that resolving needs.
impl<'a> From<InferTypeContext<'a>> for ResolveContext<'a> {
    fn from(ctx: InferTypeContext<'a>) -> (r: Self) {
        Self { godot_project: ctx.godot_project }
    }
}

impl<'a> FromSpecImpl<InferTypeContext<'a>> for ResolveContext<'a> {
    open spec fn obeys_from_spec() -> bool {
        true
    }

    open spec fn from_spec(ctx: InferTypeContext<'a>) -> Self {
        ResolveContext { godot_project: ctx.godot_project }
    }
}

impl SyntaxTree {
    /// The type that the type expression at node `id` names. Each keyword
    /// names its own type; `NonNull`, `Array`, `Dictionary` and the exact
    /// dictionary type name the types that they are built from. A class named
    /// by the user is not looked up and `StringName` has no type of its own
    /// yet: both give `Unknown`, as does a node that is no type expression.
    pub open spec fn spec_resolve_type(&self, id: int) -> TypeModel
        decreases id, 1int, 0int,
    {
        match self.details_of(id) {
            Any::NullType(_) => TypeModel::Null,
            Any::BooleanType(_) => TypeModel::Boolean(None),
            Any::IntType(_) => TypeModel::Int(None),
            Any::FloatType(_) => TypeModel::Float(None),
            Any::StringType(_) => TypeModel::String(None),
            Any::Vector2Type(_) => TypeModel::Vector2,
            Any::Vector2iType(_) => TypeModel::Vector2i,
            Any::Vector3Type(_) => TypeModel::Vector3,
            Any::Vector3iType(_) => TypeModel::Vector3i,
            Any::Transform2DType(_) => TypeModel::Transform2D,
            Any::PlaneType(_) => TypeModel::Plane,
            Any::AABBType(_) => TypeModel::AABB,
            Any::BasisType(_) => TypeModel::Basis,
            Any::Transform3DType(_) => TypeModel::Transform3D,
            Any::ColorType(_) => TypeModel::Color,
            Any::NodePathType(_) => TypeModel::NodePath,
            Any::RIDType(_) => TypeModel::RID,
            Any::ObjectType(_) => TypeModel::Object,
            Any::NonNullType(t) => TypeModel::NonNull {
                inner: Box::new(self.resolve_below(t.inner.id as int, id)),
            },
            Any::ArrayType(t) => TypeModel::Array {
                element: Box::new(self.resolve_below(t.element.id as int, id)),
            },
            Any::DictionaryType(t) => TypeModel::Dictionary {
                key: Box::new(self.resolve_below(t.key.id as int, id)),
                value: Box::new(self.resolve_below(t.value.id as int, id)),
            },
            Any::ExactDictionaryType(t) => TypeModel::ExactDictionary {
                entries: self.resolve_entries(t.entries@, id),
            },
            _ => TypeModel::Unknown,
        }
    }

    /// The type named at node `id`, a node held by the node `above`.
    pub open spec fn resolve_below(&self, id: int, above: int) -> TypeModel
        decreases above, 0int, 0int,
    {
        if 0 <= id < above {
            self.spec_resolve_type(id)
        } else {
            TypeModel::Unknown
        }
    }

    /// The types named by the entries of an exact dictionary type, which
    /// node `above` holds.
    pub open spec fn resolve_entries(
        &self,
        entries: Seq<(AST<TypeExpression>, AST<TypeExpression>)>,
        above: int,
    ) -> Seq<(TypeModel, TypeModel)>
        decreases above, 0int, entries.len(),
    {
        if entries.len() == 0 {
            Seq::empty()
        } else {
            self.resolve_entries(entries.drop_last(), above).push(
                (
                    if 0 <= entries.last().0.id < above {
                        self.spec_resolve_type(entries.last().0.id as int)
                    } else {
                        TypeModel::Unknown
                    },
                    if 0 <= entries.last().1.id < above {
                        self.spec_resolve_type(entries.last().1.id as int)
                    } else {
                        TypeModel::Unknown
                    },
                ),
            )
        }
    }

    /// The type that the type expression at node `id` names.
    pub fn resolve_type_at(&self, id: usize) -> (r: Type)
        requires
            self.wf(),
            self.has(id as int),
        ensures
            r@ == self.spec_resolve_type(id as int),
        decreases id,
    {
        assert(self.node_ok(id as int));
        match &self.nodes[id].details {
            Any::NullType(_) => Type::Null,
            Any::BooleanType(_) => Type::Boolean(None),
            Any::IntType(_) => Type::Int(None),
            Any::FloatType(_) => Type::Float(None),
            Any::StringType(_) => Type::String(None),
            Any::Vector2Type(_) => Type::Vector2,
            Any::Vector2iType(_) => Type::Vector2i,
            Any::Vector3Type(_) => Type::Vector3,
            Any::Vector3iType(_) => Type::Vector3i,
            Any::Transform2DType(_) => Type::Transform2D,
            Any::PlaneType(_) => Type::Plane,
            Any::AABBType(_) => Type::AABB,
            Any::BasisType(_) => Type::Basis,
            Any::Transform3DType(_) => Type::Transform3D,
            Any::ColorType(_) => Type::Color,
            Any::NodePathType(_) => Type::NodePath,
            Any::RIDType(_) => Type::RID,
            Any::ObjectType(_) => Type::Object,
            Any::NonNullType(t) => {
                assert(t.inner.nodes()[0] == t.inner.id);
                Type::NonNull { inner: Rc::new(self.resolve_type_at(t.inner.id)) }
            },
            Any::ArrayType(t) => {
                assert(t.element.nodes()[0] == t.element.id);
                Type::Array { element: Rc::new(self.resolve_type_at(t.element.id)) }
            },
            Any::DictionaryType(t) => {
                assert((t.key.nodes() + t.value.nodes())[0] == t.key.id);
                assert((t.key.nodes() + t.value.nodes())[1] == t.value.id);
                Type::Dictionary {
                    key: Rc::new(self.resolve_type_at(t.key.id)),
                    value: Rc::new(self.resolve_type_at(t.value.id)),
                }
            },
            Any::ExactDictionaryType(t) => {
                let mut entries: Vec<(Type, Type)> = Vec::new();
                let mut i: usize = 0;
                proof {
                    assert forall|k: int| 0 <= k < t.entries@.len() implies (
                    #[trigger] t.entries@[k]).0.id < id && t.entries@[k].1.id < id by {
                        lemma_flat_names(t.entries@, k, 0);
                        lemma_flat_names(t.entries@, k, 1);
                        self.lemma_held(id as int, t.entries@[k].0.id as int);
                        self.lemma_held(id as int, t.entries@[k].1.id as int);
                    }
                }
                while i < t.entries.len()
                    invariant
                        i <= t.entries.len(),
                        self.wf(),
                        self.has(id as int),
                        entries@.len() == i,
                        forall|k: int|
                            0 <= k < t.entries@.len() ==> (#[trigger] t.entries@[k]).0.id < id
                                && t.entries@[k].1.id < id,
                        pair_models_of(entries@) == self.resolve_entries(
                            t.entries@.take(i as int),
                            id as int,
                        ),
                    decreases t.entries.len() - i,
                {
                    let key = self.resolve_type_at(t.entries[i].0.id);
                    let value = self.resolve_type_at(t.entries[i].1.id);
                    let ghost before = entries@;
                    entries.push((key, value));
                    proof {
                        assert(t.entries@.take(i + 1).drop_last() == t.entries@.take(i as int));
                        assert(entries@.drop_last() == before);
                    }
                    i += 1;
                }
                assert(t.entries@.take(t.entries@.len() as int) == t.entries@);
                Type::ExactDictionary { entries }
            },
            _ => Type::Unknown,
        }
    }
}

impl AST<TypeExpression> {
    /// The type that this type expression names.
    pub fn resolve_type<'a>(&self, tree: &SyntaxTree, ctx: ResolveContext<'a>) -> (r: Type)
        requires
            tree.wf(),
            tree.has(self.id as int),
        ensures
            r@ == tree.spec_resolve_type(self.id as int),
    {
        tree.resolve_type_at(self.id)
    }
}

} // verus!

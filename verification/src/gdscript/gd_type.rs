//! The types that expressions can have.

use std::rc::Rc;
use vstd::prelude::*;
use crate::utils::slice::{share, Slice};

verus! {

/// The type of a value.
///
/// `Boolean`, `Int`, `Float` and `String` may carry the value of the literal
/// that they come from. A `Float` carries the literal as it is written, so
/// two spellings of one number are two different literal types.
#[derive(Debug, PartialEq)]
pub enum Type {
    Null,
    Boolean(Option<bool>),
    Int(Option<i64>),
    Float(Option<Slice>),
    String(Option<Slice>),
    Vector2,
    Vector2i,
    Vector3,
    Vector3i,
    Transform2D,
    Plane,
    AABB,
    Basis,
    Transform3D,
    Color,
    NodePath,
    RID,
    Object,
    NonNull { inner: Rc<Type> },
    Array { element: Rc<Type> },
    Dictionary { key: Rc<Type>, value: Rc<Type> },
    /// The type of one dictionary literal: the types of its entries, in order.
    ExactDictionary { entries: Vec<(Type, Type)> },
    /// The type of one array literal: the types of its members, in order.
    ExactArray { members: Vec<Type> },
    Unknown,
    /// The type of something that is already known to be wrong, so that
    /// nothing more is reported about it.
    Poisoned,
    Any,
}

/// A type as a mathematical value: text as its bytes, lists as sequences.
pub enum TypeModel {
    Null,
    Boolean(Option<bool>),
    Int(Option<i64>),
    Float(Option<Seq<u8>>),
    String(Option<Seq<u8>>),
    Vector2,
    Vector2i,
    Vector3,
    Vector3i,
    Transform2D,
    Plane,
    AABB,
    Basis,
    Transform3D,
    Color,
    NodePath,
    RID,
    Object,
    NonNull { inner: Box<TypeModel> },
    Array { element: Box<TypeModel> },
    Dictionary { key: Box<TypeModel>, value: Box<TypeModel> },
    ExactDictionary { entries: Seq<(TypeModel, TypeModel)> },
    ExactArray { members: Seq<TypeModel> },
    Unknown,
    Poisoned,
    Any,
}

/// The bytes of an optional piece of text.
pub open spec fn text_of(text: Option<Slice>) -> Option<Seq<u8>> {
    match text {
        Some(slice) => Some(slice.bytes()),
        None => None,
    }
}

/// What a type is as a mathematical value.
pub open spec fn model_of(t: Type) -> TypeModel
    decreases t,
{
    match t {
        Type::Null => TypeModel::Null,
        Type::Boolean(v) => TypeModel::Boolean(v),
        Type::Int(v) => TypeModel::Int(v),
        Type::Float(v) => TypeModel::Float(text_of(v)),
        Type::String(v) => TypeModel::String(text_of(v)),
        Type::Vector2 => TypeModel::Vector2,
        Type::Vector2i => TypeModel::Vector2i,
        Type::Vector3 => TypeModel::Vector3,
        Type::Vector3i => TypeModel::Vector3i,
        Type::Transform2D => TypeModel::Transform2D,
        Type::Plane => TypeModel::Plane,
        Type::AABB => TypeModel::AABB,
        Type::Basis => TypeModel::Basis,
        Type::Transform3D => TypeModel::Transform3D,
        Type::Color => TypeModel::Color,
        Type::NodePath => TypeModel::NodePath,
        Type::RID => TypeModel::RID,
        Type::Object => TypeModel::Object,
        Type::NonNull { inner } => TypeModel::NonNull { inner: Box::new(model_of(*inner)) },
        Type::Array { element } => TypeModel::Array { element: Box::new(model_of(*element)) },
        Type::Dictionary { key, value } => TypeModel::Dictionary {
            key: Box::new(model_of(*key)),
            value: Box::new(model_of(*value)),
        },
        Type::ExactDictionary { entries } => TypeModel::ExactDictionary {
            entries: pair_models_of(entries@),
        },
        Type::ExactArray { members } => TypeModel::ExactArray { members: models_of(members@) },
        Type::Unknown => TypeModel::Unknown,
        Type::Poisoned => TypeModel::Poisoned,
        Type::Any => TypeModel::Any,
    }
}

/// The types of a list, each as a mathematical value.
pub open spec fn models_of(types: Seq<Type>) -> Seq<TypeModel>
    decreases types,
{
    if types.len() == 0 {
        Seq::empty()
    } else {
        models_of(types.drop_last()).push(model_of(types.last()))
    }
}

/// The pairs of types of a list, each as a pair of mathematical values.
pub open spec fn pair_models_of(pairs: Seq<(Type, Type)>) -> Seq<(TypeModel, TypeModel)>
    decreases pairs,
{
    if pairs.len() == 0 {
        Seq::empty()
    } else {
        pair_models_of(pairs.drop_last()).push(
            (model_of(pairs.last().0), model_of(pairs.last().1)),
        )
    }
}

/// `models_of` goes item by item.
pub proof fn lemma_models_of(types: Seq<Type>)
    ensures
        models_of(types).len() == types.len(),
        forall|i: int| 0 <= i < types.len() ==> (#[trigger] models_of(types)[i]) == model_of(types[i]),
    decreases types.len(),
{
    if types.len() > 0 {
        lemma_models_of(types.drop_last());
    }
}

/// `pair_models_of` goes item by item.
pub proof fn lemma_pair_models_of(pairs: Seq<(Type, Type)>)
    ensures
        pair_models_of(pairs).len() == pairs.len(),
        forall|i: int|
            0 <= i < pairs.len() ==> (#[trigger] pair_models_of(pairs)[i]) == (
                model_of(pairs[i].0),
                model_of(pairs[i].1),
            ),
    decreases pairs.len(),
{
    if pairs.len() > 0 {
        lemma_pair_models_of(pairs.drop_last());
    }
}

impl View for Type {
    type V = TypeModel;

    open spec fn view(&self) -> TypeModel {
        model_of(*self)
    }
}

impl Clone for Type {
    fn clone(&self) -> (r: Self)
        ensures
            r@ == self@,
        decreases self,
    {
        match self {
            Type::Null => Type::Null,
            Type::Boolean(v) => Type::Boolean(*v),
            Type::Int(v) => Type::Int(*v),
            Type::Float(v) => Type::Float(
                match v {
                    Some(text) => Some(text.clone()),
                    None => None,
                },
            ),
            Type::String(v) => Type::String(
                match v {
                    Some(text) => Some(text.clone()),
                    None => None,
                },
            ),
            Type::Vector2 => Type::Vector2,
            Type::Vector2i => Type::Vector2i,
            Type::Vector3 => Type::Vector3,
            Type::Vector3i => Type::Vector3i,
            Type::Transform2D => Type::Transform2D,
            Type::Plane => Type::Plane,
            Type::AABB => Type::AABB,
            Type::Basis => Type::Basis,
            Type::Transform3D => Type::Transform3D,
            Type::Color => Type::Color,
            Type::NodePath => Type::NodePath,
            Type::RID => Type::RID,
            Type::Object => Type::Object,
            Type::NonNull { inner } => Type::NonNull { inner: share(inner) },
            Type::Array { element } => Type::Array { element: share(element) },
            Type::Dictionary { key, value } => Type::Dictionary {
                key: share(key),
                value: share(value),
            },
            Type::ExactDictionary { entries } => {
                let mut copy: Vec<(Type, Type)> = Vec::new();
                let mut i: usize = 0;
                while i < entries.len()
                    invariant
                        i <= entries.len(),
                        copy@.len() == i,
                        forall|k: int|
                            0 <= k < entries@.len() ==> decreases_to!(*self => #[trigger] entries@[k]),
                        forall|k: int|
                            0 <= k < i ==> (#[trigger] copy@[k]).0@ == entries@[k].0@ && copy@[k].1@
                                == entries@[k].1@,
                    decreases entries.len() - i,
                {
                    assert(decreases_to!(*self => entries@[i as int]));
                    let key = entries[i].0.clone();
                    let value = entries[i].1.clone();
                    copy.push((key, value));
                    i += 1;
                }
                proof {
                    lemma_pair_models_of(copy@);
                    lemma_pair_models_of(entries@);
                    assert(pair_models_of(copy@) =~= pair_models_of(entries@));
                }
                Type::ExactDictionary { entries: copy }
            },
            Type::ExactArray { members } => {
                let mut copy: Vec<Type> = Vec::new();
                let mut i: usize = 0;
                while i < members.len()
                    invariant
                        i <= members.len(),
                        copy@.len() == i,
                        forall|k: int|
                            0 <= k < members@.len() ==> decreases_to!(*self => #[trigger] members@[k]),
                        forall|k: int| 0 <= k < i ==> (#[trigger] copy@[k])@ == members@[k]@,
                    decreases members.len() - i,
                {
                    assert(decreases_to!(*self => members@[i as int]));
                    let member = members[i].clone();
                    copy.push(member);
                    i += 1;
                }
                proof {
                    lemma_models_of(copy@);
                    lemma_models_of(members@);
                    assert(models_of(copy@) =~= models_of(members@));
                }
                Type::ExactArray { members: copy }
            },
            Type::Unknown => Type::Unknown,
            Type::Poisoned => Type::Poisoned,
            Type::Any => Type::Any,
        }
    }
}

impl Type {
    /// Whether a value of type `other` may stand where `self` is expected.
    /// Every type subsumes itself; beyond that nothing is subsumed: no
    /// literal by its base type, no exact array by an array type.
    pub fn subsumes(&self, other: &Type) -> (r: bool)
        ensures
            r == (self@ == other@),
        decreases self,
    {
        match (self, other) {
            (Type::Null, Type::Null) => true,
            (Type::Boolean(a), Type::Boolean(b)) => match (a, b) {
                (Some(x), Some(y)) => *x == *y,
                (None, None) => true,
                _ => false,
            },
            (Type::Int(a), Type::Int(b)) => match (a, b) {
                (Some(x), Some(y)) => *x == *y,
                (None, None) => true,
                _ => false,
            },
            (Type::Float(a), Type::Float(b)) => same_text(a, b),
            (Type::String(a), Type::String(b)) => same_text(a, b),
            (Type::Vector2, Type::Vector2) => true,
            (Type::Vector2i, Type::Vector2i) => true,
            (Type::Vector3, Type::Vector3) => true,
            (Type::Vector3i, Type::Vector3i) => true,
            (Type::Transform2D, Type::Transform2D) => true,
            (Type::Plane, Type::Plane) => true,
            (Type::AABB, Type::AABB) => true,
            (Type::Basis, Type::Basis) => true,
            (Type::Transform3D, Type::Transform3D) => true,
            (Type::Color, Type::Color) => true,
            (Type::NodePath, Type::NodePath) => true,
            (Type::RID, Type::RID) => true,
            (Type::Object, Type::Object) => true,
            (Type::NonNull { inner: a }, Type::NonNull { inner: b }) => a.subsumes(b),
            (Type::Array { element: a }, Type::Array { element: b }) => a.subsumes(b),
            (Type::Dictionary { key: ka, value: va }, Type::Dictionary { key: kb, value: vb }) => {
                ka.subsumes(kb) && va.subsumes(vb)
            },
            (Type::ExactDictionary { entries: a }, Type::ExactDictionary { entries: b }) => {
                proof {
                    lemma_pair_models_of(a@);
                    lemma_pair_models_of(b@);
                }
                if a.len() != b.len() {
                    return false;
                }
                let mut i: usize = 0;
                while i < a.len()
                    invariant
                        i <= a.len(),
                        a.len() == b.len(),
                        self@ == (TypeModel::ExactDictionary { entries: pair_models_of(a@) }),
                        other@ == (TypeModel::ExactDictionary { entries: pair_models_of(b@) }),
                        pair_models_of(a@).len() == a@.len(),
                        pair_models_of(b@).len() == b@.len(),
                        forall|k: int|
                            0 <= k < a@.len() ==> (#[trigger] pair_models_of(a@)[k]) == (
                                a@[k].0@,
                                a@[k].1@,
                            ),
                        forall|k: int|
                            0 <= k < b@.len() ==> (#[trigger] pair_models_of(b@)[k]) == (
                                b@[k].0@,
                                b@[k].1@,
                            ),
                        forall|k: int|
                            0 <= k < a@.len() ==> decreases_to!(*self => #[trigger] a@[k]),
                        forall|k: int|
                            0 <= k < i ==> (#[trigger] a@[k]).0@ == b@[k].0@ && a@[k].1@ == b@[k].1@,
                    decreases a.len() - i,
                {
                    assert(decreases_to!(*self => a@[i as int]));
                    if !a[i].0.subsumes(&b[i].0) || !a[i].1.subsumes(&b[i].1) {
                        assert(pair_models_of(a@)[i as int] != pair_models_of(b@)[i as int]);
                        return false;
                    }
                    i += 1;
                }
                assert(pair_models_of(a@) =~= pair_models_of(b@));
                true
            },
            (Type::ExactArray { members: a }, Type::ExactArray { members: b }) => {
                proof {
                    lemma_models_of(a@);
                    lemma_models_of(b@);
                }
                if a.len() != b.len() {
                    return false;
                }
                let mut i: usize = 0;
                while i < a.len()
                    invariant
                        i <= a.len(),
                        a.len() == b.len(),
                        self@ == (TypeModel::ExactArray { members: models_of(a@) }),
                        other@ == (TypeModel::ExactArray { members: models_of(b@) }),
                        models_of(a@).len() == a@.len(),
                        models_of(b@).len() == b@.len(),
                        forall|k: int| 0 <= k < a@.len() ==> (#[trigger] models_of(a@)[k]) == a@[k]@,
                        forall|k: int| 0 <= k < b@.len() ==> (#[trigger] models_of(b@)[k]) == b@[k]@,
                        forall|k: int|
                            0 <= k < a@.len() ==> decreases_to!(*self => #[trigger] a@[k]),
                        forall|k: int| 0 <= k < i ==> (#[trigger] a@[k])@ == b@[k]@,
                    decreases a.len() - i,
                {
                    assert(decreases_to!(*self => a@[i as int]));
                    if !a[i].subsumes(&b[i]) {
                        assert(models_of(a@)[i as int] != models_of(b@)[i as int]);
                        return false;
                    }
                    i += 1;
                }
                assert(models_of(a@) =~= models_of(b@));
                true
            },
            (Type::Unknown, Type::Unknown) => true,
            (Type::Poisoned, Type::Poisoned) => true,
            (Type::Any, Type::Any) => true,
            _ => false,
        }
    }

    /// What `subsumes` decides.
    pub open spec fn spec_subsumes(&self, other: &Type) -> bool {
        self@ == other@
    }
}

/// Whether two optional pieces of text are both absent or spell the same.
pub fn same_text(a: &Option<Slice>, b: &Option<Slice>) -> (r: bool)
    ensures
        r == (text_of(*a) == text_of(*b)),
{
    match (a, b) {
        (Some(x), Some(y)) => x == y,
        (None, None) => true,
        _ => false,
    }
}

/// Every type subsumes itself.
pub proof fn lemma_subsumes_reflexive(t: Type)
    ensures
        t.spec_subsumes(&t),
{
}

} // verus!

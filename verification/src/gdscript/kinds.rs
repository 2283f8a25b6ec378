//! Which members of the closed union each kind of handle may name, and
//! how a payload passes between the union and its kind.

use vstd::prelude::*;
use crate::gdscript::ast::{
    AABBType,
    Annotation,
    Any,
    ArrayLiteral,
    ArrayType,
    AssignmentStatement,
    BasisType,
    BinaryOperation,
    BinaryOperator,
    Block,
    BooleanLiteral,
    BooleanType,
    Break,
    ClassDeclaration,
    ClassNameDeclaration,
    ColorType,
    Declaration,
    DictionaryLiteral,
    DictionaryType,
    EnumDeclaration,
    ExactDictionaryType,
    Expression,
    ExtendsDeclaration,
    FloatLiteral,
    FloatType,
    ForLoop,
    FuncDeclaration,
    GDScript,
    IfElseStatement,
    IntLiteral,
    IntType,
    LocalIdentifier,
    MatchStatement,
    NamedType,
    NodePathType,
    NonNullType,
    NullLiteral,
    NullType,
    ObjectType,
    Pass,
    PlainIdentifier,
    PlaneType,
    RIDType,
    Return,
    Statement,
    StringLiteral,
    StringNameType,
    StringType,
    Transform2DType,
    Transform3DType,
    TypeExpression,
    UnaryOperation,
    UnaryOperator,
    ValueDeclaration,
    Vector2Type,
    Vector2iType,
    Vector3Type,
    Vector3iType,
    WhileLoop,
};

verus! {

/// A kind of node: one member of the closed union, a group of members, or
/// the union itself.
pub trait Kind: Sized {
    /// What `any` is as a value of this kind; nothing when `any` is no
    /// member of the kind.
    spec fn narrow(any: Any) -> Option<Self>;

    /// The member of the union that `self` is.
    spec fn widen(self) -> Any;

    fn try_from_any(any: Any) -> (r: Option<Self>)
        ensures
            r == Self::narrow(any),
    ;

    fn into_any(self) -> (r: Any)
        ensures
            r == self.widen(),
    ;

    /// Narrowing loses nothing: what came out of `any` widens back to `any`.
    proof fn lemma_narrow_widen(any: Any)
        ensures
            Self::narrow(any) matches Some(k) ==> k.widen() == any,
    ;

    /// Widening loses nothing: what went in comes back out.
    proof fn lemma_widen_narrow(k: Self)
        ensures
            Self::narrow(k.widen()) == Some(k),
    ;

    /// Whether a node belongs to the kind depends on which member of the
    /// union it is, not on its contents.
    proof fn lemma_same_member(a: Any, b: Any)
        requires
            a.alike(b),
        ensures
            Self::narrow(a) is Some <==> Self::narrow(b) is Some,
    ;
}

impl Kind for Any {
    open spec fn narrow(any: Any) -> Option<Self> {
        Some(any)
    }

    open spec fn widen(self) -> Any {
        self
    }

    fn try_from_any(any: Any) -> (r: Option<Self>) {
        Some(any)
    }

    fn into_any(self) -> (r: Any) {
        self
    }

    proof fn lemma_narrow_widen(any: Any) {
    }

    proof fn lemma_widen_narrow(k: Self) {
    }

    proof fn lemma_same_member(a: Any, b: Any) {
    }
}

impl Kind for GDScript {
    open spec fn narrow(any: Any) -> Option<Self> {
        match any {
            Any::GDScript(d) => Some(d),
            _ => None,
        }
    }

    open spec fn widen(self) -> Any {
        Any::GDScript(self)
    }

    fn try_from_any(any: Any) -> (r: Option<Self>) {
        match any {
            Any::GDScript(d) => Some(d),
            _ => None,
        }
    }

    fn into_any(self) -> (r: Any) {
        Any::GDScript(self)
    }

    proof fn lemma_narrow_widen(any: Any) {
    }

    proof fn lemma_widen_narrow(k: Self) {
    }

    proof fn lemma_same_member(a: Any, b: Any) {
    }
}

impl Kind for ExtendsDeclaration {
    open spec fn narrow(any: Any) -> Option<Self> {
        match any {
            Any::ExtendsDeclaration(d) => Some(d),
            _ => None,
        }
    }

    open spec fn widen(self) -> Any {
        Any::ExtendsDeclaration(self)
    }

    fn try_from_any(any: Any) -> (r: Option<Self>) {
        match any {
            Any::ExtendsDeclaration(d) => Some(d),
            _ => None,
        }
    }

    fn into_any(self) -> (r: Any) {
        Any::ExtendsDeclaration(self)
    }

    proof fn lemma_narrow_widen(any: Any) {
    }

    proof fn lemma_widen_narrow(k: Self) {
    }

    proof fn lemma_same_member(a: Any, b: Any) {
    }
}

impl Kind for ClassNameDeclaration {
    open spec fn narrow(any: Any) -> Option<Self> {
        match any {
            Any::ClassNameDeclaration(d) => Some(d),
            _ => None,
        }
    }

    open spec fn widen(self) -> Any {
        Any::ClassNameDeclaration(self)
    }

    fn try_from_any(any: Any) -> (r: Option<Self>) {
        match any {
            Any::ClassNameDeclaration(d) => Some(d),
            _ => None,
        }
    }

    fn into_any(self) -> (r: Any) {
        Any::ClassNameDeclaration(self)
    }

    proof fn lemma_narrow_widen(any: Any) {
    }

    proof fn lemma_widen_narrow(k: Self) {
    }

    proof fn lemma_same_member(a: Any, b: Any) {
    }
}

impl Kind for ValueDeclaration {
    open spec fn narrow(any: Any) -> Option<Self> {
        match any {
            Any::ValueDeclaration(d) => Some(d),
            _ => None,
        }
    }

    open spec fn widen(self) -> Any {
        Any::ValueDeclaration(self)
    }

    fn try_from_any(any: Any) -> (r: Option<Self>) {
        match any {
            Any::ValueDeclaration(d) => Some(d),
            _ => None,
        }
    }

    fn into_any(self) -> (r: Any) {
        Any::ValueDeclaration(self)
    }

    proof fn lemma_narrow_widen(any: Any) {
    }

    proof fn lemma_widen_narrow(k: Self) {
    }

    proof fn lemma_same_member(a: Any, b: Any) {
    }
}

impl Kind for Annotation {
    open spec fn narrow(any: Any) -> Option<Self> {
        match any {
            Any::Annotation(d) => Some(d),
            _ => None,
        }
    }

    open spec fn widen(self) -> Any {
        Any::Annotation(self)
    }

    fn try_from_any(any: Any) -> (r: Option<Self>) {
        match any {
            Any::Annotation(d) => Some(d),
            _ => None,
        }
    }

    fn into_any(self) -> (r: Any) {
        Any::Annotation(self)
    }

    proof fn lemma_narrow_widen(any: Any) {
    }

    proof fn lemma_widen_narrow(k: Self) {
    }

    proof fn lemma_same_member(a: Any, b: Any) {
    }
}

impl Kind for EnumDeclaration {
    open spec fn narrow(any: Any) -> Option<Self> {
        match any {
            Any::EnumDeclaration(d) => Some(d),
            _ => None,
        }
    }

    open spec fn widen(self) -> Any {
        Any::EnumDeclaration(self)
    }

    fn try_from_any(any: Any) -> (r: Option<Self>) {
        match any {
            Any::EnumDeclaration(d) => Some(d),
            _ => None,
        }
    }

    fn into_any(self) -> (r: Any) {
        Any::EnumDeclaration(self)
    }

    proof fn lemma_narrow_widen(any: Any) {
    }

    proof fn lemma_widen_narrow(k: Self) {
    }

    proof fn lemma_same_member(a: Any, b: Any) {
    }
}

impl Kind for FuncDeclaration {
    open spec fn narrow(any: Any) -> Option<Self> {
        match any {
            Any::FuncDeclaration(d) => Some(d),
            _ => None,
        }
    }

    open spec fn widen(self) -> Any {
        Any::FuncDeclaration(self)
    }

    fn try_from_any(any: Any) -> (r: Option<Self>) {
        match any {
            Any::FuncDeclaration(d) => Some(d),
            _ => None,
        }
    }

    fn into_any(self) -> (r: Any) {
        Any::FuncDeclaration(self)
    }

    proof fn lemma_narrow_widen(any: Any) {
    }

    proof fn lemma_widen_narrow(k: Self) {
    }

    proof fn lemma_same_member(a: Any, b: Any) {
    }
}

impl Kind for ClassDeclaration {
    open spec fn narrow(any: Any) -> Option<Self> {
        match any {
            Any::ClassDeclaration(d) => Some(d),
            _ => None,
        }
    }

    open spec fn widen(self) -> Any {
        Any::ClassDeclaration(self)
    }

    fn try_from_any(any: Any) -> (r: Option<Self>) {
        match any {
            Any::ClassDeclaration(d) => Some(d),
            _ => None,
        }
    }

    fn into_any(self) -> (r: Any) {
        Any::ClassDeclaration(self)
    }

    proof fn lemma_narrow_widen(any: Any) {
    }

    proof fn lemma_widen_narrow(k: Self) {
    }

    proof fn lemma_same_member(a: Any, b: Any) {
    }
}

impl Kind for NullLiteral {
    open spec fn narrow(any: Any) -> Option<Self> {
        match any {
            Any::NullLiteral(d) => Some(d),
            _ => None,
        }
    }

    open spec fn widen(self) -> Any {
        Any::NullLiteral(self)
    }

    fn try_from_any(any: Any) -> (r: Option<Self>) {
        match any {
            Any::NullLiteral(d) => Some(d),
            _ => None,
        }
    }

    fn into_any(self) -> (r: Any) {
        Any::NullLiteral(self)
    }

    proof fn lemma_narrow_widen(any: Any) {
    }

    proof fn lemma_widen_narrow(k: Self) {
    }

    proof fn lemma_same_member(a: Any, b: Any) {
    }
}

impl Kind for BooleanLiteral {
    open spec fn narrow(any: Any) -> Option<Self> {
        match any {
            Any::BooleanLiteral(d) => Some(d),
            _ => None,
        }
    }

    open spec fn widen(self) -> Any {
        Any::BooleanLiteral(self)
    }

    fn try_from_any(any: Any) -> (r: Option<Self>) {
        match any {
            Any::BooleanLiteral(d) => Some(d),
            _ => None,
        }
    }

    fn into_any(self) -> (r: Any) {
        Any::BooleanLiteral(self)
    }

    proof fn lemma_narrow_widen(any: Any) {
    }

    proof fn lemma_widen_narrow(k: Self) {
    }

    proof fn lemma_same_member(a: Any, b: Any) {
    }
}

impl Kind for IntLiteral {
    open spec fn narrow(any: Any) -> Option<Self> {
        match any {
            Any::IntLiteral(d) => Some(d),
            _ => None,
        }
    }

    open spec fn widen(self) -> Any {
        Any::IntLiteral(self)
    }

    fn try_from_any(any: Any) -> (r: Option<Self>) {
        match any {
            Any::IntLiteral(d) => Some(d),
            _ => None,
        }
    }

    fn into_any(self) -> (r: Any) {
        Any::IntLiteral(self)
    }

    proof fn lemma_narrow_widen(any: Any) {
    }

    proof fn lemma_widen_narrow(k: Self) {
    }

    proof fn lemma_same_member(a: Any, b: Any) {
    }
}

impl Kind for FloatLiteral {
    open spec fn narrow(any: Any) -> Option<Self> {
        match any {
            Any::FloatLiteral(d) => Some(d),
            _ => None,
        }
    }

    open spec fn widen(self) -> Any {
        Any::FloatLiteral(self)
    }

    fn try_from_any(any: Any) -> (r: Option<Self>) {
        match any {
            Any::FloatLiteral(d) => Some(d),
            _ => None,
        }
    }

    fn into_any(self) -> (r: Any) {
        Any::FloatLiteral(self)
    }

    proof fn lemma_narrow_widen(any: Any) {
    }

    proof fn lemma_widen_narrow(k: Self) {
    }

    proof fn lemma_same_member(a: Any, b: Any) {
    }
}

impl Kind for StringLiteral {
    open spec fn narrow(any: Any) -> Option<Self> {
        match any {
            Any::StringLiteral(d) => Some(d),
            _ => None,
        }
    }

    open spec fn widen(self) -> Any {
        Any::StringLiteral(self)
    }

    fn try_from_any(any: Any) -> (r: Option<Self>) {
        match any {
            Any::StringLiteral(d) => Some(d),
            _ => None,
        }
    }

    fn into_any(self) -> (r: Any) {
        Any::StringLiteral(self)
    }

    proof fn lemma_narrow_widen(any: Any) {
    }

    proof fn lemma_widen_narrow(k: Self) {
    }

    proof fn lemma_same_member(a: Any, b: Any) {
    }
}

impl Kind for ArrayLiteral {
    open spec fn narrow(any: Any) -> Option<Self> {
        match any {
            Any::ArrayLiteral(d) => Some(d),
            _ => None,
        }
    }

    open spec fn widen(self) -> Any {
        Any::ArrayLiteral(self)
    }

    fn try_from_any(any: Any) -> (r: Option<Self>) {
        match any {
            Any::ArrayLiteral(d) => Some(d),
            _ => None,
        }
    }

    fn into_any(self) -> (r: Any) {
        Any::ArrayLiteral(self)
    }

    proof fn lemma_narrow_widen(any: Any) {
    }

    proof fn lemma_widen_narrow(k: Self) {
    }

    proof fn lemma_same_member(a: Any, b: Any) {
    }
}

impl Kind for DictionaryLiteral {
    open spec fn narrow(any: Any) -> Option<Self> {
        match any {
            Any::DictionaryLiteral(d) => Some(d),
            _ => None,
        }
    }

    open spec fn widen(self) -> Any {
        Any::DictionaryLiteral(self)
    }

    fn try_from_any(any: Any) -> (r: Option<Self>) {
        match any {
            Any::DictionaryLiteral(d) => Some(d),
            _ => None,
        }
    }

    fn into_any(self) -> (r: Any) {
        Any::DictionaryLiteral(self)
    }

    proof fn lemma_narrow_widen(any: Any) {
    }

    proof fn lemma_widen_narrow(k: Self) {
    }

    proof fn lemma_same_member(a: Any, b: Any) {
    }
}

impl Kind for UnaryOperation {
    open spec fn narrow(any: Any) -> Option<Self> {
        match any {
            Any::UnaryOperation(d) => Some(d),
            _ => None,
        }
    }

    open spec fn widen(self) -> Any {
        Any::UnaryOperation(self)
    }

    fn try_from_any(any: Any) -> (r: Option<Self>) {
        match any {
            Any::UnaryOperation(d) => Some(d),
            _ => None,
        }
    }

    fn into_any(self) -> (r: Any) {
        Any::UnaryOperation(self)
    }

    proof fn lemma_narrow_widen(any: Any) {
    }

    proof fn lemma_widen_narrow(k: Self) {
    }

    proof fn lemma_same_member(a: Any, b: Any) {
    }
}

impl Kind for BinaryOperation {
    open spec fn narrow(any: Any) -> Option<Self> {
        match any {
            Any::BinaryOperation(d) => Some(d),
            _ => None,
        }
    }

    open spec fn widen(self) -> Any {
        Any::BinaryOperation(self)
    }

    fn try_from_any(any: Any) -> (r: Option<Self>) {
        match any {
            Any::BinaryOperation(d) => Some(d),
            _ => None,
        }
    }

    fn into_any(self) -> (r: Any) {
        Any::BinaryOperation(self)
    }

    proof fn lemma_narrow_widen(any: Any) {
    }

    proof fn lemma_widen_narrow(k: Self) {
    }

    proof fn lemma_same_member(a: Any, b: Any) {
    }
}

impl Kind for LocalIdentifier {
    open spec fn narrow(any: Any) -> Option<Self> {
        match any {
            Any::LocalIdentifier(d) => Some(d),
            _ => None,
        }
    }

    open spec fn widen(self) -> Any {
        Any::LocalIdentifier(self)
    }

    fn try_from_any(any: Any) -> (r: Option<Self>) {
        match any {
            Any::LocalIdentifier(d) => Some(d),
            _ => None,
        }
    }

    fn into_any(self) -> (r: Any) {
        Any::LocalIdentifier(self)
    }

    proof fn lemma_narrow_widen(any: Any) {
    }

    proof fn lemma_widen_narrow(k: Self) {
    }

    proof fn lemma_same_member(a: Any, b: Any) {
    }
}

impl Kind for NullType {
    open spec fn narrow(any: Any) -> Option<Self> {
        match any {
            Any::NullType(d) => Some(d),
            _ => None,
        }
    }

    open spec fn widen(self) -> Any {
        Any::NullType(self)
    }

    fn try_from_any(any: Any) -> (r: Option<Self>) {
        match any {
            Any::NullType(d) => Some(d),
            _ => None,
        }
    }

    fn into_any(self) -> (r: Any) {
        Any::NullType(self)
    }

    proof fn lemma_narrow_widen(any: Any) {
    }

    proof fn lemma_widen_narrow(k: Self) {
    }

    proof fn lemma_same_member(a: Any, b: Any) {
    }
}

impl Kind for BooleanType {
    open spec fn narrow(any: Any) -> Option<Self> {
        match any {
            Any::BooleanType(d) => Some(d),
            _ => None,
        }
    }

    open spec fn widen(self) -> Any {
        Any::BooleanType(self)
    }

    fn try_from_any(any: Any) -> (r: Option<Self>) {
        match any {
            Any::BooleanType(d) => Some(d),
            _ => None,
        }
    }

    fn into_any(self) -> (r: Any) {
        Any::BooleanType(self)
    }

    proof fn lemma_narrow_widen(any: Any) {
    }

    proof fn lemma_widen_narrow(k: Self) {
    }

    proof fn lemma_same_member(a: Any, b: Any) {
    }
}

impl Kind for IntType {
    open spec fn narrow(any: Any) -> Option<Self> {
        match any {
            Any::IntType(d) => Some(d),
            _ => None,
        }
    }

    open spec fn widen(self) -> Any {
        Any::IntType(self)
    }

    fn try_from_any(any: Any) -> (r: Option<Self>) {
        match any {
            Any::IntType(d) => Some(d),
            _ => None,
        }
    }

    fn into_any(self) -> (r: Any) {
        Any::IntType(self)
    }

    proof fn lemma_narrow_widen(any: Any) {
    }

    proof fn lemma_widen_narrow(k: Self) {
    }

    proof fn lemma_same_member(a: Any, b: Any) {
    }
}

impl Kind for FloatType {
    open spec fn narrow(any: Any) -> Option<Self> {
        match any {
            Any::FloatType(d) => Some(d),
            _ => None,
        }
    }

    open spec fn widen(self) -> Any {
        Any::FloatType(self)
    }

    fn try_from_any(any: Any) -> (r: Option<Self>) {
        match any {
            Any::FloatType(d) => Some(d),
            _ => None,
        }
    }

    fn into_any(self) -> (r: Any) {
        Any::FloatType(self)
    }

    proof fn lemma_narrow_widen(any: Any) {
    }

    proof fn lemma_widen_narrow(k: Self) {
    }

    proof fn lemma_same_member(a: Any, b: Any) {
    }
}

impl Kind for StringType {
    open spec fn narrow(any: Any) -> Option<Self> {
        match any {
            Any::StringType(d) => Some(d),
            _ => None,
        }
    }

    open spec fn widen(self) -> Any {
        Any::StringType(self)
    }

    fn try_from_any(any: Any) -> (r: Option<Self>) {
        match any {
            Any::StringType(d) => Some(d),
            _ => None,
        }
    }

    fn into_any(self) -> (r: Any) {
        Any::StringType(self)
    }

    proof fn lemma_narrow_widen(any: Any) {
    }

    proof fn lemma_widen_narrow(k: Self) {
    }

    proof fn lemma_same_member(a: Any, b: Any) {
    }
}

impl Kind for StringNameType {
    open spec fn narrow(any: Any) -> Option<Self> {
        match any {
            Any::StringNameType(d) => Some(d),
            _ => None,
        }
    }

    open spec fn widen(self) -> Any {
        Any::StringNameType(self)
    }

    fn try_from_any(any: Any) -> (r: Option<Self>) {
        match any {
            Any::StringNameType(d) => Some(d),
            _ => None,
        }
    }

    fn into_any(self) -> (r: Any) {
        Any::StringNameType(self)
    }

    proof fn lemma_narrow_widen(any: Any) {
    }

    proof fn lemma_widen_narrow(k: Self) {
    }

    proof fn lemma_same_member(a: Any, b: Any) {
    }
}

impl Kind for Vector2Type {
    open spec fn narrow(any: Any) -> Option<Self> {
        match any {
            Any::Vector2Type(d) => Some(d),
            _ => None,
        }
    }

    open spec fn widen(self) -> Any {
        Any::Vector2Type(self)
    }

    fn try_from_any(any: Any) -> (r: Option<Self>) {
        match any {
            Any::Vector2Type(d) => Some(d),
            _ => None,
        }
    }

    fn into_any(self) -> (r: Any) {
        Any::Vector2Type(self)
    }

    proof fn lemma_narrow_widen(any: Any) {
    }

    proof fn lemma_widen_narrow(k: Self) {
    }

    proof fn lemma_same_member(a: Any, b: Any) {
    }
}

impl Kind for Vector2iType {
    open spec fn narrow(any: Any) -> Option<Self> {
        match any {
            Any::Vector2iType(d) => Some(d),
            _ => None,
        }
    }

    open spec fn widen(self) -> Any {
        Any::Vector2iType(self)
    }

    fn try_from_any(any: Any) -> (r: Option<Self>) {
        match any {
            Any::Vector2iType(d) => Some(d),
            _ => None,
        }
    }

    fn into_any(self) -> (r: Any) {
        Any::Vector2iType(self)
    }

    proof fn lemma_narrow_widen(any: Any) {
    }

    proof fn lemma_widen_narrow(k: Self) {
    }

    proof fn lemma_same_member(a: Any, b: Any) {
    }
}

impl Kind for Vector3Type {
    open spec fn narrow(any: Any) -> Option<Self> {
        match any {
            Any::Vector3Type(d) => Some(d),
            _ => None,
        }
    }

    open spec fn widen(self) -> Any {
        Any::Vector3Type(self)
    }

    fn try_from_any(any: Any) -> (r: Option<Self>) {
        match any {
            Any::Vector3Type(d) => Some(d),
            _ => None,
        }
    }

    fn into_any(self) -> (r: Any) {
        Any::Vector3Type(self)
    }

    proof fn lemma_narrow_widen(any: Any) {
    }

    proof fn lemma_widen_narrow(k: Self) {
    }

    proof fn lemma_same_member(a: Any, b: Any) {
    }
}

impl Kind for Vector3iType {
    open spec fn narrow(any: Any) -> Option<Self> {
        match any {
            Any::Vector3iType(d) => Some(d),
            _ => None,
        }
    }

    open spec fn widen(self) -> Any {
        Any::Vector3iType(self)
    }

    fn try_from_any(any: Any) -> (r: Option<Self>) {
        match any {
            Any::Vector3iType(d) => Some(d),
            _ => None,
        }
    }

    fn into_any(self) -> (r: Any) {
        Any::Vector3iType(self)
    }

    proof fn lemma_narrow_widen(any: Any) {
    }

    proof fn lemma_widen_narrow(k: Self) {
    }

    proof fn lemma_same_member(a: Any, b: Any) {
    }
}

impl Kind for Transform2DType {
    open spec fn narrow(any: Any) -> Option<Self> {
        match any {
            Any::Transform2DType(d) => Some(d),
            _ => None,
        }
    }

    open spec fn widen(self) -> Any {
        Any::Transform2DType(self)
    }

    fn try_from_any(any: Any) -> (r: Option<Self>) {
        match any {
            Any::Transform2DType(d) => Some(d),
            _ => None,
        }
    }

    fn into_any(self) -> (r: Any) {
        Any::Transform2DType(self)
    }

    proof fn lemma_narrow_widen(any: Any) {
    }

    proof fn lemma_widen_narrow(k: Self) {
    }

    proof fn lemma_same_member(a: Any, b: Any) {
    }
}

impl Kind for PlaneType {
    open spec fn narrow(any: Any) -> Option<Self> {
        match any {
            Any::PlaneType(d) => Some(d),
            _ => None,
        }
    }

    open spec fn widen(self) -> Any {
        Any::PlaneType(self)
    }

    fn try_from_any(any: Any) -> (r: Option<Self>) {
        match any {
            Any::PlaneType(d) => Some(d),
            _ => None,
        }
    }

    fn into_any(self) -> (r: Any) {
        Any::PlaneType(self)
    }

    proof fn lemma_narrow_widen(any: Any) {
    }

    proof fn lemma_widen_narrow(k: Self) {
    }

    proof fn lemma_same_member(a: Any, b: Any) {
    }
}

impl Kind for AABBType {
    open spec fn narrow(any: Any) -> Option<Self> {
        match any {
            Any::AABBType(d) => Some(d),
            _ => None,
        }
    }

    open spec fn widen(self) -> Any {
        Any::AABBType(self)
    }

    fn try_from_any(any: Any) -> (r: Option<Self>) {
        match any {
            Any::AABBType(d) => Some(d),
            _ => None,
        }
    }

    fn into_any(self) -> (r: Any) {
        Any::AABBType(self)
    }

    proof fn lemma_narrow_widen(any: Any) {
    }

    proof fn lemma_widen_narrow(k: Self) {
    }

    proof fn lemma_same_member(a: Any, b: Any) {
    }
}

impl Kind for BasisType {
    open spec fn narrow(any: Any) -> Option<Self> {
        match any {
            Any::BasisType(d) => Some(d),
            _ => None,
        }
    }

    open spec fn widen(self) -> Any {
        Any::BasisType(self)
    }

    fn try_from_any(any: Any) -> (r: Option<Self>) {
        match any {
            Any::BasisType(d) => Some(d),
            _ => None,
        }
    }

    fn into_any(self) -> (r: Any) {
        Any::BasisType(self)
    }

    proof fn lemma_narrow_widen(any: Any) {
    }

    proof fn lemma_widen_narrow(k: Self) {
    }

    proof fn lemma_same_member(a: Any, b: Any) {
    }
}

impl Kind for Transform3DType {
    open spec fn narrow(any: Any) -> Option<Self> {
        match any {
            Any::Transform3DType(d) => Some(d),
            _ => None,
        }
    }

    open spec fn widen(self) -> Any {
        Any::Transform3DType(self)
    }

    fn try_from_any(any: Any) -> (r: Option<Self>) {
        match any {
            Any::Transform3DType(d) => Some(d),
            _ => None,
        }
    }

    fn into_any(self) -> (r: Any) {
        Any::Transform3DType(self)
    }

    proof fn lemma_narrow_widen(any: Any) {
    }

    proof fn lemma_widen_narrow(k: Self) {
    }

    proof fn lemma_same_member(a: Any, b: Any) {
    }
}

impl Kind for ColorType {
    open spec fn narrow(any: Any) -> Option<Self> {
        match any {
            Any::ColorType(d) => Some(d),
            _ => None,
        }
    }

    open spec fn widen(self) -> Any {
        Any::ColorType(self)
    }

    fn try_from_any(any: Any) -> (r: Option<Self>) {
        match any {
            Any::ColorType(d) => Some(d),
            _ => None,
        }
    }

    fn into_any(self) -> (r: Any) {
        Any::ColorType(self)
    }

    proof fn lemma_narrow_widen(any: Any) {
    }

    proof fn lemma_widen_narrow(k: Self) {
    }

    proof fn lemma_same_member(a: Any, b: Any) {
    }
}

impl Kind for NodePathType {
    open spec fn narrow(any: Any) -> Option<Self> {
        match any {
            Any::NodePathType(d) => Some(d),
            _ => None,
        }
    }

    open spec fn widen(self) -> Any {
        Any::NodePathType(self)
    }

    fn try_from_any(any: Any) -> (r: Option<Self>) {
        match any {
            Any::NodePathType(d) => Some(d),
            _ => None,
        }
    }

    fn into_any(self) -> (r: Any) {
        Any::NodePathType(self)
    }

    proof fn lemma_narrow_widen(any: Any) {
    }

    proof fn lemma_widen_narrow(k: Self) {
    }

    proof fn lemma_same_member(a: Any, b: Any) {
    }
}

impl Kind for RIDType {
    open spec fn narrow(any: Any) -> Option<Self> {
        match any {
            Any::RIDType(d) => Some(d),
            _ => None,
        }
    }

    open spec fn widen(self) -> Any {
        Any::RIDType(self)
    }

    fn try_from_any(any: Any) -> (r: Option<Self>) {
        match any {
            Any::RIDType(d) => Some(d),
            _ => None,
        }
    }

    fn into_any(self) -> (r: Any) {
        Any::RIDType(self)
    }

    proof fn lemma_narrow_widen(any: Any) {
    }

    proof fn lemma_widen_narrow(k: Self) {
    }

    proof fn lemma_same_member(a: Any, b: Any) {
    }
}

impl Kind for ObjectType {
    open spec fn narrow(any: Any) -> Option<Self> {
        match any {
            Any::ObjectType(d) => Some(d),
            _ => None,
        }
    }

    open spec fn widen(self) -> Any {
        Any::ObjectType(self)
    }

    fn try_from_any(any: Any) -> (r: Option<Self>) {
        match any {
            Any::ObjectType(d) => Some(d),
            _ => None,
        }
    }

    fn into_any(self) -> (r: Any) {
        Any::ObjectType(self)
    }

    proof fn lemma_narrow_widen(any: Any) {
    }

    proof fn lemma_widen_narrow(k: Self) {
    }

    proof fn lemma_same_member(a: Any, b: Any) {
    }
}

impl Kind for NamedType {
    open spec fn narrow(any: Any) -> Option<Self> {
        match any {
            Any::NamedType(d) => Some(d),
            _ => None,
        }
    }

    open spec fn widen(self) -> Any {
        Any::NamedType(self)
    }

    fn try_from_any(any: Any) -> (r: Option<Self>) {
        match any {
            Any::NamedType(d) => Some(d),
            _ => None,
        }
    }

    fn into_any(self) -> (r: Any) {
        Any::NamedType(self)
    }

    proof fn lemma_narrow_widen(any: Any) {
    }

    proof fn lemma_widen_narrow(k: Self) {
    }

    proof fn lemma_same_member(a: Any, b: Any) {
    }
}

impl Kind for NonNullType {
    open spec fn narrow(any: Any) -> Option<Self> {
        match any {
            Any::NonNullType(d) => Some(d),
            _ => None,
        }
    }

    open spec fn widen(self) -> Any {
        Any::NonNullType(self)
    }

    fn try_from_any(any: Any) -> (r: Option<Self>) {
        match any {
            Any::NonNullType(d) => Some(d),
            _ => None,
        }
    }

    fn into_any(self) -> (r: Any) {
        Any::NonNullType(self)
    }

    proof fn lemma_narrow_widen(any: Any) {
    }

    proof fn lemma_widen_narrow(k: Self) {
    }

    proof fn lemma_same_member(a: Any, b: Any) {
    }
}

impl Kind for ArrayType {
    open spec fn narrow(any: Any) -> Option<Self> {
        match any {
            Any::ArrayType(d) => Some(d),
            _ => None,
        }
    }

    open spec fn widen(self) -> Any {
        Any::ArrayType(self)
    }

    fn try_from_any(any: Any) -> (r: Option<Self>) {
        match any {
            Any::ArrayType(d) => Some(d),
            _ => None,
        }
    }

    fn into_any(self) -> (r: Any) {
        Any::ArrayType(self)
    }

    proof fn lemma_narrow_widen(any: Any) {
    }

    proof fn lemma_widen_narrow(k: Self) {
    }

    proof fn lemma_same_member(a: Any, b: Any) {
    }
}

impl Kind for DictionaryType {
    open spec fn narrow(any: Any) -> Option<Self> {
        match any {
            Any::DictionaryType(d) => Some(d),
            _ => None,
        }
    }

    open spec fn widen(self) -> Any {
        Any::DictionaryType(self)
    }

    fn try_from_any(any: Any) -> (r: Option<Self>) {
        match any {
            Any::DictionaryType(d) => Some(d),
            _ => None,
        }
    }

    fn into_any(self) -> (r: Any) {
        Any::DictionaryType(self)
    }

    proof fn lemma_narrow_widen(any: Any) {
    }

    proof fn lemma_widen_narrow(k: Self) {
    }

    proof fn lemma_same_member(a: Any, b: Any) {
    }
}

impl Kind for ExactDictionaryType {
    open spec fn narrow(any: Any) -> Option<Self> {
        match any {
            Any::ExactDictionaryType(d) => Some(d),
            _ => None,
        }
    }

    open spec fn widen(self) -> Any {
        Any::ExactDictionaryType(self)
    }

    fn try_from_any(any: Any) -> (r: Option<Self>) {
        match any {
            Any::ExactDictionaryType(d) => Some(d),
            _ => None,
        }
    }

    fn into_any(self) -> (r: Any) {
        Any::ExactDictionaryType(self)
    }

    proof fn lemma_narrow_widen(any: Any) {
    }

    proof fn lemma_widen_narrow(k: Self) {
    }

    proof fn lemma_same_member(a: Any, b: Any) {
    }
}

impl Kind for AssignmentStatement {
    open spec fn narrow(any: Any) -> Option<Self> {
        match any {
            Any::AssignmentStatement(d) => Some(d),
            _ => None,
        }
    }

    open spec fn widen(self) -> Any {
        Any::AssignmentStatement(self)
    }

    fn try_from_any(any: Any) -> (r: Option<Self>) {
        match any {
            Any::AssignmentStatement(d) => Some(d),
            _ => None,
        }
    }

    fn into_any(self) -> (r: Any) {
        Any::AssignmentStatement(self)
    }

    proof fn lemma_narrow_widen(any: Any) {
    }

    proof fn lemma_widen_narrow(k: Self) {
    }

    proof fn lemma_same_member(a: Any, b: Any) {
    }
}

impl Kind for MatchStatement {
    open spec fn narrow(any: Any) -> Option<Self> {
        match any {
            Any::MatchStatement(d) => Some(d),
            _ => None,
        }
    }

    open spec fn widen(self) -> Any {
        Any::MatchStatement(self)
    }

    fn try_from_any(any: Any) -> (r: Option<Self>) {
        match any {
            Any::MatchStatement(d) => Some(d),
            _ => None,
        }
    }

    fn into_any(self) -> (r: Any) {
        Any::MatchStatement(self)
    }

    proof fn lemma_narrow_widen(any: Any) {
    }

    proof fn lemma_widen_narrow(k: Self) {
    }

    proof fn lemma_same_member(a: Any, b: Any) {
    }
}

impl Kind for WhileLoop {
    open spec fn narrow(any: Any) -> Option<Self> {
        match any {
            Any::WhileLoop(d) => Some(d),
            _ => None,
        }
    }

    open spec fn widen(self) -> Any {
        Any::WhileLoop(self)
    }

    fn try_from_any(any: Any) -> (r: Option<Self>) {
        match any {
            Any::WhileLoop(d) => Some(d),
            _ => None,
        }
    }

    fn into_any(self) -> (r: Any) {
        Any::WhileLoop(self)
    }

    proof fn lemma_narrow_widen(any: Any) {
    }

    proof fn lemma_widen_narrow(k: Self) {
    }

    proof fn lemma_same_member(a: Any, b: Any) {
    }
}

impl Kind for IfElseStatement {
    open spec fn narrow(any: Any) -> Option<Self> {
        match any {
            Any::IfElseStatement(d) => Some(d),
            _ => None,
        }
    }

    open spec fn widen(self) -> Any {
        Any::IfElseStatement(self)
    }

    fn try_from_any(any: Any) -> (r: Option<Self>) {
        match any {
            Any::IfElseStatement(d) => Some(d),
            _ => None,
        }
    }

    fn into_any(self) -> (r: Any) {
        Any::IfElseStatement(self)
    }

    proof fn lemma_narrow_widen(any: Any) {
    }

    proof fn lemma_widen_narrow(k: Self) {
    }

    proof fn lemma_same_member(a: Any, b: Any) {
    }
}

impl Kind for ForLoop {
    open spec fn narrow(any: Any) -> Option<Self> {
        match any {
            Any::ForLoop(d) => Some(d),
            _ => None,
        }
    }

    open spec fn widen(self) -> Any {
        Any::ForLoop(self)
    }

    fn try_from_any(any: Any) -> (r: Option<Self>) {
        match any {
            Any::ForLoop(d) => Some(d),
            _ => None,
        }
    }

    fn into_any(self) -> (r: Any) {
        Any::ForLoop(self)
    }

    proof fn lemma_narrow_widen(any: Any) {
    }

    proof fn lemma_widen_narrow(k: Self) {
    }

    proof fn lemma_same_member(a: Any, b: Any) {
    }
}

impl Kind for Pass {
    open spec fn narrow(any: Any) -> Option<Self> {
        match any {
            Any::Pass(d) => Some(d),
            _ => None,
        }
    }

    open spec fn widen(self) -> Any {
        Any::Pass(self)
    }

    fn try_from_any(any: Any) -> (r: Option<Self>) {
        match any {
            Any::Pass(d) => Some(d),
            _ => None,
        }
    }

    fn into_any(self) -> (r: Any) {
        Any::Pass(self)
    }

    proof fn lemma_narrow_widen(any: Any) {
    }

    proof fn lemma_widen_narrow(k: Self) {
    }

    proof fn lemma_same_member(a: Any, b: Any) {
    }
}

impl Kind for Break {
    open spec fn narrow(any: Any) -> Option<Self> {
        match any {
            Any::Break(d) => Some(d),
            _ => None,
        }
    }

    open spec fn widen(self) -> Any {
        Any::Break(self)
    }

    fn try_from_any(any: Any) -> (r: Option<Self>) {
        match any {
            Any::Break(d) => Some(d),
            _ => None,
        }
    }

    fn into_any(self) -> (r: Any) {
        Any::Break(self)
    }

    proof fn lemma_narrow_widen(any: Any) {
    }

    proof fn lemma_widen_narrow(k: Self) {
    }

    proof fn lemma_same_member(a: Any, b: Any) {
    }
}

impl Kind for Return {
    open spec fn narrow(any: Any) -> Option<Self> {
        match any {
            Any::Return(d) => Some(d),
            _ => None,
        }
    }

    open spec fn widen(self) -> Any {
        Any::Return(self)
    }

    fn try_from_any(any: Any) -> (r: Option<Self>) {
        match any {
            Any::Return(d) => Some(d),
            _ => None,
        }
    }

    fn into_any(self) -> (r: Any) {
        Any::Return(self)
    }

    proof fn lemma_narrow_widen(any: Any) {
    }

    proof fn lemma_widen_narrow(k: Self) {
    }

    proof fn lemma_same_member(a: Any, b: Any) {
    }
}

impl Kind for Block {
    open spec fn narrow(any: Any) -> Option<Self> {
        match any {
            Any::Block(d) => Some(d),
            _ => None,
        }
    }

    open spec fn widen(self) -> Any {
        Any::Block(self)
    }

    fn try_from_any(any: Any) -> (r: Option<Self>) {
        match any {
            Any::Block(d) => Some(d),
            _ => None,
        }
    }

    fn into_any(self) -> (r: Any) {
        Any::Block(self)
    }

    proof fn lemma_narrow_widen(any: Any) {
    }

    proof fn lemma_widen_narrow(k: Self) {
    }

    proof fn lemma_same_member(a: Any, b: Any) {
    }
}

impl Kind for PlainIdentifier {
    open spec fn narrow(any: Any) -> Option<Self> {
        match any {
            Any::PlainIdentifier(d) => Some(d),
            _ => None,
        }
    }

    open spec fn widen(self) -> Any {
        Any::PlainIdentifier(self)
    }

    fn try_from_any(any: Any) -> (r: Option<Self>) {
        match any {
            Any::PlainIdentifier(d) => Some(d),
            _ => None,
        }
    }

    fn into_any(self) -> (r: Any) {
        Any::PlainIdentifier(self)
    }

    proof fn lemma_narrow_widen(any: Any) {
    }

    proof fn lemma_widen_narrow(k: Self) {
    }

    proof fn lemma_same_member(a: Any, b: Any) {
    }
}

impl Kind for UnaryOperator {
    open spec fn narrow(any: Any) -> Option<Self> {
        match any {
            Any::UnaryOperator(d) => Some(d),
            _ => None,
        }
    }

    open spec fn widen(self) -> Any {
        Any::UnaryOperator(self)
    }

    fn try_from_any(any: Any) -> (r: Option<Self>) {
        match any {
            Any::UnaryOperator(d) => Some(d),
            _ => None,
        }
    }

    fn into_any(self) -> (r: Any) {
        Any::UnaryOperator(self)
    }

    proof fn lemma_narrow_widen(any: Any) {
    }

    proof fn lemma_widen_narrow(k: Self) {
    }

    proof fn lemma_same_member(a: Any, b: Any) {
    }
}

impl Kind for BinaryOperator {
    open spec fn narrow(any: Any) -> Option<Self> {
        match any {
            Any::BinaryOperator(d) => Some(d),
            _ => None,
        }
    }

    open spec fn widen(self) -> Any {
        Any::BinaryOperator(self)
    }

    fn try_from_any(any: Any) -> (r: Option<Self>) {
        match any {
            Any::BinaryOperator(d) => Some(d),
            _ => None,
        }
    }

    fn into_any(self) -> (r: Any) {
        Any::BinaryOperator(self)
    }

    proof fn lemma_narrow_widen(any: Any) {
    }

    proof fn lemma_widen_narrow(k: Self) {
    }

    proof fn lemma_same_member(a: Any, b: Any) {
    }
}

impl Kind for Declaration {
    open spec fn narrow(any: Any) -> Option<Self> {
        match any {
            Any::ExtendsDeclaration(d) => Some(Declaration::ExtendsDeclaration(d)),
            Any::ClassNameDeclaration(d) => Some(Declaration::ClassNameDeclaration(d)),
            Any::ValueDeclaration(d) => Some(Declaration::ValueDeclaration(d)),
            Any::Annotation(d) => Some(Declaration::Annotation(d)),
            Any::EnumDeclaration(d) => Some(Declaration::EnumDeclaration(d)),
            Any::FuncDeclaration(d) => Some(Declaration::FuncDeclaration(d)),
            Any::ClassDeclaration(d) => Some(Declaration::ClassDeclaration(d)),
            _ => None,
        }
    }

    open spec fn widen(self) -> Any {
        match self {
            Declaration::ExtendsDeclaration(d) => Any::ExtendsDeclaration(d),
            Declaration::ClassNameDeclaration(d) => Any::ClassNameDeclaration(d),
            Declaration::ValueDeclaration(d) => Any::ValueDeclaration(d),
            Declaration::Annotation(d) => Any::Annotation(d),
            Declaration::EnumDeclaration(d) => Any::EnumDeclaration(d),
            Declaration::FuncDeclaration(d) => Any::FuncDeclaration(d),
            Declaration::ClassDeclaration(d) => Any::ClassDeclaration(d),
        }
    }

    fn try_from_any(any: Any) -> (r: Option<Self>) {
        match any {
            Any::ExtendsDeclaration(d) => Some(Declaration::ExtendsDeclaration(d)),
            Any::ClassNameDeclaration(d) => Some(Declaration::ClassNameDeclaration(d)),
            Any::ValueDeclaration(d) => Some(Declaration::ValueDeclaration(d)),
            Any::Annotation(d) => Some(Declaration::Annotation(d)),
            Any::EnumDeclaration(d) => Some(Declaration::EnumDeclaration(d)),
            Any::FuncDeclaration(d) => Some(Declaration::FuncDeclaration(d)),
            Any::ClassDeclaration(d) => Some(Declaration::ClassDeclaration(d)),
            _ => None,
        }
    }

    fn into_any(self) -> (r: Any) {
        match self {
            Declaration::ExtendsDeclaration(d) => Any::ExtendsDeclaration(d),
            Declaration::ClassNameDeclaration(d) => Any::ClassNameDeclaration(d),
            Declaration::ValueDeclaration(d) => Any::ValueDeclaration(d),
            Declaration::Annotation(d) => Any::Annotation(d),
            Declaration::EnumDeclaration(d) => Any::EnumDeclaration(d),
            Declaration::FuncDeclaration(d) => Any::FuncDeclaration(d),
            Declaration::ClassDeclaration(d) => Any::ClassDeclaration(d),
        }
    }

    proof fn lemma_narrow_widen(any: Any) {
    }

    proof fn lemma_widen_narrow(k: Self) {
    }

    proof fn lemma_same_member(a: Any, b: Any) {
    }
}

impl Kind for Expression {
    open spec fn narrow(any: Any) -> Option<Self> {
        match any {
            Any::NullLiteral(d) => Some(Expression::NullLiteral(d)),
            Any::BooleanLiteral(d) => Some(Expression::BooleanLiteral(d)),
            Any::IntLiteral(d) => Some(Expression::IntLiteral(d)),
            Any::FloatLiteral(d) => Some(Expression::FloatLiteral(d)),
            Any::StringLiteral(d) => Some(Expression::StringLiteral(d)),
            Any::ArrayLiteral(d) => Some(Expression::ArrayLiteral(d)),
            Any::DictionaryLiteral(d) => Some(Expression::DictionaryLiteral(d)),
            Any::UnaryOperation(d) => Some(Expression::UnaryOperation(d)),
            Any::BinaryOperation(d) => Some(Expression::BinaryOperation(d)),
            Any::LocalIdentifier(d) => Some(Expression::LocalIdentifier(d)),
            _ => None,
        }
    }

    open spec fn widen(self) -> Any {
        match self {
            Expression::NullLiteral(d) => Any::NullLiteral(d),
            Expression::BooleanLiteral(d) => Any::BooleanLiteral(d),
            Expression::IntLiteral(d) => Any::IntLiteral(d),
            Expression::FloatLiteral(d) => Any::FloatLiteral(d),
            Expression::StringLiteral(d) => Any::StringLiteral(d),
            Expression::ArrayLiteral(d) => Any::ArrayLiteral(d),
            Expression::DictionaryLiteral(d) => Any::DictionaryLiteral(d),
            Expression::UnaryOperation(d) => Any::UnaryOperation(d),
            Expression::BinaryOperation(d) => Any::BinaryOperation(d),
            Expression::LocalIdentifier(d) => Any::LocalIdentifier(d),
        }
    }

    fn try_from_any(any: Any) -> (r: Option<Self>) {
        match any {
            Any::NullLiteral(d) => Some(Expression::NullLiteral(d)),
            Any::BooleanLiteral(d) => Some(Expression::BooleanLiteral(d)),
            Any::IntLiteral(d) => Some(Expression::IntLiteral(d)),
            Any::FloatLiteral(d) => Some(Expression::FloatLiteral(d)),
            Any::StringLiteral(d) => Some(Expression::StringLiteral(d)),
            Any::ArrayLiteral(d) => Some(Expression::ArrayLiteral(d)),
            Any::DictionaryLiteral(d) => Some(Expression::DictionaryLiteral(d)),
            Any::UnaryOperation(d) => Some(Expression::UnaryOperation(d)),
            Any::BinaryOperation(d) => Some(Expression::BinaryOperation(d)),
            Any::LocalIdentifier(d) => Some(Expression::LocalIdentifier(d)),
            _ => None,
        }
    }

    fn into_any(self) -> (r: Any) {
        match self {
            Expression::NullLiteral(d) => Any::NullLiteral(d),
            Expression::BooleanLiteral(d) => Any::BooleanLiteral(d),
            Expression::IntLiteral(d) => Any::IntLiteral(d),
            Expression::FloatLiteral(d) => Any::FloatLiteral(d),
            Expression::StringLiteral(d) => Any::StringLiteral(d),
            Expression::ArrayLiteral(d) => Any::ArrayLiteral(d),
            Expression::DictionaryLiteral(d) => Any::DictionaryLiteral(d),
            Expression::UnaryOperation(d) => Any::UnaryOperation(d),
            Expression::BinaryOperation(d) => Any::BinaryOperation(d),
            Expression::LocalIdentifier(d) => Any::LocalIdentifier(d),
        }
    }

    proof fn lemma_narrow_widen(any: Any) {
    }

    proof fn lemma_widen_narrow(k: Self) {
    }

    proof fn lemma_same_member(a: Any, b: Any) {
    }
}

impl Kind for TypeExpression {
    open spec fn narrow(any: Any) -> Option<Self> {
        match any {
            Any::NullType(d) => Some(TypeExpression::NullType(d)),
            Any::BooleanType(d) => Some(TypeExpression::BooleanType(d)),
            Any::IntType(d) => Some(TypeExpression::IntType(d)),
            Any::FloatType(d) => Some(TypeExpression::FloatType(d)),
            Any::StringType(d) => Some(TypeExpression::StringType(d)),
            Any::StringNameType(d) => Some(TypeExpression::StringNameType(d)),
            Any::Vector2Type(d) => Some(TypeExpression::Vector2Type(d)),
            Any::Vector2iType(d) => Some(TypeExpression::Vector2iType(d)),
            Any::Vector3Type(d) => Some(TypeExpression::Vector3Type(d)),
            Any::Vector3iType(d) => Some(TypeExpression::Vector3iType(d)),
            Any::Transform2DType(d) => Some(TypeExpression::Transform2DType(d)),
            Any::PlaneType(d) => Some(TypeExpression::PlaneType(d)),
            Any::AABBType(d) => Some(TypeExpression::AABBType(d)),
            Any::BasisType(d) => Some(TypeExpression::BasisType(d)),
            Any::Transform3DType(d) => Some(TypeExpression::Transform3DType(d)),
            Any::ColorType(d) => Some(TypeExpression::ColorType(d)),
            Any::NodePathType(d) => Some(TypeExpression::NodePathType(d)),
            Any::RIDType(d) => Some(TypeExpression::RIDType(d)),
            Any::ObjectType(d) => Some(TypeExpression::ObjectType(d)),
            Any::NamedType(d) => Some(TypeExpression::NamedType(d)),
            Any::NonNullType(d) => Some(TypeExpression::NonNullType(d)),
            Any::ArrayType(d) => Some(TypeExpression::ArrayType(d)),
            Any::DictionaryType(d) => Some(TypeExpression::DictionaryType(d)),
            Any::ExactDictionaryType(d) => Some(TypeExpression::ExactDictionaryType(d)),
            _ => None,
        }
    }

    open spec fn widen(self) -> Any {
        match self {
            TypeExpression::NullType(d) => Any::NullType(d),
            TypeExpression::BooleanType(d) => Any::BooleanType(d),
            TypeExpression::IntType(d) => Any::IntType(d),
            TypeExpression::FloatType(d) => Any::FloatType(d),
            TypeExpression::StringType(d) => Any::StringType(d),
            TypeExpression::StringNameType(d) => Any::StringNameType(d),
            TypeExpression::Vector2Type(d) => Any::Vector2Type(d),
            TypeExpression::Vector2iType(d) => Any::Vector2iType(d),
            TypeExpression::Vector3Type(d) => Any::Vector3Type(d),
            TypeExpression::Vector3iType(d) => Any::Vector3iType(d),
            TypeExpression::Transform2DType(d) => Any::Transform2DType(d),
            TypeExpression::PlaneType(d) => Any::PlaneType(d),
            TypeExpression::AABBType(d) => Any::AABBType(d),
            TypeExpression::BasisType(d) => Any::BasisType(d),
            TypeExpression::Transform3DType(d) => Any::Transform3DType(d),
            TypeExpression::ColorType(d) => Any::ColorType(d),
            TypeExpression::NodePathType(d) => Any::NodePathType(d),
            TypeExpression::RIDType(d) => Any::RIDType(d),
            TypeExpression::ObjectType(d) => Any::ObjectType(d),
            TypeExpression::NamedType(d) => Any::NamedType(d),
            TypeExpression::NonNullType(d) => Any::NonNullType(d),
            TypeExpression::ArrayType(d) => Any::ArrayType(d),
            TypeExpression::DictionaryType(d) => Any::DictionaryType(d),
            TypeExpression::ExactDictionaryType(d) => Any::ExactDictionaryType(d),
        }
    }

    fn try_from_any(any: Any) -> (r: Option<Self>) {
        match any {
            Any::NullType(d) => Some(TypeExpression::NullType(d)),
            Any::BooleanType(d) => Some(TypeExpression::BooleanType(d)),
            Any::IntType(d) => Some(TypeExpression::IntType(d)),
            Any::FloatType(d) => Some(TypeExpression::FloatType(d)),
            Any::StringType(d) => Some(TypeExpression::StringType(d)),
            Any::StringNameType(d) => Some(TypeExpression::StringNameType(d)),
            Any::Vector2Type(d) => Some(TypeExpression::Vector2Type(d)),
            Any::Vector2iType(d) => Some(TypeExpression::Vector2iType(d)),
            Any::Vector3Type(d) => Some(TypeExpression::Vector3Type(d)),
            Any::Vector3iType(d) => Some(TypeExpression::Vector3iType(d)),
            Any::Transform2DType(d) => Some(TypeExpression::Transform2DType(d)),
            Any::PlaneType(d) => Some(TypeExpression::PlaneType(d)),
            Any::AABBType(d) => Some(TypeExpression::AABBType(d)),
            Any::BasisType(d) => Some(TypeExpression::BasisType(d)),
            Any::Transform3DType(d) => Some(TypeExpression::Transform3DType(d)),
            Any::ColorType(d) => Some(TypeExpression::ColorType(d)),
            Any::NodePathType(d) => Some(TypeExpression::NodePathType(d)),
            Any::RIDType(d) => Some(TypeExpression::RIDType(d)),
            Any::ObjectType(d) => Some(TypeExpression::ObjectType(d)),
            Any::NamedType(d) => Some(TypeExpression::NamedType(d)),
            Any::NonNullType(d) => Some(TypeExpression::NonNullType(d)),
            Any::ArrayType(d) => Some(TypeExpression::ArrayType(d)),
            Any::DictionaryType(d) => Some(TypeExpression::DictionaryType(d)),
            Any::ExactDictionaryType(d) => Some(TypeExpression::ExactDictionaryType(d)),
            _ => None,
        }
    }

    fn into_any(self) -> (r: Any) {
        match self {
            TypeExpression::NullType(d) => Any::NullType(d),
            TypeExpression::BooleanType(d) => Any::BooleanType(d),
            TypeExpression::IntType(d) => Any::IntType(d),
            TypeExpression::FloatType(d) => Any::FloatType(d),
            TypeExpression::StringType(d) => Any::StringType(d),
            TypeExpression::StringNameType(d) => Any::StringNameType(d),
            TypeExpression::Vector2Type(d) => Any::Vector2Type(d),
            TypeExpression::Vector2iType(d) => Any::Vector2iType(d),
            TypeExpression::Vector3Type(d) => Any::Vector3Type(d),
            TypeExpression::Vector3iType(d) => Any::Vector3iType(d),
            TypeExpression::Transform2DType(d) => Any::Transform2DType(d),
            TypeExpression::PlaneType(d) => Any::PlaneType(d),
            TypeExpression::AABBType(d) => Any::AABBType(d),
            TypeExpression::BasisType(d) => Any::BasisType(d),
            TypeExpression::Transform3DType(d) => Any::Transform3DType(d),
            TypeExpression::ColorType(d) => Any::ColorType(d),
            TypeExpression::NodePathType(d) => Any::NodePathType(d),
            TypeExpression::RIDType(d) => Any::RIDType(d),
            TypeExpression::ObjectType(d) => Any::ObjectType(d),
            TypeExpression::NamedType(d) => Any::NamedType(d),
            TypeExpression::NonNullType(d) => Any::NonNullType(d),
            TypeExpression::ArrayType(d) => Any::ArrayType(d),
            TypeExpression::DictionaryType(d) => Any::DictionaryType(d),
            TypeExpression::ExactDictionaryType(d) => Any::ExactDictionaryType(d),
        }
    }

    proof fn lemma_narrow_widen(any: Any) {
    }

    proof fn lemma_widen_narrow(k: Self) {
    }

    proof fn lemma_same_member(a: Any, b: Any) {
    }
}

impl Kind for Statement {
    open spec fn narrow(any: Any) -> Option<Self> {
        match any {
            Any::ValueDeclaration(d) => Some(Statement::ValueDeclaration(d)),
            Any::AssignmentStatement(d) => Some(Statement::AssignmentStatement(d)),
            Any::MatchStatement(d) => Some(Statement::MatchStatement(d)),
            Any::WhileLoop(d) => Some(Statement::WhileLoop(d)),
            Any::IfElseStatement(d) => Some(Statement::IfElseStatement(d)),
            Any::ForLoop(d) => Some(Statement::ForLoop(d)),
            Any::Pass(d) => Some(Statement::Pass(d)),
            Any::Break(d) => Some(Statement::Break(d)),
            Any::Return(d) => Some(Statement::Return(d)),
            _ => None,
        }
    }

    open spec fn widen(self) -> Any {
        match self {
            Statement::ValueDeclaration(d) => Any::ValueDeclaration(d),
            Statement::AssignmentStatement(d) => Any::AssignmentStatement(d),
            Statement::MatchStatement(d) => Any::MatchStatement(d),
            Statement::WhileLoop(d) => Any::WhileLoop(d),
            Statement::IfElseStatement(d) => Any::IfElseStatement(d),
            Statement::ForLoop(d) => Any::ForLoop(d),
            Statement::Pass(d) => Any::Pass(d),
            Statement::Break(d) => Any::Break(d),
            Statement::Return(d) => Any::Return(d),
        }
    }

    fn try_from_any(any: Any) -> (r: Option<Self>) {
        match any {
            Any::ValueDeclaration(d) => Some(Statement::ValueDeclaration(d)),
            Any::AssignmentStatement(d) => Some(Statement::AssignmentStatement(d)),
            Any::MatchStatement(d) => Some(Statement::MatchStatement(d)),
            Any::WhileLoop(d) => Some(Statement::WhileLoop(d)),
            Any::IfElseStatement(d) => Some(Statement::IfElseStatement(d)),
            Any::ForLoop(d) => Some(Statement::ForLoop(d)),
            Any::Pass(d) => Some(Statement::Pass(d)),
            Any::Break(d) => Some(Statement::Break(d)),
            Any::Return(d) => Some(Statement::Return(d)),
            _ => None,
        }
    }

    fn into_any(self) -> (r: Any) {
        match self {
            Statement::ValueDeclaration(d) => Any::ValueDeclaration(d),
            Statement::AssignmentStatement(d) => Any::AssignmentStatement(d),
            Statement::MatchStatement(d) => Any::MatchStatement(d),
            Statement::WhileLoop(d) => Any::WhileLoop(d),
            Statement::IfElseStatement(d) => Any::IfElseStatement(d),
            Statement::ForLoop(d) => Any::ForLoop(d),
            Statement::Pass(d) => Any::Pass(d),
            Statement::Break(d) => Any::Break(d),
            Statement::Return(d) => Any::Return(d),
        }
    }

    proof fn lemma_narrow_widen(any: Any) {
    }

    proof fn lemma_widen_narrow(k: Self) {
    }

    proof fn lemma_same_member(a: Any, b: Any) {
    }
}

} // verus!
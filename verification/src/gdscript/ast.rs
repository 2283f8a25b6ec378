//! The syntax tree: one record per node, held in a flat store and named by
//! typed handles.

use std::marker::PhantomData;
use std::rc::Rc;
use vstd::prelude::*;
use crate::gdscript::kinds::Kind;
use crate::utils::scan::same_str;
use crate::utils::slice::{share, Slice};

verus! {

/// The stable name of one script of a project.
#[derive(Debug, PartialEq, Eq, Hash)]
pub struct ModuleID(pub Rc<String>);

impl Clone for ModuleID {
    fn clone(&self) -> (r: Self)
        ensures
            r == *self,
    {
        ModuleID(share(&self.0))
    }
}

/// A handle to one node of a `SyntaxTree`, tagged with the kind of node that
/// its holder expects there.
#[derive(Debug, PartialEq)]
pub struct AST<TKind> {
    pub id: usize,
    pub kind: PhantomData<TKind>,
}

pub type ASTAny = AST<Any>;

impl<TKind> Clone for AST<TKind> {
    fn clone(&self) -> (r: Self)
        ensures
            r == *self,
    {
        AST { id: self.id, kind: PhantomData }
    }
}

impl<TKind> Copy for AST<TKind> {
}

/// One node as the store keeps it.
#[derive(Debug, PartialEq)]
pub struct ASTInner {
    /// The node that holds this one, once it is attached.
    pub parent: Option<usize>,
    /// The source text that the node was read from.
    pub slice: Slice,
    pub details: Any,
}

// --- Declarations ---

/// A whole script: its top-level declarations, in source order.
#[derive(Debug, Clone, PartialEq)]
pub struct GDScript {
    pub declarations: Vec<AST<Declaration>>,
}

/// `extends Base`
#[derive(Debug, Clone, PartialEq)]
pub struct ExtendsDeclaration {
    pub extends_class: AST<PlainIdentifier>,
}

/// `class_name Name`
#[derive(Debug, Clone, PartialEq)]
pub struct ClassNameDeclaration {
    pub class_name: AST<PlainIdentifier>,
}

/// `var name: Type = value` or `const name: Type = value`
#[derive(Debug, Clone, PartialEq)]
pub struct ValueDeclaration {
    pub is_const: bool,
    pub name: AST<PlainIdentifier>,
    pub declared_type: Option<AST<TypeExpression>>,
    pub value: Option<AST<Expression>>,
}

/// `@name(arguments)`
#[derive(Debug, Clone, PartialEq)]
pub struct Annotation {
    pub name: AST<PlainIdentifier>,
    pub arguments: Vec<AST<Expression>>,
}

/// `enum Name { A, B = 1 }`
#[derive(Debug, Clone, PartialEq)]
pub struct EnumDeclaration {
    pub name: Option<AST<PlainIdentifier>>,
    pub variants: Vec<(AST<PlainIdentifier>, Option<AST<Expression>>)>,
}

/// `func name(args) -> Type:` and its body
#[derive(Debug, Clone, PartialEq)]
pub struct FuncDeclaration {
    pub is_static: bool,
    pub name: AST<PlainIdentifier>,
    pub args: Vec<(AST<PlainIdentifier>, Option<AST<TypeExpression>>)>,
    pub return_type: Option<AST<TypeExpression>>,
    pub body: AST<Block>,
}

/// `class Name:` and its members
#[derive(Debug, Clone, PartialEq)]
pub struct ClassDeclaration {
    pub name: AST<PlainIdentifier>,
    pub declarations: Vec<AST<Declaration>>,
}

// --- Expressions ---

/// `null`
#[derive(Debug, Clone, PartialEq)]
pub struct NullLiteral;

/// `true` or `false`
#[derive(Debug, Clone, PartialEq)]
pub struct BooleanLiteral {
    pub value: bool,
}

/// An integer literal, kept as written.
#[derive(Debug, Clone, PartialEq)]
pub struct IntLiteral {
    pub value_raw: Slice,
}

/// A literal with a fraction, kept as written.
#[derive(Debug, Clone, PartialEq)]
pub struct FloatLiteral {
    pub value_raw: Slice,
}

/// A string literal.
#[derive(Debug, Clone, PartialEq)]
pub struct StringLiteral {
    pub value: Slice,
    pub multiline: bool,
}

/// `[a, b, c]`
#[derive(Debug, Clone, PartialEq)]
pub struct ArrayLiteral {
    pub members: Vec<AST<Expression>>,
}

/// `{k: v}`
#[derive(Debug, Clone, PartialEq)]
pub struct DictionaryLiteral {
    pub entries: Vec<(AST<Expression>, AST<Expression>)>,
}

/// An operator applied to one operand.
#[derive(Debug, Clone, PartialEq)]
pub struct UnaryOperation {
    pub op: AST<UnaryOperator>,
    pub subject: AST<Expression>,
}

/// An operator between two operands.
#[derive(Debug, Clone, PartialEq)]
pub struct BinaryOperation {
    pub op: AST<BinaryOperator>,
    pub left: AST<Expression>,
    pub right: AST<Expression>,
}

/// A name used as an expression.
#[derive(Debug, Clone, PartialEq)]
pub struct LocalIdentifier {
    pub name: Slice,
}

// --- Type expressions ---

#[derive(Debug, Clone, PartialEq)]
pub struct NullType;

#[derive(Debug, Clone, PartialEq)]
pub struct BooleanType;

#[derive(Debug, Clone, PartialEq)]
pub struct IntType;

#[derive(Debug, Clone, PartialEq)]
pub struct FloatType;

#[derive(Debug, Clone, PartialEq)]
pub struct StringType;

#[derive(Debug, Clone, PartialEq)]
pub struct StringNameType;

#[derive(Debug, Clone, PartialEq)]
pub struct Vector2Type;

#[derive(Debug, Clone, PartialEq)]
pub struct Vector2iType;

#[derive(Debug, Clone, PartialEq)]
pub struct Vector3Type;

#[derive(Debug, Clone, PartialEq)]
pub struct Vector3iType;

#[derive(Debug, Clone, PartialEq)]
pub struct Transform2DType;

#[derive(Debug, Clone, PartialEq)]
pub struct PlaneType;

#[derive(Debug, Clone, PartialEq)]
pub struct AABBType;

#[derive(Debug, Clone, PartialEq)]
pub struct BasisType;

#[derive(Debug, Clone, PartialEq)]
pub struct Transform3DType;

#[derive(Debug, Clone, PartialEq)]
pub struct ColorType;

#[derive(Debug, Clone, PartialEq)]
pub struct NodePathType;

#[derive(Debug, Clone, PartialEq)]
pub struct RIDType;

#[derive(Debug, Clone, PartialEq)]
pub struct ObjectType;

/// A class named by the user.
#[derive(Debug, Clone, PartialEq)]
pub struct NamedType {
    pub name: AST<PlainIdentifier>,
}

/// A type without `null`.
#[derive(Debug, Clone, PartialEq)]
pub struct NonNullType {
    pub inner: AST<TypeExpression>,
}

/// An array of one element type.
#[derive(Debug, Clone, PartialEq)]
pub struct ArrayType {
    pub element: AST<TypeExpression>,
}

/// A dictionary of one key type and one value type.
#[derive(Debug, Clone, PartialEq)]
pub struct DictionaryType {
    pub key: AST<TypeExpression>,
    pub value: AST<TypeExpression>,
}

/// A dictionary type that lists its entries.
#[derive(Debug, Clone, PartialEq)]
pub struct ExactDictionaryType {
    pub entries: Vec<(AST<TypeExpression>, AST<TypeExpression>)>,
}

// --- Statements ---

/// `target = value`, or `target op= value`
#[derive(Debug, Clone, PartialEq)]
pub struct AssignmentStatement {
    pub target: AST<Expression>,
    pub value: AST<Expression>,
    pub operator: Option<AST<BinaryOperator>>,
}

#[derive(Debug, Clone, PartialEq)]
pub struct MatchStatement;

/// `while condition:` and its body
#[derive(Debug, Clone, PartialEq)]
pub struct WhileLoop {
    pub condition: AST<Expression>,
    pub body: AST<Block>,
}

/// `if`, its `elif`s and its `else`
#[derive(Debug, Clone, PartialEq)]
pub struct IfElseStatement {
    pub conditions: Vec<(AST<Expression>, AST<Block>)>,
    pub default_outcome: Option<AST<Block>>,
}

/// `for item in iteree:` and its body
#[derive(Debug, Clone, PartialEq)]
pub struct ForLoop {
    pub item_name: AST<PlainIdentifier>,
    pub iteree: AST<Expression>,
    pub body: AST<Block>,
}

/// `pass`
#[derive(Debug, Clone, PartialEq)]
pub struct Pass;

/// `break`
#[derive(Debug, Clone, PartialEq)]
pub struct Break;

/// `return`, with or without a value
#[derive(Debug, Clone, PartialEq)]
pub struct Return {
    pub expr: Option<AST<Expression>>,
}

// --- Misc ---

/// The statements of one indented body, in source order.
#[derive(Debug, Clone, PartialEq)]
pub struct Block {
    pub statements: Vec<AST<Statement>>,
}

/// A name where it is declared or referred to.
#[derive(Debug, Clone, PartialEq)]
pub struct PlainIdentifier {
    pub name: Slice,
}

// --- Operators ---

#[derive(Debug, Clone, Copy, PartialEq, Eq, Hash)]
pub enum UnaryOperator {
    BitwiseNot,
    Negative,
    Not,
}

#[derive(Debug, Clone, Copy, PartialEq, Eq, Hash)]
pub enum BinaryOperator {
    Is,
    DoubleStar,
    Star,
    Slash,
    Percent,
    Plus,
    Minus,
    ShiftLeft,
    ShiftRight,
    BitwiseAnd,
    BitwiseXor,
    BitwiseOr,
    Less,
    Greater,
    Equals,
    NotEquals,
    GreaterEqual,
    LessEqual,
    In,
    And,
    Or,
    As,
}

#[derive(Debug, Clone, Copy, PartialEq)]
pub enum NumberBase {
    Two,
    Ten,
    Sixteen,
}

// --- Node groups ---

/// Every kind of node there is.
#[derive(Debug, PartialEq)]
pub enum Any {
    GDScript(GDScript),
    ExtendsDeclaration(ExtendsDeclaration),
    ClassNameDeclaration(ClassNameDeclaration),
    ValueDeclaration(ValueDeclaration),
    Annotation(Annotation),
    EnumDeclaration(EnumDeclaration),
    FuncDeclaration(FuncDeclaration),
    ClassDeclaration(ClassDeclaration),
    NullLiteral(NullLiteral),
    BooleanLiteral(BooleanLiteral),
    IntLiteral(IntLiteral),
    FloatLiteral(FloatLiteral),
    StringLiteral(StringLiteral),
    ArrayLiteral(ArrayLiteral),
    DictionaryLiteral(DictionaryLiteral),
    UnaryOperation(UnaryOperation),
    BinaryOperation(BinaryOperation),
    LocalIdentifier(LocalIdentifier),
    NullType(NullType),
    BooleanType(BooleanType),
    IntType(IntType),
    FloatType(FloatType),
    StringType(StringType),
    StringNameType(StringNameType),
    Vector2Type(Vector2Type),
    Vector2iType(Vector2iType),
    Vector3Type(Vector3Type),
    Vector3iType(Vector3iType),
    Transform2DType(Transform2DType),
    PlaneType(PlaneType),
    AABBType(AABBType),
    BasisType(BasisType),
    Transform3DType(Transform3DType),
    ColorType(ColorType),
    NodePathType(NodePathType),
    RIDType(RIDType),
    ObjectType(ObjectType),
    NamedType(NamedType),
    NonNullType(NonNullType),
    ArrayType(ArrayType),
    DictionaryType(DictionaryType),
    ExactDictionaryType(ExactDictionaryType),
    AssignmentStatement(AssignmentStatement),
    MatchStatement(MatchStatement),
    WhileLoop(WhileLoop),
    IfElseStatement(IfElseStatement),
    ForLoop(ForLoop),
    Pass(Pass),
    Break(Break),
    Return(Return),
    Block(Block),
    PlainIdentifier(PlainIdentifier),
    UnaryOperator(UnaryOperator),
    BinaryOperator(BinaryOperator),
}

/// The kinds that can stand at the top level of a script or of a class.
#[derive(Debug, Clone, PartialEq)]
pub enum Declaration {
    ExtendsDeclaration(ExtendsDeclaration),
    ClassNameDeclaration(ClassNameDeclaration),
    ValueDeclaration(ValueDeclaration),
    Annotation(Annotation),
    EnumDeclaration(EnumDeclaration),
    FuncDeclaration(FuncDeclaration),
    ClassDeclaration(ClassDeclaration),
}

/// The kinds that have a value.
#[derive(Debug, Clone, PartialEq)]
pub enum Expression {
    NullLiteral(NullLiteral),
    BooleanLiteral(BooleanLiteral),
    IntLiteral(IntLiteral),
    FloatLiteral(FloatLiteral),
    StringLiteral(StringLiteral),
    ArrayLiteral(ArrayLiteral),
    DictionaryLiteral(DictionaryLiteral),
    UnaryOperation(UnaryOperation),
    BinaryOperation(BinaryOperation),
    LocalIdentifier(LocalIdentifier),
}

/// The kinds that name a type.
#[derive(Debug, Clone, PartialEq)]
pub enum TypeExpression {
    NullType(NullType),
    BooleanType(BooleanType),
    IntType(IntType),
    FloatType(FloatType),
    StringType(StringType),
    StringNameType(StringNameType),
    Vector2Type(Vector2Type),
    Vector2iType(Vector2iType),
    Vector3Type(Vector3Type),
    Vector3iType(Vector3iType),
    Transform2DType(Transform2DType),
    PlaneType(PlaneType),
    AABBType(AABBType),
    BasisType(BasisType),
    Transform3DType(Transform3DType),
    ColorType(ColorType),
    NodePathType(NodePathType),
    RIDType(RIDType),
    ObjectType(ObjectType),
    NamedType(NamedType),
    NonNullType(NonNullType),
    ArrayType(ArrayType),
    DictionaryType(DictionaryType),
    ExactDictionaryType(ExactDictionaryType),
}

/// The kinds that can stand in a block.
#[derive(Debug, Clone, PartialEq)]
pub enum Statement {
    ValueDeclaration(ValueDeclaration),
    AssignmentStatement(AssignmentStatement),
    MatchStatement(MatchStatement),
    WhileLoop(WhileLoop),
    IfElseStatement(IfElseStatement),
    ForLoop(ForLoop),
    Pass(Pass),
    Break(Break),
    Return(Return),
}

impl Any {
    /// The two hold the same kind of node with the same contents, lists
    /// compared item by item.
    pub open spec fn alike(self, other: Any) -> bool {
        match (self, other) {
            (Any::GDScript(a), Any::GDScript(b)) => a.declarations@ == b.declarations@,
            (Any::Annotation(a), Any::Annotation(b)) => {
                a.name == b.name
                && a.arguments@ == b.arguments@
            },
            (Any::EnumDeclaration(a), Any::EnumDeclaration(b)) => {
                a.name == b.name
                && a.variants@ == b.variants@
            },
            (Any::FuncDeclaration(a), Any::FuncDeclaration(b)) => {
                a.is_static == b.is_static
                && a.name == b.name
                && a.args@ == b.args@
                && a.return_type == b.return_type
                && a.body == b.body
            },
            (Any::ClassDeclaration(a), Any::ClassDeclaration(b)) => {
                a.name == b.name
                && a.declarations@ == b.declarations@
            },
            (Any::ArrayLiteral(a), Any::ArrayLiteral(b)) => a.members@ == b.members@,
            (Any::DictionaryLiteral(a), Any::DictionaryLiteral(b)) => a.entries@ == b.entries@,
            (Any::ExactDictionaryType(a), Any::ExactDictionaryType(b)) => a.entries@ == b.entries@,
            (Any::IfElseStatement(a), Any::IfElseStatement(b)) => {
                a.conditions@ == b.conditions@
                && a.default_outcome == b.default_outcome
            },
            (Any::Block(a), Any::Block(b)) => a.statements@ == b.statements@,
            _ => self == other,
        }
    }

    /// The nodes that this one holds directly, field by field in the order
    /// of declaration, each list in its own order.
    pub open spec fn children(self) -> Seq<usize> {
        match self {
            Any::GDScript(d) => d.declarations.nodes(),
            Any::ExtendsDeclaration(d) => d.extends_class.nodes(),
            Any::ClassNameDeclaration(d) => d.class_name.nodes(),
            Any::ValueDeclaration(d) => d.name.nodes() + d.declared_type.nodes() + d.value.nodes(),
            Any::Annotation(d) => d.name.nodes() + d.arguments.nodes(),
            Any::EnumDeclaration(d) => d.name.nodes() + d.variants.nodes(),
            Any::FuncDeclaration(d) => {
                d.name.nodes()
                + d.args.nodes()
                + d.return_type.nodes()
                + d.body.nodes()
            },
            Any::ClassDeclaration(d) => d.name.nodes() + d.declarations.nodes(),
            Any::ArrayLiteral(d) => d.members.nodes(),
            Any::DictionaryLiteral(d) => d.entries.nodes(),
            Any::UnaryOperation(d) => d.op.nodes() + d.subject.nodes(),
            Any::BinaryOperation(d) => d.op.nodes() + d.left.nodes() + d.right.nodes(),
            Any::NamedType(d) => d.name.nodes(),
            Any::NonNullType(d) => d.inner.nodes(),
            Any::ArrayType(d) => d.element.nodes(),
            Any::DictionaryType(d) => d.key.nodes() + d.value.nodes(),
            Any::ExactDictionaryType(d) => d.entries.nodes(),
            Any::AssignmentStatement(d) => d.target.nodes() + d.value.nodes() + d.operator.nodes(),
            Any::WhileLoop(d) => d.condition.nodes() + d.body.nodes(),
            Any::IfElseStatement(d) => d.conditions.nodes() + d.default_outcome.nodes(),
            Any::ForLoop(d) => d.item_name.nodes() + d.iteree.nodes() + d.body.nodes(),
            Any::Return(d) => d.expr.nodes(),
            Any::Block(d) => d.statements.nodes(),
            _ => Seq::empty(),
        }
    }

    /// Each handle that this node holds names a node of `tree` of the kind
    /// that the handle is tagged with.
    pub open spec fn sound(self, tree: &SyntaxTree) -> bool {
        match self {
            Any::GDScript(d) => d.declarations.sound(tree),
            Any::ExtendsDeclaration(d) => d.extends_class.sound(tree),
            Any::ClassNameDeclaration(d) => d.class_name.sound(tree),
            Any::ValueDeclaration(d) => {
                d.name.sound(tree)
                && d.declared_type.sound(tree)
                && d.value.sound(tree)
            },
            Any::Annotation(d) => d.name.sound(tree) && d.arguments.sound(tree),
            Any::EnumDeclaration(d) => d.name.sound(tree) && d.variants.sound(tree),
            Any::FuncDeclaration(d) => {
                d.name.sound(tree)
                && d.args.sound(tree)
                && d.return_type.sound(tree)
                && d.body.sound(tree)
            },
            Any::ClassDeclaration(d) => d.name.sound(tree) && d.declarations.sound(tree),
            Any::ArrayLiteral(d) => d.members.sound(tree),
            Any::DictionaryLiteral(d) => d.entries.sound(tree),
            Any::UnaryOperation(d) => d.op.sound(tree) && d.subject.sound(tree),
            Any::BinaryOperation(d) => {
                d.op.sound(tree)
                && d.left.sound(tree)
                && d.right.sound(tree)
            },
            Any::NamedType(d) => d.name.sound(tree),
            Any::NonNullType(d) => d.inner.sound(tree),
            Any::ArrayType(d) => d.element.sound(tree),
            Any::DictionaryType(d) => d.key.sound(tree) && d.value.sound(tree),
            Any::ExactDictionaryType(d) => d.entries.sound(tree),
            Any::AssignmentStatement(d) => {
                d.target.sound(tree)
                && d.value.sound(tree)
                && d.operator.sound(tree)
            },
            Any::WhileLoop(d) => d.condition.sound(tree) && d.body.sound(tree),
            Any::IfElseStatement(d) => d.conditions.sound(tree) && d.default_outcome.sound(tree),
            Any::ForLoop(d) => {
                d.item_name.sound(tree)
                && d.iteree.sound(tree)
                && d.body.sound(tree)
            },
            Any::Return(d) => d.expr.sound(tree),
            Any::Block(d) => d.statements.sound(tree),
            _ => true,
        }
    }

    /// The handles of `children`, collected.
    pub fn child_ids(&self) -> (r: Vec<usize>)
        ensures
            r@ == self.children(),
    {
        let mut out: Vec<usize> = Vec::new();
        match self {
            Any::GDScript(d) => {
                d.declarations.collect(&mut out);
            },
            Any::ExtendsDeclaration(d) => {
                d.extends_class.collect(&mut out);
            },
            Any::ClassNameDeclaration(d) => {
                d.class_name.collect(&mut out);
            },
            Any::ValueDeclaration(d) => {
                d.name.collect(&mut out);
                d.declared_type.collect(&mut out);
                d.value.collect(&mut out);
            },
            Any::Annotation(d) => {
                d.name.collect(&mut out);
                d.arguments.collect(&mut out);
            },
            Any::EnumDeclaration(d) => {
                d.name.collect(&mut out);
                d.variants.collect(&mut out);
            },
            Any::FuncDeclaration(d) => {
                d.name.collect(&mut out);
                d.args.collect(&mut out);
                d.return_type.collect(&mut out);
                d.body.collect(&mut out);
            },
            Any::ClassDeclaration(d) => {
                d.name.collect(&mut out);
                d.declarations.collect(&mut out);
            },
            Any::ArrayLiteral(d) => {
                d.members.collect(&mut out);
            },
            Any::DictionaryLiteral(d) => {
                d.entries.collect(&mut out);
            },
            Any::UnaryOperation(d) => {
                d.op.collect(&mut out);
                d.subject.collect(&mut out);
            },
            Any::BinaryOperation(d) => {
                d.op.collect(&mut out);
                d.left.collect(&mut out);
                d.right.collect(&mut out);
            },
            Any::NamedType(d) => {
                d.name.collect(&mut out);
            },
            Any::NonNullType(d) => {
                d.inner.collect(&mut out);
            },
            Any::ArrayType(d) => {
                d.element.collect(&mut out);
            },
            Any::DictionaryType(d) => {
                d.key.collect(&mut out);
                d.value.collect(&mut out);
            },
            Any::ExactDictionaryType(d) => {
                d.entries.collect(&mut out);
            },
            Any::AssignmentStatement(d) => {
                d.target.collect(&mut out);
                d.value.collect(&mut out);
                d.operator.collect(&mut out);
            },
            Any::WhileLoop(d) => {
                d.condition.collect(&mut out);
                d.body.collect(&mut out);
            },
            Any::IfElseStatement(d) => {
                d.conditions.collect(&mut out);
                d.default_outcome.collect(&mut out);
            },
            Any::ForLoop(d) => {
                d.item_name.collect(&mut out);
                d.iteree.collect(&mut out);
                d.body.collect(&mut out);
            },
            Any::Return(d) => {
                d.expr.collect(&mut out);
            },
            Any::Block(d) => {
                d.statements.collect(&mut out);
            },
            _ => {},
        }
        out
    }
}

/// Sound handles name nodes of the store.
pub proof fn lemma_any_sound_bounds(details: Any, tree: &SyntaxTree)
    requires
        details.sound(tree),
    ensures
        forall|k: int|
            0 <= k < details.children().len() ==> (#[trigger] details.children()[k])
                < tree@.len(),
{
    match details {
        Any::GDScript(d) => {
            d.declarations.lemma_sound_bounds(tree);
        },
        Any::ExtendsDeclaration(d) => {
            d.extends_class.lemma_sound_bounds(tree);
        },
        Any::ClassNameDeclaration(d) => {
            d.class_name.lemma_sound_bounds(tree);
        },
        Any::ValueDeclaration(d) => {
            d.name.lemma_sound_bounds(tree);
            d.declared_type.lemma_sound_bounds(tree);
            d.value.lemma_sound_bounds(tree);
        },
        Any::Annotation(d) => {
            d.name.lemma_sound_bounds(tree);
            d.arguments.lemma_sound_bounds(tree);
        },
        Any::EnumDeclaration(d) => {
            d.name.lemma_sound_bounds(tree);
            d.variants.lemma_sound_bounds(tree);
        },
        Any::FuncDeclaration(d) => {
            d.name.lemma_sound_bounds(tree);
            d.args.lemma_sound_bounds(tree);
            d.return_type.lemma_sound_bounds(tree);
            d.body.lemma_sound_bounds(tree);
        },
        Any::ClassDeclaration(d) => {
            d.name.lemma_sound_bounds(tree);
            d.declarations.lemma_sound_bounds(tree);
        },
        Any::ArrayLiteral(d) => {
            d.members.lemma_sound_bounds(tree);
        },
        Any::DictionaryLiteral(d) => {
            d.entries.lemma_sound_bounds(tree);
        },
        Any::UnaryOperation(d) => {
            d.op.lemma_sound_bounds(tree);
            d.subject.lemma_sound_bounds(tree);
        },
        Any::BinaryOperation(d) => {
            d.op.lemma_sound_bounds(tree);
            d.left.lemma_sound_bounds(tree);
            d.right.lemma_sound_bounds(tree);
        },
        Any::NamedType(d) => {
            d.name.lemma_sound_bounds(tree);
        },
        Any::NonNullType(d) => {
            d.inner.lemma_sound_bounds(tree);
        },
        Any::ArrayType(d) => {
            d.element.lemma_sound_bounds(tree);
        },
        Any::DictionaryType(d) => {
            d.key.lemma_sound_bounds(tree);
            d.value.lemma_sound_bounds(tree);
        },
        Any::ExactDictionaryType(d) => {
            d.entries.lemma_sound_bounds(tree);
        },
        Any::AssignmentStatement(d) => {
            d.target.lemma_sound_bounds(tree);
            d.value.lemma_sound_bounds(tree);
            d.operator.lemma_sound_bounds(tree);
        },
        Any::WhileLoop(d) => {
            d.condition.lemma_sound_bounds(tree);
            d.body.lemma_sound_bounds(tree);
        },
        Any::IfElseStatement(d) => {
            d.conditions.lemma_sound_bounds(tree);
            d.default_outcome.lemma_sound_bounds(tree);
        },
        Any::ForLoop(d) => {
            d.item_name.lemma_sound_bounds(tree);
            d.iteree.lemma_sound_bounds(tree);
            d.body.lemma_sound_bounds(tree);
        },
        Any::Return(d) => {
            d.expr.lemma_sound_bounds(tree);
        },
        Any::Block(d) => {
            d.statements.lemma_sound_bounds(tree);
        },
        _ => {},
    }
}

/// Whether the handles of a node are sound depends on the contents of the
/// nodes that `tree` has, and no node that is added later changes it.
pub proof fn lemma_any_sound_stable(details: Any, tree: &SyntaxTree, later: &SyntaxTree)
    requires
        details.sound(tree),
        later.extends(tree),
    ensures
        details.sound(later),
{
    match details {
        Any::GDScript(d) => {
            d.declarations.lemma_sound_stable(tree, later);
        },
        Any::ExtendsDeclaration(d) => {
            d.extends_class.lemma_sound_stable(tree, later);
        },
        Any::ClassNameDeclaration(d) => {
            d.class_name.lemma_sound_stable(tree, later);
        },
        Any::ValueDeclaration(d) => {
            d.name.lemma_sound_stable(tree, later);
            d.declared_type.lemma_sound_stable(tree, later);
            d.value.lemma_sound_stable(tree, later);
        },
        Any::Annotation(d) => {
            d.name.lemma_sound_stable(tree, later);
            d.arguments.lemma_sound_stable(tree, later);
        },
        Any::EnumDeclaration(d) => {
            d.name.lemma_sound_stable(tree, later);
            d.variants.lemma_sound_stable(tree, later);
        },
        Any::FuncDeclaration(d) => {
            d.name.lemma_sound_stable(tree, later);
            d.args.lemma_sound_stable(tree, later);
            d.return_type.lemma_sound_stable(tree, later);
            d.body.lemma_sound_stable(tree, later);
        },
        Any::ClassDeclaration(d) => {
            d.name.lemma_sound_stable(tree, later);
            d.declarations.lemma_sound_stable(tree, later);
        },
        Any::ArrayLiteral(d) => {
            d.members.lemma_sound_stable(tree, later);
        },
        Any::DictionaryLiteral(d) => {
            d.entries.lemma_sound_stable(tree, later);
        },
        Any::UnaryOperation(d) => {
            d.op.lemma_sound_stable(tree, later);
            d.subject.lemma_sound_stable(tree, later);
        },
        Any::BinaryOperation(d) => {
            d.op.lemma_sound_stable(tree, later);
            d.left.lemma_sound_stable(tree, later);
            d.right.lemma_sound_stable(tree, later);
        },
        Any::NamedType(d) => {
            d.name.lemma_sound_stable(tree, later);
        },
        Any::NonNullType(d) => {
            d.inner.lemma_sound_stable(tree, later);
        },
        Any::ArrayType(d) => {
            d.element.lemma_sound_stable(tree, later);
        },
        Any::DictionaryType(d) => {
            d.key.lemma_sound_stable(tree, later);
            d.value.lemma_sound_stable(tree, later);
        },
        Any::ExactDictionaryType(d) => {
            d.entries.lemma_sound_stable(tree, later);
        },
        Any::AssignmentStatement(d) => {
            d.target.lemma_sound_stable(tree, later);
            d.value.lemma_sound_stable(tree, later);
            d.operator.lemma_sound_stable(tree, later);
        },
        Any::WhileLoop(d) => {
            d.condition.lemma_sound_stable(tree, later);
            d.body.lemma_sound_stable(tree, later);
        },
        Any::IfElseStatement(d) => {
            d.conditions.lemma_sound_stable(tree, later);
            d.default_outcome.lemma_sound_stable(tree, later);
        },
        Any::ForLoop(d) => {
            d.item_name.lemma_sound_stable(tree, later);
            d.iteree.lemma_sound_stable(tree, later);
            d.body.lemma_sound_stable(tree, later);
        },
        Any::Return(d) => {
            d.expr.lemma_sound_stable(tree, later);
        },
        Any::Block(d) => {
            d.statements.lemma_sound_stable(tree, later);
        },
        _ => {},
    }
}

impl Clone for Any {
    fn clone(&self) -> (r: Self)
        ensures
            r.alike(*self),
    {
        match self {
            Any::GDScript(d) => Any::GDScript(
                GDScript {
                    declarations: copy_list(&d.declarations),
                },
            ),
            Any::ExtendsDeclaration(d) => Any::ExtendsDeclaration(
                ExtendsDeclaration {
                    extends_class: d.extends_class,
                },
            ),
            Any::ClassNameDeclaration(d) => Any::ClassNameDeclaration(
                ClassNameDeclaration {
                    class_name: d.class_name,
                },
            ),
            Any::ValueDeclaration(d) => Any::ValueDeclaration(
                ValueDeclaration {
                    is_const: d.is_const,
                    name: d.name,
                    declared_type: d.declared_type,
                    value: d.value,
                },
            ),
            Any::Annotation(d) => Any::Annotation(
                Annotation {
                    name: d.name,
                    arguments: copy_list(&d.arguments),
                },
            ),
            Any::EnumDeclaration(d) => Any::EnumDeclaration(
                EnumDeclaration {
                    name: d.name,
                    variants: copy_list(&d.variants),
                },
            ),
            Any::FuncDeclaration(d) => Any::FuncDeclaration(
                FuncDeclaration {
                    is_static: d.is_static,
                    name: d.name,
                    args: copy_list(&d.args),
                    return_type: d.return_type,
                    body: d.body,
                },
            ),
            Any::ClassDeclaration(d) => Any::ClassDeclaration(
                ClassDeclaration {
                    name: d.name,
                    declarations: copy_list(&d.declarations),
                },
            ),
            Any::NullLiteral(_) => Any::NullLiteral(NullLiteral),
            Any::BooleanLiteral(d) => Any::BooleanLiteral(BooleanLiteral { value: d.value }),
            Any::IntLiteral(d) => Any::IntLiteral(IntLiteral { value_raw: d.value_raw.clone() }),
            Any::FloatLiteral(d) => Any::FloatLiteral(
                FloatLiteral {
                    value_raw: d.value_raw.clone(),
                },
            ),
            Any::StringLiteral(d) => Any::StringLiteral(
                StringLiteral {
                    value: d.value.clone(),
                    multiline: d.multiline,
                },
            ),
            Any::ArrayLiteral(d) => Any::ArrayLiteral(
                ArrayLiteral {
                    members: copy_list(&d.members),
                },
            ),
            Any::DictionaryLiteral(d) => Any::DictionaryLiteral(
                DictionaryLiteral {
                    entries: copy_list(&d.entries),
                },
            ),
            Any::UnaryOperation(d) => Any::UnaryOperation(
                UnaryOperation {
                    op: d.op,
                    subject: d.subject,
                },
            ),
            Any::BinaryOperation(d) => Any::BinaryOperation(
                BinaryOperation {
                    op: d.op,
                    left: d.left,
                    right: d.right,
                },
            ),
            Any::LocalIdentifier(d) => Any::LocalIdentifier(
                LocalIdentifier {
                    name: d.name.clone(),
                },
            ),
            Any::NullType(_) => Any::NullType(NullType),
            Any::BooleanType(_) => Any::BooleanType(BooleanType),
            Any::IntType(_) => Any::IntType(IntType),
            Any::FloatType(_) => Any::FloatType(FloatType),
            Any::StringType(_) => Any::StringType(StringType),
            Any::StringNameType(_) => Any::StringNameType(StringNameType),
            Any::Vector2Type(_) => Any::Vector2Type(Vector2Type),
            Any::Vector2iType(_) => Any::Vector2iType(Vector2iType),
            Any::Vector3Type(_) => Any::Vector3Type(Vector3Type),
            Any::Vector3iType(_) => Any::Vector3iType(Vector3iType),
            Any::Transform2DType(_) => Any::Transform2DType(Transform2DType),
            Any::PlaneType(_) => Any::PlaneType(PlaneType),
            Any::AABBType(_) => Any::AABBType(AABBType),
            Any::BasisType(_) => Any::BasisType(BasisType),
            Any::Transform3DType(_) => Any::Transform3DType(Transform3DType),
            Any::ColorType(_) => Any::ColorType(ColorType),
            Any::NodePathType(_) => Any::NodePathType(NodePathType),
            Any::RIDType(_) => Any::RIDType(RIDType),
            Any::ObjectType(_) => Any::ObjectType(ObjectType),
            Any::NamedType(d) => Any::NamedType(NamedType { name: d.name }),
            Any::NonNullType(d) => Any::NonNullType(NonNullType { inner: d.inner }),
            Any::ArrayType(d) => Any::ArrayType(ArrayType { element: d.element }),
            Any::DictionaryType(d) => Any::DictionaryType(
                DictionaryType {
                    key: d.key,
                    value: d.value,
                },
            ),
            Any::ExactDictionaryType(d) => Any::ExactDictionaryType(
                ExactDictionaryType {
                    entries: copy_list(&d.entries),
                },
            ),
            Any::AssignmentStatement(d) => Any::AssignmentStatement(
                AssignmentStatement {
                    target: d.target,
                    value: d.value,
                    operator: d.operator,
                },
            ),
            Any::MatchStatement(_) => Any::MatchStatement(MatchStatement),
            Any::WhileLoop(d) => Any::WhileLoop(WhileLoop { condition: d.condition, body: d.body }),
            Any::IfElseStatement(d) => Any::IfElseStatement(
                IfElseStatement {
                    conditions: copy_list(&d.conditions),
                    default_outcome: d.default_outcome,
                },
            ),
            Any::ForLoop(d) => Any::ForLoop(
                ForLoop {
                    item_name: d.item_name,
                    iteree: d.iteree,
                    body: d.body,
                },
            ),
            Any::Pass(_) => Any::Pass(Pass),
            Any::Break(_) => Any::Break(Break),
            Any::Return(d) => Any::Return(Return { expr: d.expr }),
            Any::Block(d) => Any::Block(Block { statements: copy_list(&d.statements) }),
            Any::PlainIdentifier(d) => Any::PlainIdentifier(
                PlainIdentifier {
                    name: d.name.clone(),
                },
            ),
            Any::UnaryOperator(op) => Any::UnaryOperator(*op),
            Any::BinaryOperator(op) => Any::BinaryOperator(*op),
        }
    }
}

/// A list with the same items in the same order.
pub fn copy_list<T: Copy>(list: &Vec<T>) -> (r: Vec<T>)
    ensures
        r@ == list@,
{
    let mut out: Vec<T> = Vec::new();
    let mut i: usize = 0;
    while i < list.len()
        invariant
            i <= list.len(),
            out@ == list@.take(i as int),
        decreases list.len() - i,
    {
        out.push(list[i]);
        assert(list@.take(i + 1) == list@.take(i as int).push(list@[i as int]));
        i += 1;
    }
    assert(list@.take(list@.len() as int) == list@);
    out
}

// --- Attachment ---

/// What a field of a node can be: a handle, or handles in an option, a list
/// or a pair; a flag or a piece of text holds none.
pub trait Parentable {
    /// The nodes held, in order.
    spec fn nodes(&self) -> Seq<usize>;

    /// Each handle held names a node of `tree` of the kind that the handle
    /// is tagged with.
    spec fn sound(&self, tree: &SyntaxTree) -> bool;

    /// Appends the nodes held to `out`.
    fn collect(&self, out: &mut Vec<usize>)
        ensures
            final(out)@ == old(out)@ + self.nodes(),
    ;

    /// Whether the handles are sound depends on the contents of the nodes
    /// that `tree` has, and no node that is added later changes it.
    proof fn lemma_sound_stable(&self, tree: &SyntaxTree, later: &SyntaxTree)
        requires
            self.sound(tree),
            later.extends(tree),
        ensures
            self.sound(later),
    ;

    /// Sound handles name nodes of the store.
    proof fn lemma_sound_bounds(&self, tree: &SyntaxTree)
        requires
            self.sound(tree),
        ensures
            forall|k: int| 0 <= k < self.nodes().len() ==> (#[trigger] self.nodes()[k]) < tree@.len(),
    ;
}

/// Names `parent` as the parent of every node that `held` holds.
pub fn set_parent<T: Parentable, TParentKind: Kind>(
    held: &T,
    parent: &AST<TParentKind>,
    tree: &mut SyntaxTree,
)
    requires
        forall|k: int| 0 <= k < held.nodes().len() ==> held.nodes()[k] < old(tree)@.len(),
    ensures
        attached(old(tree)@, final(tree)@, held.nodes(), parent.id),
{
    let mut ids: Vec<usize> = Vec::new();
    held.collect(&mut ids);
    assert(ids@ == held.nodes());
    tree.attach(&ids, parent.id);
}

/// The nodes held by the items of a list, item after item.
pub open spec fn flat<T: Parentable>(items: Seq<T>) -> Seq<usize>
    decreases items.len(),
{
    if items.len() == 0 {
        Seq::empty()
    } else {
        flat(items.drop_last()) + items.last().nodes()
    }
}

/// The nodes held by sound items are nodes of the store.
pub proof fn lemma_flat_bounds<T: Parentable>(items: Seq<T>, tree: &SyntaxTree)
    requires
        forall|i: int| 0 <= i < items.len() ==> (#[trigger] items[i]).sound(tree),
    ensures
        forall|k: int| 0 <= k < flat(items).len() ==> (#[trigger] flat(items)[k]) < tree@.len(),
    decreases items.len(),
{
    if items.len() > 0 {
        let front = items.drop_last();
        assert forall|i: int| 0 <= i < front.len() implies (#[trigger] front[i]).sound(tree) by {
            assert(front[i] == items[i]);
        }
        lemma_flat_bounds(front, tree);
        items.last().lemma_sound_bounds(tree);
        assert forall|k: int| 0 <= k < flat(items).len() implies (#[trigger] flat(items)[k])
            < tree@.len() by {
            if k < flat(front).len() {
                assert(flat(items)[k] == flat(front)[k]);
            } else {
                assert(flat(items)[k] == items.last().nodes()[k - flat(front).len()]);
            }
        }
    }
}

/// A list of handles holds the nodes that the handles name, in order.
pub proof fn lemma_flat_handles<K: Kind>(handles: Seq<AST<K>>)
    ensures
        flat(handles).len() == handles.len(),
        forall|i: int| 0 <= i < handles.len() ==> (#[trigger] flat(handles)[i]) == handles[i].id,
    decreases handles.len(),
{
    if handles.len() > 0 {
        lemma_flat_handles(handles.drop_last());
    }
}

/// What an item of a list holds, the list holds.
pub proof fn lemma_flat_names<T: Parentable>(items: Seq<T>, k: int, j: int)
    requires
        0 <= k < items.len(),
        0 <= j < items[k].nodes().len(),
    ensures
        names(flat(items), items[k].nodes()[j] as int),
    decreases items.len(),
{
    let front = items.drop_last();
    if k == items.len() - 1 {
        assert(flat(items)[flat(front).len() + j] == items[k].nodes()[j]);
    } else {
        lemma_flat_names(front, k, j);
        let m = choose|m: int|
            0 <= m < flat(front).len() && #[trigger] flat(front)[m] == front[k].nodes()[j];
        assert(flat(items)[m] == items[k].nodes()[j]);
    }
}

impl<TKind: Kind> Parentable for AST<TKind> {
    open spec fn nodes(&self) -> Seq<usize> {
        seq![self.id]
    }

    open spec fn sound(&self, tree: &SyntaxTree) -> bool {
        tree.holds(*self)
    }

    fn collect(&self, out: &mut Vec<usize>) {
        out.push(self.id);
    }

    proof fn lemma_sound_stable(&self, tree: &SyntaxTree, later: &SyntaxTree) {
    }

    proof fn lemma_sound_bounds(&self, tree: &SyntaxTree) {
    }
}

impl<T: Parentable> Parentable for Option<T> {
    open spec fn nodes(&self) -> Seq<usize> {
        match self {
            Some(held) => held.nodes(),
            None => Seq::empty(),
        }
    }

    open spec fn sound(&self, tree: &SyntaxTree) -> bool {
        match self {
            Some(held) => held.sound(tree),
            None => true,
        }
    }

    fn collect(&self, out: &mut Vec<usize>) {
        if let Some(held) = self {
            held.collect(out);
        }
    }

    proof fn lemma_sound_stable(&self, tree: &SyntaxTree, later: &SyntaxTree) {
        if let Some(held) = self {
            held.lemma_sound_stable(tree, later);
        }
    }

    proof fn lemma_sound_bounds(&self, tree: &SyntaxTree) {
        if let Some(held) = self {
            held.lemma_sound_bounds(tree);
        }
    }
}

impl<T: Parentable> Parentable for Vec<T> {
    open spec fn nodes(&self) -> Seq<usize> {
        flat(self@)
    }

    open spec fn sound(&self, tree: &SyntaxTree) -> bool {
        forall|i: int| 0 <= i < self@.len() ==> (#[trigger] self@[i]).sound(tree)
    }

    fn collect(&self, out: &mut Vec<usize>) {
        let mut i: usize = 0;
        while i < self.len()
            invariant
                i <= self.len(),
                out@ == old(out)@ + flat(self@.take(i as int)),
            decreases self.len() - i,
        {
            self[i].collect(out);
            assert(self@.take(i + 1).drop_last() == self@.take(i as int));
            i += 1;
        }
        assert(self@.take(self@.len() as int) == self@);
    }

    proof fn lemma_sound_stable(&self, tree: &SyntaxTree, later: &SyntaxTree) {
        assert forall|i: int| 0 <= i < self@.len() implies (#[trigger] self@[i]).sound(later) by {
            self@[i].lemma_sound_stable(tree, later);
        }
    }

    proof fn lemma_sound_bounds(&self, tree: &SyntaxTree) {
        lemma_flat_bounds(self@, tree);
    }
}

impl<T: Parentable, U: Parentable> Parentable for (T, U) {
    open spec fn nodes(&self) -> Seq<usize> {
        self.0.nodes() + self.1.nodes()
    }

    open spec fn sound(&self, tree: &SyntaxTree) -> bool {
        self.0.sound(tree) && self.1.sound(tree)
    }

    fn collect(&self, out: &mut Vec<usize>) {
        self.0.collect(out);
        self.1.collect(out);
    }

    proof fn lemma_sound_stable(&self, tree: &SyntaxTree, later: &SyntaxTree) {
        self.0.lemma_sound_stable(tree, later);
        self.1.lemma_sound_stable(tree, later);
    }

    proof fn lemma_sound_bounds(&self, tree: &SyntaxTree) {
        self.0.lemma_sound_bounds(tree);
        self.1.lemma_sound_bounds(tree);
    }
}

impl Parentable for bool {
    open spec fn nodes(&self) -> Seq<usize> {
        Seq::empty()
    }

    open spec fn sound(&self, tree: &SyntaxTree) -> bool {
        true
    }

    fn collect(&self, out: &mut Vec<usize>) {
    }

    proof fn lemma_sound_stable(&self, tree: &SyntaxTree, later: &SyntaxTree) {
    }

    proof fn lemma_sound_bounds(&self, tree: &SyntaxTree) {
    }
}

impl Parentable for Slice {
    open spec fn nodes(&self) -> Seq<usize> {
        Seq::empty()
    }

    open spec fn sound(&self, tree: &SyntaxTree) -> bool {
        true
    }

    fn collect(&self, out: &mut Vec<usize>) {
    }

    proof fn lemma_sound_stable(&self, tree: &SyntaxTree, later: &SyntaxTree) {
    }

    proof fn lemma_sound_bounds(&self, tree: &SyntaxTree) {
    }
}

// --- The store ---

/// The nodes of one script. A node is named by its place in `nodes`; a node
/// that holds others comes after them.
#[derive(Debug, PartialEq)]
pub struct SyntaxTree {
    pub nodes: Vec<ASTInner>,
}

impl View for SyntaxTree {
    type V = Seq<ASTInner>;

    open spec fn view(&self) -> Seq<ASTInner> {
        self.nodes@
    }
}

impl SyntaxTree {
    /// `id` names a node.
    pub open spec fn has(&self, id: int) -> bool {
        0 <= id < self@.len()
    }

    pub open spec fn details_of(&self, id: int) -> Any {
        self@[id].details
    }

    pub open spec fn span_of(&self, id: int) -> Slice {
        self@[id].slice
    }

    /// The node that holds `id`; nothing while `id` is unattached, and
    /// nothing where the record points outside the store.
    pub open spec fn parent_of(&self, id: int) -> Option<int> {
        match self@[id].parent {
            Some(p) => if p < self@.len() {
                Some(p as int)
            } else {
                None
            },
            None => None,
        }
    }

    /// `handle` names a node of the kind that it is tagged with.
    pub open spec fn holds<K: Kind>(&self, handle: AST<K>) -> bool {
        self.has(handle.id as int) && K::narrow(self.details_of(handle.id as int)) is Some
    }

    /// `self` has every node of `earlier`, with the same contents and the
    /// same place in the text; which node holds which may differ.
    pub open spec fn extends(&self, earlier: &SyntaxTree) -> bool {
        &&& earlier@.len() <= self@.len()
        &&& forall|i: int|
            0 <= i < earlier@.len() ==> (#[trigger] self@[i]).details == earlier@[i].details
                && self@[i].slice == earlier@[i].slice
    }

    /// Node `i` is well placed: its handles are sound, the nodes it holds
    /// come before it and name it as their parent, and its own parent comes
    /// after it and holds it.
    pub open spec fn node_ok(&self, i: int) -> bool {
        let held = self.details_of(i).children();
        &&& self.details_of(i).sound(self)
        &&& forall|k: int|
            0 <= k < held.len() ==> (#[trigger] held[k]) < i && self@[held[k] as int].parent
                == Some(i as usize)
        &&& self@[i].parent matches Some(p) ==> i < p < self@.len() && names(
            self.details_of(p as int).children(),
            i,
        )
    }

    /// A node that `i` holds comes before `i` and has `i` as its parent.
    pub proof fn lemma_held(&self, i: int, c: int)
        requires
            self.wf(),
            self.has(i),
            names(self.details_of(i).children(), c),
        ensures
            0 <= c < i,
            self@[c].parent == Some(i as usize),
    {
        assert(self.node_ok(i));
    }

    /// Every node is well placed. Then the store holds trees: no node is
    /// reached from itself, and each has at most one parent.
    pub open spec fn wf(&self) -> bool {
        forall|i: int| self.has(i) ==> #[trigger] self.node_ok(i)
    }

    /// Walking from `b` to its parent, and on, arrives at `a`.
    pub open spec fn reaches(&self, a: int, b: int) -> bool
        decreases self@.len() - b,
    {
        b == a || match self.parent_of(b) {
            Some(p) => b < p && self.reaches(a, p),
            None => false,
        }
    }

    /// The nearest node of kind `K`, from `id` upward.
    pub open spec fn nearest<K: Kind>(&self, id: int) -> Option<int>
        decreases self@.len() - id,
    {
        if K::narrow(self.details_of(id)) is Some {
            Some(id)
        } else {
            match self.parent_of(id) {
                Some(p) => if id < p {
                    self.nearest::<K>(p)
                } else {
                    None
                },
                None => None,
            }
        }
    }

    /// The span of every node is a piece of text of `code`.
    pub open spec fn sourced(&self, code: Slice) -> bool {
        forall|i: int| self.has(i) ==> within(code, #[trigger] self.span_of(i))
    }

    /// The span of every node covers the span of each node that it holds.
    pub open spec fn covered(&self) -> bool {
        forall|i: int, k: int|
            self.has(i) && 0 <= k < self.details_of(i).children().len() ==> covers(
                self.span_of(i),
                self.span_of(#[trigger] self.details_of(i).children()[k] as int),
            )
    }

    /// A store without nodes.
    pub fn new() -> (r: Self)
        ensures
            r@.len() == 0,
            r.wf(),
            r.covered(),
    {
        SyntaxTree { nodes: Vec::new() }
    }

    /// Number of nodes.
    pub fn len(&self) -> (r: usize)
        ensures
            r == self@.len(),
    {
        self.nodes.len()
    }

    /// Names `parent` as the parent of each node of `ids`.
    pub fn attach(&mut self, ids: &Vec<usize>, parent: usize)
        requires
            forall|k: int| 0 <= k < ids@.len() ==> ids@[k] < old(self)@.len(),
        ensures
            attached(old(self)@, final(self)@, ids@, parent),
    {
        let mut k: usize = 0;
        while k < ids.len()
            invariant
                k <= ids.len(),
                forall|j: int| 0 <= j < ids@.len() ==> ids@[j] < self@.len(),
                attached(old(self)@, self@, ids@.take(k as int), parent),
            decreases ids.len() - k,
        {
            let id = ids[k];
            let ghost before = self@;
            self.nodes[id].parent = Some(parent);
            proof {
                assert(self@.len() == before.len());
                assert(self@[id as int].parent == Some(parent));
                assert(self@[id as int].details == before[id as int].details);
                assert(forall|i: int| 0 <= i < before.len() && i != id ==> self@[i] == before[i]);
                assert(ids@.take(k + 1) == ids@.take(k as int).push(id));
                let grown = ids@.take(k + 1);
                let so_far = ids@.take(k as int);
                assert(grown == so_far.push(id));
                assert forall|i: int| 0 <= i < before.len() implies {
                    &&& (#[trigger] self@[i]).slice == old(self)@[i].slice
                    &&& self@[i].details == old(self)@[i].details
                    &&& self@[i].parent == if names(grown, i) {
                        Some(parent)
                    } else {
                        old(self)@[i].parent
                    }
                } by {
                    assert(before[i].slice == old(self)@[i].slice);
                    if i == id {
                        assert(grown[k as int] == id);
                    } else {
                        assert(self@[i] == before[i]);
                        if names(grown, i) {
                            let j = choose|j: int| 0 <= j < grown.len() && #[trigger] grown[j] == i;
                            assert(j != k);
                            assert(so_far[j] == i);
                        }
                        if names(so_far, i) {
                            let j = choose|j: int|
                                0 <= j < so_far.len() && #[trigger] so_far[j] == i;
                            assert(grown[j] == i);
                        }
                    }
                }
            }
            k += 1;
        }
        assert(ids@.take(ids@.len() as int) == ids@);
    }

    /// Adds a node with the given contents and span, and names it as the
    /// parent of every node that it holds.
    pub fn make_node<K: Kind>(&mut self, payload: K, src: Slice) -> (r: AST<K>)
        requires
            old(self).wf(),
            payload.widen().sound(old(self)),
            forall|k: int|
                0 <= k < payload.widen().children().len() ==> old(self)@[
                    (#[trigger] payload.widen().children()[k]) as int
                ].parent is None,
        ensures
            final(self).wf(),
            final(self)@.len() == old(self)@.len() + 1,
            r.id == old(self)@.len(),
            final(self).holds(r),
            final(self).details_of(r.id as int) == payload.widen(),
            final(self).span_of(r.id as int) == src,
            final(self)@[r.id as int].parent is None,
            attached(
                old(self)@,
                final(self)@.take(old(self)@.len() as int),
                payload.widen().children(),
                r.id,
            ),
            forall|i: int|
                0 <= i < old(self)@.len() && !names(payload.widen().children(), i) ==> (
                #[trigger] final(self)@[i]) == old(self)@[i],
            old(self).covered() && (forall|k: int|
                0 <= k < payload.widen().children().len() ==> covers(
                    src,
                    old(self).span_of(#[trigger] payload.widen().children()[k] as int),
                )) ==> final(self).covered(),
    {
        let details = payload.into_any();
        let ids = details.child_ids();
        let id = self.nodes.len();
        proof {
            K::lemma_widen_narrow(payload);
            lemma_any_sound_bounds(details, old(self));
        }
        self.nodes.push(ASTInner { parent: None, slice: src, details });
        let ghost pushed = *self;
        self.attach(&ids, id);
        proof {
            let old_tree = old(self);
            assert(self.extends(old_tree));
            assert forall|i: int| self.has(i) implies #[trigger] self.node_ok(i) by {
                if i < id {
                    assert(old_tree.node_ok(i));
                }
                lemma_any_sound_stable(self.details_of(i), old_tree, self);
            }
            assert forall|i: int|
                0 <= i < old_tree@.len() && !names(payload.widen().children(), i) implies (
            #[trigger] self@[i]) == old_tree@[i] by {
                let now = self@.take(id as int)[i];
                assert(now.parent == old_tree@[i].parent);
                assert(now.slice == old_tree@[i].slice);
                assert(now.details == old_tree@[i].details);
            }
            if old_tree.covered() && (forall|k: int|
                0 <= k < payload.widen().children().len() ==> covers(
                    src,
                    old_tree.span_of(#[trigger] payload.widen().children()[k] as int),
                )) {
                assert forall|i: int, k: int|
                    self.has(i) && 0 <= k < self.details_of(i).children().len() implies covers(
                    self.span_of(i),
                    self.span_of(#[trigger] self.details_of(i).children()[k] as int),
                ) by {
                    let c = self.details_of(i).children()[k] as int;
                    assert(self.node_ok(i));
                    if i < id {
                        assert(covers(old_tree.span_of(i), old_tree.span_of(
                            old_tree.details_of(i).children()[k] as int,
                        )));
                    }
                }
            }
        }
        AST { id, kind: PhantomData }
    }
}

/// `span` is a piece of text of `code`: a range of the same text, inside
/// `code`, that starts and ends between characters.
pub open spec fn within(code: Slice, span: Slice) -> bool {
    &&& span.full_string == code.full_string
    &&& span.wf()
    &&& code.start <= span.start
    &&& span.end <= code.end
}

/// `outer` covers `inner`.
pub open spec fn covers(outer: Slice, inner: Slice) -> bool {
    outer.start <= inner.start && inner.end <= outer.end
}

/// `after` is `before` with `parent` named as the parent of each node of `ids`.
pub open spec fn attached(
    before: Seq<ASTInner>,
    after: Seq<ASTInner>,
    ids: Seq<usize>,
    parent: usize,
) -> bool {
    &&& after.len() == before.len()
    &&& forall|i: int|
        0 <= i < before.len() ==> {
            &&& (#[trigger] after[i]).slice == before[i].slice
            &&& after[i].details == before[i].details
            &&& after[i].parent == if names(ids, i) {
                Some(parent)
            } else {
                before[i].parent
            }
        }
}

/// `ids` lists the node `i`.
pub open spec fn names(ids: Seq<usize>, i: int) -> bool {
    exists|k: int| 0 <= k < ids.len() && #[trigger] ids[k] == i
}

// --- Handles ---

impl<TKind: Kind> AST<TKind> {
    /// The handle that names node `id`.
    pub fn at(id: usize) -> (r: Self)
        ensures
            r.id == id,
    {
        AST { id, kind: PhantomData }
    }

    /// The contents of the node, whatever its kind.
    pub fn details<'a>(&self, tree: &'a SyntaxTree) -> (r: &'a Any)
        requires
            tree.has(self.id as int),
        ensures
            *r == tree.details_of(self.id as int),
    {
        &tree.nodes[self.id].details
    }

    /// The source text that the node was read from.
    pub fn slice<'a>(&self, tree: &'a SyntaxTree) -> (r: &'a Slice)
        requires
            tree.has(self.id as int),
        ensures
            *r == tree.span_of(self.id as int),
    {
        &tree.nodes[self.id].slice
    }

    /// Whether both handles name the same node.
    pub fn ptr_eq<TOtherKind: Kind>(&self, other: &AST<TOtherKind>) -> (r: bool)
        ensures
            r == (self.id == other.id),
    {
        self.id == other.id
    }

    /// The node that holds this one; nothing for a node that is unattached
    /// or whose parent is no longer there.
    pub fn parent(&self, tree: &SyntaxTree) -> (r: Option<ASTAny>)
        requires
            tree.has(self.id as int),
        ensures
            match r {
                Some(p) => tree.parent_of(self.id as int) == Some(p.id as int),
                None => tree.parent_of(self.id as int) is None,
            },
    {
        match tree.nodes[self.id].parent {
            Some(p) => if p < tree.nodes.len() {
                Some(AST { id: p, kind: PhantomData })
            } else {
                None
            },
            None => None,
        }
    }

    /// The contents of the node as a value of the kind that the handle is
    /// tagged with.
    pub fn downcast(&self, tree: &SyntaxTree) -> (r: TKind)
        requires
            tree.holds(*self),
        ensures
            r.widen().alike(tree.details_of(self.id as int)),
    {
        let copy = tree.nodes[self.id].details.clone();
        proof {
            TKind::lemma_same_member(copy, tree.details_of(self.id as int));
            TKind::lemma_narrow_widen(copy);
        }
        match TKind::try_from_any(copy) {
            Some(payload) => payload,
            None => vstd::pervasive::unreached(),
        }
    }

    /// Whether `other` is this node or lies below it.
    pub fn contains(&self, tree: &SyntaxTree, other: &AST<Any>) -> (r: bool)
        requires
            tree.wf(),
            tree.has(other.id as int),
        ensures
            r == tree.reaches(self.id as int, other.id as int),
    {
        let mut current = other.id;
        loop
            invariant
                tree.wf(),
                tree.has(current as int),
                tree.reaches(self.id as int, other.id as int) == tree.reaches(
                    self.id as int,
                    current as int,
                ),
            decreases tree@.len() - current,
        {
            if current == self.id {
                return true;
            }
            assert(tree.node_ok(current as int));
            match tree.nodes[current].parent {
                Some(p) => {
                    current = p;
                },
                None => {
                    return false;
                },
            }
        }
    }

    /// The contents of the node as a value of another kind, where the node
    /// is of that kind.
    pub fn try_downcast<TExpected: Kind>(&self, tree: &SyntaxTree) -> (r: Option<TExpected>)
        requires
            tree.has(self.id as int),
        ensures
            r is Some <==> TExpected::narrow(tree.details_of(self.id as int)) is Some,
            r matches Some(payload) ==> payload.widen().alike(tree.details_of(self.id as int)),
    {
        let copy = tree.nodes[self.id].details.clone();
        proof {
            TExpected::lemma_same_member(copy, tree.details_of(self.id as int));
            TExpected::lemma_narrow_widen(copy);
        }
        TExpected::try_from_any(copy)
    }

    /// The same node, under the tag of the whole union.
    pub fn upcast(self) -> (r: ASTAny)
        ensures
            r.id == self.id,
    {
        AST { id: self.id, kind: PhantomData }
    }

    /// The same node under the tag of a kind that every node of this kind
    /// belongs to. Nothing is looked at.
    pub fn recast<TExpected: Kind + From<TKind>>(self) -> (r: AST<TExpected>)
        ensures
            r.id == self.id,
    {
        AST { id: self.id, kind: PhantomData }
    }

    /// The same node under another tag, where the node is of that kind.
    pub fn try_recast<TExpected: Kind>(self, tree: &SyntaxTree) -> (r: Option<AST<TExpected>>)
        requires
            tree.has(self.id as int),
        ensures
            match r {
                Some(handle) => handle.id == self.id && tree.holds(handle),
                None => TExpected::narrow(tree.details_of(self.id as int)) is None,
            },
    {
        match self.try_downcast::<TExpected>(tree) {
            Some(_) => Some(AST { id: self.id, kind: PhantomData }),
            None => None,
        }
    }
}

impl AST<Any> {
    /// The nearest node, from this one upward, that `f` accepts.
    pub fn find_parent<F: Fn(&AST<Any>) -> bool>(&self, tree: &SyntaxTree, f: F) -> (r: Option<
        AST<Any>,
    >)
        requires
            tree.wf(),
            tree.has(self.id as int),
            forall|n: AST<Any>| tree.reaches(n.id as int, self.id as int) ==> f.requires((&n,)),
        ensures
            match r {
                Some(found) => {
                    &&& tree.reaches(found.id as int, self.id as int)
                    &&& f.ensures((&found,), true)
                    &&& forall|n: AST<Any>|
                        tree.reaches(n.id as int, self.id as int) && tree.reaches(
                            found.id as int,
                            n.id as int,
                        ) && n.id != found.id ==> f.ensures((&n,), false)
                },
                None => forall|n: AST<Any>|
                    tree.reaches(n.id as int, self.id as int) ==> f.ensures((&n,), false),
            },
    {
        let mut current: AST<Any> = *self;
        loop
            invariant
                tree.wf(),
                tree.has(current.id as int),
                tree.reaches(current.id as int, self.id as int),
                forall|n: AST<Any>| tree.reaches(n.id as int, self.id as int) ==> f.requires((&n,)),
                forall|n: AST<Any>|
                    tree.reaches(n.id as int, self.id as int) && !tree.reaches(
                        n.id as int,
                        current.id as int,
                    ) ==> f.ensures((&n,), false),
            decreases tree@.len() - current.id,
        {
            if f(&current) {
                proof {
                    assert forall|n: AST<Any>|
                        tree.reaches(n.id as int, self.id as int) && tree.reaches(
                            current.id as int,
                            n.id as int,
                        ) && n.id != current.id implies f.ensures((&n,), false) by {
                        lemma_reaches_up(tree, current.id as int, n.id as int);
                        if tree.reaches(n.id as int, current.id as int) {
                            lemma_reaches_up(tree, n.id as int, current.id as int);
                        }
                    }
                }
                return Some(current);
            }
            assert(tree.node_ok(current.id as int));
            match tree.nodes[current.id].parent {
                Some(p) => {
                    proof {
                        lemma_reaches_step(tree, current.id as int, self.id as int);
                        assert forall|n: AST<Any>|
                            tree.reaches(n.id as int, self.id as int) && !tree.reaches(
                                n.id as int,
                                p as int,
                            ) implies f.ensures((&n,), false) by {
                            if n.id == current.id {
                                assert(n == current);
                            }
                        }
                    }
                    current = AST { id: p, kind: PhantomData };
                },
                None => {
                    proof {
                        assert forall|n: AST<Any>|
                            tree.reaches(n.id as int, self.id as int) implies f.ensures(
                            (&n,),
                            false,
                        ) by {
                            if n.id == current.id {
                                assert(n == current);
                            } else {
                                lemma_reaches_chain(
                                    tree,
                                    n.id as int,
                                    current.id as int,
                                    self.id as int,
                                );
                            }
                        }
                    }
                    return None;
                },
            }
        }
    }

    /// The nearest node of kind `TExpected`, from this one upward.
    pub fn find_parent_of_type<TExpected: Kind>(&self, tree: &SyntaxTree) -> (r: Option<
        AST<TExpected>,
    >)
        requires
            tree.wf(),
            tree.has(self.id as int),
        ensures
            match r {
                Some(found) => tree.nearest::<TExpected>(self.id as int) == Some(found.id as int),
                None => tree.nearest::<TExpected>(self.id as int) is None,
            },
    {
        let mut current = self.id;
        loop
            invariant
                tree.wf(),
                tree.has(current as int),
                tree.nearest::<TExpected>(self.id as int) == tree.nearest::<TExpected>(
                    current as int,
                ),
            decreases tree@.len() - current,
        {
            let here: AST<Any> = AST { id: current, kind: PhantomData };
            if let Some(found) = here.try_recast::<TExpected>(tree) {
                return Some(found);
            }
            assert(tree.node_ok(current as int));
            match tree.nodes[current].parent {
                Some(p) => {
                    current = p;
                },
                None => {
                    return None;
                },
            }
        }
    }
}

/// What can be made into a node.
pub trait WithSlice: Kind {
    /// Adds a node with `self` as its contents and `src` as its span, held
    /// by no node yet, and holding none yet: `set_parent` attaches what it
    /// is to hold.
    fn as_ast(self, src: Slice, tree: &mut SyntaxTree) -> (r: AST<Self>)
        ensures
            r.id == old(tree)@.len(),
            final(tree)@ == old(tree)@.push(
                (ASTInner { parent: None, slice: src, details: self.widen() }),
            ),
    ;
}

impl<TKind: Kind> WithSlice for TKind {
    fn as_ast(self, src: Slice, tree: &mut SyntaxTree) -> (r: AST<Self>) {
        let id = tree.nodes.len();
        let details = self.into_any();
        tree.nodes.push(ASTInner { parent: None, slice: src, details });
        AST { id, kind: PhantomData }
    }
}

/// The span from the first node of a list to its last; nothing for an
/// empty list.
pub fn covering<TKind: Kind>(tree: &SyntaxTree, vec: &Vec<AST<TKind>>) -> (r: Option<Slice>)
    requires
        forall|i: int| 0 <= i < vec@.len() ==> tree.has(vec@[i].id as int),
    ensures
        match r {
            None => vec@.len() == 0,
            Some(span) => vec@.len() > 0 && span == tree.span_of(vec@[0].id as int).spec_join(
                tree.span_of(vec@[vec@.len() - 1].id as int),
            ),
        },
{
    if vec.len() == 0 {
        None
    } else {
        let first = vec[0].slice(tree).clone();
        Some(first.join(vec[vec.len() - 1].slice(tree)))
    }
}

/// A string literal that spells the name of `ast`, at the same place.
pub fn identifier_to_string(tree: &mut SyntaxTree, ast: AST<PlainIdentifier>) -> (r: AST<
    StringLiteral,
>)
    requires
        old(tree).wf(),
        old(tree).holds(ast),
    ensures
        final(tree).wf(),
        final(tree).holds(r),
        r.id == old(tree)@.len(),
        final(tree)@ == old(tree)@.push(final(tree)@[r.id as int]),
        final(tree)@[r.id as int].parent is None,
        final(tree).span_of(r.id as int) == old(tree).span_of(ast.id as int),
        old(tree).details_of(ast.id as int) matches Any::PlainIdentifier(named)
            && final(tree).details_of(r.id as int) == Any::StringLiteral(
            (StringLiteral { value: named.name, multiline: false }),
        ),
{
    let named = ast.downcast(tree);
    let src = ast.slice(tree).clone();
    let literal = StringLiteral { value: named.name, multiline: false };
    let made = tree.make_node(literal, src);
    proof {
        let n = old(tree)@.len() as int;
        assert forall|i: int| 0 <= i < n implies tree@[i] == old(tree)@[i] by {
            let now = tree@.take(n)[i];
            assert(now.parent == old(tree)@[i].parent);
            assert(now.slice == old(tree)@[i].slice);
            assert(now.details == old(tree)@[i].details);
        }
        assert(tree@ =~= old(tree)@.push(tree@[made.id as int]));
    }
    made
}

// --- What holds of every tree ---

/// A cast changes the tag of a handle and nothing else, so the contents
/// read through the handle before and after it are alike: where `first` is
/// what `downcast` gave before a `recast` or `upcast` and `second` is what
/// it gives after, into a kind that the node belongs to, the two are the
/// same member of the union with the same contents.
pub proof fn lemma_cast_keeps_payload<K: Kind, G: Kind>(
    tree: &SyntaxTree,
    handle: AST<K>,
    cast: AST<G>,
    first: K,
    second: G,
)
    requires
        tree.holds(handle),
        tree.holds(cast),
        cast.id == handle.id,
        first.widen().alike(tree.details_of(handle.id as int)),
        second.widen().alike(tree.details_of(cast.id as int)),
    ensures
        second.widen().alike(first.widen()),
        G::narrow(first.widen()) is Some,
{
    G::lemma_same_member(first.widen(), tree.details_of(handle.id as int));
}

/// Where every node but the last has a parent, every node lies below the
/// last: the store is one tree, and the last node is its root.
pub proof fn lemma_one_tree(tree: &SyntaxTree, id: int)
    requires
        tree.wf(),
        tree.has(id),
        forall|i: int| 0 <= i < tree@.len() - 1 ==> (#[trigger] tree@[i]).parent is Some,
    ensures
        tree.reaches(tree@.len() - 1, id),
    decreases tree@.len() - id,
{
    if id != tree@.len() - 1 {
        assert(tree.node_ok(id));
        lemma_one_tree(tree, tree.parent_of(id)->0);
    }
}

/// Two nodes of which neither lies above the other head disjoint
/// subtrees: no node lies below both.
pub proof fn lemma_disjoint_subtrees(tree: &SyntaxTree, a: int, b: int, x: int)
    requires
        !tree.reaches(a, b),
        !tree.reaches(b, a),
        tree.reaches(a, x),
    ensures
        !tree.reaches(b, x),
{
    if tree.reaches(b, x) {
        lemma_reaches_chain(tree, a, b, x);
    }
}

/// Where every node covers the nodes it holds, it covers every node
/// below it.
pub proof fn lemma_covers_below(tree: &SyntaxTree, a: int, b: int)
    requires
        tree.wf(),
        tree.covered(),
        tree.has(b),
        tree.reaches(a, b),
    ensures
        covers(tree.span_of(a), tree.span_of(b)),
    decreases tree@.len() - b,
{
    if b != a {
        let p = tree.parent_of(b)->0;
        assert(tree.node_ok(b));
        let held = tree.details_of(p).children();
        let k = choose|k: int| 0 <= k < held.len() && #[trigger] held[k] == b;
        assert(covers(tree.span_of(p), tree.span_of(held[k] as int)));
        lemma_covers_below(tree, a, p);
    }
}

/// Above a node with a parent lies what lies above the parent, and the
/// node itself.
pub proof fn lemma_reaches_step(tree: &SyntaxTree, a: int, b: int)
    requires
        tree.wf(),
        tree.has(a),
        tree.reaches(a, b),
        tree.parent_of(a) is Some,
    ensures
        tree.reaches(tree.parent_of(a)->0, b),
    decreases tree@.len() - b,
{
    if b != a {
        lemma_reaches_step(tree, a, tree.parent_of(b)->0);
    } else {
        assert(tree.node_ok(a));
        let p = tree.parent_of(a)->0;
        assert(tree.reaches(p, p));
    }
}

/// A node that lies above another comes after it in the store.
pub proof fn lemma_reaches_up(tree: &SyntaxTree, a: int, b: int)
    requires
        tree.reaches(a, b),
    ensures
        b <= a,
    decreases tree@.len() - b,
{
    if b != a {
        lemma_reaches_up(tree, a, tree.parent_of(b)->0);
    }
}

/// Of two nodes that lie above a third, one lies above the other: what
/// lies above a node forms a chain.
pub proof fn lemma_reaches_chain(tree: &SyntaxTree, a: int, b: int, c: int)
    requires
        tree.reaches(a, c),
        tree.reaches(b, c),
    ensures
        tree.reaches(a, b) || tree.reaches(b, a),
    decreases tree@.len() - c,
{
    if c != a && c != b {
        lemma_reaches_chain(tree, a, b, tree.parent_of(c)->0);
    }
}

// --- Operators as text ---

impl UnaryOperator {
    /// The operator as source text writes it.
    pub open spec fn symbol(self) -> Seq<char> {
        match self {
            UnaryOperator::BitwiseNot => "~"@,
            UnaryOperator::Negative => "-"@,
            UnaryOperator::Not => "!"@,
        }
    }

    /// The operator as source text writes it.
    pub fn as_static_str(self) -> (r: &'static str)
        ensures
            r@ == self.symbol(),
    {
        match self {
            UnaryOperator::BitwiseNot => "~",
            UnaryOperator::Negative => "-",
            UnaryOperator::Not => "!",
        }
    }

    /// The operator that source text writes as `s`.
    pub fn from_str(s: &str) -> (r: Option<UnaryOperator>)
        ensures
            match r {
                Some(op) => s@ == op.symbol(),
                None => forall|op: UnaryOperator| s@ != op.symbol(),
            },
    {
        if same_str(s, "~") {
            Some(UnaryOperator::BitwiseNot)
        } else if same_str(s, "-") {
            Some(UnaryOperator::Negative)
        } else if same_str(s, "!") {
            Some(UnaryOperator::Not)
        } else {
            None
        }
    }
}

impl BinaryOperator {
    /// The operator as source text writes it.
    pub open spec fn symbol(self) -> Seq<char> {
        match self {
            BinaryOperator::Is => "is"@,
            BinaryOperator::DoubleStar => "**"@,
            BinaryOperator::Star => "*"@,
            BinaryOperator::Slash => "/"@,
            BinaryOperator::Percent => "%"@,
            BinaryOperator::Plus => "+"@,
            BinaryOperator::Minus => "-"@,
            BinaryOperator::ShiftLeft => "<<"@,
            BinaryOperator::ShiftRight => ">>"@,
            BinaryOperator::BitwiseAnd => "&"@,
            BinaryOperator::BitwiseXor => "^"@,
            BinaryOperator::BitwiseOr => "|"@,
            BinaryOperator::Less => "<"@,
            BinaryOperator::Greater => ">"@,
            BinaryOperator::Equals => "=="@,
            BinaryOperator::NotEquals => "!="@,
            BinaryOperator::GreaterEqual => ">="@,
            BinaryOperator::LessEqual => "<="@,
            BinaryOperator::In => "in"@,
            BinaryOperator::And => "and"@,
            BinaryOperator::Or => "or"@,
            BinaryOperator::As => "as"@,
        }
    }

    /// The operator as source text writes it.
    pub fn as_static_str(self) -> (r: &'static str)
        ensures
            r@ == self.symbol(),
    {
        match self {
            BinaryOperator::Is => "is",
            BinaryOperator::DoubleStar => "**",
            BinaryOperator::Star => "*",
            BinaryOperator::Slash => "/",
            BinaryOperator::Percent => "%",
            BinaryOperator::Plus => "+",
            BinaryOperator::Minus => "-",
            BinaryOperator::ShiftLeft => "<<",
            BinaryOperator::ShiftRight => ">>",
            BinaryOperator::BitwiseAnd => "&",
            BinaryOperator::BitwiseXor => "^",
            BinaryOperator::BitwiseOr => "|",
            BinaryOperator::Less => "<",
            BinaryOperator::Greater => ">",
            BinaryOperator::Equals => "==",
            BinaryOperator::NotEquals => "!=",
            BinaryOperator::GreaterEqual => ">=",
            BinaryOperator::LessEqual => "<=",
            BinaryOperator::In => "in",
            BinaryOperator::And => "and",
            BinaryOperator::Or => "or",
            BinaryOperator::As => "as",
        }
    }

    /// The operator that source text writes as `s`.
    pub fn from_str(s: &str) -> (r: Option<BinaryOperator>)
        ensures
            match r {
                Some(op) => s@ == op.symbol(),
                None => forall|op: BinaryOperator| s@ != op.symbol(),
            },
    {
        if same_str(s, "is") {
            Some(BinaryOperator::Is)
        } else if same_str(s, "**") {
            Some(BinaryOperator::DoubleStar)
        } else if same_str(s, "*") {
            Some(BinaryOperator::Star)
        } else if same_str(s, "/") {
            Some(BinaryOperator::Slash)
        } else if same_str(s, "%") {
            Some(BinaryOperator::Percent)
        } else if same_str(s, "+") {
            Some(BinaryOperator::Plus)
        } else if same_str(s, "-") {
            Some(BinaryOperator::Minus)
        } else if same_str(s, "<<") {
            Some(BinaryOperator::ShiftLeft)
        } else if same_str(s, ">>") {
            Some(BinaryOperator::ShiftRight)
        } else if same_str(s, "&") {
            Some(BinaryOperator::BitwiseAnd)
        } else if same_str(s, "^") {
            Some(BinaryOperator::BitwiseXor)
        } else if same_str(s, "|") {
            Some(BinaryOperator::BitwiseOr)
        } else if same_str(s, "<") {
            Some(BinaryOperator::Less)
        } else if same_str(s, ">") {
            Some(BinaryOperator::Greater)
        } else if same_str(s, "==") {
            Some(BinaryOperator::Equals)
        } else if same_str(s, "!=") {
            Some(BinaryOperator::NotEquals)
        } else if same_str(s, ">=") {
            Some(BinaryOperator::GreaterEqual)
        } else if same_str(s, "<=") {
            Some(BinaryOperator::LessEqual)
        } else if same_str(s, "in") {
            Some(BinaryOperator::In)
        } else if same_str(s, "and") {
            Some(BinaryOperator::And)
        } else if same_str(s, "or") {
            Some(BinaryOperator::Or)
        } else if same_str(s, "as") {
            Some(BinaryOperator::As)
        } else {
            None
        }
    }
}

} // verus!

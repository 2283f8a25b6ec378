//! The conversions that cannot fail: from a kind of node to each group
//! that it belongs to, and from every kind to the whole union.

use vstd::prelude::*;
use vstd::std_specs::convert::FromSpecImpl;
use crate::gdscript::ast::{
    AABBType,
    Annotation,
    Any,
    ArrayLiteral,
    ArrayType,
    AssignmentStatement,
    BasisType,
    BinaryOperation,
    BinaryOperator,
    Block,
    BooleanLiteral,
    BooleanType,
    Break,
    ClassDeclaration,
    ClassNameDeclaration,
    ColorType,
    Declaration,
    DictionaryLiteral,
    DictionaryType,
    EnumDeclaration,
    ExactDictionaryType,
    Expression,
    ExtendsDeclaration,
    FloatLiteral,
    FloatType,
    ForLoop,
    FuncDeclaration,
    GDScript,
    IfElseStatement,
    IntLiteral,
    IntType,
    LocalIdentifier,
    MatchStatement,
    NamedType,
    NodePathType,
    NonNullType,
    NullLiteral,
    NullType,
    ObjectType,
    Pass,
    PlainIdentifier,
    PlaneType,
    RIDType,
    Return,
    Statement,
    StringLiteral,
    StringNameType,
    StringType,
    Transform2DType,
    Transform3DType,
    TypeExpression,
    UnaryOperation,
    UnaryOperator,
    ValueDeclaration,
    Vector2Type,
    Vector2iType,
    Vector3Type,
    Vector3iType,
    WhileLoop,
};

verus! {

// --- Into the union ---

impl From<GDScript> for Any {
    fn from(d: GDScript) -> (r: Any) {
        Any::GDScript(d)
    }
}

impl FromSpecImpl<GDScript> for Any {
    open spec fn obeys_from_spec() -> bool {
        true
    }

    open spec fn from_spec(d: GDScript) -> Any {
        Any::GDScript(d)
    }
}

impl From<ExtendsDeclaration> for Any {
    fn from(d: ExtendsDeclaration) -> (r: Any) {
        Any::ExtendsDeclaration(d)
    }
}

impl FromSpecImpl<ExtendsDeclaration> for Any {
    open spec fn obeys_from_spec() -> bool {
        true
    }

    open spec fn from_spec(d: ExtendsDeclaration) -> Any {
        Any::ExtendsDeclaration(d)
    }
}

impl From<ClassNameDeclaration> for Any {
    fn from(d: ClassNameDeclaration) -> (r: Any) {
        Any::ClassNameDeclaration(d)
    }
}

impl FromSpecImpl<ClassNameDeclaration> for Any {
    open spec fn obeys_from_spec() -> bool {
        true
    }

    open spec fn from_spec(d: ClassNameDeclaration) -> Any {
        Any::ClassNameDeclaration(d)
    }
}

impl From<ValueDeclaration> for Any {
    fn from(d: ValueDeclaration) -> (r: Any) {
        Any::ValueDeclaration(d)
    }
}

impl FromSpecImpl<ValueDeclaration> for Any {
    open spec fn obeys_from_spec() -> bool {
        true
    }

    open spec fn from_spec(d: ValueDeclaration) -> Any {
        Any::ValueDeclaration(d)
    }
}

impl From<Annotation> for Any {
    fn from(d: Annotation) -> (r: Any) {
        Any::Annotation(d)
    }
}

impl FromSpecImpl<Annotation> for Any {
    open spec fn obeys_from_spec() -> bool {
        true
    }

    open spec fn from_spec(d: Annotation) -> Any {
        Any::Annotation(d)
    }
}

impl From<EnumDeclaration> for Any {
    fn from(d: EnumDeclaration) -> (r: Any) {
        Any::EnumDeclaration(d)
    }
}

impl FromSpecImpl<EnumDeclaration> for Any {
    open spec fn obeys_from_spec() -> bool {
        true
    }

    open spec fn from_spec(d: EnumDeclaration) -> Any {
        Any::EnumDeclaration(d)
    }
}

impl From<FuncDeclaration> for Any {
    fn from(d: FuncDeclaration) -> (r: Any) {
        Any::FuncDeclaration(d)
    }
}

impl FromSpecImpl<FuncDeclaration> for Any {
    open spec fn obeys_from_spec() -> bool {
        true
    }

    open spec fn from_spec(d: FuncDeclaration) -> Any {
        Any::FuncDeclaration(d)
    }
}

impl From<ClassDeclaration> for Any {
    fn from(d: ClassDeclaration) -> (r: Any) {
        Any::ClassDeclaration(d)
    }
}

impl FromSpecImpl<ClassDeclaration> for Any {
    open spec fn obeys_from_spec() -> bool {
        true
    }

    open spec fn from_spec(d: ClassDeclaration) -> Any {
        Any::ClassDeclaration(d)
    }
}

impl From<NullLiteral> for Any {
    fn from(d: NullLiteral) -> (r: Any) {
        Any::NullLiteral(d)
    }
}

impl FromSpecImpl<NullLiteral> for Any {
    open spec fn obeys_from_spec() -> bool {
        true
    }

    open spec fn from_spec(d: NullLiteral) -> Any {
        Any::NullLiteral(d)
    }
}

impl From<BooleanLiteral> for Any {
    fn from(d: BooleanLiteral) -> (r: Any) {
        Any::BooleanLiteral(d)
    }
}

impl FromSpecImpl<BooleanLiteral> for Any {
    open spec fn obeys_from_spec() -> bool {
        true
    }

    open spec fn from_spec(d: BooleanLiteral) -> Any {
        Any::BooleanLiteral(d)
    }
}

impl From<IntLiteral> for Any {
    fn from(d: IntLiteral) -> (r: Any) {
        Any::IntLiteral(d)
    }
}

impl FromSpecImpl<IntLiteral> for Any {
    open spec fn obeys_from_spec() -> bool {
        true
    }

    open spec fn from_spec(d: IntLiteral) -> Any {
        Any::IntLiteral(d)
    }
}

impl From<FloatLiteral> for Any {
    fn from(d: FloatLiteral) -> (r: Any) {
        Any::FloatLiteral(d)
    }
}

impl FromSpecImpl<FloatLiteral> for Any {
    open spec fn obeys_from_spec() -> bool {
        true
    }

    open spec fn from_spec(d: FloatLiteral) -> Any {
        Any::FloatLiteral(d)
    }
}

impl From<StringLiteral> for Any {
    fn from(d: StringLiteral) -> (r: Any) {
        Any::StringLiteral(d)
    }
}

impl FromSpecImpl<StringLiteral> for Any {
    open spec fn obeys_from_spec() -> bool {
        true
    }

    open spec fn from_spec(d: StringLiteral) -> Any {
        Any::StringLiteral(d)
    }
}

impl From<ArrayLiteral> for Any {
    fn from(d: ArrayLiteral) -> (r: Any) {
        Any::ArrayLiteral(d)
    }
}

impl FromSpecImpl<ArrayLiteral> for Any {
    open spec fn obeys_from_spec() -> bool {
        true
    }

    open spec fn from_spec(d: ArrayLiteral) -> Any {
        Any::ArrayLiteral(d)
    }
}

impl From<DictionaryLiteral> for Any {
    fn from(d: DictionaryLiteral) -> (r: Any) {
        Any::DictionaryLiteral(d)
    }
}

impl FromSpecImpl<DictionaryLiteral> for Any {
    open spec fn obeys_from_spec() -> bool {
        true
    }

    open spec fn from_spec(d: DictionaryLiteral) -> Any {
        Any::DictionaryLiteral(d)
    }
}

impl From<UnaryOperation> for Any {
    fn from(d: UnaryOperation) -> (r: Any) {
        Any::UnaryOperation(d)
    }
}

impl FromSpecImpl<UnaryOperation> for Any {
    open spec fn obeys_from_spec() -> bool {
        true
    }

    open spec fn from_spec(d: UnaryOperation) -> Any {
        Any::UnaryOperation(d)
    }
}

impl From<BinaryOperation> for Any {
    fn from(d: BinaryOperation) -> (r: Any) {
        Any::BinaryOperation(d)
    }
}

impl FromSpecImpl<BinaryOperation> for Any {
    open spec fn obeys_from_spec() -> bool {
        true
    }

    open spec fn from_spec(d: BinaryOperation) -> Any {
        Any::BinaryOperation(d)
    }
}

impl From<LocalIdentifier> for Any {
    fn from(d: LocalIdentifier) -> (r: Any) {
        Any::LocalIdentifier(d)
    }
}

impl FromSpecImpl<LocalIdentifier> for Any {
    open spec fn obeys_from_spec() -> bool {
        true
    }

    open spec fn from_spec(d: LocalIdentifier) -> Any {
        Any::LocalIdentifier(d)
    }
}

impl From<NullType> for Any {
    fn from(d: NullType) -> (r: Any) {
        Any::NullType(d)
    }
}

impl FromSpecImpl<NullType> for Any {
    open spec fn obeys_from_spec() -> bool {
        true
    }

    open spec fn from_spec(d: NullType) -> Any {
        Any::NullType(d)
    }
}

impl From<BooleanType> for Any {
    fn from(d: BooleanType) -> (r: Any) {
        Any::BooleanType(d)
    }
}

impl FromSpecImpl<BooleanType> for Any {
    open spec fn obeys_from_spec() -> bool {
        true
    }

    open spec fn from_spec(d: BooleanType) -> Any {
        Any::BooleanType(d)
    }
}

impl From<IntType> for Any {
    fn from(d: IntType) -> (r: Any) {
        Any::IntType(d)
    }
}

impl FromSpecImpl<IntType> for Any {
    open spec fn obeys_from_spec() -> bool {
        true
    }

    open spec fn from_spec(d: IntType) -> Any {
        Any::IntType(d)
    }
}

impl From<FloatType> for Any {
    fn from(d: FloatType) -> (r: Any) {
        Any::FloatType(d)
    }
}

impl FromSpecImpl<FloatType> for Any {
    open spec fn obeys_from_spec() -> bool {
        true
    }

    open spec fn from_spec(d: FloatType) -> Any {
        Any::FloatType(d)
    }
}

impl From<StringType> for Any {
    fn from(d: StringType) -> (r: Any) {
        Any::StringType(d)
    }
}

impl FromSpecImpl<StringType> for Any {
    open spec fn obeys_from_spec() -> bool {
        true
    }

    open spec fn from_spec(d: StringType) -> Any {
        Any::StringType(d)
    }
}

impl From<StringNameType> for Any {
    fn from(d: StringNameType) -> (r: Any) {
        Any::StringNameType(d)
    }
}

impl FromSpecImpl<StringNameType> for Any {
    open spec fn obeys_from_spec() -> bool {
        true
    }

    open spec fn from_spec(d: StringNameType) -> Any {
        Any::StringNameType(d)
    }
}

impl From<Vector2Type> for Any {
    fn from(d: Vector2Type) -> (r: Any) {
        Any::Vector2Type(d)
    }
}

impl FromSpecImpl<Vector2Type> for Any {
    open spec fn obeys_from_spec() -> bool {
        true
    }

    open spec fn from_spec(d: Vector2Type) -> Any {
        Any::Vector2Type(d)
    }
}

impl From<Vector2iType> for Any {
    fn from(d: Vector2iType) -> (r: Any) {
        Any::Vector2iType(d)
    }
}

impl FromSpecImpl<Vector2iType> for Any {
    open spec fn obeys_from_spec() -> bool {
        true
    }

    open spec fn from_spec(d: Vector2iType) -> Any {
        Any::Vector2iType(d)
    }
}

impl From<Vector3Type> for Any {
    fn from(d: Vector3Type) -> (r: Any) {
        Any::Vector3Type(d)
    }
}

impl FromSpecImpl<Vector3Type> for Any {
    open spec fn obeys_from_spec() -> bool {
        true
    }

    open spec fn from_spec(d: Vector3Type) -> Any {
        Any::Vector3Type(d)
    }
}

impl From<Vector3iType> for Any {
    fn from(d: Vector3iType) -> (r: Any) {
        Any::Vector3iType(d)
    }
}

impl FromSpecImpl<Vector3iType> for Any {
    open spec fn obeys_from_spec() -> bool {
        true
    }

    open spec fn from_spec(d: Vector3iType) -> Any {
        Any::Vector3iType(d)
    }
}

impl From<Transform2DType> for Any {
    fn from(d: Transform2DType) -> (r: Any) {
        Any::Transform2DType(d)
    }
}

impl FromSpecImpl<Transform2DType> for Any {
    open spec fn obeys_from_spec() -> bool {
        true
    }

    open spec fn from_spec(d: Transform2DType) -> Any {
        Any::Transform2DType(d)
    }
}

impl From<PlaneType> for Any {
    fn from(d: PlaneType) -> (r: Any) {
        Any::PlaneType(d)
    }
}

impl FromSpecImpl<PlaneType> for Any {
    open spec fn obeys_from_spec() -> bool {
        true
    }

    open spec fn from_spec(d: PlaneType) -> Any {
        Any::PlaneType(d)
    }
}

impl From<AABBType> for Any {
    fn from(d: AABBType) -> (r: Any) {
        Any::AABBType(d)
    }
}

impl FromSpecImpl<AABBType> for Any {
    open spec fn obeys_from_spec() -> bool {
        true
    }

    open spec fn from_spec(d: AABBType) -> Any {
        Any::AABBType(d)
    }
}

impl From<BasisType> for Any {
    fn from(d: BasisType) -> (r: Any) {
        Any::BasisType(d)
    }
}

impl FromSpecImpl<BasisType> for Any {
    open spec fn obeys_from_spec() -> bool {
        true
    }

    open spec fn from_spec(d: BasisType) -> Any {
        Any::BasisType(d)
    }
}

impl From<Transform3DType> for Any {
    fn from(d: Transform3DType) -> (r: Any) {
        Any::Transform3DType(d)
    }
}

impl FromSpecImpl<Transform3DType> for Any {
    open spec fn obeys_from_spec() -> bool {
        true
    }

    open spec fn from_spec(d: Transform3DType) -> Any {
        Any::Transform3DType(d)
    }
}

impl From<ColorType> for Any {
    fn from(d: ColorType) -> (r: Any) {
        Any::ColorType(d)
    }
}

impl FromSpecImpl<ColorType> for Any {
    open spec fn obeys_from_spec() -> bool {
        true
    }

    open spec fn from_spec(d: ColorType) -> Any {
        Any::ColorType(d)
    }
}

impl From<NodePathType> for Any {
    fn from(d: NodePathType) -> (r: Any) {
        Any::NodePathType(d)
    }
}

impl FromSpecImpl<NodePathType> for Any {
    open spec fn obeys_from_spec() -> bool {
        true
    }

    open spec fn from_spec(d: NodePathType) -> Any {
        Any::NodePathType(d)
    }
}

impl From<RIDType> for Any {
    fn from(d: RIDType) -> (r: Any) {
        Any::RIDType(d)
    }
}

impl FromSpecImpl<RIDType> for Any {
    open spec fn obeys_from_spec() -> bool {
        true
    }

    open spec fn from_spec(d: RIDType) -> Any {
        Any::RIDType(d)
    }
}

impl From<ObjectType> for Any {
    fn from(d: ObjectType) -> (r: Any) {
        Any::ObjectType(d)
    }
}

impl FromSpecImpl<ObjectType> for Any {
    open spec fn obeys_from_spec() -> bool {
        true
    }

    open spec fn from_spec(d: ObjectType) -> Any {
        Any::ObjectType(d)
    }
}

impl From<NamedType> for Any {
    fn from(d: NamedType) -> (r: Any) {
        Any::NamedType(d)
    }
}

impl FromSpecImpl<NamedType> for Any {
    open spec fn obeys_from_spec() -> bool {
        true
    }

    open spec fn from_spec(d: NamedType) -> Any {
        Any::NamedType(d)
    }
}

impl From<NonNullType> for Any {
    fn from(d: NonNullType) -> (r: Any) {
        Any::NonNullType(d)
    }
}

impl FromSpecImpl<NonNullType> for Any {
    open spec fn obeys_from_spec() -> bool {
        true
    }

    open spec fn from_spec(d: NonNullType) -> Any {
        Any::NonNullType(d)
    }
}

impl From<ArrayType> for Any {
    fn from(d: ArrayType) -> (r: Any) {
        Any::ArrayType(d)
    }
}

impl FromSpecImpl<ArrayType> for Any {
    open spec fn obeys_from_spec() -> bool {
        true
    }

    open spec fn from_spec(d: ArrayType) -> Any {
        Any::ArrayType(d)
    }
}

impl From<DictionaryType> for Any {
    fn from(d: DictionaryType) -> (r: Any) {
        Any::DictionaryType(d)
    }
}

impl FromSpecImpl<DictionaryType> for Any {
    open spec fn obeys_from_spec() -> bool {
        true
    }

    open spec fn from_spec(d: DictionaryType) -> Any {
        Any::DictionaryType(d)
    }
}

impl From<ExactDictionaryType> for Any {
    fn from(d: ExactDictionaryType) -> (r: Any) {
        Any::ExactDictionaryType(d)
    }
}

impl FromSpecImpl<ExactDictionaryType> for Any {
    open spec fn obeys_from_spec() -> bool {
        true
    }

    open spec fn from_spec(d: ExactDictionaryType) -> Any {
        Any::ExactDictionaryType(d)
    }
}

impl From<AssignmentStatement> for Any {
    fn from(d: AssignmentStatement) -> (r: Any) {
        Any::AssignmentStatement(d)
    }
}

impl FromSpecImpl<AssignmentStatement> for Any {
    open spec fn obeys_from_spec() -> bool {
        true
    }

    open spec fn from_spec(d: AssignmentStatement) -> Any {
        Any::AssignmentStatement(d)
    }
}

impl From<MatchStatement> for Any {
    fn from(d: MatchStatement) -> (r: Any) {
        Any::MatchStatement(d)
    }
}

impl FromSpecImpl<MatchStatement> for Any {
    open spec fn obeys_from_spec() -> bool {
        true
    }

    open spec fn from_spec(d: MatchStatement) -> Any {
        Any::MatchStatement(d)
    }
}

impl From<WhileLoop> for Any {
    fn from(d: WhileLoop) -> (r: Any) {
        Any::WhileLoop(d)
    }
}

impl FromSpecImpl<WhileLoop> for Any {
    open spec fn obeys_from_spec() -> bool {
        true
    }

    open spec fn from_spec(d: WhileLoop) -> Any {
        Any::WhileLoop(d)
    }
}

impl From<IfElseStatement> for Any {
    fn from(d: IfElseStatement) -> (r: Any) {
        Any::IfElseStatement(d)
    }
}

impl FromSpecImpl<IfElseStatement> for Any {
    open spec fn obeys_from_spec() -> bool {
        true
    }

    open spec fn from_spec(d: IfElseStatement) -> Any {
        Any::IfElseStatement(d)
    }
}

impl From<ForLoop> for Any {
    fn from(d: ForLoop) -> (r: Any) {
        Any::ForLoop(d)
    }
}

impl FromSpecImpl<ForLoop> for Any {
    open spec fn obeys_from_spec() -> bool {
        true
    }

    open spec fn from_spec(d: ForLoop) -> Any {
        Any::ForLoop(d)
    }
}

impl From<Pass> for Any {
    fn from(d: Pass) -> (r: Any) {
        Any::Pass(d)
    }
}

impl FromSpecImpl<Pass> for Any {
    open spec fn obeys_from_spec() -> bool {
        true
    }

    open spec fn from_spec(d: Pass) -> Any {
        Any::Pass(d)
    }
}

impl From<Break> for Any {
    fn from(d: Break) -> (r: Any) {
        Any::Break(d)
    }
}

impl FromSpecImpl<Break> for Any {
    open spec fn obeys_from_spec() -> bool {
        true
    }

    open spec fn from_spec(d: Break) -> Any {
        Any::Break(d)
    }
}

impl From<Return> for Any {
    fn from(d: Return) -> (r: Any) {
        Any::Return(d)
    }
}

impl FromSpecImpl<Return> for Any {
    open spec fn obeys_from_spec() -> bool {
        true
    }

    open spec fn from_spec(d: Return) -> Any {
        Any::Return(d)
    }
}

impl From<Block> for Any {
    fn from(d: Block) -> (r: Any) {
        Any::Block(d)
    }
}

impl FromSpecImpl<Block> for Any {
    open spec fn obeys_from_spec() -> bool {
        true
    }

    open spec fn from_spec(d: Block) -> Any {
        Any::Block(d)
    }
}

impl From<PlainIdentifier> for Any {
    fn from(d: PlainIdentifier) -> (r: Any) {
        Any::PlainIdentifier(d)
    }
}

impl FromSpecImpl<PlainIdentifier> for Any {
    open spec fn obeys_from_spec() -> bool {
        true
    }

    open spec fn from_spec(d: PlainIdentifier) -> Any {
        Any::PlainIdentifier(d)
    }
}

impl From<UnaryOperator> for Any {
    fn from(d: UnaryOperator) -> (r: Any) {
        Any::UnaryOperator(d)
    }
}

impl FromSpecImpl<UnaryOperator> for Any {
    open spec fn obeys_from_spec() -> bool {
        true
    }

    open spec fn from_spec(d: UnaryOperator) -> Any {
        Any::UnaryOperator(d)
    }
}

impl From<BinaryOperator> for Any {
    fn from(d: BinaryOperator) -> (r: Any) {
        Any::BinaryOperator(d)
    }
}

impl FromSpecImpl<BinaryOperator> for Any {
    open spec fn obeys_from_spec() -> bool {
        true
    }

    open spec fn from_spec(d: BinaryOperator) -> Any {
        Any::BinaryOperator(d)
    }
}

impl From<Declaration> for Any {
    fn from(d: Declaration) -> (r: Any) {
        match d {
            Declaration::ExtendsDeclaration(x) => Any::ExtendsDeclaration(x),
            Declaration::ClassNameDeclaration(x) => Any::ClassNameDeclaration(x),
            Declaration::ValueDeclaration(x) => Any::ValueDeclaration(x),
            Declaration::Annotation(x) => Any::Annotation(x),
            Declaration::EnumDeclaration(x) => Any::EnumDeclaration(x),
            Declaration::FuncDeclaration(x) => Any::FuncDeclaration(x),
            Declaration::ClassDeclaration(x) => Any::ClassDeclaration(x),
        }
    }
}

impl FromSpecImpl<Declaration> for Any {
    open spec fn obeys_from_spec() -> bool {
        true
    }

    open spec fn from_spec(d: Declaration) -> Any {
        match d {
            Declaration::ExtendsDeclaration(x) => Any::ExtendsDeclaration(x),
            Declaration::ClassNameDeclaration(x) => Any::ClassNameDeclaration(x),
            Declaration::ValueDeclaration(x) => Any::ValueDeclaration(x),
            Declaration::Annotation(x) => Any::Annotation(x),
            Declaration::EnumDeclaration(x) => Any::EnumDeclaration(x),
            Declaration::FuncDeclaration(x) => Any::FuncDeclaration(x),
            Declaration::ClassDeclaration(x) => Any::ClassDeclaration(x),
        }
    }
}

impl From<Expression> for Any {
    fn from(d: Expression) -> (r: Any) {
        match d {
            Expression::NullLiteral(x) => Any::NullLiteral(x),
            Expression::BooleanLiteral(x) => Any::BooleanLiteral(x),
            Expression::IntLiteral(x) => Any::IntLiteral(x),
            Expression::FloatLiteral(x) => Any::FloatLiteral(x),
            Expression::StringLiteral(x) => Any::StringLiteral(x),
            Expression::ArrayLiteral(x) => Any::ArrayLiteral(x),
            Expression::DictionaryLiteral(x) => Any::DictionaryLiteral(x),
            Expression::UnaryOperation(x) => Any::UnaryOperation(x),
            Expression::BinaryOperation(x) => Any::BinaryOperation(x),
            Expression::LocalIdentifier(x) => Any::LocalIdentifier(x),
        }
    }
}

impl FromSpecImpl<Expression> for Any {
    open spec fn obeys_from_spec() -> bool {
        true
    }

    open spec fn from_spec(d: Expression) -> Any {
        match d {
            Expression::NullLiteral(x) => Any::NullLiteral(x),
            Expression::BooleanLiteral(x) => Any::BooleanLiteral(x),
            Expression::IntLiteral(x) => Any::IntLiteral(x),
            Expression::FloatLiteral(x) => Any::FloatLiteral(x),
            Expression::StringLiteral(x) => Any::StringLiteral(x),
            Expression::ArrayLiteral(x) => Any::ArrayLiteral(x),
            Expression::DictionaryLiteral(x) => Any::DictionaryLiteral(x),
            Expression::UnaryOperation(x) => Any::UnaryOperation(x),
            Expression::BinaryOperation(x) => Any::BinaryOperation(x),
            Expression::LocalIdentifier(x) => Any::LocalIdentifier(x),
        }
    }
}

impl From<TypeExpression> for Any {
    fn from(d: TypeExpression) -> (r: Any) {
        match d {
            TypeExpression::NullType(x) => Any::NullType(x),
            TypeExpression::BooleanType(x) => Any::BooleanType(x),
            TypeExpression::IntType(x) => Any::IntType(x),
            TypeExpression::FloatType(x) => Any::FloatType(x),
            TypeExpression::StringType(x) => Any::StringType(x),
            TypeExpression::StringNameType(x) => Any::StringNameType(x),
            TypeExpression::Vector2Type(x) => Any::Vector2Type(x),
            TypeExpression::Vector2iType(x) => Any::Vector2iType(x),
            TypeExpression::Vector3Type(x) => Any::Vector3Type(x),
            TypeExpression::Vector3iType(x) => Any::Vector3iType(x),
            TypeExpression::Transform2DType(x) => Any::Transform2DType(x),
            TypeExpression::PlaneType(x) => Any::PlaneType(x),
            TypeExpression::AABBType(x) => Any::AABBType(x),
            TypeExpression::BasisType(x) => Any::BasisType(x),
            TypeExpression::Transform3DType(x) => Any::Transform3DType(x),
            TypeExpression::ColorType(x) => Any::ColorType(x),
            TypeExpression::NodePathType(x) => Any::NodePathType(x),
            TypeExpression::RIDType(x) => Any::RIDType(x),
            TypeExpression::ObjectType(x) => Any::ObjectType(x),
            TypeExpression::NamedType(x) => Any::NamedType(x),
            TypeExpression::NonNullType(x) => Any::NonNullType(x),
            TypeExpression::ArrayType(x) => Any::ArrayType(x),
            TypeExpression::DictionaryType(x) => Any::DictionaryType(x),
            TypeExpression::ExactDictionaryType(x) => Any::ExactDictionaryType(x),
        }
    }
}

impl FromSpecImpl<TypeExpression> for Any {
    open spec fn obeys_from_spec() -> bool {
        true
    }

    open spec fn from_spec(d: TypeExpression) -> Any {
        match d {
            TypeExpression::NullType(x) => Any::NullType(x),
            TypeExpression::BooleanType(x) => Any::BooleanType(x),
            TypeExpression::IntType(x) => Any::IntType(x),
            TypeExpression::FloatType(x) => Any::FloatType(x),
            TypeExpression::StringType(x) => Any::StringType(x),
            TypeExpression::StringNameType(x) => Any::StringNameType(x),
            TypeExpression::Vector2Type(x) => Any::Vector2Type(x),
            TypeExpression::Vector2iType(x) => Any::Vector2iType(x),
            TypeExpression::Vector3Type(x) => Any::Vector3Type(x),
            TypeExpression::Vector3iType(x) => Any::Vector3iType(x),
            TypeExpression::Transform2DType(x) => Any::Transform2DType(x),
            TypeExpression::PlaneType(x) => Any::PlaneType(x),
            TypeExpression::AABBType(x) => Any::AABBType(x),
            TypeExpression::BasisType(x) => Any::BasisType(x),
            TypeExpression::Transform3DType(x) => Any::Transform3DType(x),
            TypeExpression::ColorType(x) => Any::ColorType(x),
            TypeExpression::NodePathType(x) => Any::NodePathType(x),
            TypeExpression::RIDType(x) => Any::RIDType(x),
            TypeExpression::ObjectType(x) => Any::ObjectType(x),
            TypeExpression::NamedType(x) => Any::NamedType(x),
            TypeExpression::NonNullType(x) => Any::NonNullType(x),
            TypeExpression::ArrayType(x) => Any::ArrayType(x),
            TypeExpression::DictionaryType(x) => Any::DictionaryType(x),
            TypeExpression::ExactDictionaryType(x) => Any::ExactDictionaryType(x),
        }
    }
}

impl From<Statement> for Any {
    fn from(d: Statement) -> (r: Any) {
        match d {
            Statement::ValueDeclaration(x) => Any::ValueDeclaration(x),
            Statement::AssignmentStatement(x) => Any::AssignmentStatement(x),
            Statement::MatchStatement(x) => Any::MatchStatement(x),
            Statement::WhileLoop(x) => Any::WhileLoop(x),
            Statement::IfElseStatement(x) => Any::IfElseStatement(x),
            Statement::ForLoop(x) => Any::ForLoop(x),
            Statement::Pass(x) => Any::Pass(x),
            Statement::Break(x) => Any::Break(x),
            Statement::Return(x) => Any::Return(x),
        }
    }
}

impl FromSpecImpl<Statement> for Any {
    open spec fn obeys_from_spec() -> bool {
        true
    }

    open spec fn from_spec(d: Statement) -> Any {
        match d {
            Statement::ValueDeclaration(x) => Any::ValueDeclaration(x),
            Statement::AssignmentStatement(x) => Any::AssignmentStatement(x),
            Statement::MatchStatement(x) => Any::MatchStatement(x),
            Statement::WhileLoop(x) => Any::WhileLoop(x),
            Statement::IfElseStatement(x) => Any::IfElseStatement(x),
            Statement::ForLoop(x) => Any::ForLoop(x),
            Statement::Pass(x) => Any::Pass(x),
            Statement::Break(x) => Any::Break(x),
            Statement::Return(x) => Any::Return(x),
        }
    }
}

// --- Into `Declaration` ---

impl From<ExtendsDeclaration> for Declaration {
    fn from(d: ExtendsDeclaration) -> (r: Declaration) {
        Declaration::ExtendsDeclaration(d)
    }
}

impl FromSpecImpl<ExtendsDeclaration> for Declaration {
    open spec fn obeys_from_spec() -> bool {
        true
    }

    open spec fn from_spec(d: ExtendsDeclaration) -> Declaration {
        Declaration::ExtendsDeclaration(d)
    }
}

impl From<ClassNameDeclaration> for Declaration {
    fn from(d: ClassNameDeclaration) -> (r: Declaration) {
        Declaration::ClassNameDeclaration(d)
    }
}

impl FromSpecImpl<ClassNameDeclaration> for Declaration {
    open spec fn obeys_from_spec() -> bool {
        true
    }

    open spec fn from_spec(d: ClassNameDeclaration) -> Declaration {
        Declaration::ClassNameDeclaration(d)
    }
}

impl From<ValueDeclaration> for Declaration {
    fn from(d: ValueDeclaration) -> (r: Declaration) {
        Declaration::ValueDeclaration(d)
    }
}

impl FromSpecImpl<ValueDeclaration> for Declaration {
    open spec fn obeys_from_spec() -> bool {
        true
    }

    open spec fn from_spec(d: ValueDeclaration) -> Declaration {
        Declaration::ValueDeclaration(d)
    }
}

impl From<Annotation> for Declaration {
    fn from(d: Annotation) -> (r: Declaration) {
        Declaration::Annotation(d)
    }
}

impl FromSpecImpl<Annotation> for Declaration {
    open spec fn obeys_from_spec() -> bool {
        true
    }

    open spec fn from_spec(d: Annotation) -> Declaration {
        Declaration::Annotation(d)
    }
}

impl From<EnumDeclaration> for Declaration {
    fn from(d: EnumDeclaration) -> (r: Declaration) {
        Declaration::EnumDeclaration(d)
    }
}

impl FromSpecImpl<EnumDeclaration> for Declaration {
    open spec fn obeys_from_spec() -> bool {
        true
    }

    open spec fn from_spec(d: EnumDeclaration) -> Declaration {
        Declaration::EnumDeclaration(d)
    }
}

impl From<FuncDeclaration> for Declaration {
    fn from(d: FuncDeclaration) -> (r: Declaration) {
        Declaration::FuncDeclaration(d)
    }
}

impl FromSpecImpl<FuncDeclaration> for Declaration {
    open spec fn obeys_from_spec() -> bool {
        true
    }

    open spec fn from_spec(d: FuncDeclaration) -> Declaration {
        Declaration::FuncDeclaration(d)
    }
}

impl From<ClassDeclaration> for Declaration {
    fn from(d: ClassDeclaration) -> (r: Declaration) {
        Declaration::ClassDeclaration(d)
    }
}

impl FromSpecImpl<ClassDeclaration> for Declaration {
    open spec fn obeys_from_spec() -> bool {
        true
    }

    open spec fn from_spec(d: ClassDeclaration) -> Declaration {
        Declaration::ClassDeclaration(d)
    }
}

// --- Into `Expression` ---

impl From<NullLiteral> for Expression {
    fn from(d: NullLiteral) -> (r: Expression) {
        Expression::NullLiteral(d)
    }
}

impl FromSpecImpl<NullLiteral> for Expression {
    open spec fn obeys_from_spec() -> bool {
        true
    }

    open spec fn from_spec(d: NullLiteral) -> Expression {
        Expression::NullLiteral(d)
    }
}

impl From<BooleanLiteral> for Expression {
    fn from(d: BooleanLiteral) -> (r: Expression) {
        Expression::BooleanLiteral(d)
    }
}

impl FromSpecImpl<BooleanLiteral> for Expression {
    open spec fn obeys_from_spec() -> bool {
        true
    }

    open spec fn from_spec(d: BooleanLiteral) -> Expression {
        Expression::BooleanLiteral(d)
    }
}

impl From<IntLiteral> for Expression {
    fn from(d: IntLiteral) -> (r: Expression) {
        Expression::IntLiteral(d)
    }
}

impl FromSpecImpl<IntLiteral> for Expression {
    open spec fn obeys_from_spec() -> bool {
        true
    }

    open spec fn from_spec(d: IntLiteral) -> Expression {
        Expression::IntLiteral(d)
    }
}

impl From<FloatLiteral> for Expression {
    fn from(d: FloatLiteral) -> (r: Expression) {
        Expression::FloatLiteral(d)
    }
}

impl FromSpecImpl<FloatLiteral> for Expression {
    open spec fn obeys_from_spec() -> bool {
        true
    }

    open spec fn from_spec(d: FloatLiteral) -> Expression {
        Expression::FloatLiteral(d)
    }
}

impl From<StringLiteral> for Expression {
    fn from(d: StringLiteral) -> (r: Expression) {
        Expression::StringLiteral(d)
    }
}

impl FromSpecImpl<StringLiteral> for Expression {
    open spec fn obeys_from_spec() -> bool {
        true
    }

    open spec fn from_spec(d: StringLiteral) -> Expression {
        Expression::StringLiteral(d)
    }
}

impl From<ArrayLiteral> for Expression {
    fn from(d: ArrayLiteral) -> (r: Expression) {
        Expression::ArrayLiteral(d)
    }
}

impl FromSpecImpl<ArrayLiteral> for Expression {
    open spec fn obeys_from_spec() -> bool {
        true
    }

    open spec fn from_spec(d: ArrayLiteral) -> Expression {
        Expression::ArrayLiteral(d)
    }
}

impl From<DictionaryLiteral> for Expression {
    fn from(d: DictionaryLiteral) -> (r: Expression) {
        Expression::DictionaryLiteral(d)
    }
}

impl FromSpecImpl<DictionaryLiteral> for Expression {
    open spec fn obeys_from_spec() -> bool {
        true
    }

    open spec fn from_spec(d: DictionaryLiteral) -> Expression {
        Expression::DictionaryLiteral(d)
    }
}

impl From<UnaryOperation> for Expression {
    fn from(d: UnaryOperation) -> (r: Expression) {
        Expression::UnaryOperation(d)
    }
}

impl FromSpecImpl<UnaryOperation> for Expression {
    open spec fn obeys_from_spec() -> bool {
        true
    }

    open spec fn from_spec(d: UnaryOperation) -> Expression {
        Expression::UnaryOperation(d)
    }
}

impl From<BinaryOperation> for Expression {
    fn from(d: BinaryOperation) -> (r: Expression) {
        Expression::BinaryOperation(d)
    }
}

impl FromSpecImpl<BinaryOperation> for Expression {
    open spec fn obeys_from_spec() -> bool {
        true
    }

    open spec fn from_spec(d: BinaryOperation) -> Expression {
        Expression::BinaryOperation(d)
    }
}

impl From<LocalIdentifier> for Expression {
    fn from(d: LocalIdentifier) -> (r: Expression) {
        Expression::LocalIdentifier(d)
    }
}

impl FromSpecImpl<LocalIdentifier> for Expression {
    open spec fn obeys_from_spec() -> bool {
        true
    }

    open spec fn from_spec(d: LocalIdentifier) -> Expression {
        Expression::LocalIdentifier(d)
    }
}

// --- Into `TypeExpression` ---

impl From<NullType> for TypeExpression {
    fn from(d: NullType) -> (r: TypeExpression) {
        TypeExpression::NullType(d)
    }
}

impl FromSpecImpl<NullType> for TypeExpression {
    open spec fn obeys_from_spec() -> bool {
        true
    }

    open spec fn from_spec(d: NullType) -> TypeExpression {
        TypeExpression::NullType(d)
    }
}

impl From<BooleanType> for TypeExpression {
    fn from(d: BooleanType) -> (r: TypeExpression) {
        TypeExpression::BooleanType(d)
    }
}

impl FromSpecImpl<BooleanType> for TypeExpression {
    open spec fn obeys_from_spec() -> bool {
        true
    }

    open spec fn from_spec(d: BooleanType) -> TypeExpression {
        TypeExpression::BooleanType(d)
    }
}

impl From<IntType> for TypeExpression {
    fn from(d: IntType) -> (r: TypeExpression) {
        TypeExpression::IntType(d)
    }
}

impl FromSpecImpl<IntType> for TypeExpression {
    open spec fn obeys_from_spec() -> bool {
        true
    }

    open spec fn from_spec(d: IntType) -> TypeExpression {
        TypeExpression::IntType(d)
    }
}

impl From<FloatType> for TypeExpression {
    fn from(d: FloatType) -> (r: TypeExpression) {
        TypeExpression::FloatType(d)
    }
}

impl FromSpecImpl<FloatType> for TypeExpression {
    open spec fn obeys_from_spec() -> bool {
        true
    }

    open spec fn from_spec(d: FloatType) -> TypeExpression {
        TypeExpression::FloatType(d)
    }
}

impl From<StringType> for TypeExpression {
    fn from(d: StringType) -> (r: TypeExpression) {
        TypeExpression::StringType(d)
    }
}

impl FromSpecImpl<StringType> for TypeExpression {
    open spec fn obeys_from_spec() -> bool {
        true
    }

    open spec fn from_spec(d: StringType) -> TypeExpression {
        TypeExpression::StringType(d)
    }
}

impl From<StringNameType> for TypeExpression {
    fn from(d: StringNameType) -> (r: TypeExpression) {
        TypeExpression::StringNameType(d)
    }
}

impl FromSpecImpl<StringNameType> for TypeExpression {
    open spec fn obeys_from_spec() -> bool {
        true
    }

    open spec fn from_spec(d: StringNameType) -> TypeExpression {
        TypeExpression::StringNameType(d)
    }
}

impl From<Vector2Type> for TypeExpression {
    fn from(d: Vector2Type) -> (r: TypeExpression) {
        TypeExpression::Vector2Type(d)
    }
}

impl FromSpecImpl<Vector2Type> for TypeExpression {
    open spec fn obeys_from_spec() -> bool {
        true
    }

    open spec fn from_spec(d: Vector2Type) -> TypeExpression {
        TypeExpression::Vector2Type(d)
    }
}

impl From<Vector2iType> for TypeExpression {
    fn from(d: Vector2iType) -> (r: TypeExpression) {
        TypeExpression::Vector2iType(d)
    }
}

impl FromSpecImpl<Vector2iType> for TypeExpression {
    open spec fn obeys_from_spec() -> bool {
        true
    }

    open spec fn from_spec(d: Vector2iType) -> TypeExpression {
        TypeExpression::Vector2iType(d)
    }
}

impl From<Vector3Type> for TypeExpression {
    fn from(d: Vector3Type) -> (r: TypeExpression) {
        TypeExpression::Vector3Type(d)
    }
}

impl FromSpecImpl<Vector3Type> for TypeExpression {
    open spec fn obeys_from_spec() -> bool {
        true
    }

    open spec fn from_spec(d: Vector3Type) -> TypeExpression {
        TypeExpression::Vector3Type(d)
    }
}

impl From<Vector3iType> for TypeExpression {
    fn from(d: Vector3iType) -> (r: TypeExpression) {
        TypeExpression::Vector3iType(d)
    }
}

impl FromSpecImpl<Vector3iType> for TypeExpression {
    open spec fn obeys_from_spec() -> bool {
        true
    }

    open spec fn from_spec(d: Vector3iType) -> TypeExpression {
        TypeExpression::Vector3iType(d)
    }
}

impl From<Transform2DType> for TypeExpression {
    fn from(d: Transform2DType) -> (r: TypeExpression) {
        TypeExpression::Transform2DType(d)
    }
}

impl FromSpecImpl<Transform2DType> for TypeExpression {
    open spec fn obeys_from_spec() -> bool {
        true
    }

    open spec fn from_spec(d: Transform2DType) -> TypeExpression {
        TypeExpression::Transform2DType(d)
    }
}

impl From<PlaneType> for TypeExpression {
    fn from(d: PlaneType) -> (r: TypeExpression) {
        TypeExpression::PlaneType(d)
    }
}

impl FromSpecImpl<PlaneType> for TypeExpression {
    open spec fn obeys_from_spec() -> bool {
        true
    }

    open spec fn from_spec(d: PlaneType) -> TypeExpression {
        TypeExpression::PlaneType(d)
    }
}

impl From<AABBType> for TypeExpression {
    fn from(d: AABBType) -> (r: TypeExpression) {
        TypeExpression::AABBType(d)
    }
}

impl FromSpecImpl<AABBType> for TypeExpression {
    open spec fn obeys_from_spec() -> bool {
        true
    }

    open spec fn from_spec(d: AABBType) -> TypeExpression {
        TypeExpression::AABBType(d)
    }
}

impl From<BasisType> for TypeExpression {
    fn from(d: BasisType) -> (r: TypeExpression) {
        TypeExpression::BasisType(d)
    }
}

impl FromSpecImpl<BasisType> for TypeExpression {
    open spec fn obeys_from_spec() -> bool {
        true
    }

    open spec fn from_spec(d: BasisType) -> TypeExpression {
        TypeExpression::BasisType(d)
    }
}

impl From<Transform3DType> for TypeExpression {
    fn from(d: Transform3DType) -> (r: TypeExpression) {
        TypeExpression::Transform3DType(d)
    }
}

impl FromSpecImpl<Transform3DType> for TypeExpression {
    open spec fn obeys_from_spec() -> bool {
        true
    }

    open spec fn from_spec(d: Transform3DType) -> TypeExpression {
        TypeExpression::Transform3DType(d)
    }
}

impl From<ColorType> for TypeExpression {
    fn from(d: ColorType) -> (r: TypeExpression) {
        TypeExpression::ColorType(d)
    }
}

impl FromSpecImpl<ColorType> for TypeExpression {
    open spec fn obeys_from_spec() -> bool {
        true
    }

    open spec fn from_spec(d: ColorType) -> TypeExpression {
        TypeExpression::ColorType(d)
    }
}

impl From<NodePathType> for TypeExpression {
    fn from(d: NodePathType) -> (r: TypeExpression) {
        TypeExpression::NodePathType(d)
    }
}

impl FromSpecImpl<NodePathType> for TypeExpression {
    open spec fn obeys_from_spec() -> bool {
        true
    }

    open spec fn from_spec(d: NodePathType) -> TypeExpression {
        TypeExpression::NodePathType(d)
    }
}

impl From<RIDType> for TypeExpression {
    fn from(d: RIDType) -> (r: TypeExpression) {
        TypeExpression::RIDType(d)
    }
}

impl FromSpecImpl<RIDType> for TypeExpression {
    open spec fn obeys_from_spec() -> bool {
        true
    }

    open spec fn from_spec(d: RIDType) -> TypeExpression {
        TypeExpression::RIDType(d)
    }
}

impl From<ObjectType> for TypeExpression {
    fn from(d: ObjectType) -> (r: TypeExpression) {
        TypeExpression::ObjectType(d)
    }
}

impl FromSpecImpl<ObjectType> for TypeExpression {
    open spec fn obeys_from_spec() -> bool {
        true
    }

    open spec fn from_spec(d: ObjectType) -> TypeExpression {
        TypeExpression::ObjectType(d)
    }
}

impl From<NamedType> for TypeExpression {
    fn from(d: NamedType) -> (r: TypeExpression) {
        TypeExpression::NamedType(d)
    }
}

impl FromSpecImpl<NamedType> for TypeExpression {
    open spec fn obeys_from_spec() -> bool {
        true
    }

    open spec fn from_spec(d: NamedType) -> TypeExpression {
        TypeExpression::NamedType(d)
    }
}

impl From<NonNullType> for TypeExpression {
    fn from(d: NonNullType) -> (r: TypeExpression) {
        TypeExpression::NonNullType(d)
    }
}

impl FromSpecImpl<NonNullType> for TypeExpression {
    open spec fn obeys_from_spec() -> bool {
        true
    }

    open spec fn from_spec(d: NonNullType) -> TypeExpression {
        TypeExpression::NonNullType(d)
    }
}

impl From<ArrayType> for TypeExpression {
    fn from(d: ArrayType) -> (r: TypeExpression) {
        TypeExpression::ArrayType(d)
    }
}

impl FromSpecImpl<ArrayType> for TypeExpression {
    open spec fn obeys_from_spec() -> bool {
        true
    }

    open spec fn from_spec(d: ArrayType) -> TypeExpression {
        TypeExpression::ArrayType(d)
    }
}

impl From<DictionaryType> for TypeExpression {
    fn from(d: DictionaryType) -> (r: TypeExpression) {
        TypeExpression::DictionaryType(d)
    }
}

impl FromSpecImpl<DictionaryType> for TypeExpression {
    open spec fn obeys_from_spec() -> bool {
        true
    }

    open spec fn from_spec(d: DictionaryType) -> TypeExpression {
        TypeExpression::DictionaryType(d)
    }
}

impl From<ExactDictionaryType> for TypeExpression {
    fn from(d: ExactDictionaryType) -> (r: TypeExpression) {
        TypeExpression::ExactDictionaryType(d)
    }
}

impl FromSpecImpl<ExactDictionaryType> for TypeExpression {
    open spec fn obeys_from_spec() -> bool {
        true
    }

    open spec fn from_spec(d: ExactDictionaryType) -> TypeExpression {
        TypeExpression::ExactDictionaryType(d)
    }
}

// --- Into `Statement` ---

impl From<ValueDeclaration> for Statement {
    fn from(d: ValueDeclaration) -> (r: Statement) {
        Statement::ValueDeclaration(d)
    }
}

impl FromSpecImpl<ValueDeclaration> for Statement {
    open spec fn obeys_from_spec() -> bool {
        true
    }

    open spec fn from_spec(d: ValueDeclaration) -> Statement {
        Statement::ValueDeclaration(d)
    }
}

impl From<AssignmentStatement> for Statement {
    fn from(d: AssignmentStatement) -> (r: Statement) {
        Statement::AssignmentStatement(d)
    }
}

impl FromSpecImpl<AssignmentStatement> for Statement {
    open spec fn obeys_from_spec() -> bool {
        true
    }

    open spec fn from_spec(d: AssignmentStatement) -> Statement {
        Statement::AssignmentStatement(d)
    }
}

impl From<MatchStatement> for Statement {
    fn from(d: MatchStatement) -> (r: Statement) {
        Statement::MatchStatement(d)
    }
}

impl FromSpecImpl<MatchStatement> for Statement {
    open spec fn obeys_from_spec() -> bool {
        true
    }

    open spec fn from_spec(d: MatchStatement) -> Statement {
        Statement::MatchStatement(d)
    }
}

impl From<WhileLoop> for Statement {
    fn from(d: WhileLoop) -> (r: Statement) {
        Statement::WhileLoop(d)
    }
}

impl FromSpecImpl<WhileLoop> for Statement {
    open spec fn obeys_from_spec() -> bool {
        true
    }

    open spec fn from_spec(d: WhileLoop) -> Statement {
        Statement::WhileLoop(d)
    }
}

impl From<IfElseStatement> for Statement {
    fn from(d: IfElseStatement) -> (r: Statement) {
        Statement::IfElseStatement(d)
    }
}

impl FromSpecImpl<IfElseStatement> for Statement {
    open spec fn obeys_from_spec() -> bool {
        true
    }

    open spec fn from_spec(d: IfElseStatement) -> Statement {
        Statement::IfElseStatement(d)
    }
}

impl From<ForLoop> for Statement {
    fn from(d: ForLoop) -> (r: Statement) {
        Statement::ForLoop(d)
    }
}

impl FromSpecImpl<ForLoop> for Statement {
    open spec fn obeys_from_spec() -> bool {
        true
    }

    open spec fn from_spec(d: ForLoop) -> Statement {
        Statement::ForLoop(d)
    }
}

impl From<Pass> for Statement {
    fn from(d: Pass) -> (r: Statement) {
        Statement::Pass(d)
    }
}

impl FromSpecImpl<Pass> for Statement {
    open spec fn obeys_from_spec() -> bool {
        true
    }

    open spec fn from_spec(d: Pass) -> Statement {
        Statement::Pass(d)
    }
}

impl From<Break> for Statement {
    fn from(d: Break) -> (r: Statement) {
        Statement::Break(d)
    }
}

impl FromSpecImpl<Break> for Statement {
    open spec fn obeys_from_spec() -> bool {
        true
    }

    open spec fn from_spec(d: Break) -> Statement {
        Statement::Break(d)
    }
}

impl From<Return> for Statement {
    fn from(d: Return) -> (r: Statement) {
        Statement::Return(d)
    }
}

impl FromSpecImpl<Return> for Statement {
    open spec fn obeys_from_spec() -> bool {
        true
    }

    open spec fn from_spec(d: Return) -> Statement {
        Statement::Return(d)
    }
}

} // verus!

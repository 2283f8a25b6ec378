use gdcheck::gdproject_metadata::ast::GDProjectMetadata;
use gdcheck::gdscript::ast::{
    covering, identifier_to_string, set_parent, Any, ArrayLiteral, BinaryOperation,
    BinaryOperator, Block, BooleanLiteral, Declaration, Expression, ExtendsDeclaration,
    FloatLiteral, FuncDeclaration, GDScript, IntLiteral, IntType, LocalIdentifier, ModuleID,
    NonNullType, Parentable, Pass, PlainIdentifier, Statement, StringLiteral, SyntaxTree,
    TypeExpression, UnaryOperator, ValueDeclaration, WithSlice, AST,
};
use gdcheck::gdscript::check::{CheckContext, Checkable};
use gdcheck::gdscript::gd_type::Type;
use gdcheck::gdscript::infer_type::InferTypeContext;
use gdcheck::gdscript::kinds::Kind;
use gdcheck::gdscript::parse::{
    get_indentation_str_spaces, get_indentation_str_tabs, parse_script,
};
use gdcheck::gdscript::resolve_type::ResolveContext;
use gdcheck::gdscript::rules::{Rule, RuleSeverity};
use gdcheck::godot_project::GodotProject;
use gdcheck::utils::errors::{CheckError, GDError, ParseError};
use gdcheck::utils::slice::Slice;
use std::rc::Rc;

fn module() -> ModuleID {
    ModuleID(Rc::new(String::from("res://player.gd")))
}

fn project() -> GodotProject {
    GodotProject {
        metadata: GDProjectMetadata::new(),
        rule_severity: Vec::new(),
        scripts: Vec::new(),
    }
}

fn parse(source: &str) -> Result<SyntaxTree, ParseError> {
    parse_script(module(), Slice::new(Rc::new(String::from(source))))
}

fn declarations(tree: &SyntaxTree) -> Vec<AST<Declaration>> {
    let root: AST<Any> = AST::at(tree.len() - 1);
    match root.details(tree) {
        Any::GDScript(script) => script.declarations.clone(),
        other => panic!("the last node is no script: {:?}", other),
    }
}

fn text_of(tree: &SyntaxTree, id: usize) -> String {
    let node: AST<Any> = AST::at(id);
    node.slice(tree).as_str().to_string()
}

fn check_all(tree: &SyntaxTree) -> Vec<GDError> {
    let project = project();
    let id = module();
    let ctx = CheckContext { module_id: &id, godot_project: &project };
    let mut errors = Vec::new();
    let root: AST<Any> = AST::at(tree.len() - 1);
    root.check(tree, ctx, &mut errors);
    errors
}

fn piece(code: &Rc<String>, start: usize, end: usize) -> Slice {
    Slice { full_string: code.clone(), start, end }
}

#[test]
fn extends_spans_keyword_to_name() {
    let tree = parse("extends Node2D").unwrap();
    let decls = declarations(&tree);
    assert_eq!(decls.len(), 1);
    assert_eq!(text_of(&tree, decls[0].id), "extends Node2D");
    match decls[0].downcast(&tree) {
        Declaration::ExtendsDeclaration(d) => {
            assert_eq!(text_of(&tree, d.extends_class.id), "Node2D");
            assert_eq!(d.extends_class.downcast(&tree).name.as_str(), "Node2D");
        }
        other => panic!("{:?}", other),
    }
}

#[test]
fn class_name_spans_keyword_to_name() {
    let tree = parse("\n# the player\nclass_name   Player_1  \n").unwrap();
    let decls = declarations(&tree);
    assert_eq!(decls.len(), 1);
    assert_eq!(text_of(&tree, decls[0].id), "class_name   Player_1");
    let span = decls[0].slice(&tree);
    assert_eq!((span.start, span.end), (14, 35));
    match decls[0].downcast(&tree) {
        Declaration::ClassNameDeclaration(d) => {
            assert_eq!(text_of(&tree, d.class_name.id), "Player_1");
        }
        other => panic!("{:?}", other),
    }
}

#[test]
fn names_may_hold_letters_of_any_script() {
    let tree = parse("extends Žluťoučký_kůň$").unwrap();
    let decls = declarations(&tree);
    assert_eq!(text_of(&tree, decls[0].id), "extends Žluťoučký_kůň$");
}

#[test]
fn every_node_covers_the_nodes_it_holds() {
    let source = "extends Node\nclass_name A\nvar x: int = [1, [2.5, true], null]\n@tool\nfunc f():\n\tpass\n\tbreak\n";
    let tree = parse(source).unwrap();
    assert!(tree.len() > 10);
    for id in 0..tree.len() {
        let node: AST<Any> = AST::at(id);
        let span = node.slice(&tree).clone();
        for child in node.details(&tree).child_ids() {
            let held: AST<Any> = AST::at(child);
            assert!(child < id);
            assert!(span.contains(held.slice(&tree)));
            assert_eq!(held.parent(&tree).map(|p| p.id), Some(id));
        }
    }
    let root: AST<Any> = AST::at(tree.len() - 1);
    assert!(root.parent(&tree).is_none());
    assert_eq!(root.slice(&tree).as_str(), source);
}

#[test]
fn a_block_spans_the_join_of_its_statements() {
    let tree = parse("func f():\n\tpass\n\tbreak").unwrap();
    let decls = declarations(&tree);
    let func = match decls[0].downcast(&tree) {
        Declaration::FuncDeclaration(f) => f,
        other => panic!("{:?}", other),
    };
    assert!(!func.is_static);
    assert!(func.args.is_empty());
    assert!(func.return_type.is_none());
    assert_eq!(text_of(&tree, func.name.id), "f");
    let block = func.body.downcast(&tree);
    assert_eq!(block.statements.len(), 2);
    let joined = covering(&tree, &block.statements).unwrap();
    assert_eq!(&joined, func.body.slice(&tree));
    assert_eq!(joined.as_str(), "pass\n\tbreak");
    assert_eq!(block.statements[0].downcast(&tree), Statement::Pass(Pass));
    assert_eq!(text_of(&tree, decls[0].id), "func f():\n\tpass\n\tbreak");
    let none: Vec<AST<Statement>> = Vec::new();
    assert!(covering(&tree, &none).is_none());
}

#[test]
fn casts_lose_nothing() {
    let tree = parse("extends Node").unwrap();
    let decls = declarations(&tree);
    let narrow: AST<ExtendsDeclaration> = decls[0].try_recast(&tree).unwrap();
    let payload = narrow.downcast(&tree);
    assert_eq!(narrow.recast::<Declaration>().downcast(&tree), Declaration::ExtendsDeclaration(payload.clone()));
    assert_eq!(narrow.upcast().downcast(&tree), Any::ExtendsDeclaration(payload.clone()));
    assert_eq!(narrow.upcast().try_downcast::<ExtendsDeclaration>(&tree), Some(payload.clone()));
    assert_eq!(narrow.upcast().try_downcast::<Expression>(&tree), None);
    assert!(narrow.upcast().try_recast::<Statement>(&tree).is_none());
    assert!(narrow.ptr_eq(&decls[0]));
    assert_eq!(Declaration::try_from_any(payload.clone().into_any()), Some(Declaration::ExtendsDeclaration(payload.clone())));
    assert_eq!(Declaration::from(payload.clone()), Declaration::ExtendsDeclaration(payload.clone()));
    assert_eq!(Any::from(Declaration::from(payload.clone())), Any::ExtendsDeclaration(payload.clone()));
    assert_eq!(Any::from(payload.clone()), payload.clone().into_any());
    assert_eq!(Statement::from(Pass), Statement::Pass(Pass));
    assert_eq!(Any::from(BinaryOperator::In), Any::BinaryOperator(BinaryOperator::In));
    assert_eq!(Statement::try_from_any(payload.into_any()), None);
}

#[test]
fn contains_follows_the_parent_chain() {
    let tree = parse("var a = [1, [2]]\nvar b = 3").unwrap();
    let decls = declarations(&tree);
    let root: AST<Any> = AST::at(tree.len() - 1);
    let a = decls[0].upcast();
    let b = decls[1].upcast();
    let a_value = match decls[0].downcast(&tree) {
        Declaration::ValueDeclaration(v) => v.value.unwrap(),
        other => panic!("{:?}", other),
    };
    let inner = match a_value.downcast(&tree) {
        Expression::ArrayLiteral(array) => array.members[1],
        other => panic!("{:?}", other),
    };
    let two = match inner.downcast(&tree) {
        Expression::ArrayLiteral(array) => array.members[0].upcast(),
        other => panic!("{:?}", other),
    };
    assert!(a.contains(&tree, &two));
    assert!(a.contains(&tree, &a));
    assert!(root.contains(&tree, &two));
    assert!(inner.contains(&tree, &two));
    assert!(!two.contains(&tree, &a));
    assert!(!b.contains(&tree, &two));
    assert!(!b.contains(&tree, &a));
    assert!(!a.contains(&tree, &b));
}

#[test]
fn find_parent_walks_upward() {
    let tree = parse("func f():\n\tpass").unwrap();
    let pass: AST<Any> = (0..tree.len())
        .map(AST::<Any>::at)
        .find(|n| matches!(n.details(&tree), Any::Pass(_)))
        .unwrap();
    let func = pass.find_parent_of_type::<FuncDeclaration>(&tree).unwrap();
    assert_eq!(func.slice(&tree).as_str(), "func f():\n\tpass");
    let script = pass.find_parent_of_type::<GDScript>(&tree).unwrap();
    assert_eq!(script.id, tree.len() - 1);
    assert!(pass.find_parent_of_type::<ArrayLiteral>(&tree).is_none());
    assert_eq!(pass.find_parent_of_type::<Pass>(&tree).map(|p| p.id), Some(pass.id));
    let block = pass.find_parent(&tree, |n| n.id > pass.id).unwrap();
    assert!(matches!(block.details(&tree), Any::Block(_)));
    assert!(pass.find_parent(&tree, |n| n.id > 1000).is_none());
}

#[test]
fn int_declaration_with_int_literal() {
    let tree = parse("var x: int = 5").unwrap();
    let decls = declarations(&tree);
    let decl = match decls[0].downcast(&tree) {
        Declaration::ValueDeclaration(v) => v,
        other => panic!("{:?}", other),
    };
    assert!(!decl.is_const);
    assert_eq!(text_of(&tree, decl.name.id), "x");
    let project = project();
    let declared = decl.declared_type.unwrap().resolve_type(&tree, ResolveContext { godot_project: &project });
    assert_eq!(declared, Type::Int(None));
    let value = decl.value.unwrap();
    let inferred = value.infer_type(&tree, InferTypeContext { godot_project: &project });
    assert_eq!(inferred, Type::Int(Some(5)));
    assert_eq!(text_of(&tree, value.id), "5");
    // Nothing but a type itself is subsumed so far, so the literal type is
    // not assignable to its base type, and the check says so.
    assert!(!declared.subsumes(&inferred));
    assert_eq!(check_all(&tree).len(), 1);
}

#[test]
fn string_declaration_with_int_literal() {
    let tree = parse("var x: String = 5").unwrap();
    let decls = declarations(&tree);
    let decl = match decls[0].downcast(&tree) {
        Declaration::ValueDeclaration(v) => v,
        other => panic!("{:?}", other),
    };
    let project = project();
    let declared = decl.declared_type.unwrap().resolve_type(&tree, ResolveContext { godot_project: &project });
    let inferred = decl.value.unwrap().infer_type(&tree, InferTypeContext { godot_project: &project });
    assert_eq!(declared, Type::String(None));
    assert_eq!(inferred, Type::Int(Some(5)));
    assert!(!declared.subsumes(&inferred));
    let errors = check_all(&tree);
    assert_eq!(errors.len(), 1);
    match errors[0].clone().into_check_error() {
        Some(CheckError { module_id, src, message }) => {
            assert_eq!(module_id, module());
            let src = src.unwrap();
            assert_eq!((src.start, src.end), (16, 17));
            assert_eq!(src.as_str(), "5");
            assert_eq!(message, "Can't assign!");
        }
        None => panic!("{:?}", errors[0]),
    }
    assert!(errors[0].clone().into_parse_error().is_none());
}

#[test]
fn declarations_without_both_parts_are_not_at_fault() {
    assert!(check_all(&parse("var x = 5\nvar y: int\nconst z").unwrap()).is_empty());
    assert!(check_all(&parse("extends Node\n@tool\nfunc f():\n\tpass").unwrap()).is_empty());
}

#[test]
fn faults_come_in_source_order() {
    let tree = parse("var a: String = 1\nvar b: int = [2]\nvar c: float = null").unwrap();
    let errors = check_all(&tree);
    let spans: Vec<String> = errors
        .iter()
        .map(|e| e.clone().into_check_error().unwrap().src.unwrap().as_str().to_string())
        .collect();
    assert_eq!(spans, vec!["1", "[2]", "null"]);
    let mut sink = vec![GDError::from(ParseError {
        module_id: None,
        src: Slice::new(Rc::new(String::new())),
        message: String::from("kept"),
    })];
    let project = project();
    let id = module();
    let ctx = CheckContext { module_id: &id, godot_project: &project };
    declarations(&tree).check(&tree, ctx, &mut sink);
    assert_eq!(sink.len(), 4);
    assert!(sink[0].clone().into_parse_error().is_some());
    Some(declarations(&tree)[0]).check(&tree, ctx, &mut sink);
    assert_eq!(sink.len(), 5);
    (declarations(&tree)[1], declarations(&tree)[2]).check(&tree, ctx, &mut sink);
    assert_eq!(sink.len(), 7);
    let nothing: Option<AST<Declaration>> = None;
    nothing.check(&tree, ctx, &mut sink);
    assert_eq!(sink.len(), 7);
}

#[test]
fn array_literal_infers_to_exact_array() {
    let tree = parse("var a = [1, 2, 3]").unwrap();
    let decls = declarations(&tree);
    let value = match decls[0].downcast(&tree) {
        Declaration::ValueDeclaration(v) => v.value.unwrap(),
        other => panic!("{:?}", other),
    };
    assert_eq!(text_of(&tree, value.id), "[1, 2, 3]");
    let project = project();
    let inferred = value.infer_type(&tree, InferTypeContext { godot_project: &project });
    assert_eq!(
        inferred,
        Type::ExactArray { members: vec![Type::Int(Some(1)), Type::Int(Some(2)), Type::Int(Some(3))] }
    );
}

#[test]
fn literals_infer_to_their_kinds() {
    let tree = parse("var a = [ true ,false, null, -12, 3.50, [], 99999999999999999999 , -9223372036854775808]").unwrap();
    let decls = declarations(&tree);
    let value = match decls[0].downcast(&tree) {
        Declaration::ValueDeclaration(v) => v.value.unwrap(),
        other => panic!("{:?}", other),
    };
    let project = project();
    let inferred = value.infer_type(&tree, InferTypeContext { godot_project: &project });
    let members = match inferred {
        Type::ExactArray { members } => members,
        other => panic!("{:?}", other),
    };
    assert_eq!(members.len(), 8);
    assert_eq!(members[0], Type::Boolean(Some(true)));
    assert_eq!(members[1], Type::Boolean(Some(false)));
    assert_eq!(members[2], Type::Null);
    assert_eq!(members[3], Type::Int(Some(-12)));
    match &members[4] {
        Type::Float(Some(text)) => assert_eq!(text.as_str(), "3.50"),
        other => panic!("{:?}", other),
    }
    assert_eq!(members[5], Type::ExactArray { members: vec![] });
    assert_eq!(members[6], Type::Int(None));
    assert_eq!(members[7], Type::Int(Some(i64::MIN)));
}

fn block_with_names() -> (SyntaxTree, AST<Declaration>, AST<Expression>, AST<Expression>, AST<Expression>) {
    // var x = 1
    // var y = x
    // var z = nothing
    // var w: int = 2  (declared at the top of the script)
    let code = Rc::new(String::from("var x = 1\nvar y = x\nvar z = nothing\nvar w: int = 2\nw"));
    let mut tree = SyntaxTree::new();
    let name_x = tree.make_node(PlainIdentifier { name: piece(&code, 4, 5) }, piece(&code, 4, 5));
    let one = tree.make_node(IntLiteral { value_raw: piece(&code, 8, 9) }, piece(&code, 8, 9));
    let decl_x = tree.make_node(
        ValueDeclaration { is_const: false, name: name_x, declared_type: None, value: Some(one.recast()) },
        piece(&code, 0, 9),
    );
    let name_y = tree.make_node(PlainIdentifier { name: piece(&code, 14, 15) }, piece(&code, 14, 15));
    let use_x = tree.make_node(LocalIdentifier { name: piece(&code, 18, 19) }, piece(&code, 18, 19));
    let decl_y = tree.make_node(
        ValueDeclaration { is_const: false, name: name_y, declared_type: None, value: Some(use_x.recast()) },
        piece(&code, 10, 19),
    );
    let name_z = tree.make_node(PlainIdentifier { name: piece(&code, 24, 25) }, piece(&code, 24, 25));
    let use_nothing = tree.make_node(LocalIdentifier { name: piece(&code, 28, 35) }, piece(&code, 28, 35));
    let decl_z = tree.make_node(
        ValueDeclaration { is_const: false, name: name_z, declared_type: None, value: Some(use_nothing.recast()) },
        piece(&code, 20, 35),
    );
    let use_w = tree.make_node(LocalIdentifier { name: piece(&code, 51, 52) }, piece(&code, 51, 52));
    let ret = tree.make_node(gdcheck::gdscript::ast::Return { expr: Some(use_w.recast()) }, piece(&code, 51, 52));
    let block = tree.make_node(
        Block { statements: vec![decl_x.recast(), decl_y.recast(), decl_z.recast(), ret.recast()] },
        piece(&code, 0, 52),
    );
    let name_f = tree.make_node(PlainIdentifier { name: piece(&code, 0, 3) }, piece(&code, 0, 3));
    let func = tree.make_node(
        FuncDeclaration { is_static: false, name: name_f, args: vec![], return_type: None, body: block },
        piece(&code, 0, 52),
    );
    let name_w = tree.make_node(PlainIdentifier { name: piece(&code, 40, 41) }, piece(&code, 40, 41));
    let int_type = tree.make_node(IntType, piece(&code, 43, 46));
    let two = tree.make_node(IntLiteral { value_raw: piece(&code, 49, 50) }, piece(&code, 49, 50));
    let decl_w = tree.make_node(
        ValueDeclaration { is_const: false, name: name_w, declared_type: Some(int_type.recast()), value: Some(two.recast()) },
        piece(&code, 36, 50),
    );
    tree.make_node(
        GDScript { declarations: vec![func.recast(), decl_w.recast()] },
        piece(&code, 0, 52),
    );
    (tree, decl_x.recast(), use_x.recast(), use_nothing.recast(), use_w.recast())
}

#[test]
fn a_name_resolves_to_the_declaration_in_its_block() {
    let (tree, decl_x, use_x, use_nothing, use_w) = block_with_names();
    let found = use_x.resolve_symbol(&tree, "x").unwrap();
    assert_eq!(found.id, decl_x.id);
    assert_eq!(found.slice(&tree).as_str(), "var x = 1");
    // a later declaration of the same block is found too
    assert_eq!(use_x.resolve_symbol(&tree, "z").map(|d| d.slice(&tree).as_str().to_string()), Some("var z = nothing".to_string()));
    assert!(use_nothing.resolve_symbol(&tree, "nothing").is_none());
    assert!(use_x.resolve_symbol(&tree, "").is_none());
    // from the block the search goes on to the script
    let top = use_w.resolve_symbol(&tree, "w").unwrap();
    assert_eq!(top.slice(&tree).as_str(), "var w: int = 2");
    // the top level also finds functions, by their name
    let func = use_w.resolve_symbol(&tree, "var").unwrap();
    assert!(matches!(func.details(&tree), Any::FuncDeclaration(_)));
    let root: AST<Any> = AST::at(tree.len() - 1);
    assert!(root.resolve_symbol(&tree, "w").is_none());

    let project = project();
    let ctx = InferTypeContext { godot_project: &project };
    assert_eq!(use_x.infer_type(&tree, ctx), Type::Int(Some(1)));
    assert_eq!(use_nothing.infer_type(&tree, ctx), Type::Poisoned);
    assert_eq!(use_w.infer_type(&tree, ctx), Type::Int(None));
}

#[test]
fn names_that_refer_to_each_other_in_a_circle_are_poisoned() {
    // var a = b
    // var b = a
    let code = Rc::new(String::from("var a = b\nvar b = a"));
    let mut tree = SyntaxTree::new();
    let name_a = tree.make_node(PlainIdentifier { name: piece(&code, 4, 5) }, piece(&code, 4, 5));
    let use_b = tree.make_node(LocalIdentifier { name: piece(&code, 8, 9) }, piece(&code, 8, 9));
    let decl_a = tree.make_node(
        ValueDeclaration { is_const: false, name: name_a, declared_type: None, value: Some(use_b.recast()) },
        piece(&code, 0, 9),
    );
    let name_b = tree.make_node(PlainIdentifier { name: piece(&code, 14, 15) }, piece(&code, 14, 15));
    let use_a = tree.make_node(LocalIdentifier { name: piece(&code, 18, 19) }, piece(&code, 18, 19));
    let decl_b = tree.make_node(
        ValueDeclaration { is_const: false, name: name_b, declared_type: None, value: Some(use_a.recast()) },
        piece(&code, 10, 19),
    );
    tree.make_node(GDScript { declarations: vec![decl_a.recast(), decl_b.recast()] }, piece(&code, 0, 19));
    let project = project();
    let ctx = InferTypeContext { godot_project: &project };
    assert_eq!(use_a.recast::<Expression>().infer_type(&tree, ctx), Type::Poisoned);
    // a poisoned value is not held against its declaration
    assert!(check_all(&tree).is_empty());
}

#[test]
fn operators_have_types_only_where_they_compare() {
    let code = Rc::new(String::from("1 < 2"));
    let mut tree = SyntaxTree::new();
    let left = tree.make_node(IntLiteral { value_raw: piece(&code, 0, 1) }, piece(&code, 0, 1));
    let right = tree.make_node(IntLiteral { value_raw: piece(&code, 4, 5) }, piece(&code, 4, 5));
    let op = tree.make_node(BinaryOperator::Less, piece(&code, 2, 3));
    let less = tree.make_node(
        BinaryOperation { op, left: left.recast(), right: right.recast() },
        piece(&code, 0, 5),
    );
    let project = project();
    let ctx = InferTypeContext { godot_project: &project };
    assert_eq!(less.recast::<Expression>().infer_type(&tree, ctx), Type::Boolean(None));

    let mut other = SyntaxTree::new();
    let l = other.make_node(IntLiteral { value_raw: piece(&code, 0, 1) }, piece(&code, 0, 1));
    let r = other.make_node(IntLiteral { value_raw: piece(&code, 4, 5) }, piece(&code, 4, 5));
    let plus = other.make_node(BinaryOperator::Plus, piece(&code, 2, 3));
    let sum = other.make_node(BinaryOperation { op: plus, left: l.recast(), right: r.recast() }, piece(&code, 0, 5));
    assert_eq!(sum.recast::<Expression>().infer_type(&other, ctx), Type::Unknown);
    assert_eq!(BinaryOperator::from_str("<="), Some(BinaryOperator::LessEqual));
    assert_eq!(BinaryOperator::from_str("as"), Some(BinaryOperator::As));
    assert_eq!(BinaryOperator::from_str("=>"), None);
    assert_eq!(BinaryOperator::DoubleStar.as_static_str(), "**");
    assert_eq!(UnaryOperator::from_str("~"), Some(UnaryOperator::BitwiseNot));
    assert_eq!(UnaryOperator::from_str("+"), None);
    assert_eq!(UnaryOperator::Not.as_static_str(), "!");
}

#[test]
fn type_expressions_resolve_to_types() {
    let code = Rc::new(String::from("NonNull<int>"));
    let mut tree = SyntaxTree::new();
    let int_type = tree.make_node(IntType, piece(&code, 8, 11));
    let non_null = tree.make_node(NonNullType { inner: int_type.recast() }, piece(&code, 0, 12));
    let project = project();
    let ctx = ResolveContext { godot_project: &project };
    assert_eq!(
        non_null.recast::<TypeExpression>().resolve_type(&tree, ctx),
        Type::NonNull { inner: Rc::new(Type::Int(None)) }
    );
    let name = tree.make_node(PlainIdentifier { name: piece(&code, 0, 7) }, piece(&code, 0, 7));
    let named = tree.make_node(gdcheck::gdscript::ast::NamedType { name }, piece(&code, 0, 7));
    assert_eq!(named.recast::<TypeExpression>().resolve_type(&tree, ctx), Type::Unknown);
    let check = CheckContext { module_id: &module(), godot_project: &project };
    assert!(std::ptr::eq(ResolveContext::from(check).godot_project, &project));
    assert!(std::ptr::eq(InferTypeContext::from(check).godot_project, &project));
    assert!(std::ptr::eq(ResolveContext::from(InferTypeContext { godot_project: &project }).godot_project, &project));
}

#[test]
fn every_type_subsumes_itself_and_nothing_else() {
    let code = Rc::new(String::from("abcabd"));
    let samples = vec![
        Type::Null,
        Type::Boolean(None),
        Type::Boolean(Some(true)),
        Type::Int(None),
        Type::Int(Some(5)),
        Type::Float(None),
        Type::Float(Some(piece(&code, 0, 2))),
        Type::String(Some(piece(&code, 0, 3))),
        Type::String(Some(piece(&code, 3, 6))),
        Type::Vector2,
        Type::Object,
        Type::NonNull { inner: Rc::new(Type::Int(None)) },
        Type::Array { element: Rc::new(Type::Int(None)) },
        Type::Array { element: Rc::new(Type::Float(None)) },
        Type::Dictionary { key: Rc::new(Type::String(None)), value: Rc::new(Type::Any) },
        Type::ExactDictionary { entries: vec![(Type::Int(Some(1)), Type::Null)] },
        Type::ExactArray { members: vec![Type::Int(Some(1)), Type::Int(Some(2))] },
        Type::ExactArray { members: vec![Type::Int(Some(1))] },
        Type::Unknown,
        Type::Poisoned,
        Type::Any,
    ];
    for (i, a) in samples.iter().enumerate() {
        for (j, b) in samples.iter().enumerate() {
            assert_eq!(a.subsumes(b), i == j, "{:?} and {:?}", a, b);
        }
        assert!(a.subsumes(&a.clone()));
        assert_eq!(&a.clone(), a);
    }
    // the same text at another place is the same literal
    assert!(Type::String(Some(piece(&code, 0, 2))).subsumes(&Type::String(Some(piece(&code, 3, 5)))));
    // no widening: not of a literal to its base, not of an exact array to an array
    assert!(!Type::Int(None).subsumes(&Type::Int(Some(5))));
    assert!(!Type::Array { element: Rc::new(Type::Int(Some(1))) }
        .subsumes(&Type::ExactArray { members: vec![Type::Int(Some(1))] }));
    assert!(!Type::Any.subsumes(&Type::Null));
}

#[test]
fn a_declaration_that_breaks_off_is_an_error_where_it_breaks() {
    let err = parse("extends").unwrap_err();
    assert_eq!(err.module_id, None);
    assert_eq!(err.message, "Tag");
    assert_eq!((err.src.start, err.src.end), (7, 7));

    let err = parse("  extends  +3").unwrap_err();
    assert_eq!(err.message, "TakeWhile1");
    assert_eq!(err.src.as_str(), "+3");

    let err = parse("var x = 1.").unwrap_err();
    assert_eq!(err.message, "TakeWhile1");
    assert_eq!((err.src.start, err.src.end), (10, 10));

    let err = parse("func f(:\n\tpass").unwrap_err();
    assert_eq!(err.message, "Tag");
    assert_eq!(err.src.as_str(), ":\n\tpass");

    let err = parse("func f():\npass").unwrap_err();
    assert_eq!(err.message, "Tag");
    assert_eq!(err.src.as_str(), "pass");

    let err = parse("var = 3").unwrap_err();
    assert_eq!(err.message, "TakeWhile1");
    assert_eq!(err.src.as_str(), "= 3");
}

#[test]
fn text_that_is_left_over_is_an_error() {
    let err = parse("extends Node\npass").unwrap_err();
    assert_eq!(err.module_id, None);
    assert_eq!(err.message, "Failed to parse entire input");
    assert_eq!(err.src.as_str(), "pass");

    let err = parse("var x = [1, 2").unwrap_err();
    assert_eq!(err.message, "Failed to parse entire input");
    assert_eq!(err.src.as_str(), "= [1, 2");

    let err = parse("var x: Node = 1").unwrap_err();
    assert_eq!(err.src.as_str(), ": Node = 1");
}

#[test]
fn an_empty_script_is_a_script() {
    for source in ["", "   \n# nothing here\n\r\n"] {
        let tree = parse(source).unwrap();
        assert_eq!(tree.len(), 1);
        assert!(declarations(&tree).is_empty());
    }
}

#[test]
fn a_trailing_comma_is_not_read() {
    let err = parse("var x = [1, ]").unwrap_err();
    assert_eq!(err.src.as_str(), "= [1, ]");
    let tree = parse("const x=[1,[ ],true]#done").unwrap();
    let decls = declarations(&tree);
    match decls[0].downcast(&tree) {
        Declaration::ValueDeclaration(v) => {
            assert!(v.is_const);
            assert!(v.declared_type.is_none());
            assert_eq!(text_of(&tree, v.value.unwrap().id), "[1,[ ],true]");
        }
        other => panic!("{:?}", other),
    }
    assert_eq!(text_of(&tree, decls[0].id), "const x=[1,[ ],true]");
}

#[test]
fn annotations_and_types_parse() {
    let tree = parse("@ export\nvar speed : float\nvar name:String=null").unwrap();
    let decls = declarations(&tree);
    assert_eq!(decls.len(), 3);
    match decls[0].downcast(&tree) {
        Declaration::Annotation(a) => {
            assert_eq!(text_of(&tree, a.name.id), "export");
            assert!(a.arguments.is_empty());
        }
        other => panic!("{:?}", other),
    }
    assert_eq!(text_of(&tree, decls[0].id), "@ export");
    assert_eq!(text_of(&tree, decls[1].id), "var speed : float");
    let project = project();
    match decls[2].downcast(&tree) {
        Declaration::ValueDeclaration(v) => {
            assert_eq!(
                v.declared_type.unwrap().resolve_type(&tree, ResolveContext { godot_project: &project }),
                Type::String(None)
            );
            assert_eq!(
                v.value.unwrap().infer_type(&tree, InferTypeContext { godot_project: &project }),
                Type::Null
            );
        }
        other => panic!("{:?}", other),
    }
}

#[test]
fn indentation_is_tabs_or_four_spaces_a_level() {
    assert_eq!(get_indentation_str_tabs(0), "");
    assert_eq!(get_indentation_str_tabs(3), "\t\t\t");
    assert_eq!(get_indentation_str_tabs(5), "\t\t\t\t\t");
    assert_eq!(get_indentation_str_spaces(0), "");
    assert_eq!(get_indentation_str_spaces(1), "    ");
    assert_eq!(get_indentation_str_spaces(5).len(), 20);
}

#[test]
fn nodes_can_be_made_and_attached_by_hand() {
    let code = Rc::new(String::from("name"));
    let mut tree = SyntaxTree::new();
    let ident = PlainIdentifier { name: piece(&code, 0, 4) }.as_ast(piece(&code, 0, 4), &mut tree);
    assert!(ident.parent(&tree).is_none());
    let literal = identifier_to_string(&mut tree, ident);
    assert_eq!(
        literal.downcast(&tree),
        StringLiteral { value: piece(&code, 0, 4), multiline: false }
    );
    assert_eq!(literal.slice(&tree).as_str(), "name");
    let holder = ExtendsDeclaration { extends_class: ident }.as_ast(piece(&code, 0, 4), &mut tree);
    set_parent(&ident, &holder, &mut tree);
    assert_eq!(ident.parent(&tree).map(|p| p.id), Some(holder.id));
    set_parent(&(Some(literal), vec![ident]), &literal, &mut tree);
    assert_eq!(ident.parent(&tree).map(|p| p.id), Some(literal.id));
    assert_eq!(literal.parent(&tree).map(|p| p.id), Some(literal.id));
    let mut held = Vec::new();
    (Some(literal), vec![ident]).collect(&mut held);
    true.collect(&mut held);
    piece(&code, 0, 1).collect(&mut held);
    assert_eq!(held, vec![literal.id, ident.id]);
    let project = project();
    assert_eq!(
        literal.recast::<Expression>().infer_type(&tree, InferTypeContext { godot_project: &project })
            .subsumes(&Type::String(Some(piece(&code, 0, 4)))),
        true
    );
    let float = tree.make_node(FloatLiteral { value_raw: piece(&code, 0, 1) }, piece(&code, 0, 1));
    let flag = tree.make_node(BooleanLiteral { value: true }, piece(&code, 0, 1));
    assert_eq!(flag.downcast(&tree).value, true);
    assert_eq!(float.upcast().try_downcast::<FloatLiteral>(&tree).unwrap().value_raw.as_str(), "n");
}

#[test]
fn rules_are_named() {
    assert_eq!(Rule::from_str("AssignmentType"), Some(Rule::AssignmentType));
    assert_eq!(Rule::from_str("StrictAny"), Some(Rule::StrictAny));
    assert_eq!(Rule::from_str("RequireTypeAnnotations"), Some(Rule::RequireTypeAnnotations));
    assert_eq!(Rule::from_str("assignmenttype"), None);
    assert_eq!(RuleSeverity::from_str("error"), Some(RuleSeverity::Error));
    assert_eq!(RuleSeverity::from_str("warning"), Some(RuleSeverity::Warning));
    assert_eq!(RuleSeverity::from_str("info"), Some(RuleSeverity::Info));
    assert_eq!(RuleSeverity::from_str("off"), Some(RuleSeverity::Off));
    assert_eq!(RuleSeverity::from_str("Error"), None);
}

fn only_function(tree: &SyntaxTree) -> (AST<Declaration>, FuncDeclaration) {
    let decls = declarations(tree);
    assert_eq!(decls.len(), 1);
    match decls[0].downcast(tree) {
        Declaration::FuncDeclaration(f) => (decls[0], f),
        other => panic!("{:?}", other),
    }
}

#[test]
fn a_body_indented_by_spaces_is_read_like_one_indented_by_tabs() {
    let tree = parse("func f():\n    pass").unwrap();
    let (decl, func) = only_function(&tree);
    let span = decl.slice(&tree);
    assert_eq!((span.start, span.end), (0, 18));
    assert_eq!(text_of(&tree, func.name.id), "f");
    let body = func.body.slice(&tree);
    assert_eq!((body.start, body.end), (14, 18));
    let block = func.body.downcast(&tree);
    assert_eq!(block.statements.len(), 1);
    assert_eq!(block.statements[0].downcast(&tree), Statement::Pass(Pass));
    let pass = block.statements[0].slice(&tree);
    assert_eq!((pass.start, pass.end), (14, 18));

    let tabbed = parse("func f():\n\tpass").unwrap();
    let (tab_decl, tab_func) = only_function(&tabbed);
    assert_eq!(tabbed.len(), tree.len());
    assert_eq!(tab_decl.slice(&tabbed).as_str(), "func f():\n\tpass");
    assert_eq!(tab_func.body.downcast(&tabbed).statements.len(), 1);
    assert_eq!(tab_func.body.slice(&tabbed).as_str(), "pass");
}

#[test]
fn blanks_and_comments_between_block_lines_are_passed_over() {
    let source = "func f():  # body\n\n    pass # first\n  \n    break\n\nvar x";
    let tree = parse(source).unwrap();
    let decls = declarations(&tree);
    assert_eq!(decls.len(), 2);
    let func = match decls[0].downcast(&tree) {
        Declaration::FuncDeclaration(f) => f,
        other => panic!("{:?}", other),
    };
    let block = func.body.downcast(&tree);
    assert_eq!(block.statements.len(), 2);
    assert_eq!(block.statements[0].slice(&tree).as_str(), "pass");
    assert_eq!(block.statements[1].slice(&tree).as_str(), "break");
    assert_eq!(text_of(&tree, decls[1].id), "var x");
    // the indentation is that of the level: two spaces are not four
    let err = parse("func f():\n  pass").unwrap_err();
    assert_eq!(err.message, "Tag");
    assert_eq!(err.src.as_str(), "  pass");
    // a statement on the line of the colon stands after the indentation too
    assert!(parse("func f():\tpass").is_ok());
    assert!(parse("func f():    pass").is_ok());
    assert!(parse("func f(): pass").is_err());
}

#[test]
fn declarations_stand_in_source_order() {
    let tree = parse("extends A\nvar x = 1\n@tool\nfunc f():\n\tpass\nclass_name B").unwrap();
    let decls = declarations(&tree);
    assert_eq!(decls.len(), 5);
    for pair in decls.windows(2) {
        assert!(pair[0].slice(&tree).end <= pair[1].slice(&tree).start);
    }
}

#[test]
fn an_integer_may_have_a_sign() {
    let code = Rc::new(String::from("+5 -5 + 05"));
    let mut tree = SyntaxTree::new();
    let plus = tree.make_node(IntLiteral { value_raw: piece(&code, 0, 2) }, piece(&code, 0, 2));
    let minus = tree.make_node(IntLiteral { value_raw: piece(&code, 3, 5) }, piece(&code, 3, 5));
    let alone = tree.make_node(IntLiteral { value_raw: piece(&code, 6, 7) }, piece(&code, 6, 7));
    let zero = tree.make_node(IntLiteral { value_raw: piece(&code, 8, 10) }, piece(&code, 8, 10));
    let project = project();
    let ctx = InferTypeContext { godot_project: &project };
    assert_eq!(plus.recast::<Expression>().infer_type(&tree, ctx), Type::Int(Some(5)));
    assert_eq!(minus.recast::<Expression>().infer_type(&tree, ctx), Type::Int(Some(-5)));
    assert_eq!(alone.recast::<Expression>().infer_type(&tree, ctx), Type::Int(None));
    assert_eq!(zero.recast::<Expression>().infer_type(&tree, ctx), Type::Int(Some(5)));
}

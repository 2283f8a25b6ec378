use gdcheck::gdproject_metadata::ast::{EntryValue, GDProjectMetadata, Section};
use gdcheck::gdproject_metadata::parse::parse_gdproject_metadata;
use gdcheck::gdscript::ast::{ModuleID, SyntaxTree};
use gdcheck::gdscript::rules::{Rule, RuleSeverity};
use gdcheck::godot_project::GodotProject;
use gdcheck::utils::slice::Slice;
use gdcheck::utils::{
    message_of, number_literal, numeric, string_contents, string_literal, ErrorKind,
    ParseFailure, RawParseError, RawParseErrorDetails,
};
use std::rc::Rc;

fn input(text: &str) -> Slice {
    Slice::new(Rc::new(String::from(text)))
}

fn get<'a>(section: &'a Section, key: &str) -> Option<&'a EntryValue> {
    section.iter().find(|(k, _)| k.as_str() == key).map(|(_, v)| v)
}

fn section<'a>(project: &'a GDProjectMetadata, name: &str) -> Option<&'a Section> {
    project.other_sections.iter().find(|(n, _)| n.as_str() == name).map(|(_, s)| s)
}

#[test]
fn a_named_section_holds_its_entries() {
    let project = parse_gdproject_metadata(input("[application]\nname=\"Foo\"")).unwrap();
    assert!(project.front_section.is_empty());
    assert_eq!(project.other_sections.len(), 1);
    let application = section(&project, "application").unwrap();
    assert_eq!(application.len(), 1);
    match get(application, "name").unwrap() {
        EntryValue::StringValue { s, ampersand } => {
            assert_eq!(s.as_str(), "Foo");
            assert!(!*ampersand);
        }
        other => panic!("{:?}", other),
    }
}

#[test]
fn entries_before_any_header_are_the_front_section() {
    let text = "; Engine configuration file.\nconfig_version=5\n_global=&\"x\"\n\n[application]\n\nconfig/name = \"Game\"\n[rendering]\n";
    let project = parse_gdproject_metadata(input(text)).unwrap();
    assert_eq!(project.front_section.len(), 2);
    match get(&project.front_section, "config_version").unwrap() {
        EntryValue::NumberValue(n) => assert_eq!(n.as_str(), "5"),
        other => panic!("{:?}", other),
    }
    match get(&project.front_section, "_global").unwrap() {
        EntryValue::StringValue { s, ampersand } => {
            assert_eq!(s.as_str(), "x");
            assert!(*ampersand);
        }
        other => panic!("{:?}", other),
    }
    assert_eq!(project.other_sections.len(), 2);
    assert_eq!(section(&project, "application").unwrap().len(), 1);
    assert!(section(&project, "rendering").unwrap().is_empty());
}

#[test]
fn a_later_value_replaces_an_earlier_one() {
    let text = "[a]\nk=1\nk=2\nj=3\n[b]\nk=4\n[a]\nz=5";
    let project = parse_gdproject_metadata(input(text)).unwrap();
    assert_eq!(project.other_sections.len(), 2);
    let a = section(&project, "a").unwrap();
    assert_eq!(a.len(), 1);
    match get(a, "z").unwrap() {
        EntryValue::NumberValue(n) => assert_eq!(n.as_str(), "5"),
        other => panic!("{:?}", other),
    }
    let b = section(&project, "b").unwrap();
    match get(b, "k").unwrap() {
        EntryValue::NumberValue(n) => assert_eq!(n.as_str(), "4"),
        other => panic!("{:?}", other),
    }
    let once = parse_gdproject_metadata(input("[a]\nk=1\nk=2\nj=3")).unwrap();
    let a = section(&once, "a").unwrap();
    assert_eq!(a.len(), 2);
    match get(a, "k").unwrap() {
        EntryValue::NumberValue(n) => assert_eq!(n.as_str(), "2"),
        other => panic!("{:?}", other),
    }
}

#[test]
fn values_of_every_kind() {
    let text = "a=true\nb=false\nc=null\nd=-1.5\ne=[1, \"two\", [ ]]\nf={ \"x\": 1 , \"y\": { } , \"x\": 2 }\ng=Object(Node,\"name\":\"n\",\"script\":null)\nh=Vector2 (1 ,2 )\ni=PackedStringArray(\"a\")";
    let project = parse_gdproject_metadata(input(text)).unwrap();
    let front = &project.front_section;
    assert_eq!(front.len(), 9);
    assert_eq!(get(front, "a"), Some(&EntryValue::BooleanValue(true)));
    assert_eq!(get(front, "b"), Some(&EntryValue::BooleanValue(false)));
    assert_eq!(get(front, "c"), Some(&EntryValue::Null));
    match get(front, "d").unwrap() {
        EntryValue::NumberValue(n) => assert_eq!(n.as_str(), "-1.5"),
        other => panic!("{:?}", other),
    }
    match get(front, "e").unwrap() {
        EntryValue::ListValue(items) => {
            assert_eq!(items.len(), 3);
            assert_eq!(items[2], EntryValue::ListValue(vec![]));
            match &items[1] {
                EntryValue::StringValue { s, ampersand } => {
                    assert_eq!(s.as_str(), "two");
                    assert!(!*ampersand);
                }
                other => panic!("{:?}", other),
            }
        }
        other => panic!("{:?}", other),
    }
    match get(front, "f").unwrap() {
        EntryValue::DictValue(entries) => {
            assert_eq!(entries.len(), 2);
            match get(entries, "x").unwrap() {
                EntryValue::NumberValue(n) => assert_eq!(n.as_str(), "2"),
                other => panic!("{:?}", other),
            }
            assert_eq!(get(entries, "y"), Some(&EntryValue::DictValue(vec![])));
        }
        other => panic!("{:?}", other),
    }
    match get(front, "g").unwrap() {
        EntryValue::ObjectValue { class, properties } => {
            assert_eq!(class.as_str(), "Node");
            assert_eq!(properties.len(), 2);
            assert_eq!(get(properties, "script"), Some(&EntryValue::Null));
        }
        other => panic!("{:?}", other),
    }
    match get(front, "h").unwrap() {
        EntryValue::ConstructedValue { class, entries } => {
            assert_eq!(class.as_str(), "Vector2");
            assert_eq!(entries.len(), 2);
        }
        other => panic!("{:?}", other),
    }
    match get(front, "i").unwrap() {
        EntryValue::ConstructedValue { class, entries } => {
            assert_eq!(class.as_str(), "PackedStringArray");
            assert_eq!(entries.len(), 1);
        }
        other => panic!("{:?}", other),
    }
}

#[test]
fn a_value_that_breaks_off_is_an_error() {
    let err = parse_gdproject_metadata(input("name=\"Foo")).unwrap_err();
    assert_eq!(err.module_id, None);
    assert_eq!(err.message, "Tag");
    assert_eq!((err.src.start, err.src.end), (9, 9));
    let err = parse_gdproject_metadata(input("a=1\nb=2.x")).unwrap_err();
    assert_eq!(err.message, "TakeWhile1");
    assert_eq!(err.src.as_str(), "x");
    let err = GDProjectMetadata::try_from(input("k=[\"a")).unwrap_err();
    assert_eq!(err.module_id, None);
    assert_eq!(err.message, "Tag");
    assert_eq!((err.src.start, err.src.end), (5, 5));
}

#[test]
fn no_blank_may_stand_before_a_constructed_value() {
    let project = parse_gdproject_metadata(input("a=Vector2(1, 2)\nb=1")).unwrap();
    assert!(project.front_section.is_empty());
    let project = parse_gdproject_metadata(input("a=Vector2( 1)\nb=1")).unwrap();
    assert!(project.front_section.is_empty());
}

#[test]
fn reading_stops_before_what_is_no_item() {
    let project = parse_gdproject_metadata(input("a=1\n???\nb=2")).unwrap();
    assert_eq!(project.front_section.len(), 1);
    let empty = parse_gdproject_metadata(input("   ; only a comment")).unwrap();
    assert!(empty.front_section.is_empty());
    assert!(empty.other_sections.is_empty());
    let new = GDProjectMetadata::new();
    assert_eq!(new, empty);
}

#[test]
fn string_literals() {
    let (rest, read) = string_literal(input("\"a\\\"b\" tail")).unwrap();
    assert_eq!(read.as_str(), "\"a\\\"");
    assert_eq!(rest.as_str(), "b\" tail");
    let (rest, read) = string_contents(input("abc\"d")).unwrap();
    assert_eq!(read.as_str(), "abc");
    assert_eq!(rest.as_str(), "\"d");
    match string_literal(input("x\"")) {
        Err(ParseFailure::Error(RawParseError { src, details })) => {
            assert_eq!(src.as_str(), "x\"");
            assert_eq!(details, RawParseErrorDetails::Kind(ErrorKind::Tag));
        }
        other => panic!("{:?}", other),
    }
    match string_literal(input("\"open")) {
        Err(ParseFailure::Failure(RawParseError { src, details })) => {
            assert_eq!((src.start, src.end), (5, 5));
            assert_eq!(details, RawParseErrorDetails::Kind(ErrorKind::Tag));
        }
        other => panic!("{:?}", other),
    }
}

#[test]
fn number_literals() {
    let (rest, read) = number_literal(input("-12.50,")).unwrap();
    assert_eq!(read.as_str(), "-12.50");
    assert_eq!(rest.as_str(), ",");
    let (rest, read) = number_literal(input("7up")).unwrap();
    assert_eq!(read.as_str(), "7");
    assert_eq!(rest.as_str(), "up");
    let (_, read) = numeric(input("٣٤x")).unwrap();
    assert_eq!(read.as_str(), "٣٤");
    match number_literal(input("-x")) {
        Err(ParseFailure::Error(RawParseError { src, details })) => {
            assert_eq!(src.as_str(), "x");
            assert_eq!(details, RawParseErrorDetails::Kind(ErrorKind::TakeWhile1));
        }
        other => panic!("{:?}", other),
    }
    match number_literal(input("1.")) {
        Err(ParseFailure::Failure(RawParseError { src, details })) => {
            assert_eq!((src.start, src.end), (2, 2));
            assert_eq!(details, RawParseErrorDetails::Kind(ErrorKind::TakeWhile1));
        }
        other => panic!("{:?}", other),
    }
    assert!(numeric(input("")).is_err());
}

#[test]
fn messages_of_failed_rules() {
    assert_eq!(message_of(&RawParseErrorDetails::Kind(ErrorKind::Tag)), "Tag");
    assert_eq!(message_of(&RawParseErrorDetails::Kind(ErrorKind::TakeWhile1)), "TakeWhile1");
    assert_eq!(message_of(&RawParseErrorDetails::Char(']')), "Expected ']'");
}

#[test]
fn a_project_keeps_one_tree_a_module_and_one_severity_a_rule() {
    let mut project = GodotProject::new(GDProjectMetadata::new());
    let a = ModuleID(Rc::new(String::from("res://a.gd")));
    let b = ModuleID(Rc::new(String::from("res://b.gd")));
    assert!(project.script(&a).is_none());
    project.set_script(a.clone(), SyntaxTree::new());
    assert_eq!(project.script(&a).map(|t| t.len()), Some(0));
    assert!(project.script(&b).is_none());
    let same_name = ModuleID(Rc::new(String::from("res://a.gd")));
    assert!(project.script(&same_name).is_some());
    let mut other = SyntaxTree::new();
    other.make_node(gdcheck::gdscript::ast::Pass, input("pass"));
    project.set_script(same_name, other);
    project.set_script(b.clone(), SyntaxTree::new());
    assert_eq!(project.scripts.len(), 2);
    assert_eq!(project.script(&a).map(|t| t.len()), Some(1));
    assert_eq!(project.script(&b).map(|t| t.len()), Some(0));
    assert_eq!(project.script_position(&b), Some(1));
    assert_eq!(project.severity(Rule::StrictAny), None);
    project.set_severity(Rule::StrictAny, RuleSeverity::Warning);
    project.set_severity(Rule::AssignmentType, RuleSeverity::Error);
    project.set_severity(Rule::StrictAny, RuleSeverity::Off);
    assert_eq!(project.severity(Rule::StrictAny), Some(RuleSeverity::Off));
    assert_eq!(project.severity(Rule::AssignmentType), Some(RuleSeverity::Error));
    assert_eq!(project.severity(Rule::RequireTypeAnnotations), None);
    assert_eq!(project.rule_severity.len(), 2);
    assert_eq!(project.rule_position(Rule::AssignmentType), Some(1));
}

#[test]
fn failures_are_made_of_input_and_kind() {
    let at = input("rest");
    let failed = RawParseError::from_error_kind(at.clone(), ErrorKind::Tag);
    assert_eq!(failed, RawParseError { src: at.clone(), details: RawParseErrorDetails::Kind(ErrorKind::Tag) });
    let asked = RawParseError::from_char(at.clone(), ')');
    assert_eq!(asked.details, RawParseErrorDetails::Char(')'));
    assert_eq!(RawParseError::append(input("other"), ErrorKind::TakeWhile1, failed.clone()), failed);
    assert_eq!(RawParseError::add_context(input("other"), "string", asked.clone()), asked);
    assert_eq!(RawParseError::from_external_error(at.clone(), ErrorKind::Tag, "outside"), failed);
}

use gdcheck::utils::slice::{spanning, CompareResult, Slice};
use nom::InputTake;
use std::rc::Rc;

#[test]
fn slice_take_split() {
    let code = Rc::new(String::from("ksjdfg"));
    let s = Slice::new(code.clone());

    let index = 1;
    let (a, b) = s.take_split(index);
    assert_eq!((a.as_str(), b.as_str()), s.as_str().take_split(index));

    let index = 2;
    let (a, b) = s.take_split(index);
    assert_eq!((a.as_str(), b.as_str()), s.as_str().take_split(index));

    let s = Slice {
        full_string: code.clone(),
        start: 2,
        end: s.len() - 1,
    };

    let index = 1;
    let (a, b) = s.take_split(index);
    assert_eq!((a.as_str(), b.as_str()), s.as_str().take_split(index));

    let index = 2;
    let (a, b) = s.take_split(index);
    assert_eq!((a.as_str(), b.as_str()), s.as_str().take_split(index));
}

#[test]
fn slice_range() {
    let code = Rc::new(String::from("2136547612534721634"));

    let slice = Slice {
        full_string: code.clone(),
        start: 0,
        end: 12,
    };

    let slice = slice.slice_range(4, None);
    assert_eq!(
        slice,
        Slice {
            full_string: code.clone(),
            start: 4,
            end: 12
        }
    );

    let slice = slice.slice_range(0, None);
    assert_eq!(
        slice,
        Slice {
            full_string: code.clone(),
            start: 4,
            end: 12
        }
    );

    let slice = slice.slice_range(0, Some(6));
    assert_eq!(
        slice,
        Slice {
            full_string: code.clone(),
            start: 4,
            end: 10
        }
    );

    let slice = slice.slice_range(1, Some(2));
    assert_eq!(
        slice,
        Slice {
            full_string: code.clone(),
            start: 5,
            end: 6
        }
    );
}

#[test]
fn new_covers_the_whole_text() {
    let s = Slice::new(Rc::new(String::from("héllo")));
    assert_eq!(s.start, 0);
    assert_eq!(s.end, 6);
    assert_eq!(s.len(), 6);
    assert_eq!(s.as_str(), "héllo");
}

#[test]
fn join_is_the_smallest_cover() {
    let code = Rc::new(String::from("0123456789"));
    let a = Slice { full_string: code.clone(), start: 2, end: 4 };
    let b = Slice { full_string: code.clone(), start: 6, end: 9 };
    let joined = a.clone().join(&b);
    assert_eq!((joined.start, joined.end), (2, 9));
    let other_way = b.clone().join(&a);
    assert_eq!((other_way.start, other_way.end), (2, 9));
    assert!(joined.contains(&a));
    assert!(joined.contains(&b));
    assert!(!a.contains(&b));
    let spanned = spanning(&a, &b);
    assert_eq!((spanned.start, spanned.end), (2, 9));
}

#[test]
fn equal_text_at_different_places_is_equal() {
    let code = Rc::new(String::from("abcabc"));
    let first = Slice { full_string: code.clone(), start: 0, end: 3 };
    let second = Slice { full_string: code.clone(), start: 3, end: 6 };
    let shifted = Slice { full_string: code.clone(), start: 1, end: 4 };
    assert!(first == second);
    assert!(first != shifted);
}

#[test]
fn cloning_shares_the_text() {
    let code = Rc::new(String::from("abc"));
    let s = Slice::new(code.clone());
    let copy = s.clone();
    assert!(Rc::ptr_eq(&copy.full_string, &code));
    assert_eq!((copy.start, copy.end), (0, 3));
}

#[test]
fn compare_with_a_literal() {
    let code = Rc::new(String::from("extends Node"));
    let s = Slice::new(code.clone());
    assert_eq!(s.compare("extends"), CompareResult::Matches);
    assert_eq!(s.compare("extent"), CompareResult::Differs);
    let short = Slice { full_string: code.clone(), start: 0, end: 3 };
    assert_eq!(short.compare("extends"), CompareResult::Incomplete);
    assert_eq!(short.compare("exx"), CompareResult::Differs);
}

#[test]
fn cursors_walk_the_characters_of_the_range() {
    let code = Rc::new(String::from("aé€b"));
    let s = Slice { full_string: code.clone(), start: 1, end: 6 };
    let mut chars = s.iter_elements();
    assert_eq!(chars.next(), Some('é'));
    assert_eq!(chars.next(), Some('€'));
    assert_eq!(chars.next(), None);
    let mut indices = s.iter_indices();
    assert_eq!(indices.next(), Some((1, 'é')));
    assert_eq!(indices.next(), Some((3, '€')));
    assert_eq!(indices.next(), None);
}

#[test]
fn take_and_offset() {
    let code = Rc::new(String::from("0123456789"));
    let s = Slice { full_string: code.clone(), start: 2, end: 8 };
    let taken = s.take(3);
    assert_eq!(taken.as_str(), "234");
    let (rest, head) = s.take_split(3);
    assert_eq!(head.as_str(), "234");
    assert_eq!(rest.as_str(), "567");
    assert_eq!(s.offset(&rest), 3);
    assert_eq!(s.input_len(), 6);
}

#[test]
fn position_and_index_count_characters() {
    let code = Rc::new(String::from("xaé€b"));
    let s = Slice { full_string: code.clone(), start: 1, end: 8 };
    assert_eq!(s.as_str(), "aé€b");
    assert_eq!(s.position(|c| c == 'a'), Some(0));
    assert_eq!(s.position(|c| c == '€'), Some(3));
    assert_eq!(s.position(|c| c == 'b'), Some(6));
    assert_eq!(s.position(|c| c == 'x'), None);
    assert_eq!(s.slice_index(0), Some(0));
    assert_eq!(s.slice_index(1), Some(1));
    assert_eq!(s.slice_index(2), Some(3));
    assert_eq!(s.slice_index(4), Some(7));
    assert_eq!(s.slice_index(5), None);
    assert_eq!(s.slice_from(3).as_str(), "€b");
}

#[test]
fn compare_whatever_the_case() {
    let code = Rc::new(String::from("Extends ÉCOLE"));
    let s = Slice::new(code.clone());
    assert_eq!(s.compare_no_case("extends"), CompareResult::Matches);
    assert_eq!(s.compare_no_case("EXTENDS É"), CompareResult::Matches);
    assert_eq!(s.compare_no_case("extent"), CompareResult::Differs);
    assert_eq!(s.compare("extends"), CompareResult::Differs);
    let school = Slice { full_string: code.clone(), start: 8, end: 14 };
    assert_eq!(school.compare_no_case("école"), CompareResult::Matches);
    assert_eq!(school.compare_no_case("ecole"), CompareResult::Differs);
    assert_eq!(school.compare_no_case("écoles"), CompareResult::Incomplete);
    let short = Slice { full_string: code.clone(), start: 0, end: 3 };
    assert_eq!(short.compare_no_case("EXTENDS"), CompareResult::Incomplete);
    assert_eq!(short.compare_no_case(""), CompareResult::Matches);
}

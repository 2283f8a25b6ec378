use gdcheck::utils::parse::Span;
use gdcheck::utils::string_and_slice::StringAndSlice;
use nom::InputTake;

#[test]
fn string_and_slice_take_split() {
    let s = String::from("ksjdfg");
    let s = StringAndSlice {
        string: &s,
        slice: Span {
            start: 0,
            end: s.len(),
        },
    };

    let index = 1;
    let (a, b) = s.take_split(index);
    assert_eq!((a.as_str(), b.as_str()), s.as_str().take_split(index));

    let index = 2;
    let (a, b) = s.take_split(index);
    assert_eq!((a.as_str(), b.as_str()), s.as_str().take_split(index));

    let s = StringAndSlice {
        string: s.string,
        slice: Span {
            start: 2,
            end: s.len() - 1,
        },
    };

    let index = 1;
    let (a, b) = s.take_split(index);
    assert_eq!((a.as_str(), b.as_str()), s.as_str().take_split(index));

    let index = 2;
    let (a, b) = s.take_split(index);
    assert_eq!((a.as_str(), b.as_str()), s.as_str().take_split(index));
}

#[test]
fn from_covers_the_whole_string() {
    let text = String::from("hello");
    let s = StringAndSlice::from(&text);
    assert_eq!(s.len(), 5);
    assert_eq!(s.as_str(), "hello");
    let tail = s.slice_range(2, None);
    assert_eq!(tail.as_str(), "llo");
    assert_eq!(s.offset(&tail), 2);
    let both = tail.spanning(&s.take(1));
    assert_eq!(both.as_str(), "hello");
}

#[test]
fn a_borrowed_range_compares_with_a_literal() {
    let text = String::from("Object(Node)");
    let s = StringAndSlice::from(&text);
    assert_eq!(s.compare("Object"), gdcheck::utils::slice::CompareResult::Matches);
    assert_eq!(s.compare("object"), gdcheck::utils::slice::CompareResult::Differs);
    assert_eq!(s.compare_no_case("object("), gdcheck::utils::slice::CompareResult::Matches);
    assert_eq!(s.take(3).compare_no_case("OBJECT"), gdcheck::utils::slice::CompareResult::Incomplete);
}

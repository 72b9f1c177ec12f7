use mruby::extn::matchdata::regexp;
use mruby::extn::matchdata::MatchData;
use mruby::extn::regexp::names;
use mruby::extn::regexp::{Capture, Regexp};
use mruby::state::State;
use mruby::value::{ConvertError, Ruby, Rust, Value};

fn capture(name: &str, indexes: &[u32]) -> Capture {
    Capture { name: name.to_owned(), indexes: indexes.to_vec() }
}

fn pattern(captures: Vec<Capture>) -> Regexp {
    Regexp { pattern: "(?<a>.)".to_owned(), captures }
}

fn strings(names: &[&str]) -> Value {
    Value::Array(names.iter().map(|name| Value::String((*name).to_owned())).collect())
}

#[test]
fn values_convert_to_the_shape_that_they_have() {
    assert_eq!(Value::Bool(true).try_into_bool(), Ok(true));
    assert_eq!(Value::Fixnum(-3).try_into_int(), Ok(-3));
    assert_eq!(Value::Float(1.5f64.to_bits()).try_into_float_bits().map(f64::from_bits), Ok(1.5));
    assert_eq!(Value::String("a".to_owned()).try_into_string(), Ok("a".to_owned()));
    assert_eq!(Value::Bytes(vec![0, 255]).try_into_bytes(), Ok(vec![0, 255]));
    assert!(Value::Nil.is_nil());
    assert!(!Value::Bool(false).is_nil());
}

#[test]
fn a_mismatch_names_both_shapes() {
    assert_eq!(
        Value::Nil.try_into_bool(),
        Err(ConvertError { from: Ruby::Nil, to: Rust::Bool })
    );
    assert_eq!(
        Value::Bool(true).try_into_int(),
        Err(ConvertError { from: Ruby::Bool, to: Rust::SignedInt })
    );
    assert_eq!(
        Value::Fixnum(1).try_into_float_bits(),
        Err(ConvertError { from: Ruby::Fixnum, to: Rust::Float })
    );
    assert_eq!(
        Value::Float(0).try_into_string(),
        Err(ConvertError { from: Ruby::Float, to: Rust::String })
    );
    assert_eq!(
        Value::Fixnum(1).try_into_bytes(),
        Err(ConvertError { from: Ruby::Fixnum, to: Rust::Bytes })
    );
    assert_eq!(
        Value::Array(vec![]).try_into_bool(),
        Err(ConvertError { from: Ruby::Array, to: Rust::Bool })
    );
    assert_eq!(
        Value::Regexp(pattern(vec![])).try_into_int(),
        Err(ConvertError { from: Ruby::Data, to: Rust::SignedInt })
    );
}

#[test]
fn text_and_bytes_are_one_kind_of_string() {
    assert_eq!(Value::Bytes(b"caf\xc3\xa9".to_vec()).try_into_string(), Ok("caf\u{e9}".to_owned()));
    assert_eq!(Value::Bytes(vec![]).try_into_string(), Ok(String::new()));
    assert_eq!(
        Value::String("caf\u{e9}".to_owned()).try_into_bytes(),
        Ok(b"caf\xc3\xa9".to_vec())
    );
    assert_eq!(Value::String(String::new()).try_into_bytes(), Ok(vec![]));
}

#[test]
fn bytes_that_are_no_text_are_refused_as_text() {
    assert_eq!(
        Value::Bytes(vec![b'a', 0xff]).try_into_string(),
        Err(ConvertError { from: Ruby::String, to: Rust::String })
    );
    assert_eq!(
        Value::Bytes(vec![0xed, 0xa0, 0x80]).try_into_string(),
        Err(ConvertError { from: Ruby::String, to: Rust::String })
    );
    assert_eq!(Value::Bytes(vec![b'a', 0xff]).try_into_bytes(), Ok(vec![b'a', 0xff]));
}

#[test]
fn a_sequence_gives_its_values() {
    let items = Value::Array(vec![Value::Fixnum(1), Value::Nil]);
    assert_eq!(items.try_into_array(), Ok(&vec![Value::Fixnum(1), Value::Nil]));
    assert_eq!(
        Value::Nil.try_into_array(),
        Err(ConvertError { from: Ruby::Nil, to: Rust::Vec })
    );
}

#[test]
fn tags_follow_the_virtual_machine() {
    assert_eq!(Value::Nil.ruby_type(), Ruby::Nil);
    assert_eq!(Value::Bytes(vec![]).ruby_type(), Ruby::String);
    assert_eq!(Value::String(String::new()).ruby_type(), Ruby::String);
    assert_eq!(Value::Array(vec![Value::Nil]).ruby_type(), Ruby::Array);
}

#[test]
fn names_come_in_the_order_of_first_occurrence() {
    let interp = State::new();
    let value = Value::Regexp(pattern(vec![
        capture("y", &[3]),
        capture("x", &[1, 4]),
        capture("z", &[2]),
    ]));
    assert_eq!(names::method(&interp, &value), Ok(strings(&["x", "z", "y"])));
}

#[test]
fn a_name_is_listed_once() {
    let interp = State::new();
    let value = Value::Regexp(pattern(vec![
        capture("b", &[2]),
        capture("a", &[5]),
        capture("a", &[1]),
        capture("b", &[7]),
    ]));
    assert_eq!(names::method(&interp, &value), Ok(strings(&["a", "b"])));
    assert_eq!(
        names::names(&vec![capture("b", &[2]), capture("a", &[5]), capture("a", &[1])]),
        vec!["a".to_owned(), "b".to_owned()]
    );
}

#[test]
fn names_of_equal_place_keep_their_order() {
    let listed = names::names(&vec![
        capture("late", &[]),
        capture("q", &[4]),
        capture("p", &[4, 9]),
        capture("later", &[]),
        capture("first", &[0]),
    ]);
    assert_eq!(listed, vec!["first", "q", "p", "late", "later"]);
    assert_eq!(names::names(&vec![]), Vec::<String>::new());
}

#[test]
fn the_first_index_is_the_least() {
    assert_eq!(names::first_index(&vec![]), u32::MAX);
    assert_eq!(names::first_index(&vec![7]), 7);
    assert_eq!(names::first_index(&vec![7, 2, 9]), 2);
    assert_eq!(names::first_index(&vec![0, u32::MAX]), 0);
}

#[test]
fn names_of_something_else_are_fatal() {
    let interp = State::new();
    assert_eq!(names::method(&interp, &Value::Nil), Err(names::Error::Fatal));
    assert_eq!(
        names::method(&interp, &Value::String("(?<a>.)".to_owned())),
        Err(names::Error::Fatal)
    );
    assert_eq!(names::method(&interp, &Value::Regexp(pattern(vec![]))), Ok(strings(&[])));
}

#[test]
fn a_match_gives_its_regexp() {
    let interp = State::new();
    let data = MatchData {
        string: "abc".to_owned(),
        regexp: pattern(vec![capture("a", &[1])]),
    };
    let found = regexp::method(&interp, &Value::MatchData(data));
    assert_eq!(found, Ok(Value::Regexp(pattern(vec![capture("a", &[1])]))));
    assert_eq!(
        regexp::method(&interp, &Value::Regexp(pattern(vec![]))),
        Err(regexp::Error::Fatal)
    );
    assert_eq!(regexp::method(&interp, &Value::Nil), Err(regexp::Error::Fatal));
    assert_eq!(pattern(vec![capture("a", &[1, 2])]).duplicate(), pattern(vec![capture("a", &[1, 2])]));
}

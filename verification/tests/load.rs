use mruby::error::Exception;
use mruby::load::{
    candidates, is_relative, raise_load_error, resolve, Phase, Require, RequireStep, Required,
};
use mruby::state::State;
use mruby::value::Value;
use mruby::vfs::{NativeLoader, Vfs, VfsMetadata};
use mruby::vm::{Reply, VmCall};

fn load_error(name: &str) -> Required {
    Required::Missing(Exception {
        class: "LoadError".to_owned(),
        message: format!("cannot load such file -- {}", name),
    })
}

fn done(step: RequireStep) -> Required {
    match step {
        RequireStep::Done(required) => required,
        RequireStep::Call(call, _) => panic!("unexpected call {:?}", call),
    }
}

fn call(step: RequireStep) -> (VmCall, Require) {
    match step {
        RequireStep::Call(call, waiting) => (call, waiting),
        RequireStep::Done(required) => panic!("unexpected end {:?}", required),
    }
}

/// Hands `replies` to the `require` in order and tells the calls that it
/// hands out meanwhile and the step that the last reply leads to.
fn feed(state: &mut State, waiting: Require, replies: Vec<Reply>) -> (Vec<VmCall>, RequireStep) {
    let mut calls = Vec::new();
    let mut replies = replies.into_iter();
    let mut step = waiting.resume(state, replies.next().expect("reply"));
    for reply in replies {
        let (call, waiting) = call(step);
        calls.push(call);
        step = waiting.resume(state, reply);
    }
    (calls, step)
}

/// Lets the evaluation that the `require` waits for end without an
/// exception.
fn evaluated(state: &mut State, waiting: Require) -> RequireStep {
    let (calls, step) = feed(
        state,
        waiting,
        vec![Reply::Value(Value::Nil), Reply::Done, Reply::Pending(false), Reply::Done],
    );
    assert_eq!(calls, vec![VmCall::ArenaSave, VmCall::TakeException, VmCall::ArenaRestore]);
    step
}

/// Lets the evaluation that the `require` waits for raise.
fn raised(state: &mut State, waiting: Require, inspect: &str, backtrace: &[&str]) -> RequireStep {
    let (calls, step) = feed(
        state,
        waiting,
        vec![
            Reply::Done,
            Reply::Done,
            Reply::Pending(true),
            Reply::Text(inspect.to_owned()),
            Reply::Lines(backtrace.iter().map(|line| (*line).to_owned()).collect()),
            Reply::Done,
        ],
    );
    assert_eq!(
        calls,
        vec![
            VmCall::ArenaSave,
            VmCall::TakeException,
            VmCall::Inspect,
            VmCall::Backtrace,
            VmCall::ArenaRestore,
        ]
    );
    step
}

#[test]
fn relative_and_absolute_names() {
    assert!(is_relative("foo"));
    assert!(is_relative("foo/bar.rb"));
    assert!(is_relative(""));
    assert!(is_relative("./foo"));
    assert!(!is_relative("/foo"));
    assert!(!is_relative("/"));
}

#[test]
fn a_relative_name_lies_below_the_load_root() {
    assert_eq!(resolve("foo"), "/src/lib/foo");
    assert_eq!(resolve("a/b.rb"), "/src/lib/a/b.rb");
    assert_eq!(resolve(""), "/src/lib/");
}

#[test]
fn a_relative_name_has_two_candidates() {
    assert_eq!(candidates("foo"), vec!["/src/lib/foo".to_owned(), "/src/lib/foo.rb".to_owned()]);
    assert_eq!(
        candidates("foo.rb"),
        vec!["/src/lib/foo.rb".to_owned(), "/src/lib/foo.rb.rb".to_owned()]
    );
}

#[test]
fn an_absolute_name_has_one_candidate() {
    assert_eq!(candidates("/foo/bar"), vec!["/foo/bar".to_owned()]);
    assert_eq!(candidates("/foo/bar.rb"), vec!["/foo/bar.rb".to_owned()]);
}

#[test]
fn a_missing_file_raises_a_load_error_with_the_requested_name() {
    let mut state = State::new();
    let required = done(Require::start(&mut state, "non-existent-source"));
    assert_eq!(required, load_error("non-existent-source"));
    match &required {
        Required::Missing(exception) => {
            assert_eq!(exception.class, "LoadError");
            assert_eq!(exception.message, "cannot load such file -- non-existent-source");
        }
        other => panic!("unexpected end {:?}", other),
    }
    assert_eq!(required.value(), Value::Bool(false));
    assert_eq!(raise_load_error("non-existent-source"), required);
    assert_eq!(raise_load_error("x").value(), Value::Bool(false));
}

#[test]
fn a_directory_is_required_like_a_missing_file() {
    let mut with_directory = State::new();
    with_directory.vfs.create_dir_all("/gems/nemesis").expect("mkdir");
    let mut without = State::new();
    let first = done(Require::start(&mut with_directory, "/gems/nemesis"));
    let second = done(Require::start(&mut without, "/gems/nemesis"));
    assert_eq!(first, second);
    assert_eq!(first, load_error("/gems/nemesis"));
    assert_eq!(first.value(), Value::Bool(false));
    assert!(with_directory.vfs.is_dir("/gems/nemesis"));
    assert_eq!(with_directory.current_filename(), None);
}

#[test]
fn a_relative_directory_is_required_like_a_missing_file() {
    let mut state = State::new();
    state.vfs.create_dir_all("/src/lib/nemesis").expect("mkdir");
    state.vfs.create_dir_all("/src/lib/nemesis.rb").expect("mkdir");
    assert_eq!(done(Require::start(&mut state, "nemesis")), load_error("nemesis"));
}

#[test]
fn a_source_is_evaluated_under_its_path_and_marked() {
    let mut state = State::new();
    state.def_rb_source_file("a.rb", b"A = 1".to_vec()).expect("def");
    let (call, waiting) = call(Require::start(&mut state, "a"));
    assert_eq!(
        call,
        VmCall::Eval { source: b"A = 1".to_vec(), filename: "/src/lib/a.rb".to_owned() }
    );
    assert_eq!(waiting.phase(), Phase::Source);
    assert_eq!(waiting.name(), "a");
    assert_eq!(state.current_filename(), Some("/src/lib/a.rb".to_owned()));
    assert_eq!(state.vfs.metadata("/src/lib/a.rb"), None);
    let required = done(evaluated(&mut state, waiting));
    assert_eq!(required, Required::Loaded);
    assert_eq!(required.value(), Value::Bool(true));
    assert_eq!(state.current_filename(), None);
    assert_eq!(
        state.vfs.metadata("/src/lib/a.rb"),
        Some(VfsMetadata { require: None, already_required: true })
    );
    assert_eq!(state.vfs.read_file("/src/lib/a.rb"), Ok(b"A = 1".to_vec()));
}

#[test]
fn requiring_twice_loads_once() {
    let mut state = State::new();
    state.def_rb_source_file("a.rb", b"A = 1".to_vec()).expect("def");
    let (_, waiting) = call(Require::start(&mut state, "a"));
    assert_eq!(done(evaluated(&mut state, waiting)), Required::Loaded);
    let again = done(Require::start(&mut state, "a"));
    assert_eq!(again, Required::AlreadyLoaded);
    assert_eq!(again.value(), Value::Bool(false));
    assert_eq!(state.current_filename(), None);
    let with_extension = done(Require::start(&mut state, "a.rb"));
    assert_eq!(with_extension, Required::AlreadyLoaded);
}

#[test]
fn the_native_loader_runs_before_the_source() {
    let loader = NativeLoader { id: 9 };
    let mut state = State::new();
    state.def_rb_source_file("foo.rb", b"module Foo; RUBY = 3; end".to_vec()).expect("def");
    state.def_file_for_type("foo.rb", loader).expect("def");
    let (first, waiting) = call(Require::start(&mut state, "foo"));
    assert_eq!(first, VmCall::CallNative { loader, filename: "/src/lib/foo.rb".to_owned() });
    assert_eq!(waiting.phase(), Phase::Native);
    let (second, waiting) = call(waiting.resume(&mut state, Reply::Done));
    assert_eq!(
        second,
        VmCall::Eval {
            source: b"module Foo; RUBY = 3; end".to_vec(),
            filename: "/src/lib/foo.rb".to_owned()
        }
    );
    assert_eq!(waiting.phase(), Phase::Source);
    assert_eq!(state.current_filename(), Some("/src/lib/foo.rb".to_owned()));
    assert_eq!(done(evaluated(&mut state, waiting)), Required::Loaded);
    assert_eq!(
        state.vfs.metadata("/src/lib/foo.rb"),
        Some(VfsMetadata { require: Some(loader), already_required: true })
    );
}

#[test]
fn a_failing_native_loader_ends_the_require() {
    let loader = NativeLoader { id: 9 };
    let mut state = State::new();
    state.def_file_for_type("foo.rb", loader).expect("def");
    let (_, waiting) = call(Require::start(&mut state, "foo"));
    let required = done(waiting.resume(&mut state, Reply::Failed("no luck".to_owned())));
    assert_eq!(
        required,
        Required::Failed(Exception { class: "RuntimeError".to_owned(), message: "no luck".to_owned() })
    );
    assert_eq!(required.value(), Value::Nil);
    assert_eq!(state.current_filename(), None);
    assert_eq!(
        state.vfs.metadata("/src/lib/foo.rb"),
        Some(VfsMetadata { require: Some(loader), already_required: false })
    );
    let (again, _) = call(Require::start(&mut state, "foo"));
    assert_eq!(again, VmCall::CallNative { loader, filename: "/src/lib/foo.rb".to_owned() });
}

#[test]
fn an_exception_that_cannot_be_read_does_not_fail_the_require() {
    let mut state = State::new();
    state.def_rb_source_file("/a.rb", b"raise 'x'".to_vec()).expect("def");
    let (_, waiting) = call(Require::start(&mut state, "/a.rb"));
    let (calls, step) = feed(
        &mut state,
        waiting,
        vec![
            Reply::Done,
            Reply::Done,
            Reply::Pending(true),
            Reply::Failed("inspect raised".to_owned()),
            Reply::Done,
        ],
    );
    assert_eq!(calls.len(), 4);
    assert_eq!(done(step), Required::Loaded);
}

#[test]
fn a_failing_source_ends_the_require() {
    let mut state = State::new();
    state.def_rb_source_file("/a.rb", b"raise 'x'".to_vec()).expect("def");
    let (_, waiting) = call(Require::start(&mut state, "/a.rb"));
    let required = done(raised(&mut state, waiting, "/a.rb:1: x (RuntimeError)", &["/a.rb:1"]));
    assert_eq!(
        required,
        Required::Failed(Exception::runtime_error(
            "mruby exception: /a.rb:1: x (RuntimeError)\n/a.rb:1"
        ))
    );
    assert_eq!(required.value(), Value::Nil);
    assert_eq!(state.current_filename(), None);
    assert_eq!(state.vfs.metadata("/a.rb"), None);
    assert_eq!(state.arena.depth(), 0);
    assert_eq!(state.arena.open_savepoints(), 0);
}

#[test]
fn both_candidates_are_loaded_in_order() {
    let mut state = State::new();
    state.def_rb_source_file("a", b"1".to_vec()).expect("def");
    state.def_rb_source_file("a.rb", b"2".to_vec()).expect("def");
    let (first, waiting) = call(Require::start(&mut state, "a"));
    assert_eq!(first, VmCall::Eval { source: b"1".to_vec(), filename: "/src/lib/a".to_owned() });
    let (second, waiting) = call(evaluated(&mut state, waiting));
    assert_eq!(second, VmCall::Eval { source: b"2".to_vec(), filename: "/src/lib/a.rb".to_owned() });
    assert_eq!(state.current_filename(), Some("/src/lib/a.rb".to_owned()));
    assert_eq!(done(evaluated(&mut state, waiting)), Required::Loaded);
    assert_eq!(state.current_filename(), None);
    assert_eq!(done(Require::start(&mut state, "a")), Required::AlreadyLoaded);
}

#[test]
fn a_required_second_candidate_ends_the_require_with_false() {
    let mut state = State::new();
    state.def_rb_source_file("a.rb", b"2".to_vec()).expect("def");
    let (_, waiting) = call(Require::start(&mut state, "a"));
    assert_eq!(done(evaluated(&mut state, waiting)), Required::Loaded);
    state.def_rb_source_file("a", b"1".to_vec()).expect("def");
    let (first, waiting) = call(Require::start(&mut state, "a"));
    assert_eq!(first, VmCall::Eval { source: b"1".to_vec(), filename: "/src/lib/a".to_owned() });
    assert_eq!(done(evaluated(&mut state, waiting)), Required::AlreadyLoaded);
    assert_eq!(
        state.vfs.metadata("/src/lib/a"),
        Some(VfsMetadata { require: None, already_required: true })
    );
}

#[test]
fn a_name_of_valid_bytes_is_required_as_text() {
    let mut state = State::new();
    state.def_rb_source_file("caf\u{e9}.rb", b"1".to_vec()).expect("def");
    let (first, _) = call(Require::start_raw(&mut state, "caf\u{e9}".as_bytes()));
    assert_eq!(
        first,
        VmCall::Eval { source: b"1".to_vec(), filename: "/src/lib/caf\u{e9}.rb".to_owned() }
    );
    let mut empty = State::new();
    assert_eq!(done(Require::start_raw(&mut empty, b"missing")), load_error("missing"));
}

#[test]
fn a_name_of_invalid_bytes_raises_an_argument_error() {
    let mut state = State::new();
    let required = done(Require::start_raw(&mut state, &[b'a', 0xff, b'b']));
    assert_eq!(required.value(), Value::Nil);
    match required {
        Required::Failed(exception) => {
            assert_eq!(exception.class, "ArgumentError");
            assert_eq!(exception.message, "invalid utf-8 sequence of 1 bytes from index 1");
        }
        other => panic!("unexpected end {:?}", other),
    }
    assert_eq!(state.current_filename(), None);
}

#[test]
fn exceptions_carry_class_and_message() {
    assert_eq!(
        Exception::load_error("x"),
        Exception { class: "LoadError".to_owned(), message: "cannot load such file -- x".to_owned() }
    );
    assert_eq!(
        Exception::runtime_error("y"),
        Exception { class: "RuntimeError".to_owned(), message: "y".to_owned() }
    );
    assert_eq!(
        Exception::argument_error("z"),
        Exception { class: "ArgumentError".to_owned(), message: "z".to_owned() }
    );
}

#[test]
fn a_file_gone_after_its_native_loader_is_missing() {
    let loader = NativeLoader { id: 9 };
    let mut state = State::new();
    state.def_file_for_type("foo.rb", loader).expect("def");
    let (_, waiting) = call(Require::start(&mut state, "foo"));
    state.vfs = Vfs::new();
    let required = done(waiting.resume(&mut state, Reply::Done));
    assert_eq!(required, load_error("foo"));
    assert_eq!(required.value(), Value::Bool(false));
    assert_eq!(state.current_filename(), None);
}

#[test]
fn a_file_gone_after_its_evaluation_cannot_be_marked() {
    let mut state = State::new();
    state.def_rb_source_file("foo.rb", b"1".to_vec()).expect("def");
    let (_, waiting) = call(Require::start(&mut state, "foo"));
    state.vfs = Vfs::new();
    let required = done(evaluated(&mut state, waiting));
    assert_eq!(required, Required::Failed(Exception::runtime_error("entity not found")));
    assert_eq!(required.value(), Value::Nil);
    assert_eq!(state.current_filename(), None);
}

#[test]
fn what_a_require_hands_back() {
    assert_eq!(Required::Loaded.value(), Value::Bool(true));
    assert_eq!(Required::AlreadyLoaded.value(), Value::Bool(false));
    assert_eq!(Required::Missing(Exception::load_error("a")).value(), Value::Bool(false));
    assert_eq!(Required::Failed(Exception::runtime_error("a")).value(), Value::Nil);
    assert_eq!(Required::Failed(Exception::argument_error("a")).value(), Value::Nil);
}

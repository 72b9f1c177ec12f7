use mruby::error::MrbError;
use mruby::exception::{ExceptionReader, ExceptionStep, ReadStage};
use mruby::interpreter::MrbApi;
use mruby::source::source_path;
use mruby::state::State;
use mruby::text::join;
use mruby::vfs::{NativeLoader, VfsError, VfsMetadata};
use mruby::vm::{Reply, VmCall};

fn read(state: &mut State, replies: Vec<Reply>) -> (Vec<VmCall>, Option<String>) {
    let mut calls = Vec::new();
    let mut replies = replies.into_iter();
    let mut step = state.current_exception();
    loop {
        match step {
            ExceptionStep::Call(call, reader) => {
                calls.push(call);
                step = reader.resume(state, replies.next().expect("reply"));
            }
            ExceptionStep::Done(text) => return (calls, text),
        }
    }
}

#[test]
fn no_exception_is_no_text() {
    let mut state = State::new();
    let (calls, text) = read(&mut state, vec![Reply::Done, Reply::Pending(false), Reply::Done]);
    assert_eq!(text, None);
    assert_eq!(calls, vec![VmCall::ArenaSave, VmCall::TakeException, VmCall::ArenaRestore]);
    assert_eq!(state.arena.depth(), 0);
    assert_eq!(state.arena.open_savepoints(), 0);
}

#[test]
fn an_exception_is_inspected_after_the_slot_is_emptied() {
    let mut state = State::new();
    assert!(state.arena.protect());
    let (calls, text) = read(
        &mut state,
        vec![
            Reply::Done,
            Reply::Pending(true),
            Reply::Text("(eval):1: waffles (ArgumentError)".to_owned()),
            Reply::Lines(vec!["(eval):1".to_owned(), "(eval):9".to_owned()]),
            Reply::Done,
        ],
    );
    assert_eq!(text, Some("(eval):1: waffles (ArgumentError)\n(eval):1\n(eval):9".to_owned()));
    assert_eq!(
        calls,
        vec![
            VmCall::ArenaSave,
            VmCall::TakeException,
            VmCall::Inspect,
            VmCall::Backtrace,
            VmCall::ArenaRestore,
        ]
    );
    assert_eq!(state.arena.depth(), 1);
    assert_eq!(state.arena.open_savepoints(), 0);
}

#[test]
fn an_exception_that_cannot_be_read_is_no_text() {
    let mut state = State::new();
    let (calls, text) = read(
        &mut state,
        vec![
            Reply::Done,
            Reply::Pending(true),
            Reply::Failed("inspect raised".to_owned()),
            Reply::Done,
        ],
    );
    assert_eq!(text, None);
    assert_eq!(
        calls,
        vec![VmCall::ArenaSave, VmCall::TakeException, VmCall::Inspect, VmCall::ArenaRestore]
    );
    let (calls, text) = read(
        &mut state,
        vec![
            Reply::Done,
            Reply::Pending(true),
            Reply::Text("boom".to_owned()),
            Reply::Failed("backtrace raised".to_owned()),
            Reply::Done,
        ],
    );
    assert_eq!(text, None);
    assert_eq!(calls.len(), 5);
    assert_eq!(state.arena.depth(), 0);
    assert_eq!(state.arena.open_savepoints(), 0);
}

#[test]
fn values_are_protected_while_the_exception_is_read() {
    let mut state = State::new();
    let (_, reader) = ExceptionReader::begin(&mut state);
    assert_eq!(reader.stage(), ReadStage::Save);
    assert_eq!(state.arena.open_savepoints(), 1);
    let reader = match reader.resume(&mut state, Reply::Done) {
        ExceptionStep::Call(VmCall::TakeException, reader) => reader,
        other => panic!("unexpected {:?}", other),
    };
    let reader = match reader.resume(&mut state, Reply::Pending(true)) {
        ExceptionStep::Call(VmCall::Inspect, reader) => reader,
        other => panic!("unexpected {:?}", other),
    };
    let reader = match reader.resume(&mut state, Reply::Text("boom".to_owned())) {
        ExceptionStep::Call(VmCall::Backtrace, reader) => reader,
        other => panic!("unexpected {:?}", other),
    };
    assert_eq!(state.arena.depth(), 1);
    assert_eq!(reader.stage(), ReadStage::Backtrace);
    let reader = match reader.resume(&mut state, Reply::Lines(vec![])) {
        ExceptionStep::Call(VmCall::ArenaRestore, reader) => reader,
        other => panic!("unexpected {:?}", other),
    };
    assert_eq!(state.arena.depth(), 0);
    assert_eq!(state.arena.open_savepoints(), 0);
    match reader.resume(&mut state, Reply::Done) {
        ExceptionStep::Done(text) => assert_eq!(text, Some("boom".to_owned())),
        other => panic!("unexpected {:?}", other),
    }
}

#[test]
fn texts_are_joined_with_a_separator() {
    assert_eq!(join(&vec![], ", "), "");
    assert_eq!(join(&vec!["a".to_owned()], ", "), "a");
    assert_eq!(join(&vec!["a".to_owned(), "".to_owned(), "c".to_owned()], ", "), "a, , c");
}

#[test]
fn errors_have_texts() {
    assert_eq!(MrbError::New.message(), "failed to create mrb interpreter");
    assert_eq!(MrbError::Uninitialized.message(), "mrb interpreter not initialized");
    assert_eq!(MrbError::Exec("boom".to_owned()).message(), "mruby exception: boom");
    assert_eq!(
        MrbError::SourceNotFound("a.rb".to_owned()).message(),
        "Could not load Ruby source a.rb"
    );
    assert_eq!(MrbError::NotDefined("Nemesis".to_owned()).message(), "Nemesis not defined");
    assert_eq!(
        MrbError::Vfs(VfsError::IsDirectory).message(),
        "mrb vfs io error: is a directory"
    );
}

#[test]
fn sources_and_loaders_are_registered_in_any_order() {
    let loader = NativeLoader { id: 4 };
    let mut source_first = State::new();
    source_first.def_rb_source_file("foo.rb", b"RUBY = 3".to_vec()).expect("def");
    source_first.def_file_for_type("foo.rb", loader).expect("def");
    let mut loader_first = State::new();
    loader_first.def_file_for_type("foo.rb", loader).expect("def");
    loader_first.def_rb_source_file("foo.rb", b"RUBY = 3".to_vec()).expect("def");
    for state in [&source_first, &loader_first] {
        assert_eq!(state.vfs.read_file("/src/lib/foo.rb"), Ok(b"RUBY = 3".to_vec()));
        assert_eq!(
            state.vfs.metadata("/src/lib/foo.rb"),
            Some(VfsMetadata { require: Some(loader), already_required: false })
        );
    }
}

#[test]
fn a_directory_takes_no_source_and_no_loader() {
    let mut state = State::new();
    assert_eq!(
        state.def_rb_source_file("/src/lib", vec![]),
        Err(MrbError::Vfs(VfsError::IsDirectory))
    );
    assert_eq!(
        state.def_file_for_type("/src", NativeLoader { id: 1 }),
        Err(MrbError::Vfs(VfsError::IsDirectory))
    );
    assert!(state.vfs.is_dir("/src/lib"));
    assert_eq!(source_path("a.rb"), "/src/lib/a.rb");
    assert_eq!(source_path("/a.rb"), "/a.rb");
}

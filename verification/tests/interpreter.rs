use mruby::error::{Exception, MrbError};
use mruby::eval::{EvalContext, EvalStep, Evaluation};
use mruby::exception::exception_text;
use mruby::interpreter::{BootStage, BootStep, Interpreter, Mrb, MrbApi};
use mruby::load::{Require, RequireStep, Required};
use mruby::value::Value;
use mruby::vfs::NativeLoader;
use mruby::vm::{Reply, VmCall};

/// Creates an interpreter against a virtual machine that does all it is
/// asked.
fn create() -> Result<Mrb, MrbError> {
    let mut step = Interpreter::create();
    loop {
        match step {
            BootStep::Call(_, boot) => step = boot.resume(Reply::Done),
            BootStep::Done(created) => return created,
        }
    }
}

/// Evaluates `code` against replies that are handed out in order.
fn eval(interp: &mut Mrb, code: &str, replies: Vec<Reply>) -> Result<Value, MrbError> {
    let mut step = Evaluation::start(interp, code.as_bytes().to_vec(), Some(EvalContext::root()));
    let mut replies = replies.into_iter();
    loop {
        match step {
            EvalStep::Call(_, evaluation) => {
                step = evaluation.resume(interp, replies.next().expect("reply"))
            }
            EvalStep::Done(result) => return result,
        }
    }
}

/// The replies to an evaluation that runs to `value` and raises nothing.
fn evaluates_to(value: Value) -> Vec<Reply> {
    vec![Reply::Value(value), Reply::Done, Reply::Pending(false), Reply::Done]
}

/// The replies to an evaluation that raises `exception` on the first line
/// of code that belongs to no file.
fn raising(exception: &Exception) -> Vec<Reply> {
    vec![
        Reply::Done,
        Reply::Done,
        Reply::Pending(true),
        Reply::Text(format!("(eval):1: {} ({})", exception.message, exception.class)),
        Reply::Lines(vec!["(eval):1".to_owned()]),
        Reply::Done,
    ]
}

/// What `require 'name'` evaluates to when the native loaders and the
/// sources do what `native` and `source` do and never fail.
fn eval_require(
    interp: &mut Mrb,
    name: &str,
    native: &mut dyn FnMut(NativeLoader),
    source: &mut dyn FnMut(&[u8]),
) -> Result<Value, MrbError> {
    let mut step = Require::start(interp, name);
    loop {
        match step {
            RequireStep::Call(call, waiting) => {
                let reply = match call {
                    VmCall::CallNative { loader, .. } => {
                        native(loader);
                        Reply::Done
                    }
                    VmCall::Eval { source: code, .. } => {
                        source(&code);
                        Reply::Value(Value::Nil)
                    }
                    VmCall::TakeException => Reply::Pending(false),
                    VmCall::ArenaSave | VmCall::ArenaRestore => Reply::Done,
                    other => panic!("unexpected call {:?}", other),
                };
                step = waiting.resume(interp, reply);
            }
            RequireStep::Done(Required::Missing(exception))
            | RequireStep::Done(Required::Failed(exception)) => {
                return eval(interp, "", raising(&exception));
            }
            RequireStep::Done(required) => return Ok(required.value()),
        }
    }
}

#[test]
fn from_user_data_null_pointer() {
    let err = Interpreter::from_user_data::<Mrb>(None);
    assert_eq!(err.err(), Some(MrbError::Uninitialized));
}

#[test]
fn from_user_data_null_user_data() {
    let interp = create().expect("mrb init");
    drop(interp);
    // fake null user data
    let err = Interpreter::from_user_data::<Mrb>(Some(None));
    assert_eq!(err.err(), Some(MrbError::Uninitialized));
}

#[test]
fn from_user_data() {
    let interp = create().expect("mrb init");
    let res = Interpreter::from_user_data(Some(Some(interp)));
    assert!(res.is_ok());
}

#[test]
fn open_close() {
    let interp = create().expect("mrb init");
    assert_eq!(interp.arena.depth(), 0);
    assert_eq!(interp.arena.open_savepoints(), 0);
    drop(interp);
}

#[test]
fn load_code() {
    let mut interp = create().expect("mrb init");
    let result = eval(&mut interp, "255", evaluates_to(Value::Fixnum(255))).expect("eval");
    assert_eq!(result.try_into_int(), Ok(255));
}

#[test]
fn return_raised_exception() {
    let mut interp = create().expect("mrb init");
    let raised = Exception { class: "ArgumentError".to_owned(), message: "waffles".to_owned() };
    let result = eval(&mut interp, "raise ArgumentError.new('waffles')", raising(&raised)).map(|_| ());
    let expected = r#"
(eval):1: waffles (ArgumentError)
(eval):1
       "#;
    assert_eq!(result, Err(MrbError::Exec(expected.trim().to_owned())));
}

#[test]
// Test that require behaves as expected:
// - require side effects (e.g. ivar set or class def) affect the interpreter
// - Successful first require returns `true`.
// - Second require returns `false`.
// - Second require does not cause require side effects.
// - Require non-existing file raises and returns `nil`.
fn require() {
    let loader = NativeLoader { id: 77 };
    let mut i: i64 = 0;
    let mut interp = create().expect("mrb init");
    interp.def_file_for_type("require-test.rb", loader).expect("def file");
    let require_result = eval_require(
        &mut interp,
        "require-test",
        &mut |called| {
            assert_eq!(called, loader);
            i = 255;
        },
        &mut |_| {},
    )
    .expect("eval");
    assert_eq!(require_result.try_into_bool(), Ok(true));
    assert_eq!(i, 255);
    i = 1000;
    let second_require_result =
        eval_require(&mut interp, "require-test", &mut |_| i = 255, &mut |_| {}).expect("eval");
    assert_eq!(second_require_result.try_into_bool(), Ok(false));
    assert_eq!(i, 1000);
    let result =
        eval_require(&mut interp, "non-existent-source", &mut |_| {}, &mut |_| {}).map(|_| ());
    let expected = r#"
(eval):1: cannot load such file -- non-existent-source (LoadError)
(eval):1
            "#;
    assert_eq!(result, Err(MrbError::Exec(expected.trim().to_owned())));
}

#[test]
fn require_absolute_path() {
    let mut interp = create().expect("mrb init");
    interp
        .def_rb_source_file("/foo/bar/source.rb", b"# a source file".to_vec())
        .expect("def file");
    let result =
        eval_require(&mut interp, "/foo/bar/source.rb", &mut |_| {}, &mut |_| {}).expect("value");
    assert!(result.try_into_bool().expect("convert"));
    let result =
        eval_require(&mut interp, "/foo/bar/source.rb", &mut |_| {}, &mut |_| {}).expect("value");
    assert!(!result.try_into_bool().expect("convert"));
}

#[test]
fn require_directory() {
    let mut interp = create().expect("mrb init");
    assert!(interp.vfs.is_dir("/src"));
    let result = eval_require(&mut interp, "/src", &mut |_| {}, &mut |_| {}).map(|_| ());
    let expected = r#"
(eval):1: cannot load such file -- /src (LoadError)
(eval):1
        "#;
    assert_eq!(result, Err(MrbError::Exec(expected.trim().to_owned())));
}

#[test]
fn require_path_defined_as_source_then_mrbfile() {
    let foo = NativeLoader { id: 5 };
    let mut rust: Option<i64> = None;
    let mut ruby: Option<i64> = None;
    let mut order: Vec<&str> = Vec::new();
    let mut interp = create().expect("mrb init");
    interp
        .def_rb_source_file("foo.rb", b"module Foo; RUBY = 3; end".to_vec())
        .expect("def");
    interp.def_file_for_type("foo.rb", foo).expect("def");
    let calls = std::cell::RefCell::new(&mut order);
    let result = eval_require(
        &mut interp,
        "foo",
        &mut |called| {
            assert_eq!(called, foo);
            calls.borrow_mut().push("native");
            rust = Some(7);
        },
        &mut |code| {
            assert_eq!(code, b"module Foo; RUBY = 3; end");
            calls.borrow_mut().push("source");
            ruby = Some(3);
        },
    )
    .expect("eval");
    let result = result.try_into_bool().expect("convert");
    assert!(result, "successfully required foo.rb");
    let result = ruby.expect("eval") + rust.expect("eval");
    assert_eq!(result, 10, "defined Ruby and Rust sources from single require");
    assert_eq!(order, vec!["native", "source"]);
}

#[test]
fn require_path_defined_as_mrbfile_then_source() {
    let foo = NativeLoader { id: 5 };
    let mut rust: Option<i64> = None;
    let mut ruby: Option<i64> = None;
    let mut order: Vec<&str> = Vec::new();
    let mut interp = create().expect("mrb init");
    interp.def_file_for_type("foo.rb", foo).expect("def");
    interp
        .def_rb_source_file("foo.rb", b"module Foo; RUBY = 3; end".to_vec())
        .expect("def");
    let calls = std::cell::RefCell::new(&mut order);
    let result = eval_require(
        &mut interp,
        "foo",
        &mut |called| {
            assert_eq!(called, foo);
            calls.borrow_mut().push("native");
            rust = Some(7);
        },
        &mut |code| {
            assert_eq!(code, b"module Foo; RUBY = 3; end");
            calls.borrow_mut().push("source");
            ruby = Some(3);
        },
    )
    .expect("eval");
    let result = result.try_into_bool().expect("convert");
    assert!(result, "successfully required foo.rb");
    let result = ruby.expect("eval") + rust.expect("eval");
    assert_eq!(result, 10, "defined Ruby and Rust sources from single require");
    assert_eq!(order, vec!["native", "source"]);
}

#[test]
fn create_hands_out_the_calls_in_order() {
    let mut calls = Vec::new();
    let mut stages = Vec::new();
    let mut step = Interpreter::create();
    let created = loop {
        match step {
            BootStep::Call(call, boot) => {
                calls.push(call);
                stages.push(boot.stage());
                step = boot.resume(Reply::Done);
            }
            BootStep::Done(created) => break created,
        }
    };
    assert!(created.is_ok());
    assert_eq!(
        stages,
        vec![
            BootStage::Open,
            BootStage::Require,
            BootStage::ScriptError,
            BootStage::LoadError,
            BootStage::Save,
            BootStage::Warm,
            BootStage::Warm,
            BootStage::Warm,
            BootStage::Warm,
            BootStage::Restore,
            BootStage::Collect,
        ]
    );
    assert_eq!(calls[0], VmCall::Open);
    assert_eq!(calls[1], VmCall::InstallRequire);
    match &calls[2] {
        VmCall::Define(definition) => {
            assert_eq!(definition.path, vec!["ScriptError".to_owned()]);
            assert_eq!(definition.superclass, Some(vec!["Exception".to_owned()]));
        }
        other => panic!("unexpected call {:?}", other),
    }
    match &calls[3] {
        VmCall::Define(definition) => {
            assert_eq!(definition.path, vec!["LoadError".to_owned()]);
            assert_eq!(definition.superclass, Some(vec!["ScriptError".to_owned()]));
        }
        other => panic!("unexpected call {:?}", other),
    }
    assert_eq!(
        calls[4..],
        [
            VmCall::ArenaSave,
            VmCall::Eval { source: vec![], filename: "(eval)".to_owned() },
            VmCall::ArenaSave,
            VmCall::TakeException,
            VmCall::ArenaRestore,
            VmCall::ArenaRestore,
            VmCall::FullGc,
        ]
    );
}

#[test]
fn create_fails_when_the_vm_is_not_allocated() {
    match Interpreter::create() {
        BootStep::Call(call, boot) => {
            assert_eq!(call, VmCall::Open);
            match boot.resume(Reply::Failed("null".to_owned())) {
                BootStep::Done(Err(error)) => assert_eq!(error, MrbError::New),
                _ => panic!("expected a failure"),
            }
        }
        BootStep::Done(_) => panic!("expected a call"),
    }
}

#[test]
fn create_fails_when_a_definition_fails() {
    for failing in 1..4 {
        let mut asked = 0;
        let mut step = Interpreter::create();
        let created = loop {
            match step {
                BootStep::Call(_, boot) => {
                    let reply = if asked == failing {
                        Reply::Failed("refused".to_owned())
                    } else {
                        Reply::Done
                    };
                    asked += 1;
                    step = boot.resume(reply);
                }
                BootStep::Done(created) => break created,
            }
        };
        assert_eq!(created.err(), Some(MrbError::New));
        assert_eq!(asked, failing + 1);
    }
}

#[test]
fn create_restores_the_savepoint_when_the_first_evaluation_fails() {
    let mut calls = Vec::new();
    let mut step = Interpreter::create();
    let created = loop {
        match step {
            BootStep::Call(call, boot) => {
                let reply = match call {
                    VmCall::TakeException => Reply::Pending(true),
                    VmCall::Inspect => Reply::Text("boom".to_owned()),
                    VmCall::Backtrace => Reply::Lines(vec![]),
                    _ => Reply::Done,
                };
                calls.push(call);
                step = boot.resume(reply);
            }
            BootStep::Done(created) => break created,
        }
    };
    assert_eq!(created.err(), Some(MrbError::New));
    assert_eq!(
        calls[4..],
        [
            VmCall::ArenaSave,
            VmCall::Eval { source: vec![], filename: "(eval)".to_owned() },
            VmCall::ArenaSave,
            VmCall::TakeException,
            VmCall::Inspect,
            VmCall::Backtrace,
            VmCall::ArenaRestore,
            VmCall::ArenaRestore,
        ]
    );
}

#[test]
fn a_new_interpreter_holds_the_load_root() {
    let interp = create().expect("mrb init");
    assert!(interp.vfs.is_dir("/src/lib"));
    assert!(interp.vfs.is_dir("/src"));
    assert!(!interp.vfs.is_dir("/"));
    assert!(!interp.vfs.is_file("/src/lib"));
    assert_eq!(interp.current_filename(), None);
    assert_eq!(interp.registry.len(), 0);
}

#[test]
fn api_makes_values() {
    let interp = create().expect("mrb init");
    assert_eq!(interp.nil(), Value::Nil);
    assert_eq!(interp.bool(true), Value::Bool(true));
    assert_eq!(interp.bytes(&[1, 2, 3]), Value::Bytes(vec![1, 2, 3]));
    assert_eq!(interp.fixnum(-7), Value::Fixnum(-7));
    assert_eq!(interp.string("waffles"), Value::String("waffles".to_owned()));
}

#[test]
fn exception_text_joins_inspection_and_backtrace() {
    assert_eq!(exception_text("boom (RuntimeError)", &vec![]), "boom (RuntimeError)");
    assert_eq!(
        exception_text("a", &vec!["b".to_owned(), "c".to_owned()]),
        "a\nb\nc"
    );
}

#[test]
fn a_clean_evaluation_follows_a_raised_one() {
    let mut interp = create().expect("mrb init");
    let raised = Exception::runtime_error("first");
    let first = eval(&mut interp, "raise 'first'", raising(&raised));
    assert_eq!(
        first.err(),
        Some(MrbError::Exec("(eval):1: first (RuntimeError)\n(eval):1".to_owned()))
    );
    assert_eq!(interp.arena.depth(), 0);
    assert_eq!(interp.arena.open_savepoints(), 0);
    assert_eq!(interp.current_filename(), None);
    let second = eval(&mut interp, "1", evaluates_to(Value::Fixnum(1)));
    assert_eq!(second, Ok(Value::Fixnum(1)));
}

#[test]
fn every_evaluation_empties_the_exception_slot() {
    let mut interp = create().expect("mrb init");
    let mut calls = Vec::new();
    let mut step = Evaluation::start(&mut interp, b"1".to_vec(), Some(EvalContext::new("a.rb")));
    let mut replies = evaluates_to(Value::Nil).into_iter();
    loop {
        match step {
            EvalStep::Call(call, evaluation) => {
                calls.push(call);
                step = evaluation.resume(&mut interp, replies.next().expect("reply"));
            }
            EvalStep::Done(result) => {
                assert_eq!(result, Ok(Value::Nil));
                break;
            }
        }
    }
    assert_eq!(
        calls,
        vec![
            VmCall::Eval { source: b"1".to_vec(), filename: "a.rb".to_owned() },
            VmCall::ArenaSave,
            VmCall::TakeException,
            VmCall::ArenaRestore,
        ]
    );
}

//! Creating an interpreter, and recovering it from a foreign handle.
//!
//! An interpreter is created in steps, because each step is work for the
//! virtual machine: allocate it, make `require` known to it, define the
//! exception classes that a failed `require` needs, and evaluate nothing
//! once, inside a savepoint, so that the virtual machine sets itself up now
//! and not at some later call. [`Interpreter::create`] hands out the first
//! call; the [`Boot`] that comes with it is resumed with each reply.

use crate::def::{Definition, DefinitionView, Kind};
use crate::error::{MrbError, MrbErrorView, LOAD_ERROR};
use crate::eval::{
    lemma_eval_step, spec_eval_held, spec_eval_resume, spec_eval_start, EvalContext, EvalStage,
    EvalStep, EvalStepView, Evaluation, EvaluationView, TOP_FILENAME,
};
use crate::exception::{
    spec_read_call, spec_read_start, spec_release, ExceptionReader, ExceptionStep,
};
use crate::gc::{ArenaSavepoint, ArenaSavepointView, GcArenaView};
use crate::state::{State, StateView};
use crate::text::spec_texts;
use crate::value::{Int, Value, ValueView};
use crate::vm::{Reply, ReplyView, VmCall, VmCallView};
use vstd::prelude::*;
use vstd::slice::slice_to_vec;
use vstd::string::*;

verus! {

/// Name of the class that every exception descends from.
pub const EXCEPTION: &'static str = "Exception";

/// Name of the class of errors in the script itself.
pub const SCRIPT_ERROR: &'static str = "ScriptError";

/// The host-side state of an interpreter, handed from call to call.
pub type Mrb = State;

/// Creates interpreters.
#[derive(Debug)]
pub struct Interpreter;

/// Which reply a [`Boot`] waits for.
#[derive(Debug, Clone, Copy, PartialEq, Eq)]
pub enum BootStage {
    /// The virtual machine is being allocated.
    Open,
    /// `require` is being installed.
    Require,
    /// `ScriptError` is being defined.
    ScriptError,
    /// `LoadError` is being defined.
    LoadError,
    /// The savepoint is being recorded.
    Save,
    /// The first evaluation is running.
    Warm,
    /// The savepoint is being restored after the evaluation.
    Restore,
    /// The savepoint is being restored after the evaluation failed.
    Abort,
    /// The collection is running.
    Collect,
}

/// The creation of an interpreter that waits for the virtual machine.
#[derive(Debug)]
pub struct Boot {
    stage: BootStage,
    state: State,
    savepoint: Option<ArenaSavepoint>,
    evaluation: Option<Evaluation>,
}

/// A [`Boot`] over plain values.
pub struct BootView {
    /// Which reply is awaited.
    pub stage: BootStage,
    /// The state of the interpreter that is being created.
    pub state: StateView,
    /// The savepoint around the first evaluation, while it is open.
    pub savepoint: Option<ArenaSavepointView>,
    /// The first evaluation, while it is under way.
    pub evaluation: Option<EvaluationView>,
}

impl View for Boot {
    type V = BootView;

    closed spec fn view(&self) -> BootView {
        BootView {
            stage: self.stage,
            state: self.state@,
            savepoint: match self.savepoint {
                Some(savepoint) => Some(savepoint@),
                None => None,
            },
            evaluation: match self.evaluation {
                Some(evaluation) => Some(evaluation@),
                None => None,
            },
        }
    }
}

/// What the creation of an interpreter needs next, or how it ended.
#[derive(Debug)]
pub enum BootStep {
    /// The virtual machine has to do the call; the creation is then resumed
    /// with the reply.
    Call(VmCall, Boot),
    /// The creation has ended, with the state of the new interpreter or
    /// with the reason why there is none.
    Done(Result<State, MrbError>),
}

/// A [`BootStep`] over plain values.
pub enum BootStepView {
    Call(VmCallView, BootView),
    Done(Result<StateView, MrbErrorView>),
}

impl View for BootStep {
    type V = BootStepView;

    open spec fn view(&self) -> BootStepView {
        match self {
            BootStep::Call(call, boot) => BootStepView::Call(call@, boot@),
            BootStep::Done(Ok(state)) => BootStepView::Done(Ok(state@)),
            BootStep::Done(Err(error)) => BootStepView::Done(Err(error@)),
        }
    }
}

/// The definition of the class `name` below `superclass`, both in the
/// outermost scope.
pub open spec fn spec_class_below(name: Seq<char>, superclass: Seq<char>) -> DefinitionView {
    DefinitionView { kind: Kind::Class, path: seq![name], superclass: Some(seq![superclass]) }
}

/// The definition of the class `name` below `superclass`, both in the
/// outermost scope.
pub fn class_below(name: &str, superclass: &str) -> (definition: Definition)
    ensures
        definition@ == spec_class_below(name@, superclass@),
{
    let mut path: Vec<String> = Vec::new();
    path.push(String::from_str(name));
    let mut parent: Vec<String> = Vec::new();
    parent.push(String::from_str(superclass));
    let definition = Definition { kind: Kind::Class, path, superclass: Some(parent) };
    assert(spec_texts(definition.path@) =~= seq![name@]);
    assert(spec_texts(parent@) =~= seq![superclass@]);
    definition
}

/// The call with which a creation enters `stage`, for the stages that
/// begin with one call of their own; the first evaluation hands out its
/// own calls.
pub open spec fn spec_boot_call(stage: BootStage) -> VmCallView {
    match stage {
        BootStage::Open => VmCallView::Open,
        BootStage::Require => VmCallView::InstallRequire,
        BootStage::ScriptError => VmCallView::Define(spec_class_below(SCRIPT_ERROR@, EXCEPTION@)),
        BootStage::LoadError => VmCallView::Define(spec_class_below(LOAD_ERROR@, SCRIPT_ERROR@)),
        BootStage::Save => VmCallView::ArenaSave,
        BootStage::Warm => VmCallView::Eval { source: Seq::empty(), filename: TOP_FILENAME@ },
        BootStage::Restore => VmCallView::ArenaRestore,
        BootStage::Abort => VmCallView::ArenaRestore,
        BootStage::Collect => VmCallView::FullGc,
    }
}

/// The step with which the creation `b` ends its first evaluation: the
/// savepoint around it is released, and the virtual machine is asked to do
/// the same. The creation goes on where the evaluation raised nothing, and
/// is given up otherwise.
pub open spec fn spec_boot_warmed(b: BootView, state: StateView, raised: bool) -> BootStepView {
    let stage = if raised {
        BootStage::Abort
    } else {
        BootStage::Restore
    };
    BootStepView::Call(
        spec_boot_call(stage),
        BootView {
            stage,
            state: StateView { arena: spec_release(state.arena, b.savepoint), ..state },
            savepoint: None,
            evaluation: None,
        },
    )
}

/// The step of the creation `b` on `reply`.
///
/// While the virtual machine is allocated, `require` installed and the two
/// classes defined, a failure ends the creation. Then a savepoint is opened
/// and nothing is evaluated, in the context of code that belongs to no
/// file; whether or not that raises, the savepoint is restored. After an
/// evaluation that raised the creation ends there; otherwise a full
/// collection follows, and the state of the new interpreter is handed out.
pub open spec fn spec_boot(b: BootView, reply: ReplyView) -> BootStepView {
    let failed = reply is Failed;
    let next = |stage: BootStage| BootStepView::Call(spec_boot_call(stage), BootView { stage, ..b });
    let give_up = BootStepView::Done(Err(MrbErrorView::New));
    match b.stage {
        BootStage::Open => if failed {
            give_up
        } else {
            next(BootStage::Require)
        },
        BootStage::Require => if failed {
            give_up
        } else {
            next(BootStage::ScriptError)
        },
        BootStage::ScriptError => if failed {
            give_up
        } else {
            next(BootStage::LoadError)
        },
        BootStage::LoadError => if failed {
            give_up
        } else {
            BootStepView::Call(
                VmCallView::ArenaSave,
                BootView {
                    stage: BootStage::Save,
                    state: StateView { arena: b.state.arena.opened(), ..b.state },
                    savepoint: Some(b.state.arena.next_savepoint()),
                    evaluation: None,
                },
            )
        },
        BootStage::Save => {
            let (entered, first) = spec_eval_start(b.state, Seq::empty(), Some(TOP_FILENAME@));
            BootStepView::Call(
                first->Call_0,
                BootView {
                    stage: BootStage::Warm,
                    state: entered,
                    evaluation: Some(first->Call_1),
                    ..b
                },
            )
        },
        BootStage::Warm => match b.evaluation {
            Some(evaluation) => {
                let (after, step) = spec_eval_resume(b.state, evaluation, reply);
                match step {
                    EvalStepView::Call(call, following) => BootStepView::Call(
                        call,
                        BootView { state: after, evaluation: Some(following), ..b },
                    ),
                    EvalStepView::Done(result) => spec_boot_warmed(b, after, result is Err),
                }
            },
            None => spec_boot_warmed(b, b.state, true),
        },
        BootStage::Restore => next(BootStage::Collect),
        BootStage::Abort => give_up,
        BootStage::Collect => BootStepView::Done(Ok(b.state)),
    }
}

impl Boot {
    /// Which reply is awaited.
    pub fn stage(&self) -> (stage: BootStage)
        ensures
            stage == self@.stage,
    {
        self.stage
    }

    fn call(stage: BootStage) -> (call: VmCall)
        ensures
            call@ == spec_boot_call(stage),
    {
        match stage {
            BootStage::Open => VmCall::Open,
            BootStage::Require => VmCall::InstallRequire,
            BootStage::ScriptError => VmCall::Define(class_below(SCRIPT_ERROR, EXCEPTION)),
            BootStage::LoadError => VmCall::Define(class_below(LOAD_ERROR, SCRIPT_ERROR)),
            BootStage::Save => VmCall::ArenaSave,
            BootStage::Warm => VmCall::Eval {
                source: Vec::new(),
                filename: String::from_str(TOP_FILENAME),
            },
            BootStage::Restore => VmCall::ArenaRestore,
            BootStage::Abort => VmCall::ArenaRestore,
            BootStage::Collect => VmCall::FullGc,
        }
    }

    fn warmed(state: State, savepoint: Option<ArenaSavepoint>, raised: bool) -> (step: BootStep)
        ensures
            step@ == spec_boot_warmed(
                BootView {
                    stage: BootStage::Warm,
                    state: state@,
                    savepoint: match savepoint {
                        Some(opened) => Some(opened@),
                        None => None,
                    },
                    evaluation: None,
                },
                state@,
                raised,
            ),
    {
        let mut state = state;
        match savepoint {
            Some(opened) => {
                if state.arena.is_innermost(&opened) {
                    state.arena.restore(opened);
                }
            },
            None => {},
        }
        let stage = if raised {
            BootStage::Abort
        } else {
            BootStage::Restore
        };
        BootStep::Call(Self::call(stage), Boot { stage, state, savepoint: None, evaluation: None })
    }

    /// Resumes the creation with the reply to the call that it handed out.
    pub fn resume(self, reply: Reply) -> (step: BootStep)
        ensures
            step@ == spec_boot(self@, reply@),
    {
        let failed = reply.is_failure();
        let Boot { stage, state, savepoint, evaluation } = self;
        let mut state = state;
        match stage {
            BootStage::Open | BootStage::Require | BootStage::ScriptError => {
                if failed {
                    BootStep::Done(Err(MrbError::New))
                } else {
                    let next = match stage {
                        BootStage::Open => BootStage::Require,
                        BootStage::Require => BootStage::ScriptError,
                        _ => BootStage::LoadError,
                    };
                    BootStep::Call(
                        Self::call(next),
                        Boot { stage: next, state, savepoint, evaluation },
                    )
                }
            },
            BootStage::LoadError => {
                if failed {
                    BootStep::Done(Err(MrbError::New))
                } else {
                    let opened = state.arena.open();
                    BootStep::Call(
                        VmCall::ArenaSave,
                        Boot {
                            stage: BootStage::Save,
                            state,
                            savepoint: Some(opened),
                            evaluation: None,
                        },
                    )
                }
            },
            BootStage::Save => {
                let (call, begun) = Evaluation::begin(
                    &mut state,
                    Vec::new(),
                    Some(EvalContext::root()),
                );
                BootStep::Call(
                    call,
                    Boot { stage: BootStage::Warm, state, savepoint, evaluation: Some(begun) },
                )
            },
            BootStage::Warm => match evaluation {
                Some(running) => match running.resume(&mut state, reply) {
                    EvalStep::Call(call, following) => BootStep::Call(
                        call,
                        Boot {
                            stage: BootStage::Warm,
                            state,
                            savepoint,
                            evaluation: Some(following),
                        },
                    ),
                    EvalStep::Done(result) => Self::warmed(state, savepoint, result.is_err()),
                },
                None => Self::warmed(state, savepoint, true),
            },
            BootStage::Restore => BootStep::Call(
                Self::call(BootStage::Collect),
                Boot { stage: BootStage::Collect, state, savepoint, evaluation },
            ),
            BootStage::Abort => BootStep::Done(Err(MrbError::New)),
            BootStage::Collect => BootStep::Done(Ok(state)),
        }
    }
}

impl Interpreter {
    /// Begins the creation of an interpreter: the virtual machine is to be
    /// allocated.
    pub fn create() -> (step: BootStep)
        ensures
            step@ == spec_create(),
    {
        BootStep::Call(
            VmCall::Open,
            Boot { stage: BootStage::Open, state: State::new(), savepoint: None, evaluation: None },
        )
    }

    /// Recovers the interpreter that a foreign handle stands for.
    ///
    /// The handle is given as it was read: `None` for a handle that is
    /// null, `Some(None)` for a handle whose user data is null, and the
    /// interpreter stored in the user data otherwise. Only the last can be
    /// recovered.
    pub fn from_user_data<T>(mrb: Option<Option<T>>) -> (interp: Result<T, MrbError>)
        ensures
            match mrb {
                Some(Some(stored)) => interp == Ok::<T, MrbError>(stored),
                _ => interp == Err::<T, MrbError>(MrbError::Uninitialized),
            },
    {
        match mrb {
            Some(Some(stored)) => Ok(stored),
            _ => Err(MrbError::Uninitialized),
        }
    }
}

/// What an interpreter offers to host code: the current exception as text,
/// and values of the virtual machine made from values of the host.
pub trait MrbApi {
    /// The state of the interpreter over plain values.
    spec fn api_state(&self) -> StateView;

    /// Begins to read the exception that is pending in the virtual machine.
    /// The reading ends with the text of the exception, or with nothing
    /// where none is pending.
    fn current_exception(&mut self) -> (step: ExceptionStep)
        ensures
            (final(self).api_state(), step@) == spec_read_start(old(self).api_state()),
    ;

    /// The value that stands for nothing.
    fn nil(&self) -> (value: Value)
        ensures
            value@ == ValueView::Nil,
    ;

    /// The value of the boolean `b`.
    fn bool(&self, b: bool) -> (value: Value)
        ensures
            value@ == ValueView::Bool(b),
    ;

    /// The value that holds the bytes `b`.
    fn bytes(&self, b: &[u8]) -> (value: Value)
        ensures
            value@ == ValueView::Bytes(b@),
    ;

    /// The value of the integer `i`.
    fn fixnum(&self, i: Int) -> (value: Value)
        ensures
            value@ == ValueView::Fixnum(i as int),
    ;

    /// The value of the text `s`.
    fn string(&self, s: &str) -> (value: Value)
        ensures
            value@ == ValueView::String(s@),
    ;
}

impl MrbApi for State {
    open spec fn api_state(&self) -> StateView {
        self@
    }

    fn current_exception(&mut self) -> (step: ExceptionStep) {
        ExceptionReader::start(self)
    }

    fn nil(&self) -> (value: Value) {
        Value::Nil
    }

    fn bool(&self, b: bool) -> (value: Value) {
        Value::Bool(b)
    }

    fn bytes(&self, b: &[u8]) -> (value: Value) {
        Value::Bytes(slice_to_vec(b))
    }

    fn fixnum(&self, i: Int) -> (value: Value) {
        Value::Fixnum(i)
    }

    fn string(&self, s: &str) -> (value: Value) {
        Value::String(String::from_str(s))
    }
}

/// The calls that a creation hands out from `step` on while `replies` are
/// handed to it in order, and where it then stands. Replies that come after
/// its end are ignored.
pub open spec fn spec_boot_run(step: BootStepView, replies: Seq<ReplyView>) -> (
    Seq<VmCallView>,
    BootStepView,
)
    decreases replies.len(),
{
    match step {
        BootStepView::Done(_) => (Seq::empty(), step),
        BootStepView::Call(call, b) => if replies.len() == 0 {
            (seq![call], step)
        } else {
            let (calls, last) = spec_boot_run(spec_boot(b, replies[0]), replies.drop_first());
            (seq![call] + calls, last)
        },
    }
}

/// The first step of a creation.
pub open spec fn spec_create() -> BootStepView {
    BootStepView::Call(
        VmCallView::Open,
        BootView {
            stage: BootStage::Open,
            state: StateView::fresh(),
            savepoint: None,
            evaluation: None,
        },
    )
}

/// The calls that make an interpreter, in order.
pub open spec fn spec_boot_calls() -> Seq<VmCallView> {
    seq![
        VmCallView::Open,
        VmCallView::InstallRequire,
        VmCallView::Define(spec_class_below(SCRIPT_ERROR@, EXCEPTION@)),
        VmCallView::Define(spec_class_below(LOAD_ERROR@, SCRIPT_ERROR@)),
        VmCallView::ArenaSave,
        VmCallView::Eval { source: Seq::empty(), filename: TOP_FILENAME@ },
        VmCallView::ArenaSave,
        VmCallView::TakeException,
        VmCallView::ArenaRestore,
        VmCallView::ArenaRestore,
        VmCallView::FullGc,
    ]
}

/// How many savepoints the calls `calls` leave open: those recorded less
/// those restored.
pub open spec fn spec_open_savepoints(calls: Seq<VmCallView>) -> int
    decreases calls.len(),
{
    if calls.len() == 0 {
        0
    } else {
        spec_open_savepoints(calls.drop_last()) + spec_savepoints_opened(calls.last())
    }
}

/// How many savepoints `call` opens: one for a savepoint recorded, one less
/// than none for a savepoint restored.
pub open spec fn spec_savepoints_opened(call: VmCallView) -> int {
    match call {
        VmCallView::ArenaSave => 1,
        VmCallView::ArenaRestore => -1,
        _ => 0,
    }
}

spec fn warm_state() -> StateView {
    StateView {
        contexts: seq![TOP_FILENAME@],
        arena: GcArenaView::empty().opened(),
        ..StateView::fresh()
    }
}

spec fn boot_held(call: VmCallView, b: BootView) -> bool {
    match b.stage {
        BootStage::Save => {
            &&& call == spec_boot_call(b.stage)
            &&& b.state == (StateView { arena: GcArenaView::empty().opened(), ..StateView::fresh() })
            &&& b.savepoint == Some(GcArenaView::empty().next_savepoint())
        },
        BootStage::Warm => {
            &&& b.savepoint == Some(GcArenaView::empty().next_savepoint())
            &&& b.evaluation matches Some(evaluation)
            &&& evaluation.pushed
            &&& spec_eval_held(warm_state(), b.state, evaluation)
            &&& match evaluation.stage {
                EvalStage::Run => call is Eval,
                EvalStage::Read => call == spec_read_call(evaluation.reader->Some_0.stage),
            }
        },
        _ => call == spec_boot_call(b.stage) && b.state == StateView::fresh(),
    }
}

spec fn boot_owes(b: BootView) -> int {
    match b.stage {
        BootStage::Warm => match b.evaluation {
            Some(evaluation) => match evaluation.stage {
                EvalStage::Run => 1,
                EvalStage::Read => if evaluation.reader->Some_0.stage is Save {
                    1
                } else {
                    2
                },
            },
            None => 1,
        },
        BootStage::Restore | BootStage::Abort => 1,
        _ => 0,
    }
}

proof fn lemma_open_savepoints_first(call: VmCallView, calls: Seq<VmCallView>)
    ensures
        spec_open_savepoints(seq![call] + calls) == spec_savepoints_opened(call)
            + spec_open_savepoints(calls),
    decreases calls.len(),
{
    let all = seq![call] + calls;
    if calls.len() == 0 {
        assert(all.drop_last() =~= Seq::<VmCallView>::empty());
        assert(all.last() == call);
        assert(spec_open_savepoints(Seq::<VmCallView>::empty()) == 0);
        assert(calls =~= Seq::<VmCallView>::empty());
    } else {
        assert(all.drop_last() =~= seq![call] + calls.drop_last());
        assert(all.last() == calls.last());
        lemma_open_savepoints_first(call, calls.drop_last());
    }
}

proof fn lemma_boot_step(call: VmCallView, b: BootView, reply: ReplyView)
    requires
        boot_held(call, b),
    ensures
        match spec_boot(b, reply) {
            BootStepView::Call(next, following) => {
                &&& boot_held(next, following)
                &&& boot_owes(following) == boot_owes(b) + spec_savepoints_opened(call)
            },
            BootStepView::Done(Ok(state)) => {
                &&& state == StateView::fresh()
                &&& boot_owes(b) + spec_savepoints_opened(call) == 0
            },
            BootStepView::Done(Err(error)) => {
                &&& error == MrbErrorView::New
                &&& boot_owes(b) + spec_savepoints_opened(call) == 0
            },
        },
{
    let opened = GcArenaView::empty().opened();
    assert(opened.restored().savepoints =~= GcArenaView::empty().savepoints);
    assert(opened.is_innermost(GcArenaView::empty().next_savepoint()));
    match b.stage {
        BootStage::Save => {
            assert(StateView::fresh().contexts.push(TOP_FILENAME@) =~= seq![TOP_FILENAME@]);
        },
        BootStage::Warm => {
            let evaluation = b.evaluation->Some_0;
            lemma_eval_step(warm_state(), b.state, evaluation, reply);
            assert(seq![TOP_FILENAME@].drop_last() =~= StateView::fresh().contexts);
        },
        _ => {},
    }
}

proof fn lemma_boot_run(call: VmCallView, b: BootView, replies: Seq<ReplyView>)
    requires
        boot_held(call, b),
    ensures
        ({
            let (calls, last) = spec_boot_run(BootStepView::Call(call, b), replies);
            &&& last is Done ==> spec_open_savepoints(calls) == -boot_owes(b)
            &&& last matches BootStepView::Done(Err(error)) ==> error == MrbErrorView::New
            &&& last matches BootStepView::Done(Ok(state)) ==> state == StateView::fresh()
        }),
    decreases replies.len(),
{
    if replies.len() > 0 {
        let step = spec_boot(b, replies[0]);
        let (calls, last) = spec_boot_run(step, replies.drop_first());
        lemma_open_savepoints_first(call, calls);
        lemma_boot_step(call, b, replies[0]);
        match step {
            BootStepView::Call(next, following) => {
                lemma_boot_run(next, following, replies.drop_first());
            },
            BootStepView::Done(_) => {
                assert(calls =~= Seq::<VmCallView>::empty());
            },
        }
    }
}

/// Creation leaks no savepoint, and fails in one way only. Whatever the
/// virtual machine replies: when the creation has ended, every savepoint
/// that was recorded has been restored; where it ended without an
/// interpreter, the error is `New`; where it ended with one, the state is
/// that of a new interpreter, with nothing protected and no savepoint
/// open.
pub proof fn lemma_create_balanced(replies: Seq<ReplyView>)
    ensures
        ({
            let (calls, last) = spec_boot_run(spec_create(), replies);
            &&& last is Done ==> spec_open_savepoints(calls) == 0
            &&& last matches BootStepView::Done(Err(error)) ==> error == MrbErrorView::New
            &&& last matches BootStepView::Done(Ok(state)) ==> state == StateView::fresh()
        }),
{
    lemma_boot_run(VmCallView::Open, spec_create()->Call_1, replies);
}

proof fn lemma_boot_next(call: VmCallView, b: BootView, replies: Seq<ReplyView>)
    requires
        replies.len() > 0,
    ensures
        spec_boot_run(BootStepView::Call(call, b), replies).0 == seq![call] + spec_boot_run(
            spec_boot(b, replies[0]),
            replies.drop_first(),
        ).0,
        spec_boot_run(BootStepView::Call(call, b), replies).1 == spec_boot_run(
            spec_boot(b, replies[0]),
            replies.drop_first(),
        ).1,
{
}

spec fn boot_after(b: BootView, reply: ReplyView) -> BootView {
    spec_boot(b, reply)->Call_1
}

spec fn boot_taking(replies: Seq<ReplyView>) -> BootView {
    let defined = boot_after(
        boot_after(
            boot_after(boot_after(spec_create()->Call_1, replies[0]), replies[1]),
            replies[2],
        ),
        replies[3],
    );
    boot_after(boot_after(boot_after(defined, replies[4]), replies[5]), replies[6])
}

proof fn lemma_boot_begins(replies: Seq<ReplyView>)
    requires
        replies.len() >= 7,
        forall|i: int| 0 <= i < 4 ==> !(#[trigger] replies[i] is Failed),
    ensures
        boot_held(VmCallView::TakeException, boot_taking(replies)),
        spec_boot_run(spec_create(), replies).0 == spec_boot_calls().take(7) + spec_boot_run(
            BootStepView::Call(VmCallView::TakeException, boot_taking(replies)),
            replies.skip(7),
        ).0,
        spec_boot_run(spec_create(), replies).1 == spec_boot_run(
            BootStepView::Call(VmCallView::TakeException, boot_taking(replies)),
            replies.skip(7),
        ).1,
{
    let r1 = replies.drop_first();
    let r2 = r1.drop_first();
    let r3 = r2.drop_first();
    let r4 = r3.drop_first();
    let r5 = r4.drop_first();
    let r6 = r5.drop_first();
    let r7 = r6.drop_first();
    assert(!(replies[0] is Failed) && !(replies[1] is Failed) && !(replies[2] is Failed) && !(
    replies[3] is Failed));
    assert(r1[0] == replies[1] && r2[0] == replies[2] && r3[0] == replies[3] && r4[0] == replies[4]
        && r5[0] == replies[5] && r6[0] == replies[6]);
    assert(r7 =~= replies.skip(7));
    let calls = spec_boot_calls();
    let s0 = spec_create();
    let s1 = spec_boot(s0->Call_1, replies[0]);
    let s2 = spec_boot(s1->Call_1, replies[1]);
    let s3 = spec_boot(s2->Call_1, replies[2]);
    let s4 = spec_boot(s3->Call_1, replies[3]);
    assert(boot_held(s4->Call_0, s4->Call_1));
    lemma_boot_step(s4->Call_0, s4->Call_1, replies[4]);
    let s5 = spec_boot(s4->Call_1, replies[4]);
    assert(s5->Call_0 == calls[5]) by {
        assert(StateView::fresh().contexts.push(TOP_FILENAME@).last() == TOP_FILENAME@);
    }
    lemma_boot_step(s5->Call_0, s5->Call_1, replies[5]);
    let s6 = spec_boot(s5->Call_1, replies[5]);
    assert(s6->Call_0 == calls[6]);
    lemma_boot_step(s6->Call_0, s6->Call_1, replies[6]);
    let s7 = spec_boot(s6->Call_1, replies[6]);
    assert(s7 == BootStepView::Call(VmCallView::TakeException, boot_taking(replies)));
    lemma_boot_next(s6->Call_0, s6->Call_1, r6);
    lemma_boot_next(s5->Call_0, s5->Call_1, r5);
    lemma_boot_next(s4->Call_0, s4->Call_1, r4);
    lemma_boot_next(s3->Call_0, s3->Call_1, r3);
    lemma_boot_next(s2->Call_0, s2->Call_1, r2);
    lemma_boot_next(s1->Call_0, s1->Call_1, r1);
    lemma_boot_next(s0->Call_0, s0->Call_1, replies);
    let rest = spec_boot_run(s7, r7).0;
    assert(spec_boot_run(s6, r6).0 =~= calls.subrange(6, 7) + rest);
    assert(spec_boot_run(s5, r5).0 =~= calls.subrange(5, 7) + rest);
    assert(spec_boot_run(s4, r4).0 =~= calls.subrange(4, 7) + rest);
    assert(spec_boot_run(s3, r3).0 =~= calls.subrange(3, 7) + rest);
    assert(spec_boot_run(s2, r2).0 =~= calls.subrange(2, 7) + rest);
    assert(spec_boot_run(s1, r1).0 =~= calls.subrange(1, 7) + rest);
    assert(spec_boot_run(s0, replies).0 =~= calls.take(7) + rest);
}

/// Where the virtual machine does all that it is asked, an interpreter
/// comes to be. If the virtual machine is allocated, `require` installed
/// and the two classes defined without a failure, and no exception is
/// pending after the first evaluation, then the calls handed out are the
/// eleven calls that make an interpreter, in their order, and the creation
/// ends with the state of a new interpreter.
pub proof fn lemma_create_succeeds(replies: Seq<ReplyView>)
    requires
        replies.len() >= 11,
        forall|i: int| 0 <= i < 4 ==> !(#[trigger] replies[i] is Failed),
        replies[7] != ReplyView::Pending(true),
    ensures
        spec_boot_run(spec_create(), replies) == (
            spec_boot_calls(),
            BootStepView::Done(Ok(StateView::fresh())),
        ),
{
    lemma_boot_begins(replies);
    let calls = spec_boot_calls();
    let r7 = replies.skip(7);
    let r8 = r7.drop_first();
    let r9 = r8.drop_first();
    let r10 = r9.drop_first();
    let r11 = r10.drop_first();
    assert(r7[0] == replies[7] && r8[0] == replies[8] && r9[0] == replies[9] && r10[0]
        == replies[10]);
    let s7 = BootStepView::Call(VmCallView::TakeException, boot_taking(replies));
    lemma_boot_step(s7->Call_0, s7->Call_1, r7[0]);
    let s8 = spec_boot(s7->Call_1, r7[0]);
    assert(s8->Call_0 == calls[8]);
    lemma_boot_step(s8->Call_0, s8->Call_1, r8[0]);
    let s9 = spec_boot(s8->Call_1, r8[0]);
    assert(s9 is Call && s9->Call_0 == calls[9] && s9->Call_1.stage is Restore);
    lemma_boot_step(s9->Call_0, s9->Call_1, r9[0]);
    let s10 = spec_boot(s9->Call_1, r9[0]);
    assert(s10->Call_0 == calls[10]);
    lemma_boot_step(s10->Call_0, s10->Call_1, r10[0]);
    let s11 = spec_boot(s10->Call_1, r10[0]);
    assert(s11 == BootStepView::Done(Ok(StateView::fresh())));
    lemma_boot_next(s10->Call_0, s10->Call_1, r10);
    lemma_boot_next(s9->Call_0, s9->Call_1, r9);
    lemma_boot_next(s8->Call_0, s8->Call_1, r8);
    lemma_boot_next(s7->Call_0, s7->Call_1, r7);
    assert(spec_boot_run(s11, r11).0 =~= Seq::<VmCallView>::empty());
    assert(spec_boot_run(s10, r10).0 =~= calls.subrange(10, 11));
    assert(spec_boot_run(s9, r9).0 =~= calls.subrange(9, 11));
    assert(spec_boot_run(s8, r8).0 =~= calls.subrange(8, 11));
    assert(spec_boot_run(s7, r7).0 =~= calls.subrange(7, 11));
    assert(calls.take(7) + calls.subrange(7, 11) =~= calls);
}

/// Whether the replies `replies` to a creation tell of an exception that
/// the first evaluation raised: one was pending, and it gave its inspection
/// and its backtrace.
pub open spec fn spec_boot_raised(replies: Seq<ReplyView>) -> bool {
    &&& replies.len() > 9
    &&& replies[7] == ReplyView::Pending(true)
    &&& replies[8] is Text
    &&& replies[9] is Lines
}

proof fn lemma_boot_fails_early(replies: Seq<ReplyView>)
    requires
        replies.len() >= 4,
        replies[0] is Failed || replies[1] is Failed || replies[2] is Failed || replies[3] is Failed,
    ensures
        spec_boot_run(spec_create(), replies).1 == BootStepView::Done(Err(MrbErrorView::New)),
{
    let r1 = replies.drop_first();
    let r2 = r1.drop_first();
    let r3 = r2.drop_first();
    assert(r1[0] == replies[1] && r2[0] == replies[2] && r3[0] == replies[3]);
    let s0 = spec_create();
    lemma_boot_next(s0->Call_0, s0->Call_1, replies);
    let s1 = spec_boot(s0->Call_1, replies[0]);
    if s1 is Call {
        lemma_boot_next(s1->Call_0, s1->Call_1, r1);
        let s2 = spec_boot(s1->Call_1, r1[0]);
        if s2 is Call {
            lemma_boot_next(s2->Call_0, s2->Call_1, r2);
            let s3 = spec_boot(s2->Call_1, r2[0]);
            if s3 is Call {
                lemma_boot_next(s3->Call_0, s3->Call_1, r3);
            }
        }
    }
}

/// When there is an interpreter, and when there is none. The creation has
/// ended after thirteen replies at the latest. It ends without an
/// interpreter, and with the error `New`, if the virtual machine fails to
/// be allocated, to install `require` or to define one of the two classes,
/// or if the first evaluation raised; in every other case it ends with the
/// state of a new interpreter.
pub proof fn lemma_create_ends(replies: Seq<ReplyView>)
    requires
        replies.len() >= 13,
    ensures
        spec_boot_run(spec_create(), replies).1 == if replies[0] is Failed || replies[1] is Failed
            || replies[2] is Failed || replies[3] is Failed || spec_boot_raised(replies) {
            BootStepView::Done(Err(MrbErrorView::New))
        } else {
            BootStepView::Done(Ok(StateView::fresh()))
        },
{
    if replies[0] is Failed || replies[1] is Failed || replies[2] is Failed || replies[3] is Failed {
        lemma_boot_fails_early(replies);
    } else if replies[7] != ReplyView::Pending(true) {
        lemma_create_succeeds(replies);
    } else {
        lemma_boot_begins(replies);
        lemma_create_balanced(replies);
        let r7 = replies.skip(7);
        let r8 = r7.drop_first();
        let r9 = r8.drop_first();
        let r10 = r9.drop_first();
        let r11 = r10.drop_first();
        let r12 = r11.drop_first();
        assert(r7[0] == replies[7] && r8[0] == replies[8] && r9[0] == replies[9] && r10[0]
            == replies[10] && r11[0] == replies[11] && r12[0] == replies[12]);
        let s7 = BootStepView::Call(VmCallView::TakeException, boot_taking(replies));
        lemma_boot_next(s7->Call_0, s7->Call_1, r7);
        lemma_boot_step(s7->Call_0, s7->Call_1, r7[0]);
        let s8 = spec_boot(s7->Call_1, r7[0]);
        lemma_boot_next(s8->Call_0, s8->Call_1, r8);
        lemma_boot_step(s8->Call_0, s8->Call_1, r8[0]);
        let s9 = spec_boot(s8->Call_1, r8[0]);
        lemma_boot_next(s9->Call_0, s9->Call_1, r9);
        lemma_boot_step(s9->Call_0, s9->Call_1, r9[0]);
        let s10 = spec_boot(s9->Call_1, r9[0]);
        lemma_boot_next(s10->Call_0, s10->Call_1, r10);
        lemma_boot_step(s10->Call_0, s10->Call_1, r10[0]);
        let s11 = spec_boot(s10->Call_1, r10[0]);
        if s11 is Call {
            lemma_boot_next(s11->Call_0, s11->Call_1, r11);
            lemma_boot_step(s11->Call_0, s11->Call_1, r11[0]);
            let s12 = spec_boot(s11->Call_1, r11[0]);
            if s12 is Call {
                lemma_boot_next(s12->Call_0, s12->Call_1, r12);
                lemma_boot_step(s12->Call_0, s12->Call_1, r12[0]);
            }
        }
    }
}

} // verus!

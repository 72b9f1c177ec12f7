//! Evaluating code: the context that a unit of code runs in, and the steps
//! of an evaluation.
//!
//! The virtual machine evaluates; the host finds out afterwards whether the
//! code raised, by reading the current exception. An evaluation has ended
//! only when that reading has: so no exception that one evaluation raised
//! is left for the next one to find.

use crate::error::{MrbError, MrbErrorView};
use crate::exception::{
    lemma_read_step, spec_call_rank, spec_read_call, spec_read_held, spec_read_resume,
    spec_read_run, spec_read_start, ExceptionReader, ExceptionReaderView, ExceptionStep,
    ExceptionStepView,
};
use crate::state::{spec_pop, State, StateView};
use crate::value::{Value, ValueView};
use crate::vm::{Reply, ReplyView, VmCall, VmCallView};
use vstd::prelude::*;
use vstd::string::*;

verus! {

/// Filename used when code is evaluated without a file of its own.
pub const TOP_FILENAME: &'static str = "(eval)";

/// Describes the unit of code that is being evaluated. The interpreter keeps
/// these on a stack; the topmost one names the file that error locations
/// refer to.
#[derive(Debug, Clone, PartialEq, Eq)]
pub struct EvalContext {
    pub filename: String,
}

impl View for EvalContext {
    type V = Seq<char>;

    open spec fn view(&self) -> Seq<char> {
        self.filename@
    }
}

impl EvalContext {
    /// A context for the file `filename`.
    pub fn new(filename: &str) -> (context: EvalContext)
        ensures
            context@ == filename@,
    {
        EvalContext { filename: String::from_str(filename) }
    }

    /// The context of code that belongs to no file.
    pub fn root() -> (context: EvalContext)
        ensures
            context@ == TOP_FILENAME@,
    {
        EvalContext { filename: String::from_str(TOP_FILENAME) }
    }

    /// A copy of this context.
    pub fn duplicate(&self) -> (context: EvalContext)
        ensures
            context@ == self@,
            context == *self,
    {
        EvalContext { filename: self.filename.clone() }
    }
}

/// Which reply an [`Evaluation`] waits for.
#[derive(Debug, Clone, Copy, PartialEq, Eq)]
pub enum EvalStage {
    /// The code is being evaluated.
    Run,
    /// The current exception is being read.
    Read,
}

/// An evaluation that waits for the virtual machine.
#[derive(Debug)]
pub struct Evaluation {
    stage: EvalStage,
    pushed: bool,
    reader: Option<ExceptionReader>,
    value: Option<Value>,
}

/// An [`Evaluation`] over plain values.
pub struct EvaluationView {
    /// Which reply is awaited.
    pub stage: EvalStage,
    /// Whether the evaluation has an evaluation context of its own.
    pub pushed: bool,
    /// The reading of the current exception, once it has begun.
    pub reader: Option<ExceptionReaderView>,
    /// What the code evaluated to, where the virtual machine said so.
    pub value: Option<ValueView>,
}

impl View for Evaluation {
    type V = EvaluationView;

    closed spec fn view(&self) -> EvaluationView {
        EvaluationView {
            stage: self.stage,
            pushed: self.pushed,
            reader: match self.reader {
                Some(reader) => Some(reader@),
                None => None,
            },
            value: match self.value {
                Some(value) => Some(value@),
                None => None,
            },
        }
    }
}

/// What an evaluation needs next, or how it ended.
#[derive(Debug)]
pub enum EvalStep {
    /// The virtual machine has to do the call; the evaluation is then
    /// resumed with the reply.
    Call(VmCall, Evaluation),
    /// The evaluation has ended: with the value of the code, or with `Exec`
    /// and the text of the exception that the code raised.
    Done(Result<Value, MrbError>),
}

/// An [`EvalStep`] over plain values.
pub enum EvalStepView {
    Call(VmCallView, EvaluationView),
    Done(Result<ValueView, MrbErrorView>),
}

impl View for EvalStep {
    type V = EvalStepView;

    open spec fn view(&self) -> EvalStepView {
        match self {
            EvalStep::Call(call, evaluation) => EvalStepView::Call(call@, evaluation@),
            EvalStep::Done(Ok(value)) => EvalStepView::Done(Ok(value@)),
            EvalStep::Done(Err(error)) => EvalStepView::Done(Err(error@)),
        }
    }
}

/// The filename of an evaluation context that may be absent.
pub open spec fn spec_context(context: Option<EvalContext>) -> Option<Seq<char>> {
    match context {
        Some(given) => Some(given@),
        None => None,
    }
}

/// The filename that error locations refer to in the state `s`: that of
/// the innermost evaluation context, or the name for code of no file.
pub open spec fn spec_filename(s: StateView) -> Seq<char> {
    if s.contexts.len() > 0 {
        s.contexts.last()
    } else {
        TOP_FILENAME@
    }
}

/// The first step of the evaluation of `source` in the state `s`. With a
/// `context`, that becomes the innermost evaluation context; without one,
/// the code runs in the context that is there.
pub open spec fn spec_eval_start(s: StateView, source: Seq<u8>, context: Option<Seq<char>>) -> (
    StateView,
    EvalStepView,
) {
    let entered = match context {
        Some(filename) => StateView { contexts: s.contexts.push(filename), ..s },
        None => s,
    };
    (
        entered,
        EvalStepView::Call(
            VmCallView::Eval { source, filename: spec_filename(entered) },
            EvaluationView {
                stage: EvalStage::Run,
                pushed: context is Some,
                reader: None,
                value: None,
            },
        ),
    )
}

/// How an evaluation ends: with `Exec` and the text of the exception where
/// one was read, else with the value of the code, which is nothing where
/// the virtual machine named none.
pub open spec fn spec_eval_result(text: Option<Seq<char>>, value: Option<ValueView>) -> Result<
    ValueView,
    MrbErrorView,
> {
    match text {
        Some(raised) => Err(MrbErrorView::Exec(raised)),
        None => match value {
            Some(found) => Ok(found),
            None => Ok(ValueView::Nil),
        },
    }
}

/// The state `s` when the evaluation `e` has ended: without the evaluation
/// context of `e`, if it had one of its own.
pub open spec fn spec_eval_left(s: StateView, e: EvaluationView) -> StateView {
    if e.pushed {
        StateView { contexts: spec_pop(s.contexts), ..s }
    } else {
        s
    }
}

/// The step of the evaluation `e` on `reply`, in the state `s`.
///
/// Whatever the virtual machine replies to the evaluation itself, the
/// current exception is read next. When that reading has ended, the
/// evaluation has.
pub open spec fn spec_eval_resume(s: StateView, e: EvaluationView, reply: ReplyView) -> (
    StateView,
    EvalStepView,
) {
    match e.stage {
        EvalStage::Run => {
            let value = match reply {
                ReplyView::Value(found) => Some(found),
                _ => None,
            };
            let (begun, first) = spec_read_start(s);
            (
                begun,
                EvalStepView::Call(
                    first->Call_0,
                    EvaluationView { stage: EvalStage::Read, reader: Some(first->Call_1), value, ..e },
                ),
            )
        },
        EvalStage::Read => match e.reader {
            Some(reader) => {
                let (after, next) = spec_read_resume(s, reader, reply);
                match next {
                    ExceptionStepView::Call(call, following) => (
                        after,
                        EvalStepView::Call(call, EvaluationView { reader: Some(following), ..e }),
                    ),
                    ExceptionStepView::Done(text) => (
                        spec_eval_left(after, e),
                        EvalStepView::Done(spec_eval_result(text, e.value)),
                    ),
                }
            },
            None => (spec_eval_left(s, e), EvalStepView::Done(spec_eval_result(None, e.value))),
        },
    }
}

impl Evaluation {
    #[verifier::type_invariant]
    spec fn reading(self) -> bool {
        self.stage is Read ==> self.reader is Some
    }

    /// Which reply is awaited.
    pub fn stage(&self) -> (stage: EvalStage)
        ensures
            stage == self@.stage,
    {
        self.stage
    }

    /// Begins the evaluation of `source`: the first call, and the
    /// evaluation that waits for the reply to it. With a `context`, that
    /// becomes the innermost evaluation context until the evaluation has
    /// ended; without one, the code runs in the context that is there.
    pub fn begin(state: &mut State, source: Vec<u8>, context: Option<EvalContext>) -> (begun: (
        VmCall,
        Evaluation,
    ))
        ensures
            (final(state)@, EvalStepView::Call(begun.0@, begun.1@)) == spec_eval_start(
                old(state)@,
                source@,
                spec_context(context),
            ),
    {
        let pushed = context.is_some();
        match context {
            Some(given) => {
                state.push_context(given);
            },
            None => {},
        }
        let filename = match state.current_filename() {
            Some(name) => name,
            None => String::from_str(TOP_FILENAME),
        };
        (
            VmCall::Eval { source, filename },
            Evaluation { stage: EvalStage::Run, pushed, reader: None, value: None },
        )
    }

    /// Begins the evaluation of `source`, in `context` if one is given.
    pub fn start(state: &mut State, source: Vec<u8>, context: Option<EvalContext>) -> (step:
        EvalStep)
        ensures
            (final(state)@, step@) == spec_eval_start(old(state)@, source@, spec_context(context)),
    {
        let (call, evaluation) = Self::begin(state, source, context);
        EvalStep::Call(call, evaluation)
    }

    /// Resumes the evaluation with the reply to the call that it handed
    /// out.
    pub fn resume(self, state: &mut State, reply: Reply) -> (step: EvalStep)
        ensures
            (final(state)@, step@) == spec_eval_resume(old(state)@, self@, reply@),
    {
        proof {
            use_type_invariant(&self);
        }
        let Evaluation { stage, pushed, reader, value } = self;
        match stage {
            EvalStage::Run => {
                let found = match reply {
                    Reply::Value(found) => Some(found),
                    _ => None,
                };
                let (call, begun) = ExceptionReader::begin(state);
                EvalStep::Call(
                    call,
                    Evaluation { stage: EvalStage::Read, pushed, reader: Some(begun), value: found },
                )
            },
            EvalStage::Read => match reader {
                Some(reading) => match reading.resume(state, reply) {
                    ExceptionStep::Call(call, following) => EvalStep::Call(
                        call,
                        Evaluation { stage: EvalStage::Read, pushed, reader: Some(following), value },
                    ),
                    ExceptionStep::Done(text) => {
                        if pushed {
                            state.pop_context();
                        }
                        match text {
                            Some(raised) => EvalStep::Done(Err(MrbError::Exec(raised))),
                            None => match value {
                                Some(found) => EvalStep::Done(Ok(found)),
                                None => EvalStep::Done(Ok(Value::Nil)),
                            },
                        }
                    },
                },
                None => {
                    if pushed {
                        state.pop_context();
                    }
                    match value {
                        Some(found) => EvalStep::Done(Ok(found)),
                        None => EvalStep::Done(Ok(Value::Nil)),
                    }
                },
            },
        }
    }
}

/// Whether the evaluation `e` in the state `s` is under way as it should
/// be, `base` being the state in which its code began to run: nothing but
/// the protection stack differs from `base`, and once the current exception
/// is being read, the reading holds its savepoint.
pub open spec fn spec_eval_held(base: StateView, s: StateView, e: EvaluationView) -> bool {
    &&& s.vfs == base.vfs
    &&& s.registry == base.registry
    &&& s.contexts == base.contexts
    &&& match e.stage {
        EvalStage::Run => s.arena == base.arena,
        EvalStage::Read => e.reader matches Some(reader) && spec_read_held(base.arena, s, reader),
    }
}

/// A step of an evaluation keeps it under way as it should be, and its end
/// leaves the state in which its code began to run, less the evaluation
/// context of its own. Every call after the code has run is a call of the
/// reading of the current exception.
pub proof fn lemma_eval_step(base: StateView, s: StateView, e: EvaluationView, reply: ReplyView)
    requires
        spec_eval_held(base, s, e),
    ensures
        ({
            let (after, next) = spec_eval_resume(s, e, reply);
            match next {
                EvalStepView::Call(call, following) => {
                    &&& spec_eval_held(base, after, following)
                    &&& following.pushed == e.pushed
                    &&& following.stage is Read
                    &&& following.reader matches Some(reader) && call == spec_read_call(
                        reader.stage,
                    )
                },
                EvalStepView::Done(result) => {
                    &&& after == spec_eval_left(base, e)
                    &&& result matches Err(error) ==> error is Exec
                },
            }
        }),
{
    match e.stage {
        EvalStage::Run => {
            assert(spec_read_start(s).0.arena.savepoints == base.arena.savepoints.push(
                base.arena.depth,
            ));
        },
        EvalStage::Read => {
            lemma_read_step(base.arena, s, e.reader->Some_0, reply);
        },
    }
}

/// The calls that an evaluation hands out from `step` on while `replies`
/// are handed to it in order, the state that it leaves, and where it then
/// stands. Replies that come after its end are ignored.
pub open spec fn spec_eval_run(s: StateView, step: EvalStepView, replies: Seq<ReplyView>) -> (
    Seq<VmCallView>,
    StateView,
    EvalStepView,
)
    decreases replies.len(),
{
    match step {
        EvalStepView::Done(_) => (Seq::empty(), s, step),
        EvalStepView::Call(call, e) => if replies.len() == 0 {
            (seq![call], s, step)
        } else {
            let (after, next) = spec_eval_resume(s, e, replies[0]);
            let (calls, end, last) = spec_eval_run(after, next, replies.drop_first());
            (seq![call] + calls, end, last)
        },
    }
}

proof fn lemma_eval_reads(
    s: StateView,
    call: VmCallView,
    e: EvaluationView,
    reader: ExceptionReaderView,
    replies: Seq<ReplyView>,
)
    requires
        e.stage is Read,
        e.reader == Some(reader),
    ensures
        ({
            let (calls, end, last) = spec_eval_run(s, EvalStepView::Call(call, e), replies);
            let (read_calls, read_end, read_last) = spec_read_run(
                s,
                ExceptionStepView::Call(call, reader),
                replies,
            );
            &&& calls == read_calls
            &&& match read_last {
                ExceptionStepView::Done(text) => end == spec_eval_left(read_end, e) && last
                    == EvalStepView::Done(spec_eval_result(text, e.value)),
                ExceptionStepView::Call(_, _) => end == read_end && last is Call,
            }
        }),
    decreases replies.len(),
{
    if replies.len() > 0 {
        let (after, next) = spec_read_resume(s, reader, replies[0]);
        let (eval_after, eval_next) = spec_eval_resume(s, e, replies[0]);
        match next {
            ExceptionStepView::Call(following_call, following) => {
                let waiting = EvaluationView { reader: Some(following), ..e };
                assert(eval_after == after);
                assert(eval_next == EvalStepView::Call(following_call, waiting));
                lemma_eval_reads(after, following_call, waiting, following, replies.drop_first());
            },
            ExceptionStepView::Done(text) => {
                assert(eval_after == spec_eval_left(after, e));
                assert(eval_next == EvalStepView::Done(spec_eval_result(text, e.value)));
                assert(spec_eval_run(eval_after, eval_next, replies.drop_first()).0
                    =~= Seq::<VmCallView>::empty());
                assert(spec_read_run(after, next, replies.drop_first()).0
                    =~= Seq::<VmCallView>::empty());
            },
        }
    }
}

/// No exception outlives its evaluation. Whatever the virtual machine
/// replies: an evaluation that has ended has emptied the slot of the
/// current exception, after the code ran and once; and it has left the
/// state as it found it, with the stack of evaluation contexts and the
/// protection stack as they were. So the next evaluation finds no exception
/// but its own.
pub proof fn lemma_eval_leaves_no_exception(
    s: StateView,
    source: Seq<u8>,
    context: Option<Seq<char>>,
    replies: Seq<ReplyView>,
)
    ensures
        ({
            let (begun, first) = spec_eval_start(s, source, context);
            let (calls, end, last) = spec_eval_run(begun, first, replies);
            last is Done ==> {
                &&& end == s
                &&& calls.len() >= 3
                &&& calls[0] is Eval
                &&& calls[2] is TakeException
                &&& forall|i: int| 0 <= i < calls.len() && i != 2 ==> !(calls[i] is TakeException)
            }
        }),
{
    let (begun, first) = spec_eval_start(s, source, context);
    let (calls, end, last) = spec_eval_run(begun, first, replies);
    if last is Done {
        let e = first->Call_1;
        let (reading, second) = spec_eval_resume(begun, e, replies[0]);
        let rest = replies.drop_first();
        let (read_begun, read_first) = spec_read_start(begun);
        let reader = read_first->Call_1;
        let following = second->Call_1;
        lemma_eval_reads(reading, VmCallView::ArenaSave, following, reader, rest);
        crate::exception::lemma_exception_taken_first(begun, rest);
        crate::exception::lemma_exception_read_balanced(begun, rest);
        let (read_calls, read_end, read_last) = spec_read_run(read_begun, read_first, rest);
        assert(calls =~= seq![first->Call_0] + read_calls);
        assert(read_end == begun);
        assert(spec_pop(s.contexts.push(spec_filename(begun))) =~= s.contexts);
        match context {
            Some(filename) => {
                assert(spec_pop(s.contexts.push(filename)) =~= s.contexts);
            },
            None => {},
        }
        assert forall|i: int| 0 <= i < calls.len() && i != 2 implies !(calls[i] is TakeException) by {
            if i > 0 {
                assert(calls[i] == read_calls[i - 1]);
                assert(calls[2] == read_calls[1]);
                if i - 1 < 1 {
                    assert(spec_call_rank(read_calls[i - 1]) < spec_call_rank(read_calls[1]));
                } else {
                    assert(spec_call_rank(read_calls[1]) < spec_call_rank(read_calls[i - 1]));
                }
            }
        }
    }
}

/// What an evaluation yields. Where the code runs to a value and no
/// exception is pending afterwards, the evaluation ends with that value.
/// Where an exception is pending, the evaluation ends with `Exec` and the
/// text of the exception, whatever the virtual machine said of the code.
pub proof fn lemma_eval_result(
    s: StateView,
    source: Seq<u8>,
    context: Option<Seq<char>>,
    value: ValueView,
    ran: ReplyView,
    inspect: Seq<char>,
    backtrace: Seq<Seq<char>>,
)
    ensures
        spec_eval_run(
            spec_eval_start(s, source, context).0,
            spec_eval_start(s, source, context).1,
            seq![ReplyView::Value(value), ReplyView::Done, ReplyView::Pending(false), ReplyView::Done],
        ).2 == EvalStepView::Done(Ok(value)),
        spec_eval_run(
            spec_eval_start(s, source, context).0,
            spec_eval_start(s, source, context).1,
            seq![
                ran,
                ReplyView::Done,
                ReplyView::Pending(true),
                ReplyView::Text(inspect),
                ReplyView::Lines(backtrace),
                ReplyView::Done,
            ],
        ).2 == EvalStepView::Done(
            Err(MrbErrorView::Exec(crate::exception::spec_exception_text(inspect, backtrace))),
        ),
{
    let (begun, first) = spec_eval_start(s, source, context);
    let e = first->Call_1;
    let clean = seq![
        ReplyView::Value(value),
        ReplyView::Done,
        ReplyView::Pending(false),
        ReplyView::Done,
    ];
    let raised = seq![
        ran,
        ReplyView::Done,
        ReplyView::Pending(true),
        ReplyView::Text(inspect),
        ReplyView::Lines(backtrace),
        ReplyView::Done,
    ];
    let (read_begun, read_first) = spec_read_start(begun);
    let reader = read_first->Call_1;
    crate::exception::lemma_exception_read(begun, inspect, backtrace);
    assert(clean.drop_first() =~= seq![
        ReplyView::Done,
        ReplyView::Pending(false),
        ReplyView::Done,
    ]);
    assert(raised.drop_first() =~= seq![
        ReplyView::Done,
        ReplyView::Pending(true),
        ReplyView::Text(inspect),
        ReplyView::Lines(backtrace),
        ReplyView::Done,
    ]);
    let (after_clean, second_clean) = spec_eval_resume(begun, e, clean[0]);
    lemma_eval_reads(
        after_clean,
        VmCallView::ArenaSave,
        second_clean->Call_1,
        reader,
        clean.drop_first(),
    );
    let (after_raised, second_raised) = spec_eval_resume(begun, e, raised[0]);
    lemma_eval_reads(
        after_raised,
        VmCallView::ArenaSave,
        second_raised->Call_1,
        reader,
        raised.drop_first(),
    );
}

} // verus!

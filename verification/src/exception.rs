//! Turning the exception that is pending in the virtual machine into text.
//!
//! The slot of the current exception is emptied before anything else is
//! asked of the virtual machine: asking an exception for its inspection is
//! itself a call that checks the slot, so an exception left in it would be
//! found again and again. The text is the inspection of the exception
//! followed by its backtrace, one line each. All of it happens inside a
//! savepoint, which is restored however the reading ends.

use crate::gc::{ArenaSavepoint, ArenaSavepointView, GcArenaView};
use crate::state::{State, StateView};
use crate::text::{join, spec_join, spec_texts};
use crate::vm::{Reply, ReplyView, VmCall, VmCallView};
use vstd::prelude::*;
use vstd::string::*;

verus! {

/// Separator between the lines of a formatted exception.
pub const LINE_SEPARATOR: &'static str = "\n";

/// The text of an exception: its inspection, then the lines of its
/// backtrace, each on a line of its own.
pub open spec fn spec_exception_text(inspect: Seq<char>, backtrace: Seq<Seq<char>>) -> Seq<char> {
    spec_join(seq![inspect] + backtrace, LINE_SEPARATOR@)
}

/// The text of an exception: its inspection, then the lines of its
/// backtrace, each on a line of its own.
pub fn exception_text(inspect: &str, backtrace: &Vec<String>) -> (text: String)
    ensures
        text@ == spec_exception_text(inspect@, spec_texts(backtrace@)),
{
    let mut lines: Vec<String> = Vec::new();
    lines.push(String::from_str(inspect));
    let mut i: usize = 0;
    while i < backtrace.len()
        invariant
            i <= backtrace@.len(),
            spec_texts(lines@) == seq![inspect@] + spec_texts(backtrace@).take(i as int),
        decreases backtrace@.len() - i,
    {
        let ghost before = lines@;
        lines.push(backtrace[i].clone());
        assert(spec_texts(lines@) =~= spec_texts(before).push(backtrace@[i as int]@));
        assert(spec_texts(backtrace@).take(i + 1) =~= spec_texts(backtrace@).take(i as int).push(
            backtrace@[i as int]@,
        ));
        assert(spec_texts(lines@) =~= seq![inspect@] + spec_texts(backtrace@).take(i + 1));
        i += 1;
    }
    assert(spec_texts(backtrace@).take(backtrace@.len() as int) =~= spec_texts(backtrace@));
    join(&lines, LINE_SEPARATOR)
}

/// Which reply an [`ExceptionReader`] waits for.
#[derive(Debug, Clone, Copy, PartialEq, Eq)]
pub enum ReadStage {
    /// The savepoint is being recorded.
    Save,
    /// The slot of the current exception is being emptied.
    Take,
    /// The exception is being asked for its inspection.
    Inspect,
    /// The exception is being asked for its backtrace.
    Backtrace,
    /// The savepoint is being restored.
    Restore,
}

/// The reading of the current exception that waits for the virtual machine.
#[derive(Debug)]
pub struct ExceptionReader {
    stage: ReadStage,
    savepoint: Option<ArenaSavepoint>,
    inspect: String,
    text: Option<String>,
}

/// An [`ExceptionReader`] over plain values.
pub struct ExceptionReaderView {
    /// Which reply is awaited.
    pub stage: ReadStage,
    /// The savepoint that is still to be restored.
    pub savepoint: Option<ArenaSavepointView>,
    /// The inspection of the exception, once it is known.
    pub inspect: Seq<char>,
    /// The text that the reading ends with.
    pub text: Option<Seq<char>>,
}

/// The view of a text that may be absent.
pub open spec fn spec_optional(text: Option<String>) -> Option<Seq<char>> {
    match text {
        Some(t) => Some(t@),
        None => None,
    }
}

impl View for ExceptionReader {
    type V = ExceptionReaderView;

    closed spec fn view(&self) -> ExceptionReaderView {
        ExceptionReaderView {
            stage: self.stage,
            savepoint: match self.savepoint {
                Some(savepoint) => Some(savepoint@),
                None => None,
            },
            inspect: self.inspect@,
            text: spec_optional(self.text),
        }
    }
}

/// What the reading of the current exception needs next, or how it ended.
#[derive(Debug)]
pub enum ExceptionStep {
    /// The virtual machine has to do the call; the reading is then resumed
    /// with the reply.
    Call(VmCall, ExceptionReader),
    /// The reading has ended: with the text of the exception, or with
    /// nothing where no exception was pending or the exception could not be
    /// read.
    Done(Option<String>),
}

/// An [`ExceptionStep`] over plain values.
pub enum ExceptionStepView {
    Call(VmCallView, ExceptionReaderView),
    Done(Option<Seq<char>>),
}

impl View for ExceptionStep {
    type V = ExceptionStepView;

    open spec fn view(&self) -> ExceptionStepView {
        match self {
            ExceptionStep::Call(call, reader) => ExceptionStepView::Call(call@, reader@),
            ExceptionStep::Done(text) => ExceptionStepView::Done(spec_optional(*text)),
        }
    }
}

/// The protection stack after one more value has been handed to the host,
/// as far as its depth can be counted.
pub open spec fn spec_protect(arena: GcArenaView) -> GcArenaView {
    if arena.depth < usize::MAX {
        arena.protected()
    } else {
        arena
    }
}

/// The protection stack after `savepoint` has been released: restored where
/// it is the innermost open savepoint, and left alone otherwise.
pub open spec fn spec_release(arena: GcArenaView, savepoint: Option<ArenaSavepointView>) -> GcArenaView {
    match savepoint {
        Some(opened) => if arena.is_innermost(opened) {
            arena.restored()
        } else {
            arena
        },
        None => arena,
    }
}

/// The first step of a reading in the state `s`: a savepoint is opened.
pub open spec fn spec_read_start(s: StateView) -> (StateView, ExceptionStepView) {
    (
        StateView { arena: s.arena.opened(), ..s },
        ExceptionStepView::Call(
            VmCallView::ArenaSave,
            ExceptionReaderView {
                stage: ReadStage::Save,
                savepoint: Some(s.arena.next_savepoint()),
                inspect: Seq::empty(),
                text: None,
            },
        ),
    )
}

/// The step that ends the work of the reading `r` with `text`: the
/// savepoint is released, and the virtual machine is asked to do the same.
pub open spec fn spec_read_finish(s: StateView, r: ExceptionReaderView, text: Option<Seq<char>>) -> (
    StateView,
    ExceptionStepView,
) {
    (
        StateView { arena: spec_release(s.arena, r.savepoint), ..s },
        ExceptionStepView::Call(
            VmCallView::ArenaRestore,
            ExceptionReaderView { stage: ReadStage::Restore, savepoint: None, text, ..r },
        ),
    )
}

/// The step of the reading `r` on `reply`, in the state `s`.
///
/// Once the savepoint is recorded, the slot of the current exception is
/// emptied. Where it held an exception, the exception is asked for its
/// inspection and then for its backtrace; each answer is a value handed to
/// the host and takes a slot of the protection stack. With both answers the
/// reading has its text. Where the slot was empty, or an answer is not what
/// was asked for, it has none. Either way the savepoint is released before
/// the reading ends.
pub open spec fn spec_read_resume(s: StateView, r: ExceptionReaderView, reply: ReplyView) -> (
    StateView,
    ExceptionStepView,
) {
    match r.stage {
        ReadStage::Save => (
            s,
            ExceptionStepView::Call(
                VmCallView::TakeException,
                ExceptionReaderView { stage: ReadStage::Take, ..r },
            ),
        ),
        ReadStage::Take => match reply {
            ReplyView::Pending(true) => (
                s,
                ExceptionStepView::Call(
                    VmCallView::Inspect,
                    ExceptionReaderView { stage: ReadStage::Inspect, ..r },
                ),
            ),
            _ => spec_read_finish(s, r, None),
        },
        ReadStage::Inspect => match reply {
            ReplyView::Text(inspect) => (
                StateView { arena: spec_protect(s.arena), ..s },
                ExceptionStepView::Call(
                    VmCallView::Backtrace,
                    ExceptionReaderView { stage: ReadStage::Backtrace, inspect, ..r },
                ),
            ),
            _ => spec_read_finish(s, r, None),
        },
        ReadStage::Backtrace => match reply {
            ReplyView::Lines(backtrace) => spec_read_finish(
                StateView { arena: spec_protect(s.arena), ..s },
                r,
                Some(spec_exception_text(r.inspect, backtrace)),
            ),
            _ => spec_read_finish(s, r, None),
        },
        ReadStage::Restore => (s, ExceptionStepView::Done(r.text)),
    }
}

impl ExceptionReader {
    /// Which reply is awaited.
    pub fn stage(&self) -> (stage: ReadStage)
        ensures
            stage == self@.stage,
    {
        self.stage
    }

    /// Begins to read the current exception: the first call, and the
    /// reading that waits for the reply to it.
    pub fn begin(state: &mut State) -> (begun: (VmCall, ExceptionReader))
        ensures
            (final(state)@, ExceptionStepView::Call(begun.0@, begun.1@)) == spec_read_start(
                old(state)@,
            ),
    {
        let opened = state.arena.open();
        (
            VmCall::ArenaSave,
            ExceptionReader {
                stage: ReadStage::Save,
                savepoint: Some(opened),
                inspect: String::new(),
                text: None,
            },
        )
    }

    /// Begins to read the current exception.
    pub fn start(state: &mut State) -> (step: ExceptionStep)
        ensures
            (final(state)@, step@) == spec_read_start(old(state)@),
    {
        let (call, reader) = Self::begin(state);
        ExceptionStep::Call(call, reader)
    }

    fn finish(self, state: &mut State, text: Option<String>) -> (step: ExceptionStep)
        ensures
            (final(state)@, step@) == spec_read_finish(old(state)@, self@, spec_optional(text)),
    {
        let ExceptionReader { stage, savepoint, inspect, text: _ } = self;
        match savepoint {
            Some(opened) => {
                if state.arena.is_innermost(&opened) {
                    state.arena.restore(opened);
                }
            },
            None => {},
        }
        ExceptionStep::Call(
            VmCall::ArenaRestore,
            ExceptionReader { stage: ReadStage::Restore, savepoint: None, inspect, text },
        )
    }

    /// Resumes the reading with the reply to the call that it handed out.
    pub fn resume(self, state: &mut State, reply: Reply) -> (step: ExceptionStep)
        ensures
            (final(state)@, step@) == spec_read_resume(old(state)@, self@, reply@),
    {
        match self.stage {
            ReadStage::Save => ExceptionStep::Call(
                VmCall::TakeException,
                ExceptionReader {
                    stage: ReadStage::Take,
                    savepoint: self.savepoint,
                    inspect: self.inspect,
                    text: self.text,
                },
            ),
            ReadStage::Take => match reply {
                Reply::Pending(true) => ExceptionStep::Call(
                    VmCall::Inspect,
                    ExceptionReader {
                        stage: ReadStage::Inspect,
                        savepoint: self.savepoint,
                        inspect: self.inspect,
                        text: self.text,
                    },
                ),
                _ => self.finish(state, None),
            },
            ReadStage::Inspect => match reply {
                Reply::Text(inspect) => {
                    state.arena.protect();
                    ExceptionStep::Call(
                        VmCall::Backtrace,
                        ExceptionReader {
                            stage: ReadStage::Backtrace,
                            savepoint: self.savepoint,
                            inspect,
                            text: self.text,
                        },
                    )
                },
                _ => self.finish(state, None),
            },
            ReadStage::Backtrace => match reply {
                Reply::Lines(backtrace) => {
                    state.arena.protect();
                    let text = exception_text(self.inspect.as_str(), &backtrace);
                    self.finish(state, Some(text))
                },
                _ => self.finish(state, None),
            },
            ReadStage::Restore => ExceptionStep::Done(self.text),
        }
    }
}

/// The calls that a reading hands out from `step` on while `replies` are
/// handed to it in order, the state that it leaves, and where it then
/// stands. Replies that come after its end are ignored.
pub open spec fn spec_read_run(s: StateView, step: ExceptionStepView, replies: Seq<ReplyView>) -> (
    Seq<VmCallView>,
    StateView,
    ExceptionStepView,
)
    decreases replies.len(),
{
    match step {
        ExceptionStepView::Done(_) => (Seq::empty(), s, step),
        ExceptionStepView::Call(call, r) => if replies.len() == 0 {
            (seq![call], s, step)
        } else {
            let (after, next) = spec_read_resume(s, r, replies[0]);
            let (calls, end, last) = spec_read_run(after, next, replies.drop_first());
            (seq![call] + calls, end, last)
        },
    }
}

/// The place of a call in the order of a reading: the savepoint is
/// recorded, the slot is emptied, the exception is asked for its
/// inspection and for its backtrace, the savepoint is restored.
pub open spec fn spec_call_rank(call: VmCallView) -> int {
    match call {
        VmCallView::ArenaSave => 0,
        VmCallView::TakeException => 1,
        VmCallView::Inspect => 2,
        VmCallView::Backtrace => 3,
        VmCallView::ArenaRestore => 4,
        _ => 5,
    }
}

/// The call that a reading at `stage` has handed out.
pub open spec fn spec_read_call(stage: ReadStage) -> VmCallView {
    match stage {
        ReadStage::Save => VmCallView::ArenaSave,
        ReadStage::Take => VmCallView::TakeException,
        ReadStage::Inspect => VmCallView::Inspect,
        ReadStage::Backtrace => VmCallView::Backtrace,
        ReadStage::Restore => VmCallView::ArenaRestore,
    }
}

/// Whether the reading `r` in the state `s` holds its savepoint as it
/// should, `base` being the protection stack that the reading found: until
/// the savepoint is released it is the innermost one and records the depth
/// of `base`; afterwards the protection stack is `base` again.
pub open spec fn spec_read_held(base: GcArenaView, s: StateView, r: ExceptionReaderView) -> bool {
    if r.stage is Restore {
        s.arena == base
    } else {
        &&& s.arena.savepoints == base.savepoints.push(base.depth)
        &&& r.savepoint == Some(base.next_savepoint())
    }
}

/// A step of a reading keeps the savepoint in place until it releases it,
/// moves on in the order of the calls, and touches nothing but the
/// protection stack.
pub proof fn lemma_read_step(
    base: GcArenaView,
    s: StateView,
    r: ExceptionReaderView,
    reply: ReplyView,
)
    requires
        spec_read_held(base, s, r),
    ensures
        ({
            let (after, next) = spec_read_resume(s, r, reply);
            &&& after.vfs == s.vfs && after.registry == s.registry && after.contexts == s.contexts
            &&& match next {
                ExceptionStepView::Call(call, following) => {
                    &&& call == spec_read_call(following.stage)
                    &&& spec_call_rank(spec_read_call(r.stage)) < spec_call_rank(call)
                    &&& spec_read_held(base, after, following)
                },
                ExceptionStepView::Done(_) => after.arena == base,
            }
        }),
{
    let (after, next) = spec_read_resume(s, r, reply);
    if !(r.stage is Restore) {
        let guarded = base.savepoints.push(base.depth);
        assert(guarded.drop_last() =~= base.savepoints);
        assert(guarded.last() == base.depth);
        assert(s.arena.is_innermost(base.next_savepoint()));
        assert(spec_protect(s.arena).is_innermost(base.next_savepoint()));
    }
}

proof fn lemma_read_run(
    base: GcArenaView,
    s: StateView,
    r: ExceptionReaderView,
    replies: Seq<ReplyView>,
)
    requires
        spec_read_held(base, s, r),
    ensures
        ({
            let (calls, end, last) = spec_read_run(
                s,
                ExceptionStepView::Call(spec_read_call(r.stage), r),
                replies,
            );
            &&& calls.len() >= 1 && calls[0] == spec_read_call(r.stage)
            &&& forall|i: int, j: int|
                0 <= i < j < calls.len() ==> spec_call_rank(calls[i]) < spec_call_rank(calls[j])
            &&& last is Done ==> end.arena == base
            &&& end.vfs == s.vfs && end.registry == s.registry && end.contexts == s.contexts
        }),
    decreases replies.len(),
{
    let call = spec_read_call(r.stage);
    if replies.len() > 0 {
        let (after, next) = spec_read_resume(s, r, replies[0]);
        let (calls, end, last) = spec_read_run(after, next, replies.drop_first());
        let all = seq![call] + calls;
        lemma_read_step(base, s, r, replies[0]);
        match next {
            ExceptionStepView::Call(_, following) => {
                lemma_read_run(base, after, following, replies.drop_first());
                assert forall|i: int, j: int| 0 <= i < j < all.len() implies spec_call_rank(all[i])
                    < spec_call_rank(all[j]) by {
                    assert(all[j] == calls[j - 1]);
                    if i > 0 {
                        assert(all[i] == calls[i - 1]);
                    } else if j > 1 {
                        assert(spec_call_rank(calls[0]) < spec_call_rank(calls[j - 1]));
                    }
                }
            },
            ExceptionStepView::Done(_) => {
                assert(calls =~= Seq::<VmCallView>::empty());
                assert(all =~= seq![call]);
            },
        }
    }
}

/// The slot is emptied first, and once. Whatever the virtual machine
/// replies, the calls of a reading come in one order, and none of them
/// twice: the savepoint is recorded, the slot of the current exception is
/// emptied, the exception is asked for its inspection and for its
/// backtrace, the savepoint is restored. So the exception is asked nothing
/// before the slot is empty, and the slot is not touched again.
pub proof fn lemma_exception_taken_first(s: StateView, replies: Seq<ReplyView>)
    ensures
        ({
            let (begun, first) = spec_read_start(s);
            let calls = spec_read_run(begun, first, replies).0;
            &&& calls.len() >= 1 && calls[0] is ArenaSave
            &&& replies.len() >= 1 ==> calls.len() >= 2 && calls[1] is TakeException
            &&& forall|i: int, j: int|
                0 <= i < j < calls.len() ==> spec_call_rank(calls[i]) < spec_call_rank(calls[j])
        }),
{
    let (begun, first) = spec_read_start(s);
    let r = first->Call_1;
    assert(begun.arena.savepoints == s.arena.savepoints.push(s.arena.depth));
    lemma_read_run(s.arena, begun, r, replies);
    if replies.len() >= 1 {
        let (after, next) = spec_read_resume(begun, r, replies[0]);
        lemma_read_step(s.arena, begun, r, replies[0]);
        let following = next->Call_1;
        lemma_read_run(s.arena, after, following, replies.drop_first());
        let rest = spec_read_run(after, next, replies.drop_first()).0;
        assert((seq![VmCallView::ArenaSave] + rest)[1] == rest[0]);
    }
}

/// Reading an exception leaves the protection stack as it was. Whatever the
/// virtual machine replies: when the reading has ended, the protection
/// stack has the depth and the open savepoints that it had when the reading
/// began, and nothing else of the state has changed.
pub proof fn lemma_exception_read_balanced(s: StateView, replies: Seq<ReplyView>)
    ensures
        ({
            let (begun, first) = spec_read_start(s);
            let (calls, end, last) = spec_read_run(begun, first, replies);
            last is Done ==> end == s
        }),
{
    let (begun, first) = spec_read_start(s);
    let r = first->Call_1;
    lemma_read_run(s.arena, begun, r, replies);
}

/// What is read. Where an exception is pending and answers with its
/// inspection and its backtrace, the reading ends with the text of the two;
/// where none is pending, it ends with nothing.
pub proof fn lemma_exception_read(s: StateView, inspect: Seq<char>, backtrace: Seq<Seq<char>>)
    ensures
        spec_read_run(
            spec_read_start(s).0,
            spec_read_start(s).1,
            seq![
                ReplyView::Done,
                ReplyView::Pending(true),
                ReplyView::Text(inspect),
                ReplyView::Lines(backtrace),
                ReplyView::Done,
            ],
        ).2 == ExceptionStepView::Done(Some(spec_exception_text(inspect, backtrace))),
        spec_read_run(
            spec_read_start(s).0,
            spec_read_start(s).1,
            seq![ReplyView::Done, ReplyView::Pending(false), ReplyView::Done],
        ).2 == ExceptionStepView::Done(None),
{
    reveal_with_fuel(spec_read_run, 7);
    let full = seq![
        ReplyView::Done,
        ReplyView::Pending(true),
        ReplyView::Text(inspect),
        ReplyView::Lines(backtrace),
        ReplyView::Done,
    ];
    let f1 = full.drop_first();
    let f2 = f1.drop_first();
    let f3 = f2.drop_first();
    let f4 = f3.drop_first();
    let f5 = f4.drop_first();
    assert(f1[0] == full[1] && f2[0] == full[2] && f3[0] == full[3] && f4[0] == full[4]);
    assert(f5.len() == 0);
    let none = seq![ReplyView::Done, ReplyView::Pending(false), ReplyView::Done];
    let n1 = none.drop_first();
    let n2 = n1.drop_first();
    let n3 = n2.drop_first();
    assert(n1[0] == none[1] && n2[0] == none[2]);
    assert(n3.len() == 0);
}

} // verus!

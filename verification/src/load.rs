//! `require`: resolving a requested name to files of the virtual filesystem
//! and loading each of them at most once.
//!
//! A file may carry a native loader, a source text, or both. The native
//! loader runs first, because the source text may depend on what the loader
//! defines. Both run in the virtual machine, so a `require` is a [`Require`]
//! that is started, hands out one [`VmCall`] at a time, and is resumed with
//! the [`Reply`] to each until it is done.

use crate::error::{
    spec_argument_error, spec_load_error, spec_runtime_error, Exception, ExceptionView,
};
use crate::eval::{
    spec_eval_resume, spec_eval_start, spec_filename, EvalContext, EvalStep, EvalStepView,
    Evaluation, EvaluationView,
};
use crate::state::{spec_pop, State, StateView};
use crate::text::{decode, spec_texts, spec_utf8_error};
use crate::value::{Value, ValueView};
use crate::vfs::{
    spec_is_file, spec_metadata, spec_set_metadata, NativeLoader, NodeView, VfsError, VfsMetadata,
};
use crate::vm::{Reply, ReplyView, VmCall, VmCallView};
use crate::RUBY_LOAD_PATH;
use vstd::prelude::*;
use vstd::string::*;
use vstd::utf8::{decode_utf8, valid_utf8};

verus! {

/// Extension of a source file; a relative name is also tried with it.
pub const SOURCE_EXTENSION: &'static str = ".rb";

/// Separator between the parts of a path.
pub const SEPARATOR: &'static str = "/";

/// Whether `name` is a relative path: one that does not start at the root.
pub open spec fn spec_is_relative(name: Seq<char>) -> bool {
    name.len() == 0 || name[0] != '/'
}

/// The path of `name` below the load root.
pub open spec fn spec_resolve(name: Seq<char>) -> Seq<char> {
    RUBY_LOAD_PATH@ + SEPARATOR@ + name
}

/// The paths that a `require` of `name` tries, in order. A relative name is
/// looked up below the load root, as it is and with the source extension;
/// an absolute name is looked up as it is.
pub open spec fn spec_candidates(name: Seq<char>) -> Seq<Seq<char>> {
    if spec_is_relative(name) {
        seq![spec_resolve(name), spec_resolve(name) + SOURCE_EXTENSION@]
    } else {
        seq![name]
    }
}

/// Whether `name` is a relative path.
pub fn is_relative(name: &str) -> (relative: bool)
    ensures
        relative == spec_is_relative(name@),
{
    if name.unicode_len() == 0 {
        true
    } else {
        name.get_char(0) != '/'
    }
}

/// The path of `name` below the load root.
pub fn resolve(name: &str) -> (path: String)
    ensures
        path@ == spec_resolve(name@),
{
    let mut path = String::from_str(RUBY_LOAD_PATH);
    path.append(SEPARATOR);
    path.append(name);
    path
}

/// The paths that a `require` of `name` tries, in order.
pub fn candidates(name: &str) -> (paths: Vec<String>)
    ensures
        spec_texts(paths@) == spec_candidates(name@),
{
    let mut paths: Vec<String> = Vec::new();
    if is_relative(name) {
        let plain = resolve(name);
        let mut with_extension = plain.clone();
        with_extension.append(SOURCE_EXTENSION);
        paths.push(plain);
        paths.push(with_extension);
    } else {
        paths.push(String::from_str(name));
    }
    assert(spec_texts(paths@) =~= spec_candidates(name@));
    paths
}

/// The metadata that `require` works with for the file at `path`: the
/// file's own, or fresh metadata where the file has none yet.
pub open spec fn spec_metadata_or_new(files: Map<Seq<char>, NodeView>, path: Seq<char>) -> VfsMetadata {
    match spec_metadata(files, path) {
        Some(metadata) => metadata,
        None => VfsMetadata::spec_new(),
    }
}

/// Which reply a suspended [`Require`] waits for.
#[derive(Debug, Clone, Copy, PartialEq, Eq)]
pub enum Phase {
    /// The native loader of the current file is running.
    Native,
    /// The source text of the current file is being evaluated.
    Source,
}

/// How a `require` ended.
#[derive(Debug, Clone, PartialEq, Eq)]
pub enum Required {
    /// At least one file was loaded by this call. The caller sees `true`.
    Loaded,
    /// The file had been required before; nothing was done. The caller sees
    /// `false`.
    AlreadyLoaded,
    /// No file stands for the name. The exception, a `LoadError`, is to be
    /// raised in the virtual machine; the value that goes with it is
    /// `false`.
    Missing(Exception),
    /// A file was found, and loading it failed: its native loader failed,
    /// its source text raised, or it could not be marked as required; or
    /// the name could not be read. The exception is to be raised in the
    /// virtual machine; the value that goes with it is `nil`.
    Failed(Exception),
}

/// A [`Required`] over plain values.
pub enum RequiredView {
    Loaded,
    AlreadyLoaded,
    Missing(ExceptionView),
    Failed(ExceptionView),
}

impl View for Required {
    type V = RequiredView;

    open spec fn view(&self) -> RequiredView {
        match self {
            Required::Loaded => RequiredView::Loaded,
            Required::AlreadyLoaded => RequiredView::AlreadyLoaded,
            Required::Missing(exception) => RequiredView::Missing(exception@),
            Required::Failed(exception) => RequiredView::Failed(exception@),
        }
    }
}

impl RequiredView {
    /// What the `require` hands back to the code that called it: `true`
    /// where something was loaded, `false` where the file was loaded
    /// already or no file was found, and nothing where loading failed.
    pub open spec fn value(self) -> ValueView {
        match self {
            RequiredView::Loaded => ValueView::Bool(true),
            RequiredView::AlreadyLoaded => ValueView::Bool(false),
            RequiredView::Missing(_) => ValueView::Bool(false),
            RequiredView::Failed(_) => ValueView::Nil,
        }
    }
}

impl Required {
    /// What the `require` hands back to the code that called it: `true`
    /// where something was loaded, `false` where the file was loaded
    /// already or no file was found, and nothing where loading failed.
    pub fn value(&self) -> (value: Value)
        ensures
            value@ == self@.value(),
    {
        match self {
            Required::Loaded => Value::Bool(true),
            Required::AlreadyLoaded => Value::Bool(false),
            Required::Missing(_) => Value::Bool(false),
            Required::Failed(_) => Value::Nil,
        }
    }
}

/// The end of a `require` of `file` that found nothing to load: a
/// `LoadError` whose message holds the name as it was requested, and with
/// it the value `false`.
pub fn raise_load_error(file: &str) -> (required: Required)
    ensures
        required@ == RequiredView::Missing(spec_load_error(file@)),
        required@.value() == ValueView::Bool(false),
{
    Required::Missing(Exception::load_error(file))
}

/// A `require` that waits for the virtual machine.
#[derive(Debug)]
pub struct Require {
    name: String,
    index: usize,
    phase: Phase,
    success: bool,
    metadata: VfsMetadata,
    evaluation: Option<Evaluation>,
}

/// A [`Require`] over plain values.
pub struct RequireView {
    /// The name as it was requested.
    pub name: Seq<char>,
    /// Which of the candidates of `name` is being loaded.
    pub index: nat,
    /// Which reply is awaited.
    pub phase: Phase,
    /// Whether an earlier candidate has been loaded by this call.
    pub success: bool,
    /// The metadata of the current file as it was when loading began.
    pub metadata: VfsMetadata,
    /// The evaluation of the source text, while it is under way.
    pub evaluation: Option<EvaluationView>,
}

impl RequireView {
    /// Whether the view is that of a `require` under way: its current
    /// candidate exists.
    pub open spec fn valid(self) -> bool {
        self.index < spec_candidates(self.name).len()
    }

    /// The path of the file that is being loaded.
    pub open spec fn path(self) -> Seq<char> {
        spec_candidates(self.name)[self.index as int]
    }
}

impl View for Require {
    type V = RequireView;

    closed spec fn view(&self) -> RequireView {
        RequireView {
            name: self.name@,
            index: self.index as nat,
            phase: self.phase,
            success: self.success,
            metadata: self.metadata,
            evaluation: match self.evaluation {
                Some(evaluation) => Some(evaluation@),
                None => None,
            },
        }
    }
}

/// What a `require` needs next, or how it ended.
#[derive(Debug)]
pub enum RequireStep {
    /// The virtual machine has to do the call; the `require` is then resumed
    /// with the reply.
    Call(VmCall, Require),
    /// The `require` has ended.
    Done(Required),
}

/// A [`RequireStep`] over plain values.
pub enum RequireStepView {
    Call(VmCallView, RequireView),
    Done(RequiredView),
}

impl View for RequireStep {
    type V = RequireStepView;

    open spec fn view(&self) -> RequireStepView {
        match self {
            RequireStep::Call(call, require) => RequireStepView::Call(call@, require@),
            RequireStep::Done(required) => RequireStepView::Done(required@),
        }
    }
}

/// The first step of a `require` whose name arrives as the bytes `name`:
/// that of the `require` of the text that they encode; or, where they are
/// no valid UTF-8, the end of the `require` with an `ArgumentError` that
/// says why.
pub open spec fn spec_start_raw(s: StateView, name: Seq<u8>) -> (StateView, RequireStepView) {
    if valid_utf8(name) {
        spec_start(s, decode_utf8(name))
    } else {
        (
            s,
            RequireStepView::Done(
                RequiredView::Failed(spec_argument_error(spec_utf8_error(name))),
            ),
        )
    }
}

/// The step with which the `require` `m` begins to evaluate the content of
/// its file, in the state `s`. The code runs in the evaluation context that
/// the `require` has made for the file.
pub open spec fn spec_source(s: StateView, m: RequireView) -> (StateView, RequireStepView) {
    let (entered, first) = spec_eval_start(s, s.vfs[m.path()]->content, None);
    (
        entered,
        RequireStepView::Call(
            first->Call_0,
            RequireView { phase: Phase::Source, evaluation: Some(first->Call_1), ..m },
        ),
    )
}

/// Looks at the candidates of `name` from the one at `index` on, in the
/// state `s`, until one has to be loaded or none is left.
///
/// A candidate that is no file is passed over. A file that has been required
/// already ends the `require` with nothing done. For any other file its path
/// becomes the innermost evaluation context, and the virtual machine is
/// asked to run the file's native loader, or, where it has none, to evaluate
/// the file's content. With no candidate left, the `require` has loaded
/// something if `success` says so, and fails with a `LoadError` otherwise.
pub open spec fn spec_scan(s: StateView, name: Seq<char>, index: nat, success: bool) -> (
    StateView,
    RequireStepView,
)
    decreases spec_candidates(name).len() - index,
{
    let paths = spec_candidates(name);
    if index >= paths.len() {
        if success {
            (s, RequireStepView::Done(RequiredView::Loaded))
        } else {
            (s, RequireStepView::Done(RequiredView::Missing(spec_load_error(name))))
        }
    } else {
        let path = paths[index as int];
        if !spec_is_file(s.vfs, path) {
            spec_scan(s, name, index + 1, success)
        } else {
            let metadata = spec_metadata_or_new(s.vfs, path);
            if metadata.already_required {
                (s, RequireStepView::Done(RequiredView::AlreadyLoaded))
            } else {
                let entered = StateView { contexts: s.contexts.push(path), ..s };
                let waiting = RequireView {
                    name,
                    index,
                    phase: Phase::Native,
                    success,
                    metadata,
                    evaluation: None,
                };
                match metadata.require {
                    Some(loader) => (
                        entered,
                        RequireStepView::Call(
                            VmCallView::CallNative { loader, filename: path },
                            waiting,
                        ),
                    ),
                    None => spec_source(entered, waiting),
                }
            }
        }
    }
}

/// The first step of a `require` of `name` in the state `s`.
pub open spec fn spec_start(s: StateView, name: Seq<char>) -> (StateView, RequireStepView) {
    spec_scan(s, name, 0, false)
}

/// The end of the `require` `m` that found its file gone before the source
/// text could be read, in the state `s`: the evaluation context of the file
/// is removed, and the `require` ends as one that found no file.
pub open spec fn spec_lost(s: StateView, m: RequireView) -> (StateView, RequireStepView) {
    (
        StateView { contexts: spec_pop(s.contexts), ..s },
        RequireStepView::Done(RequiredView::Missing(spec_load_error(m.name))),
    )
}

/// The step of the suspended `require` `m` on `reply`, in the state `s`.
///
/// A native loader that failed ends the `require` with a `RuntimeError` of
/// the same text; after one that did not, the content of the file is
/// evaluated. While the evaluation is under way, the reply is its reply.
/// An evaluation that raised ends the `require` with a `RuntimeError` that
/// carries the text of the error. After one that did not, the file is
/// marked as required, and the remaining candidates are looked at; a file
/// that is gone by then cannot be marked, and the `require` ends with a
/// `RuntimeError` that says so. Whenever the file is done with, its
/// evaluation context is removed.
pub open spec fn spec_resume(s: StateView, m: RequireView, reply: ReplyView) -> (
    StateView,
    RequireStepView,
) {
    let path = m.path();
    match m.phase {
        Phase::Native => match reply {
            ReplyView::Failed(reason) => (
                StateView { contexts: spec_pop(s.contexts), ..s },
                RequireStepView::Done(RequiredView::Failed(spec_runtime_error(reason))),
            ),
            _ => if spec_is_file(s.vfs, path) {
                spec_source(s, m)
            } else {
                spec_lost(s, m)
            },
        },
        Phase::Source => match m.evaluation {
            Some(evaluation) => {
                let (after, step) = spec_eval_resume(s, evaluation, reply);
                let left = StateView { contexts: spec_pop(after.contexts), ..after };
                match step {
                    EvalStepView::Call(call, following) => (
                        after,
                        RequireStepView::Call(
                            call,
                            RequireView { evaluation: Some(following), ..m },
                        ),
                    ),
                    EvalStepView::Done(Ok(_)) => if spec_is_file(after.vfs, path) {
                        spec_scan(
                            StateView {
                                vfs: spec_set_metadata(
                                    after.vfs,
                                    path,
                                    m.metadata.spec_mark_required(),
                                ),
                                ..left
                            },
                            m.name,
                            m.index + 1,
                            true,
                        )
                    } else {
                        (
                            left,
                            RequireStepView::Done(
                                RequiredView::Failed(
                                    spec_runtime_error(VfsError::NotFound.spec_message()),
                                ),
                            ),
                        )
                    },
                    EvalStepView::Done(Err(error)) => (
                        left,
                        RequireStepView::Done(
                            RequiredView::Failed(spec_runtime_error(error.message())),
                        ),
                    ),
                }
            },
            None => spec_lost(s, m),
        },
    }
}

impl Require {
    #[verifier::type_invariant]
    spec fn under_way(self) -> bool {
        self.index < spec_candidates(self.name@).len()
    }

    /// The name as it was requested.
    pub fn name(&self) -> (name: &String)
        ensures
            name@ == self@.name,
    {
        &self.name
    }

    /// Which reply is awaited.
    pub fn phase(&self) -> (phase: Phase)
        ensures
            phase == self@.phase,
    {
        self.phase
    }

    /// Starts a `require` of `name`.
    pub fn start(state: &mut State, name: &str) -> (step: RequireStep)
        ensures
            (final(state)@, step@) == spec_start(old(state)@, name@),
            step matches RequireStep::Call(_, require) ==> require@.valid(),
    {
        Self::scan(state, String::from_str(name), 0, false)
    }

    /// Starts a `require` whose name arrives as the bytes that the virtual
    /// machine holds. Bytes that are no valid UTF-8 name no file: the
    /// `require` ends with an `ArgumentError`.
    pub fn start_raw(state: &mut State, name: &[u8]) -> (step: RequireStep)
        ensures
            (final(state)@, step@) == spec_start_raw(old(state)@, name@),
            step matches RequireStep::Call(_, require) ==> require@.valid(),
    {
        match decode(name) {
            Ok(text) => Self::start(state, text.as_str()),
            Err(reason) => RequireStep::Done(
                Required::Failed(Exception::argument_error(reason.as_str())),
            ),
        }
    }

    fn source(state: &mut State, waiting: Require, source: Vec<u8>) -> (step: RequireStep)
        requires
            waiting@.valid(),
            spec_is_file(old(state)@.vfs, waiting@.path()),
            source@ == old(state)@.vfs[waiting@.path()]->content,
        ensures
            (final(state)@, step@) == spec_source(old(state)@, waiting@),
            step matches RequireStep::Call(_, require) && require@.valid(),
    {
        let Require { name, index, phase: _, success, metadata, evaluation: _ } = waiting;
        let (call, evaluation) = Evaluation::begin(state, source, None);
        RequireStep::Call(
            call,
            Require {
                name,
                index,
                phase: Phase::Source,
                success,
                metadata,
                evaluation: Some(evaluation),
            },
        )
    }

    fn lost(state: &mut State, name: &String) -> (step: RequireStep)
        ensures
            final(state)@ == (StateView {
                contexts: spec_pop(old(state)@.contexts),
                ..old(state)@
            }),
            step@ == RequireStepView::Done(RequiredView::Missing(spec_load_error(name@))),
    {
        state.pop_context();
        RequireStep::Done(raise_load_error(name.as_str()))
    }

    /// Resumes the `require` with the reply to the call that it handed out.
    pub fn resume(self, state: &mut State, reply: Reply) -> (step: RequireStep)
        ensures
            (final(state)@, step@) == spec_resume(old(state)@, self@, reply@),
            self@.valid(),
            step matches RequireStep::Call(_, require) ==> require@.valid(),
    {
        proof {
            use_type_invariant(&self);
        }
        let paths = candidates(self.name.as_str());
        assert(spec_texts(paths@)[self.index as int] == paths@[self.index as int]@);
        let Require { name, index, phase, success, metadata, evaluation } = self;
        match phase {
            Phase::Native => match reply {
                Reply::Failed(reason) => {
                    state.pop_context();
                    RequireStep::Done(Required::Failed(Exception::runtime_error(reason.as_str())))
                },
                _ => match state.vfs.read_file(paths[index].as_str()) {
                    Ok(source) => Self::source(
                        state,
                        Require { name, index, phase, success, metadata, evaluation },
                        source,
                    ),
                    Err(_) => Self::lost(state, &name),
                },
            },
            Phase::Source => match evaluation {
                Some(running) => match running.resume(state, reply) {
                    EvalStep::Call(call, following) => RequireStep::Call(
                        call,
                        Require {
                            name,
                            index,
                            phase,
                            success,
                            metadata,
                            evaluation: Some(following),
                        },
                    ),
                    EvalStep::Done(Ok(_)) => {
                        state.pop_context();
                        match state.vfs.set_metadata(paths[index].as_str(), metadata.mark_required()) {
                            Ok(_) => Self::scan(state, name, index + 1, true),
                            Err(error) => {
                                let reason = error.message();
                                RequireStep::Done(
                                    Required::Failed(Exception::runtime_error(reason.as_str())),
                                )
                            },
                        }
                    },
                    EvalStep::Done(Err(error)) => {
                        state.pop_context();
                        let reason = error.message();
                        RequireStep::Done(
                            Required::Failed(Exception::runtime_error(reason.as_str())),
                        )
                    },
                },
                None => Self::lost(state, &name),
            },
        }
    }

    fn scan(state: &mut State, name: String, start: usize, success: bool) -> (step: RequireStep)
        requires
            start <= spec_candidates(name@).len(),
        ensures
            (final(state)@, step@) == spec_scan(old(state)@, name@, start as nat, success),
            step matches RequireStep::Call(_, require) ==> require@.valid(),
    {
        let paths = candidates(name.as_str());
        let mut index = start;
        while index < paths.len()
            invariant
                index <= paths@.len(),
                spec_texts(paths@) == spec_candidates(name@),
                state@ == old(state)@,
                spec_scan(state@, name@, index as nat, success) == spec_scan(
                    old(state)@,
                    name@,
                    start as nat,
                    success,
                ),
            decreases paths@.len() - index,
        {
            assert(spec_texts(paths@)[index as int] == paths@[index as int]@);
            match state.vfs.read_file(paths[index].as_str()) {
                Ok(source) => {
                    let metadata = match state.vfs.metadata(paths[index].as_str()) {
                        Some(metadata) => metadata,
                        None => VfsMetadata::new(),
                    };
                    if metadata.is_already_required() {
                        return RequireStep::Done(Required::AlreadyLoaded);
                    }
                    let filename = paths[index].clone();
                    state.push_context(EvalContext::new(paths[index].as_str()));
                    let waiting = Require {
                        name,
                        index,
                        phase: Phase::Native,
                        success,
                        metadata,
                        evaluation: None,
                    };
                    match metadata.require {
                        Some(loader) => {
                            return RequireStep::Call(
                                VmCall::CallNative { loader, filename },
                                waiting,
                            );
                        },
                        None => {
                            return Self::source(state, waiting, source);
                        },
                    }
                },
                Err(_) => {},
            }
            index += 1;
        }
        if success {
            RequireStep::Done(Required::Loaded)
        } else {
            RequireStep::Done(raise_load_error(name.as_str()))
        }
    }
}

/// Where a `require` stands after `replies` have been handed to it in order,
/// beginning at `step` in the state `s`. Replies that come after its end are
/// ignored; with too few replies it is still waiting.
pub open spec fn spec_run(s: StateView, step: RequireStepView, replies: Seq<ReplyView>) -> (
    StateView,
    RequireStepView,
)
    decreases replies.len(),
{
    match step {
        RequireStepView::Done(_) => (s, step),
        RequireStepView::Call(_, m) => if replies.len() == 0 {
            (s, step)
        } else {
            let (after, next) = spec_resume(s, m, replies[0]);
            spec_run(after, next, replies.drop_first())
        },
    }
}

/// Whether `path` names a file that has been required.
pub open spec fn spec_required(files: Map<Seq<char>, NodeView>, path: Seq<char>) -> bool {
    spec_is_file(files, path) && spec_metadata_or_new(files, path).already_required
}

/// Whether none of the candidates of `name` is a file.
pub open spec fn spec_no_file(files: Map<Seq<char>, NodeView>, name: Seq<char>) -> bool {
    forall|j: int|
        0 <= j < spec_candidates(name).len() ==> !spec_is_file(
            files,
            #[trigger] spec_candidates(name)[j],
        )
}

spec fn is_candidate_file(files: Map<Seq<char>, NodeView>, name: Seq<char>, j: int) -> bool {
    0 <= j < spec_candidates(name).len() && spec_is_file(files, spec_candidates(name)[j])
}

spec fn settled(files: Map<Seq<char>, NodeView>, name: Seq<char>, upto: nat) -> bool {
    forall|j: int|
        j < upto && #[trigger] is_candidate_file(files, name, j) ==> spec_required(
            files,
            spec_candidates(name)[j],
        )
}

spec fn has_file(files: Map<Seq<char>, NodeView>, name: Seq<char>, from: nat, upto: nat) -> bool {
    exists|j: int| from <= j < upto && #[trigger] is_candidate_file(files, name, j)
}

spec fn in_evaluation(m: RequireView) -> bool {
    m.phase is Source ==> (m.evaluation matches Some(evaluation) && !evaluation.pushed)
}

spec fn waiting_on_course(base: Seq<Seq<char>>, s: StateView, name: Seq<char>, m: RequireView) -> bool {
    &&& m.name == name
    &&& m.valid()
    &&& in_evaluation(m)
    &&& s.contexts == base.push(m.path())
    &&& settled(s.vfs, name, m.index)
    &&& m.success ==> has_file(s.vfs, name, 0, m.index)
}

spec fn on_course(base: Seq<Seq<char>>, s: StateView, name: Seq<char>, step: RequireStepView) -> bool {
    match step {
        RequireStepView::Call(_, m) => waiting_on_course(base, s, name, m),
        RequireStepView::Done(RequiredView::Loaded) => {
            &&& s.contexts == base
            &&& settled(s.vfs, name, spec_candidates(name).len())
            &&& has_file(s.vfs, name, 0, spec_candidates(name).len())
        },
        RequireStepView::Done(_) => s.contexts == base,
    }
}

proof fn lemma_scan_keeps(s: StateView, name: Seq<char>, index: nat, success: bool)
    ensures
        spec_scan(s, name, index, success).0.vfs == s.vfs,
        spec_scan(s, name, index, success).0.registry == s.registry,
        spec_scan(s, name, index, success).0.arena == s.arena,
        match spec_scan(s, name, index, success).1 {
            RequireStepView::Call(call, m) => {
                &&& spec_scan(s, name, index, success).0.contexts == s.contexts.push(m.path())
                &&& m.valid()
                &&& m.name == name
                &&& m.index >= index
                &&& m.success == success
                &&& in_evaluation(m)
                &&& spec_is_file(s.vfs, m.path())
                &&& m.metadata == spec_metadata_or_new(s.vfs, m.path())
                &&& !m.metadata.already_required
                &&& forall|j: int|
                    index <= j < m.index ==> !(#[trigger] is_candidate_file(s.vfs, name, j))
                &&& match m.metadata.require {
                    Some(loader) => m.phase is Native && call == (VmCallView::CallNative {
                        loader,
                        filename: m.path(),
                    }),
                    None => m.phase is Source && call == (VmCallView::Eval {
                        source: s.vfs[m.path()]->content,
                        filename: m.path(),
                    }),
                }
            },
            RequireStepView::Done(_) => spec_scan(s, name, index, success).0.contexts == s.contexts,
        },
    decreases spec_candidates(name).len() - index,
{
    let paths = spec_candidates(name);
    if index < paths.len() {
        if !spec_is_file(s.vfs, paths[index as int]) {
            lemma_scan_keeps(s, name, index + 1, success);
        }
    }
}

proof fn lemma_scan_on_course(s: StateView, name: Seq<char>, index: nat, success: bool)
    requires
        index <= spec_candidates(name).len(),
        settled(s.vfs, name, index),
        success ==> has_file(s.vfs, name, 0, index),
    ensures
        on_course(
            s.contexts,
            spec_scan(s, name, index, success).0,
            name,
            spec_scan(s, name, index, success).1,
        ),
    decreases spec_candidates(name).len() - index,
{
    let paths = spec_candidates(name);
    lemma_scan_keeps(s, name, index, success);
    if index < paths.len() {
        let path = paths[index as int];
        if !spec_is_file(s.vfs, path) {
            assert forall|j: int|
                j < index + 1 && #[trigger] is_candidate_file(s.vfs, name, j) implies spec_required(
                s.vfs,
                spec_candidates(name)[j],
            ) by {
                assert(j < index);
            }
            if success {
                let j = choose|j: int| 0 <= j < index && #[trigger] is_candidate_file(s.vfs, name, j);
                assert(0 <= j < index + 1 && is_candidate_file(s.vfs, name, j));
            }
            lemma_scan_on_course(s, name, index + 1, success);
        }
    } else {
        assert(index == paths.len());
    }
}

proof fn lemma_resume_on_course(
    base: Seq<Seq<char>>,
    s: StateView,
    name: Seq<char>,
    m: RequireView,
    reply: ReplyView,
)
    requires
        waiting_on_course(base, s, name, m),
    ensures
        on_course(base, spec_resume(s, m, reply).0, name, spec_resume(s, m, reply).1),
{
    let path = m.path();
    assert(spec_pop(s.contexts) =~= base);
    if m.phase is Source {
        let evaluation = m.evaluation->Some_0;
        let (after, step) = spec_eval_resume(s, evaluation, reply);
        assert(after.vfs == s.vfs);
        assert(after.contexts == s.contexts);
        if step matches EvalStepView::Done(Ok(_)) && spec_is_file(s.vfs, path) {
            let files = spec_set_metadata(s.vfs, path, m.metadata.spec_mark_required());
            let marked = StateView { vfs: files, contexts: spec_pop(after.contexts), ..after };
            assert forall|j: int| is_candidate_file(files, name, j) == is_candidate_file(s.vfs, name, j) by {}
            assert forall|j: int|
                j < m.index + 1 && #[trigger] is_candidate_file(files, name, j) implies spec_required(
                files,
                spec_candidates(name)[j],
            ) by {
                if spec_candidates(name)[j] != path {
                    assert(is_candidate_file(s.vfs, name, j));
                    assert(j != m.index);
                }
            }
            assert(is_candidate_file(files, name, m.index as int));
            lemma_scan_on_course(marked, name, m.index + 1, true);
            lemma_scan_keeps(marked, name, m.index + 1, true);
        }
    }
}

proof fn lemma_run_on_course(
    base: Seq<Seq<char>>,
    s: StateView,
    name: Seq<char>,
    step: RequireStepView,
    replies: Seq<ReplyView>,
)
    requires
        on_course(base, s, name, step),
    ensures
        on_course(base, spec_run(s, step, replies).0, name, spec_run(s, step, replies).1),
    decreases replies.len(),
{
    match step {
        RequireStepView::Done(_) => {},
        RequireStepView::Call(_, m) => {
            if replies.len() > 0 {
                lemma_resume_on_course(base, s, name, m, replies[0]);
                let (after, next) = spec_resume(s, m, replies[0]);
                lemma_run_on_course(base, after, name, next, replies.drop_first());
            }
        },
    }
}

proof fn lemma_scan_settled(s: StateView, name: Seq<char>, index: nat)
    requires
        settled(s.vfs, name, spec_candidates(name).len()),
        has_file(s.vfs, name, index, spec_candidates(name).len()),
    ensures
        spec_scan(s, name, index, false) == (s, RequireStepView::Done(RequiredView::AlreadyLoaded)),
    decreases spec_candidates(name).len() - index,
{
    let paths = spec_candidates(name);
    let j = choose|j: int| index <= j < paths.len() && #[trigger] is_candidate_file(s.vfs, name, j);
    if spec_is_file(s.vfs, paths[index as int]) {
        assert(is_candidate_file(s.vfs, name, index as int));
    } else {
        assert(index + 1 <= j < paths.len() && is_candidate_file(s.vfs, name, j));
        lemma_scan_settled(s, name, index + 1);
    }
}

/// Loading happens once. Whatever the virtual machine replies: where a
/// `require` of `name` ends with something loaded, a second `require` of the
/// same name in the state that the first one left ends at once, hands out no
/// call, changes nothing, and answers that the file was loaded already.
pub proof fn lemma_require_once(s: StateView, name: Seq<char>, replies: Seq<ReplyView>)
    ensures
        ({
            let (begun, first) = spec_start(s, name);
            let (after, last) = spec_run(begun, first, replies);
            last == RequireStepView::Done(RequiredView::Loaded) ==> spec_start(after, name) == (
                after,
                RequireStepView::Done(RequiredView::AlreadyLoaded),
            )
        }),
{
    let (begun, first) = spec_start(s, name);
    let (after, last) = spec_run(begun, first, replies);
    lemma_scan_on_course(s, name, 0, false);
    lemma_run_on_course(s.contexts, begun, name, first, replies);
    if last == RequireStepView::Done(RequiredView::Loaded) {
        lemma_scan_settled(after, name, 0);
    }
}

proof fn lemma_scan_no_file(s: StateView, name: Seq<char>, index: nat, success: bool)
    requires
        spec_no_file(s.vfs, name),
    ensures
        spec_scan(s, name, index, success) == (
            s,
            if success {
                RequireStepView::Done(RequiredView::Loaded)
            } else {
                RequireStepView::Done(RequiredView::Missing(spec_load_error(name)))
            },
        ),
    decreases spec_candidates(name).len() - index,
{
    if index < spec_candidates(name).len() {
        assert(!spec_is_file(s.vfs, spec_candidates(name)[index as int]));
        lemma_scan_no_file(s, name, index + 1, success);
    }
}

/// A name that no file stands for cannot be loaded. Where none of the
/// candidates of `name` is a file, be it absent or a directory, a `require`
/// of `name` ends at once with a `LoadError` whose message holds the name as
/// it was requested, and changes nothing.
pub proof fn lemma_require_missing(s: StateView, name: Seq<char>)
    requires
        spec_no_file(s.vfs, name),
    ensures
        spec_start(s, name) == (
            s,
            RequireStepView::Done(RequiredView::Missing(spec_load_error(name))),
        ),
{
    lemma_scan_no_file(s, name, 0, false);
}

/// A directory is no file. A `require` of an absolute `name` that is a
/// directory ends as the `require` of a name that nothing stands for does.
pub proof fn lemma_require_directory(s: StateView, name: Seq<char>)
    requires
        !spec_is_relative(name),
        s.vfs.contains_key(name),
        s.vfs[name] is Directory,
    ensures
        spec_start(s, name) == (
            s,
            RequireStepView::Done(RequiredView::Missing(spec_load_error(name))),
        ),
        spec_start(StateView { vfs: s.vfs.remove(name), ..s }, name).1 == spec_start(s, name).1,
{
    let without = StateView { vfs: s.vfs.remove(name), ..s };
    assert(spec_candidates(name) =~= seq![name]);
    lemma_require_missing(s, name);
    lemma_require_missing(without, name);
}

/// The native loader runs before the source text. Where a `require` comes
/// upon a file that has not been required, it asks for the file's native
/// loader if the file has one, and for the evaluation of the file's content
/// only if it has none. Once the native loader is done, the evaluation of
/// the same file's content is what the `require` asks for next.
pub proof fn lemma_native_then_source(s: StateView, name: Seq<char>)
    ensures
        match spec_start(s, name).1 {
            RequireStepView::Call(call, m) => {
                let entered = spec_start(s, name).0;
                let evaluate = VmCallView::Eval {
                    source: s.vfs[m.path()]->content,
                    filename: m.path(),
                };
                &&& spec_is_file(s.vfs, m.path())
                &&& !spec_required(s.vfs, m.path())
                &&& match spec_metadata_or_new(s.vfs, m.path()).require {
                    Some(loader) => {
                        &&& call == (VmCallView::CallNative { loader, filename: m.path() })
                        &&& spec_resume(entered, m, ReplyView::Done).0 == entered
                        &&& spec_resume(entered, m, ReplyView::Done).1 matches RequireStepView::Call(
                            next,
                            _,
                        ) && next == evaluate
                    },
                    None => call == evaluate,
                }
            },
            RequireStepView::Done(_) => true,
        },
{
    lemma_scan_keeps(s, name, 0, false);
}

/// A `require` changes the virtual filesystem in one way only: it marks
/// files as required. Whatever the reply, a step of a `require` under way
/// leaves every path a file or no file as it was, leaves the content of
/// every file as it was, and leaves every file that was required so.
pub proof fn lemma_resume_keeps_files(s: StateView, m: RequireView, reply: ReplyView, path: Seq<char>)
    ensures
        ({
            let after = spec_resume(s, m, reply).0;
            &&& spec_is_file(after.vfs, path) == spec_is_file(s.vfs, path)
            &&& spec_is_file(s.vfs, path) ==> after.vfs[path]->content == s.vfs[path]->content
            &&& spec_required(s.vfs, path) ==> spec_required(after.vfs, path)
        }),
{
    if m.phase is Source && m.evaluation is Some {
        let (after, step) = spec_eval_resume(s, m.evaluation->Some_0, reply);
        assert(after.vfs == s.vfs);
        if step matches EvalStepView::Done(Ok(_)) && spec_is_file(s.vfs, m.path()) {
            let marked = StateView {
                vfs: spec_set_metadata(s.vfs, m.path(), m.metadata.spec_mark_required()),
                contexts: spec_pop(after.contexts),
                ..after
            };
            lemma_scan_keeps(marked, m.name, m.index + 1, true);
        }
    }
}

/// Starting a `require` changes nothing in the virtual filesystem.
pub proof fn lemma_start_keeps_files(s: StateView, name: Seq<char>)
    ensures
        spec_start(s, name).0.vfs == s.vfs,
{
    lemma_scan_keeps(s, name, 0, false);
}

/// No evaluation context outlives its file. While a `require` waits for the
/// virtual machine, the file that it is loading is the innermost context,
/// on top of the contexts that were there when it started; when it has
/// ended, whatever the replies were, the stack of contexts is as it was.
pub proof fn lemma_contexts_restored(s: StateView, name: Seq<char>, replies: Seq<ReplyView>)
    ensures
        ({
            let (begun, first) = spec_start(s, name);
            let (after, last) = spec_run(begun, first, replies);
            match last {
                RequireStepView::Call(_, m) => after.contexts == s.contexts.push(m.path()),
                RequireStepView::Done(_) => after.contexts == s.contexts,
            }
        }),
{
    let (begun, first) = spec_start(s, name);
    lemma_scan_on_course(s, name, 0, false);
    lemma_run_on_course(s.contexts, begun, name, first, replies);
}

} // verus!

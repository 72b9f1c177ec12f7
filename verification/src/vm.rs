//! The protocol between the host layer and the virtual machine.
//!
//! The host layer never calls the virtual machine. Where it needs work that
//! only the virtual machine can do, it hands the caller a [`VmCall`]; the
//! caller performs it and hands back a [`Reply`].

use crate::def::{Definition, DefinitionView};
use crate::text::spec_texts;
use crate::value::{Value, ValueView};
use crate::vfs::NativeLoader;
use vstd::prelude::*;

verus! {

/// Work for the virtual machine.
#[derive(Debug, Clone, PartialEq, Eq)]
pub enum VmCall {
    /// Allocate the virtual machine. Reply: `Done`, or `Failed` where the
    /// allocation yields nothing.
    Open,
    /// Make `require` known to the virtual machine as a function of its
    /// global namespace. Reply: `Done` or `Failed`.
    InstallRequire,
    /// Define a class or a module. Reply: `Done` or `Failed`.
    Define(Definition),
    /// Record the depth of the protection stack. Reply: `Done`.
    ArenaSave,
    /// Pop the protection stack back to the depth that was recorded last and
    /// has not been restored. Reply: `Done`.
    ArenaRestore,
    /// Run a full collection. Reply: `Done`.
    FullGc,
    /// Run the native loader `loader` on the interpreter. Error locations
    /// refer to `filename`. Reply: `Done`, or `Failed` with the error's text.
    CallNative { loader: NativeLoader, filename: String },
    /// Evaluate `source` as the content of the file `filename`. Reply:
    /// `Value` with what the source evaluates to, or `Done`. Whether the
    /// code raised is found out afterwards, from the slot of the current
    /// exception.
    Eval { source: Vec<u8>, filename: String },
    /// Empty the slot of the current exception. Reply: `Pending`, telling
    /// whether the slot held an exception; that exception is the one that
    /// `Inspect` and `Backtrace` speak of.
    TakeException,
    /// Ask the exception that was taken for its inspection. Reply: `Text`,
    /// or `Failed`.
    Inspect,
    /// Ask the exception that was taken for its backtrace. Reply: `Lines`,
    /// or `Failed`.
    Backtrace,
}

/// A [`VmCall`] over plain values.
pub enum VmCallView {
    Open,
    InstallRequire,
    Define(DefinitionView),
    ArenaSave,
    ArenaRestore,
    FullGc,
    CallNative { loader: NativeLoader, filename: Seq<char> },
    Eval { source: Seq<u8>, filename: Seq<char> },
    TakeException,
    Inspect,
    Backtrace,
}

impl View for VmCall {
    type V = VmCallView;

    open spec fn view(&self) -> VmCallView {
        match self {
            VmCall::Open => VmCallView::Open,
            VmCall::InstallRequire => VmCallView::InstallRequire,
            VmCall::Define(definition) => VmCallView::Define(definition@),
            VmCall::ArenaSave => VmCallView::ArenaSave,
            VmCall::ArenaRestore => VmCallView::ArenaRestore,
            VmCall::FullGc => VmCallView::FullGc,
            VmCall::CallNative { loader, filename } => VmCallView::CallNative {
                loader: *loader,
                filename: filename@,
            },
            VmCall::Eval { source, filename } => VmCallView::Eval {
                source: source@,
                filename: filename@,
            },
            VmCall::TakeException => VmCallView::TakeException,
            VmCall::Inspect => VmCallView::Inspect,
            VmCall::Backtrace => VmCallView::Backtrace,
        }
    }
}

/// What the virtual machine answered to a [`VmCall`].
#[derive(Debug, PartialEq, Eq)]
pub enum Reply {
    /// The work was done.
    Done,
    /// The work was done and has this value.
    Value(Value),
    /// The work failed; the payload says why.
    Failed(String),
    /// Whether an exception was pending.
    Pending(bool),
    /// A text.
    Text(String),
    /// Lines of text.
    Lines(Vec<String>),
}

/// A [`Reply`] over plain values.
pub enum ReplyView {
    Done,
    Value(ValueView),
    Failed(Seq<char>),
    Pending(bool),
    Text(Seq<char>),
    Lines(Seq<Seq<char>>),
}

impl View for Reply {
    type V = ReplyView;

    open spec fn view(&self) -> ReplyView {
        match self {
            Reply::Done => ReplyView::Done,
            Reply::Value(value) => ReplyView::Value(value@),
            Reply::Failed(reason) => ReplyView::Failed(reason@),
            Reply::Pending(pending) => ReplyView::Pending(*pending),
            Reply::Text(text) => ReplyView::Text(text@),
            Reply::Lines(lines) => ReplyView::Lines(spec_texts(lines@)),
        }
    }
}

impl Reply {
    /// Whether the reply reports a failure.
    pub fn is_failure(&self) -> (failed: bool)
        ensures
            failed == (self@ is Failed),
    {
        match self {
            Reply::Failed(_) => true,
            _ => false,
        }
    }
}

} // verus!

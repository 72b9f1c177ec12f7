//! Errors of the host layer, and exceptions that it raises in the virtual
//! machine.

use crate::vfs::VfsError;
use vstd::prelude::*;
use vstd::string::*;

verus! {

/// Class of the exception that a failed `require` raises.
pub const LOAD_ERROR: &'static str = "LoadError";

/// Class of the exception that reports a failure of host code.
pub const RUNTIME_ERROR: &'static str = "RuntimeError";

/// Class of the exception that reports an argument the host cannot read.
pub const ARGUMENT_ERROR: &'static str = "ArgumentError";

/// Start of the message of a `LoadError`; the requested name follows.
pub const CANNOT_LOAD: &'static str = "cannot load such file -- ";

/// An error of the host layer.
#[derive(Debug, Clone, PartialEq, Eq)]
pub enum MrbError {
    /// The virtual machine could not be allocated or set up.
    New,
    /// No interpreter state could be recovered from a foreign handle.
    Uninitialized,
    /// Evaluated code raised; the payload is the formatted exception.
    Exec(String),
    /// No source is known under this path.
    SourceNotFound(String),
    /// No class or module of this name has been registered.
    NotDefined(String),
    /// The virtual filesystem refused an operation.
    Vfs(VfsError),
}

/// An [`MrbError`] over plain values.
pub enum MrbErrorView {
    New,
    Uninitialized,
    Exec(Seq<char>),
    SourceNotFound(Seq<char>),
    NotDefined(Seq<char>),
    Vfs(VfsError),
}

impl View for MrbError {
    type V = MrbErrorView;

    open spec fn view(&self) -> MrbErrorView {
        match self {
            MrbError::New => MrbErrorView::New,
            MrbError::Uninitialized => MrbErrorView::Uninitialized,
            MrbError::Exec(text) => MrbErrorView::Exec(text@),
            MrbError::SourceNotFound(path) => MrbErrorView::SourceNotFound(path@),
            MrbError::NotDefined(name) => MrbErrorView::NotDefined(name@),
            MrbError::Vfs(error) => MrbErrorView::Vfs(*error),
        }
    }
}

/// Text of the error `New`.
pub const NEW_FAILED: &'static str = "failed to create mrb interpreter";

/// Text of the error `Uninitialized`.
pub const NOT_INITIALIZED: &'static str = "mrb interpreter not initialized";

/// Start of the text of the error `Exec`; the formatted exception follows.
pub const EXEC_FAILED: &'static str = "mruby exception: ";

/// Start of the text of the error `SourceNotFound`; the path follows.
pub const SOURCE_NOT_FOUND: &'static str = "Could not load Ruby source ";

/// End of the text of the error `NotDefined`; it follows the name.
pub const NOT_DEFINED: &'static str = " not defined";

/// Start of the text of the error `Vfs`; the text of the cause follows.
pub const VFS_FAILED: &'static str = "mrb vfs io error: ";

impl MrbErrorView {
    /// The text that describes the error.
    pub open spec fn message(self) -> Seq<char> {
        match self {
            MrbErrorView::New => NEW_FAILED@,
            MrbErrorView::Uninitialized => NOT_INITIALIZED@,
            MrbErrorView::Exec(text) => EXEC_FAILED@ + text,
            MrbErrorView::SourceNotFound(path) => SOURCE_NOT_FOUND@ + path,
            MrbErrorView::NotDefined(name) => name + NOT_DEFINED@,
            MrbErrorView::Vfs(error) => VFS_FAILED@ + error.spec_message(),
        }
    }
}

impl MrbError {
    /// The text that describes the error.
    pub fn message(&self) -> (text: String)
        ensures
            text@ == self@.message(),
    {
        match self {
            MrbError::New => String::from_str(NEW_FAILED),
            MrbError::Uninitialized => String::from_str(NOT_INITIALIZED),
            MrbError::Exec(raised) => {
                let mut text = String::from_str(EXEC_FAILED);
                text.append(raised.as_str());
                text
            },
            MrbError::SourceNotFound(path) => {
                let mut text = String::from_str(SOURCE_NOT_FOUND);
                text.append(path.as_str());
                text
            },
            MrbError::NotDefined(name) => {
                let mut text = name.clone();
                text.append(NOT_DEFINED);
                text
            },
            MrbError::Vfs(error) => {
                let mut text = String::from_str(VFS_FAILED);
                let cause = error.message();
                text.append(cause.as_str());
                text
            },
        }
    }
}

/// An exception for the virtual machine to raise: its class and its message.
#[derive(Debug, Clone, PartialEq, Eq)]
pub struct Exception {
    pub class: String,
    pub message: String,
}

/// An exception as plain text: class and message.
pub struct ExceptionView {
    pub class: Seq<char>,
    pub message: Seq<char>,
}

impl View for Exception {
    type V = ExceptionView;

    open spec fn view(&self) -> ExceptionView {
        ExceptionView { class: self.class@, message: self.message@ }
    }
}

/// The `LoadError` for a `name` that no file could be found for. Its
/// message holds the name as it was requested.
pub open spec fn spec_load_error(name: Seq<char>) -> ExceptionView {
    ExceptionView { class: LOAD_ERROR@, message: CANNOT_LOAD@ + name }
}

/// The `RuntimeError` that carries `message`.
pub open spec fn spec_runtime_error(message: Seq<char>) -> ExceptionView {
    ExceptionView { class: RUNTIME_ERROR@, message }
}

/// The `ArgumentError` that carries `message`.
pub open spec fn spec_argument_error(message: Seq<char>) -> ExceptionView {
    ExceptionView { class: ARGUMENT_ERROR@, message }
}

impl Exception {
    /// The `LoadError` for a `name` that no file could be found for.
    pub fn load_error(name: &str) -> (exception: Exception)
        ensures
            exception@ == spec_load_error(name@),
    {
        let mut message = String::from_str(CANNOT_LOAD);
        message.append(name);
        Exception { class: String::from_str(LOAD_ERROR), message }
    }

    /// The `RuntimeError` that carries `message`.
    pub fn runtime_error(message: &str) -> (exception: Exception)
        ensures
            exception@ == spec_runtime_error(message@),
    {
        Exception { class: String::from_str(RUNTIME_ERROR), message: String::from_str(message) }
    }

    /// The `ArgumentError` that carries `message`.
    pub fn argument_error(message: &str) -> (exception: Exception)
        ensures
            exception@ == spec_argument_error(message@),
    {
        Exception { class: String::from_str(ARGUMENT_ERROR), message: String::from_str(message) }
    }
}

} // verus!

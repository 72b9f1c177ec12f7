//! `MatchData#regexp`: the regular expression that a match was made with.

use crate::extn::matchdata::MatchData;
use crate::interpreter::Mrb;
use crate::value::{Value, ValueView};
use vstd::prelude::*;

verus! {

/// Why the regular expression of a match could not be given.
#[derive(Debug, Clone, Copy, Hash, PartialEq, Eq)]
pub enum Error {
    /// The value is no match.
    Fatal,
}

/// The regular expression of the match `value`, as a value of its own.
/// `Fatal` where `value` is no match.
pub fn method(interp: &Mrb, value: &Value) -> (regexp: Result<Value, Error>)
    ensures
        match value@ {
            ValueView::MatchData(data) => regexp matches Ok(found) && found@ == ValueView::Regexp(
                data.regexp,
            ),
            _ => regexp == Err::<Value, Error>(Error::Fatal),
        },
{
    match value {
        Value::MatchData(data) => Ok(Value::Regexp(data.regexp.duplicate())),
        _ => Err(Error::Fatal),
    }
}

} // verus!

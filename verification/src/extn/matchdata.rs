//! The result of matching a text against a regular expression.

pub mod regexp;

use crate::extn::regexp::{Regexp, RegexpView};
use vstd::prelude::*;
use vstd::string::*;

verus! {

/// A match: the text that was matched, and the regular expression that it
/// was matched against.
#[derive(Debug, PartialEq, Eq)]
pub struct MatchData {
    pub string: String,
    pub regexp: Regexp,
}

/// A [`MatchData`] over plain values.
pub struct MatchDataView {
    pub string: Seq<char>,
    pub regexp: RegexpView,
}

impl View for MatchData {
    type V = MatchDataView;

    open spec fn view(&self) -> MatchDataView {
        MatchDataView { string: self.string@, regexp: self.regexp@ }
    }
}

} // verus!

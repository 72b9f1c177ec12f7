//! Regular expressions as the host holds them.

pub mod names;



use crate::text::spec_texts;
use vstd::prelude::*;
use vstd::string::*;

verus! {

/// A name that groups of a pattern carry, and the numbers of the groups
/// that carry it.
#[derive(Debug, PartialEq, Eq)]
pub struct Capture {
    pub name: String,
    pub indexes: Vec<u32>,
}

/// A [`Capture`] over plain values.
pub struct CaptureView {
    pub name: Seq<char>,
    pub indexes: Seq<u32>,
}

impl View for Capture {
    type V = CaptureView;

    open spec fn view(&self) -> CaptureView {
        CaptureView { name: self.name@, indexes: self.indexes@ }
    }
}

/// The views of a sequence of captures.
pub open spec fn spec_captures(captures: Seq<Capture>) -> Seq<CaptureView> {
    Seq::new(captures.len(), |i: int| captures[i]@)
}

/// A compiled regular expression: its pattern, and the names of its groups
/// in the order in which the engine lists them.
#[derive(Debug, PartialEq, Eq)]
pub struct Regexp {
    pub pattern: String,
    pub captures: Vec<Capture>,
}

/// A [`Regexp`] over plain values.
pub struct RegexpView {
    pub pattern: Seq<char>,
    pub captures: Seq<CaptureView>,
}

impl View for Regexp {
    type V = RegexpView;

    open spec fn view(&self) -> RegexpView {
        RegexpView { pattern: self.pattern@, captures: spec_captures(self.captures@) }
    }
}

impl Regexp {
    /// A copy of this regular expression.
    pub fn duplicate(&self) -> (copy: Regexp)
        ensures
            copy@ == self@,
    {
        let mut captures: Vec<Capture> = Vec::new();
        let mut i: usize = 0;
        while i < self.captures.len()
            invariant
                i <= self.captures@.len(),
                spec_captures(captures@) == spec_captures(self.captures@).take(i as int),
            decreases self.captures@.len() - i,
        {
            let ghost before = captures@;
            let indexes = self.captures[i].indexes.clone();
            captures.push(Capture { name: self.captures[i].name.clone(), indexes });
            assert(spec_captures(captures@) =~= spec_captures(before).push(self.captures@[i as int]@));
            assert(spec_captures(self.captures@).take(i + 1) =~= spec_captures(self.captures@).take(
                i as int,
            ).push(self.captures@[i as int]@));
            i += 1;
        }
        assert(spec_captures(self.captures@).take(self.captures@.len() as int) =~= spec_captures(
            self.captures@,
        ));
        Regexp { pattern: self.pattern.clone(), captures }
    }
}

} // verus!

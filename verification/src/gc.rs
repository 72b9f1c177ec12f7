//! Garbage-collector savepoints.
//!
//! Every value that the virtual machine hands to the host takes a slot of
//! the protection stack, and the collector leaves protected values alone. A
//! savepoint records the depth of the stack; restoring it pops the stack
//! back to that depth and so releases what was protected since. Savepoints
//! are restored last opened, first restored.

use vstd::prelude::*;

verus! {

/// A marker for the depth that the protection stack had when the savepoint
/// was opened.
#[derive(Debug)]
pub struct ArenaSavepoint {
    index: usize,
    level: usize,
}

/// An [`ArenaSavepoint`] over plain values.
pub struct ArenaSavepointView {
    /// The depth of the protection stack when the savepoint was opened.
    pub index: nat,
    /// How many savepoints were open when this one was opened.
    pub level: nat,
}

impl View for ArenaSavepoint {
    type V = ArenaSavepointView;

    closed spec fn view(&self) -> ArenaSavepointView {
        ArenaSavepointView { index: self.index as nat, level: self.level as nat }
    }
}

/// The protection stack as the host sees it: its depth, and the savepoints
/// that are open.
#[derive(Debug)]
pub struct GcArena {
    depth: usize,
    open: Vec<usize>,
}

/// A [`GcArena`] over plain values.
pub struct GcArenaView {
    /// The number of protected slots.
    pub depth: nat,
    /// The depths that the open savepoints recorded, the outermost first.
    pub savepoints: Seq<nat>,
}

/// Something that is done to the protection stack.
#[derive(Debug, Clone, Copy, PartialEq, Eq)]
pub enum ArenaOp {
    /// Open a savepoint.
    Open,
    /// Protect one more value.
    Protect,
    /// Restore the innermost open savepoint.
    Restore,
}

impl GcArenaView {
    /// The stack with nothing protected and no savepoint open.
    pub open spec fn empty() -> GcArenaView {
        GcArenaView { depth: 0, savepoints: Seq::empty() }
    }

    /// The savepoint that `open` would hand out.
    pub open spec fn next_savepoint(self) -> ArenaSavepointView {
        ArenaSavepointView { index: self.depth, level: self.savepoints.len() }
    }

    /// Whether `savepoint` is the innermost open savepoint.
    pub open spec fn is_innermost(self, savepoint: ArenaSavepointView) -> bool {
        &&& self.savepoints.len() == savepoint.level + 1
        &&& self.savepoints.last() == savepoint.index
    }

    /// The stack after a savepoint has been opened.
    pub open spec fn opened(self) -> GcArenaView {
        GcArenaView { depth: self.depth, savepoints: self.savepoints.push(self.depth) }
    }

    /// The stack after one more value has been protected.
    pub open spec fn protected(self) -> GcArenaView {
        GcArenaView { depth: self.depth + 1, savepoints: self.savepoints }
    }

    /// The stack after the innermost savepoint has been restored.
    pub open spec fn restored(self) -> GcArenaView {
        GcArenaView { depth: self.savepoints.last(), savepoints: self.savepoints.drop_last() }
    }

    /// The stack after `op`, inside a scope whose savepoints from `base` on
    /// are its own. `None` where the scope has no savepoint open: it may
    /// then neither protect a value nor restore a savepoint.
    pub open spec fn apply(self, base: nat, op: ArenaOp) -> Option<GcArenaView> {
        match op {
            ArenaOp::Open => Some(self.opened()),
            ArenaOp::Protect => if self.savepoints.len() > base {
                Some(self.protected())
            } else {
                None
            },
            ArenaOp::Restore => if self.savepoints.len() > base {
                Some(self.restored())
            } else {
                None
            },
        }
    }

    /// The stack after `ops` in order, inside a scope whose savepoints from
    /// `base` on are its own. `None` where one of them is not possible.
    pub open spec fn apply_all(self, base: nat, ops: Seq<ArenaOp>) -> Option<GcArenaView>
        decreases ops.len(),
    {
        if ops.len() == 0 {
            Some(self)
        } else {
            match self.apply(base, ops[0]) {
                Some(next) => next.apply_all(base, ops.drop_first()),
                None => None,
            }
        }
    }
}

impl View for GcArena {
    type V = GcArenaView;

    closed spec fn view(&self) -> GcArenaView {
        GcArenaView {
            depth: self.depth as nat,
            savepoints: Seq::new(self.open@.len(), |i: int| self.open@[i] as nat),
        }
    }
}

impl ArenaSavepoint {
    /// The depth of the protection stack when the savepoint was opened.
    pub fn index(&self) -> (index: usize)
        ensures
            index == self@.index,
    {
        self.index
    }
}

impl GcArena {
    /// A protection stack with nothing protected and no savepoint open.
    pub fn new() -> (arena: GcArena)
        ensures
            arena@ == GcArenaView::empty(),
    {
        let arena = GcArena { depth: 0, open: Vec::new() };
        assert(arena@.savepoints =~= Seq::<nat>::empty());
        arena
    }

    /// The number of protected slots.
    pub fn depth(&self) -> (depth: usize)
        ensures
            depth == self@.depth,
    {
        self.depth
    }

    /// The number of open savepoints.
    pub fn open_savepoints(&self) -> (count: usize)
        ensures
            count == self@.savepoints.len(),
    {
        self.open.len()
    }

    /// Protects one more value. Refused, and nothing changed, where the
    /// depth cannot be counted any further.
    pub fn protect(&mut self) -> (protected: bool)
        ensures
            protected == (old(self)@.depth < usize::MAX),
            protected ==> final(self)@ == old(self)@.protected(),
            !protected ==> final(self)@ == old(self)@,
    {
        if self.depth < usize::MAX {
            self.depth = self.depth + 1;
            assert(self@.savepoints =~= old(self)@.savepoints);
            true
        } else {
            false
        }
    }

    /// Opens a savepoint at the current depth.
    pub fn open(&mut self) -> (savepoint: ArenaSavepoint)
        ensures
            savepoint@ == old(self)@.next_savepoint(),
            final(self)@ == old(self)@.opened(),
            final(self)@.is_innermost(savepoint@),
    {
        let savepoint = ArenaSavepoint { index: self.depth, level: self.open.len() };
        self.open.push(self.depth);
        assert(self@.savepoints =~= old(self)@.savepoints.push(old(self)@.depth));
        savepoint
    }

    /// Whether `savepoint` is the innermost open savepoint, the one that may
    /// be restored.
    pub fn is_innermost(&self, savepoint: &ArenaSavepoint) -> (innermost: bool)
        ensures
            innermost == self@.is_innermost(savepoint@),
    {
        let count = self.open.len();
        count > 0 && count - 1 == savepoint.level && self.open[count - 1] == savepoint.index
    }

    /// Restores `savepoint`: pops the protection stack back to the depth
    /// that the savepoint recorded, and closes the savepoint. Savepoints are
    /// restored in the reverse of the order in which they were opened, so
    /// `savepoint` has to be the innermost one.
    pub fn restore(&mut self, savepoint: ArenaSavepoint)
        requires
            old(self)@.is_innermost(savepoint@),
        ensures
            final(self)@ == old(self)@.restored(),
            final(self)@.depth == savepoint@.index,
            final(self)@.savepoints.len() == savepoint@.level,
    {
        self.open.pop();
        self.depth = savepoint.index;
        assert(self@.savepoints =~= old(self)@.savepoints.drop_last());
    }
}

spec fn scoped(outer: GcArenaView, base: nat, inner: GcArenaView) -> bool {
    &&& inner.savepoints.len() >= base
    &&& outer.savepoints.len() == base
    &&& inner.savepoints.subrange(0, base as int) == outer.savepoints
    &&& inner.savepoints.len() > base ==> inner.savepoints[base as int] == outer.depth
    &&& inner.savepoints.len() == base ==> inner.depth == outer.depth
}

proof fn lemma_apply_scoped(outer: GcArenaView, inner: GcArenaView, op: ArenaOp)
    requires
        scoped(outer, outer.savepoints.len(), inner),
        inner.apply(outer.savepoints.len(), op) is Some,
    ensures
        scoped(outer, outer.savepoints.len(), inner.apply(outer.savepoints.len(), op).unwrap()),
{
    let base = outer.savepoints.len();
    let next = inner.apply(base, op).unwrap();
    assert(next.savepoints.subrange(0, base as int) =~= inner.savepoints.subrange(0, base as int));
}

proof fn lemma_apply_all_scoped(outer: GcArenaView, inner: GcArenaView, ops: Seq<ArenaOp>)
    requires
        scoped(outer, outer.savepoints.len(), inner),
        inner.apply_all(outer.savepoints.len(), ops) is Some,
    ensures
        scoped(outer, outer.savepoints.len(), inner.apply_all(outer.savepoints.len(), ops).unwrap()),
    decreases ops.len(),
{
    if ops.len() > 0 {
        let base = outer.savepoints.len();
        lemma_apply_scoped(outer, inner, ops[0]);
        lemma_apply_all_scoped(outer, inner.apply(base, ops[0]).unwrap(), ops.drop_first());
    }
}

/// Savepoints balance. Take any sequence of steps in which values are
/// protected only while a savepoint of the sequence is open, and only
/// savepoints of the sequence are restored. Where it closes every savepoint
/// that it opened, however deeply they were nested and whether or not
/// anything was protected in between, the protection stack is afterwards as
/// it was before: the same depth, the same open savepoints.
pub proof fn lemma_savepoints_balance(arena: GcArenaView, ops: Seq<ArenaOp>)
    requires
        arena.apply_all(arena.savepoints.len(), ops) is Some,
        arena.apply_all(arena.savepoints.len(), ops).unwrap().savepoints.len()
            == arena.savepoints.len(),
    ensures
        arena.apply_all(arena.savepoints.len(), ops) == Some(arena),
{
    let base = arena.savepoints.len();
    assert(arena.savepoints.subrange(0, base as int) =~= arena.savepoints);
    lemma_apply_all_scoped(arena, arena, ops);
    let after = arena.apply_all(base, ops).unwrap();
    assert(after.savepoints =~= after.savepoints.subrange(0, base as int));
}

/// One savepoint, opened and restored, leaves the protection stack as it
/// was, whatever number of values was protected in between.
pub proof fn lemma_open_restore(arena: GcArenaView, protected: nat)
    ensures
        arena.apply_all(
            arena.savepoints.len(),
            seq![ArenaOp::Open] + Seq::new(protected, |i: int| ArenaOp::Protect) + seq![
                ArenaOp::Restore,
            ],
        ) == Some(arena),
{
    let base = arena.savepoints.len();
    let ops = seq![ArenaOp::Open] + Seq::new(protected, |i: int| ArenaOp::Protect) + seq![
        ArenaOp::Restore,
    ];
    lemma_protects(arena.opened(), base, protected);
    let body = Seq::new(protected, |i: int| ArenaOp::Protect) + seq![ArenaOp::Restore];
    assert(ops.drop_first() =~= body);
    assert(ops[0] == ArenaOp::Open);
    let filled = GcArenaView { depth: arena.depth + protected, savepoints: arena.opened().savepoints };
    assert(filled.restored().savepoints =~= arena.savepoints);
}

proof fn lemma_protects(arena: GcArenaView, base: nat, protected: nat)
    requires
        arena.savepoints.len() > base,
    ensures
        arena.apply_all(
            base,
            Seq::new(protected, |i: int| ArenaOp::Protect) + seq![ArenaOp::Restore],
        ) == Some(
            (GcArenaView {
                depth: arena.depth + protected,
                savepoints: arena.savepoints,
            }).restored(),
        ),
    decreases protected,
{
    let ops = Seq::new(protected, |i: int| ArenaOp::Protect) + seq![ArenaOp::Restore];
    if protected == 0 {
        assert(ops =~= seq![ArenaOp::Restore]);
        assert(ops.drop_first() =~= Seq::<ArenaOp>::empty());
        assert(arena.restored().apply_all(base, ops.drop_first()) == Some(arena.restored()));
    } else {
        let rest = Seq::new((protected - 1) as nat, |i: int| ArenaOp::Protect) + seq![
            ArenaOp::Restore,
        ];
        assert(ops.drop_first() =~= rest);
        assert(ops[0] == ArenaOp::Protect);
        lemma_protects(arena.protected(), base, (protected - 1) as nat);
    }
}

} // verus!

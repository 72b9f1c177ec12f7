//! The state that the host keeps for one interpreter.

use crate::def::{spec_lookup, DefineError, Kind, Registry, SpecRef, SpecView};
use crate::eval::EvalContext;
use crate::gc::{GcArena, GcArenaView};
use crate::vfs::{spec_create_dir_all, spec_is_ancestor, spec_is_file, NodeView, Vfs};
use crate::RUBY_LOAD_PATH;
use vstd::prelude::*;

verus! {

/// Host-side state of one interpreter: the virtual filesystem, the registry
/// of class and module definitions, the stack of evaluation contexts, and
/// the protection stack of the garbage collector.
#[derive(Debug)]
pub struct State {
    pub vfs: Vfs,
    pub registry: Registry,
    pub context_stack: Vec<EvalContext>,
    pub arena: GcArena,
}

/// A [`State`] over plain values.
pub struct StateView {
    /// What each path of the virtual filesystem holds.
    pub vfs: Map<Seq<char>, NodeView>,
    /// The definitions in the order of their registration.
    pub registry: Seq<SpecView>,
    /// The filenames of the evaluation contexts, the innermost last.
    pub contexts: Seq<Seq<char>>,
    /// The protection stack.
    pub arena: GcArenaView,
}

impl StateView {
    /// The state of an interpreter that has just been created: the load
    /// root and the directories above it, no file, no definition, no
    /// evaluation context, nothing protected.
    pub open spec fn fresh() -> StateView {
        StateView {
            vfs: spec_create_dir_all(Map::empty(), RUBY_LOAD_PATH@),
            registry: Seq::empty(),
            contexts: Seq::empty(),
            arena: GcArenaView::empty(),
        }
    }
}

/// The filenames of a stack of evaluation contexts.
pub open spec fn spec_filenames(stack: Seq<EvalContext>) -> Seq<Seq<char>> {
    Seq::new(stack.len(), |i: int| stack[i]@)
}

/// The stack `contexts` without its innermost context; an empty stack stays
/// empty.
pub open spec fn spec_pop(contexts: Seq<Seq<char>>) -> Seq<Seq<char>> {
    if contexts.len() > 0 {
        contexts.drop_last()
    } else {
        contexts
    }
}

impl View for State {
    type V = StateView;

    open spec fn view(&self) -> StateView {
        StateView {
            vfs: self.vfs@,
            registry: self.registry@,
            contexts: spec_filenames(self.context_stack@),
            arena: self.arena@,
        }
    }
}

impl State {
    /// The state of an interpreter that has just been created.
    pub fn new() -> (state: State)
        ensures
            state@ == StateView::fresh(),
    {
        let mut vfs = Vfs::new();
        let made = vfs.create_dir_all(RUBY_LOAD_PATH);
        assert(made is Ok) by {
            assert forall|directory: Seq<char>| #[trigger]
                spec_is_ancestor(RUBY_LOAD_PATH@, directory) implies !spec_is_file(
                Map::<Seq<char>, NodeView>::empty(),
                directory,
            ) by {}
        }
        let state = State {
            vfs,
            registry: Registry::new(),
            context_stack: Vec::new(),
            arena: GcArena::new(),
        };
        assert(state@.contexts =~= Seq::<Seq<char>>::empty());
        state
    }

    /// Makes `context` the innermost evaluation context.
    pub fn push_context(&mut self, context: EvalContext)
        ensures
            final(self)@ == (StateView { contexts: old(self)@.contexts.push(context@), ..old(self)@ }),
    {
        self.context_stack.push(context);
        assert(spec_filenames(self.context_stack@) =~= spec_filenames(old(self).context_stack@).push(
            context@,
        ));
    }

    /// Removes the innermost evaluation context and returns it; `None`, and
    /// nothing changed, where there is none.
    pub fn pop_context(&mut self) -> (context: Option<EvalContext>)
        ensures
            final(self)@ == (StateView { contexts: spec_pop(old(self)@.contexts), ..old(self)@ }),
            match context {
                Some(innermost) => old(self)@.contexts.len() > 0 && innermost@ == old(self)@.contexts.last(),
                None => old(self)@.contexts.len() == 0,
            },
    {
        let context = self.context_stack.pop();
        assert(spec_filenames(self.context_stack@) =~= spec_pop(
            spec_filenames(old(self).context_stack@),
        ));
        context
    }

    /// The filename of the innermost evaluation context, if there is one.
    pub fn current_filename(&self) -> (filename: Option<String>)
        ensures
            match filename {
                Some(name) => self@.contexts.len() > 0 && name@ == self@.contexts.last(),
                None => self@.contexts.len() == 0,
            },
    {
        let depth = self.context_stack.len();
        if depth == 0 {
            None
        } else {
            Some(self.context_stack[depth - 1].filename.clone())
        }
    }

    /// Registers a class named `name` for the host type `identity`, inside
    /// `enclosing` if that is given; or finds the description that is
    /// registered for the identity already.
    pub fn def_class(&mut self, identity: u64, name: &str, enclosing: Option<SpecRef>) -> (spec:
        Result<SpecRef, DefineError>)
        ensures
            final(self)@.vfs == old(self)@.vfs,
            final(self)@.contexts == old(self)@.contexts,
            final(self)@.arena == old(self)@.arena,
            spec_registered(
                old(self)@.registry,
                final(self)@.registry,
                spec,
                identity,
                Kind::Class,
                name@,
                enclosing,
            ),
    {
        self.registry.register(identity, Kind::Class, name, None, enclosing)
    }

    /// Registers a module named `name` for the host type `identity`, inside
    /// `enclosing` if that is given; or finds the description that is
    /// registered for the identity already.
    pub fn def_module(&mut self, identity: u64, name: &str, enclosing: Option<SpecRef>) -> (spec:
        Result<SpecRef, DefineError>)
        ensures
            final(self)@.vfs == old(self)@.vfs,
            final(self)@.contexts == old(self)@.contexts,
            final(self)@.arena == old(self)@.arena,
            spec_registered(
                old(self)@.registry,
                final(self)@.registry,
                spec,
                identity,
                Kind::Module,
                name@,
                enclosing,
            ),
    {
        self.registry.register(identity, Kind::Module, name, None, enclosing)
    }

    /// The class that is registered for the host type `identity`, if there
    /// is one.
    pub fn class_spec(&self, identity: u64) -> (spec: Option<SpecRef>)
        ensures
            spec == spec_of_kind(self@.registry, identity, Kind::Class),
    {
        self.spec_for(identity, Kind::Class)
    }

    /// The module that is registered for the host type `identity`, if there
    /// is one.
    pub fn module_spec(&self, identity: u64) -> (spec: Option<SpecRef>)
        ensures
            spec == spec_of_kind(self@.registry, identity, Kind::Module),
    {
        self.spec_for(identity, Kind::Module)
    }

    fn spec_for(&self, identity: u64, kind: Kind) -> (spec: Option<SpecRef>)
        ensures
            spec == spec_of_kind(self@.registry, identity, kind),
    {
        match self.registry.lookup(identity) {
            Some(found) => {
                let same = match (self.registry.kind(found), kind) {
                    (Some(Kind::Class), Kind::Class) => true,
                    (Some(Kind::Module), Kind::Module) => true,
                    _ => false,
                };
                if same {
                    Some(found)
                } else {
                    None
                }
            },
            None => None,
        }
    }
}

/// The description of kind `kind` that is registered for `identity`, if
/// there is one.
pub open spec fn spec_of_kind(specs: Seq<SpecView>, identity: u64, kind: Kind) -> Option<SpecRef> {
    match spec_lookup(specs, identity) {
        Some(position) => if position < specs.len() && specs[position as int].kind == kind {
            Some(SpecRef { index: position as usize })
        } else {
            None
        },
        None => None,
    }
}

/// What a registration without a superclass does to the registry `before`:
/// an identity that is registered keeps its description, and that one is
/// returned; a new identity gets a description at the end, unless
/// `enclosing` names none of the registry.
pub open spec fn spec_registered(
    before: Seq<SpecView>,
    after: Seq<SpecView>,
    spec: Result<SpecRef, DefineError>,
    identity: u64,
    kind: Kind,
    name: Seq<char>,
    enclosing: Option<SpecRef>,
) -> bool {
    match spec_lookup(before, identity) {
        Some(position) => spec == Ok::<SpecRef, DefineError>(SpecRef { index: position as usize })
            && after == before,
        None => match enclosing {
            Some(outer) => if outer.index < before.len() {
                spec == Ok::<SpecRef, DefineError>(SpecRef { index: before.len() as usize })
                    && after == before.push(
                    SpecView {
                        identity,
                        kind,
                        name,
                        superclass: None,
                        enclosing: Some(outer.index as nat),
                        defined: false,
                    },
                )
            } else {
                spec == Err::<SpecRef, DefineError>(DefineError::UnknownSpec) && after == before
            },
            None => spec == Ok::<SpecRef, DefineError>(SpecRef { index: before.len() as usize })
                && after == before.push(
                SpecView {
                    identity,
                    kind,
                    name,
                    superclass: None,
                    enclosing: None,
                    defined: false,
                },
            ),
        },
    }
}

} // verus!

//! Definitions of classes and modules.
//!
//! A host type that stands for a class or a module of the virtual machine
//! is registered once, under an identity that the host chooses for the type.
//! The registry owns the description; other descriptions refer to it by a
//! [`SpecRef`], never by holding it. The virtual machine learns of a class
//! or module through the [`Definition`] that the registry writes for it.

use crate::text::{join, spec_join, spec_texts};
use crate::vm::{Reply, ReplyView, VmCall, VmCallView};
use std::collections::HashMap;
use vstd::prelude::*;
use vstd::string::*;

verus! {

/// Separator between the names of a qualified name.
pub const SCOPE_SEPARATOR: &'static str = "::";

/// Whether a description is that of a class or of a module.
#[derive(Debug, Clone, Copy, PartialEq, Eq)]
pub enum Kind {
    Class,
    Module,
}

/// Stable key of a description in its registry.
#[derive(Debug, Clone, Copy, PartialEq, Eq)]
pub struct SpecRef {
    pub index: usize,
}

/// Why a registration or a definition was refused.
#[derive(Debug, Clone, PartialEq, Eq)]
pub enum DefineError {
    /// A reference names no description of this registry.
    UnknownSpec,
    /// A superclass has to be a class, and only a class has one.
    NotAClass,
    /// The description is fixed: it has a superclass already, or the class
    /// has been defined in the virtual machine.
    Sealed,
    /// The virtual machine refused the definition; the payload says why.
    Rejected(String),
}

#[derive(Debug)]
struct Spec {
    identity: u64,
    kind: Kind,
    name: String,
    superclass: Option<usize>,
    enclosing: Option<usize>,
    defined: bool,
}

/// The description of one class or module over plain values.
pub struct SpecView {
    /// The identity of the host type that the description was registered
    /// for.
    pub identity: u64,
    pub kind: Kind,
    /// The name of the class or module within its scope.
    pub name: Seq<char>,
    /// The position of the superclass in the registry.
    pub superclass: Option<nat>,
    /// The position of the enclosing class or module in the registry.
    pub enclosing: Option<nat>,
    /// Whether the virtual machine has defined the class or module.
    pub defined: bool,
}

impl Spec {
    spec fn view(self) -> SpecView {
        SpecView {
            identity: self.identity,
            kind: self.kind,
            name: self.name@,
            superclass: match self.superclass {
                Some(i) => Some(i as nat),
                None => None,
            },
            enclosing: match self.enclosing {
                Some(i) => Some(i as nat),
                None => None,
            },
            defined: self.defined,
        }
    }
}

/// What the virtual machine has to define: a class or module by its
/// qualified name, and for a class with a superclass the qualified name of
/// that class.
#[derive(Debug, Clone, PartialEq, Eq)]
pub struct Definition {
    pub kind: Kind,
    /// The names from the outermost scope down to the class or module.
    pub path: Vec<String>,
    /// The names from the outermost scope down to the superclass.
    pub superclass: Option<Vec<String>>,
}

/// A [`Definition`] over plain values.
pub struct DefinitionView {
    pub kind: Kind,
    pub path: Seq<Seq<char>>,
    pub superclass: Option<Seq<Seq<char>>>,
}

impl View for Definition {
    type V = DefinitionView;

    open spec fn view(&self) -> DefinitionView {
        DefinitionView {
            kind: self.kind,
            path: spec_texts(self.path@),
            superclass: match self.superclass {
                Some(names) => Some(spec_texts(names@)),
                None => None,
            },
        }
    }
}

/// The position of the description registered for `identity`, if there is
/// one.
pub open spec fn spec_lookup(specs: Seq<SpecView>, identity: u64) -> Option<nat> {
    if exists|i: int| 0 <= i < specs.len() && #[trigger] specs[i].identity == identity {
        Some((choose|i: int| 0 <= i < specs.len() && #[trigger] specs[i].identity == identity) as nat)
    } else {
        None
    }
}

/// Whether a registry holds what it may hold: one description for each
/// identity; every description enclosed by one that was registered before
/// it; every superclass a class of the registry, and only classes with one.
pub open spec fn spec_well_formed(specs: Seq<SpecView>) -> bool {
    &&& forall|i: int, j: int|
        0 <= i < specs.len() && 0 <= j < specs.len() && i != j ==> #[trigger] specs[i].identity
            != #[trigger] specs[j].identity
    &&& forall|i: int|
        0 <= i < specs.len() ==> match #[trigger] specs[i].enclosing {
            Some(outer) => outer < i,
            None => true,
        }
    &&& forall|i: int|
        0 <= i < specs.len() ==> match #[trigger] specs[i].superclass {
            Some(parent) => parent < specs.len() && specs[parent as int].kind is Class
                && specs[i].kind is Class,
            None => true,
        }
}

/// The names from the outermost scope down to the description at `index`.
pub open spec fn spec_path(specs: Seq<SpecView>, index: nat) -> Seq<Seq<char>>
    decreases index,
{
    match specs[index as int].enclosing {
        Some(outer) => if outer < index {
            spec_path(specs, outer).push(specs[index as int].name)
        } else {
            seq![specs[index as int].name]
        },
        None => seq![specs[index as int].name],
    }
}

/// The qualified name that the names of `path` make: the names in order
/// with the scope separator between them.
pub open spec fn spec_fqname(path: Seq<Seq<char>>) -> Seq<char> {
    spec_join(path, SCOPE_SEPARATOR@)
}

/// What the virtual machine has to define for the description at `index`.
pub open spec fn spec_definition(specs: Seq<SpecView>, index: nat) -> DefinitionView {
    DefinitionView {
        kind: specs[index as int].kind,
        path: spec_path(specs, index),
        superclass: match specs[index as int].superclass {
            Some(parent) => Some(spec_path(specs, parent)),
            None => None,
        },
    }
}

/// Whether `reference` names a description of `specs`, or is absent.
pub open spec fn spec_known(specs: Seq<SpecView>, reference: Option<SpecRef>) -> bool {
    match reference {
        Some(r) => r.index < specs.len(),
        None => true,
    }
}

/// Whether `reference` names a class of `specs`, or is absent.
pub open spec fn spec_known_class(specs: Seq<SpecView>, reference: Option<SpecRef>) -> bool {
    match reference {
        Some(r) => r.index < specs.len() && specs[r.index as int].kind is Class,
        None => true,
    }
}

/// The position that `reference` names.
pub open spec fn spec_position(reference: Option<SpecRef>) -> Option<nat> {
    match reference {
        Some(r) => Some(r.index as nat),
        None => None,
    }
}

/// The qualified name that the names of `path` make.
pub fn fqname(path: &Vec<String>) -> (name: String)
    ensures
        name@ == spec_fqname(spec_texts(path@)),
{
    join(path, SCOPE_SEPARATOR)
}

/// The registry of definitions. Its view is the sequence of descriptions in
/// the order in which they were registered. A description is found by its
/// identity without a search.
#[derive(Debug)]
pub struct Registry {
    specs: Vec<Spec>,
    index: HashMap<u64, usize>,
}

spec fn indexed(specs: Seq<SpecView>, index: Map<u64, usize>) -> bool {
    &&& forall|i: int|
        0 <= i < specs.len() ==> index.contains_key((#[trigger] specs[i]).identity)
            && index[specs[i].identity] == i
    &&& forall|identity: u64| #[trigger]
        index.contains_key(identity) ==> index[identity] < specs.len()
            && specs[index[identity] as int].identity == identity
}

spec fn views(specs: Seq<Spec>) -> Seq<SpecView> {
    Seq::new(specs.len(), |i: int| specs[i].view())
}

impl View for Registry {
    type V = Seq<SpecView>;

    closed spec fn view(&self) -> Seq<SpecView> {
        views(self.specs@)
    }
}

proof fn lemma_lookup(specs: Seq<SpecView>, identity: u64, i: int)
    requires
        spec_well_formed(specs),
        0 <= i < specs.len(),
        specs[i].identity == identity,
    ensures
        spec_lookup(specs, identity) == Some(i as nat),
{
    let j = choose|j: int| 0 <= j < specs.len() && #[trigger] specs[j].identity == identity;
    assert(j == i);
}

impl Registry {
    #[verifier::type_invariant]
    spec fn well_formed(self) -> bool {
        spec_well_formed(views(self.specs@)) && indexed(views(self.specs@), self.index@)
    }

    /// An empty registry.
    pub fn new() -> (registry: Registry)
        ensures
            registry@ == Seq::<SpecView>::empty(),
            spec_well_formed(registry@),
    {
        broadcast use vstd::std_specs::hash::group_hash_axioms;

        let registry = Registry { specs: Vec::new(), index: HashMap::new() };
        assert(registry@ =~= Seq::<SpecView>::empty());
        registry
    }

    fn take(&mut self) -> (taken: (Vec<Spec>, HashMap<u64, usize>))
        ensures
            taken.0@ == old(self).specs@,
            taken.1@ == old(self).index@,
    {
        broadcast use vstd::std_specs::hash::group_hash_axioms;

        let mut taken = Registry { specs: Vec::new(), index: HashMap::new() };
        core::mem::swap(self, &mut taken);
        let Registry { specs, index } = taken;
        (specs, index)
    }

    /// The number of descriptions.
    pub fn len(&self) -> (count: usize)
        ensures
            count == self@.len(),
            spec_well_formed(self@),
    {
        proof {
            use_type_invariant(self);
        }
        self.specs.len()
    }

    /// The description registered for `identity`, if there is one.
    pub fn lookup(&self, identity: u64) -> (found: Option<SpecRef>)
        ensures
            spec_position(found) == spec_lookup(self@, identity),
            spec_known(self@, found),
    {
        broadcast use vstd::std_specs::hash::group_hash_axioms;

        proof {
            use_type_invariant(self);
        }
        match self.index.get(&identity) {
            Some(position) => {
                proof {
                    lemma_lookup(self@, identity, *position as int);
                }
                Some(SpecRef { index: *position })
            },
            None => {
                assert(spec_lookup(self@, identity) is None) by {
                    if exists|i: int| 0 <= i < self@.len() && #[trigger] self@[i].identity == identity {
                        let i = choose|i: int|
                            0 <= i < self@.len() && #[trigger] self@[i].identity == identity;
                        assert(self.index@.contains_key(self@[i].identity));
                    }
                }
                None
            },
        }
    }

    /// Registers a class or module for the host type `identity`, or finds
    /// the one that is registered for it.
    ///
    /// Where the identity is registered already, its description is returned
    /// and nothing changes, whatever the other arguments say. Otherwise the
    /// description is added at the end, not yet defined. That is refused,
    /// and nothing changed, with `UnknownSpec` where `enclosing` or
    /// `superclass` names no description of this registry, and with
    /// `NotAClass` where a superclass is given to a module or is itself no
    /// class.
    pub fn register(
        &mut self,
        identity: u64,
        kind: Kind,
        name: &str,
        superclass: Option<SpecRef>,
        enclosing: Option<SpecRef>,
    ) -> (registered: Result<SpecRef, DefineError>)
        ensures
            spec_well_formed(final(self)@),
            match spec_lookup(old(self)@, identity) {
                Some(position) => registered == Ok::<SpecRef, DefineError>(
                    SpecRef { index: position as usize },
                ) && final(self)@ == old(self)@,
                None => if !spec_known(old(self)@, enclosing) || !spec_known(
                    old(self)@,
                    superclass,
                ) {
                    registered == Err::<SpecRef, DefineError>(DefineError::UnknownSpec) && final(self)@ == old(self)@
                } else if superclass.is_some() && !(kind is Class && spec_known_class(
                    old(self)@,
                    superclass,
                )) {
                    registered == Err::<SpecRef, DefineError>(DefineError::NotAClass) && final(self)@ == old(self)@
                } else {
                    registered == Ok::<SpecRef, DefineError>(
                        SpecRef { index: old(self)@.len() as usize },
                    ) && final(self)@ == old(self)@.push(
                        SpecView {
                            identity,
                            kind,
                            name: name@,
                            superclass: spec_position(superclass),
                            enclosing: spec_position(enclosing),
                            defined: false,
                        },
                    )
                },
            },
    {
        proof {
            use_type_invariant(&*self);
        }
        match self.lookup(identity) {
            Some(found) => {
                return Ok(found);
            },
            None => {},
        }
        let count = self.specs.len();
        let outer = match enclosing {
            Some(r) => {
                if r.index >= count {
                    return Err(DefineError::UnknownSpec);
                }
                Some(r.index)
            },
            None => None,
        };
        let parent = match superclass {
            Some(r) => {
                if r.index >= count {
                    return Err(DefineError::UnknownSpec);
                }
                match (kind, self.specs[r.index].kind) {
                    (Kind::Class, Kind::Class) => {},
                    _ => {
                        return Err(DefineError::NotAClass);
                    },
                }
                Some(r.index)
            },
            None => None,
        };
        let spec = Spec {
            identity,
            kind,
            name: String::from_str(name),
            superclass: parent,
            enclosing: outer,
            defined: false,
        };
        let ghost before = self.specs@;
        let ghost indexed_before = self.index@;
        let (mut specs, mut index) = self.take();
        specs.push(spec);
        index.insert(identity, count);
        proof {
            broadcast use vstd::std_specs::hash::group_hash_axioms;

            let old_views = views(before);
            let new_views = views(specs@);
            assert(new_views =~= old_views.push(spec.view()));
            assert forall|i: int, j: int|
                0 <= i < new_views.len() && 0 <= j < new_views.len() && i != j implies #[trigger] new_views[i].identity
                != #[trigger] new_views[j].identity by {
                if i < old_views.len() {
                    assert(old_views[i].identity == new_views[i].identity);
                }
                if j < old_views.len() {
                    assert(old_views[j].identity == new_views[j].identity);
                }
            }
            assert forall|i: int| 0 <= i < new_views.len() implies match #[trigger] new_views[i].enclosing {
                Some(outer) => outer < i,
                None => true,
            } by {
                if i < old_views.len() {
                    assert(old_views[i].enclosing == new_views[i].enclosing);
                }
            }
            assert forall|i: int| 0 <= i < new_views.len() implies match #[trigger] new_views[i].superclass {
                Some(parent) => parent < new_views.len() && new_views[parent as int].kind is Class
                    && new_views[i].kind is Class,
                None => true,
            } by {
                if i < old_views.len() {
                    assert(old_views[i].superclass == new_views[i].superclass);
                    match old_views[i].superclass {
                        Some(parent) => {
                            assert(old_views[parent as int].kind == new_views[parent as int].kind);
                        },
                        None => {},
                    }
                } else {
                    match new_views[i].superclass {
                        Some(parent) => {
                            assert(old_views[parent as int].kind == new_views[parent as int].kind);
                        },
                        None => {},
                    }
                }
            }
        }
        proof {
            let old_views = views(before);
            let new_views = views(specs@);
            assert(spec_lookup(old_views, identity) is None);
            assert forall|i: int| 0 <= i < new_views.len() implies index@.contains_key(
                (#[trigger] new_views[i]).identity,
            ) && index@[new_views[i].identity] == i by {
                if i < old_views.len() {
                    assert(old_views[i].identity == new_views[i].identity);
                    assert(indexed_before.contains_key(old_views[i].identity));
                }
            }
            assert forall|known: u64| #[trigger] index@.contains_key(known) implies index@[known]
                < new_views.len() && new_views[index@[known] as int].identity == known by {
                if known != identity {
                    assert(indexed_before.contains_key(known));
                    assert(old_views[indexed_before[known] as int].identity
                        == new_views[indexed_before[known] as int].identity);
                }
            }
        }
        *self = Registry { specs, index };
        Ok(SpecRef { index: count })
    }

    /// The names from the outermost scope down to the description that
    /// `reference` names; `None` where it names none.
    pub fn path(&self, reference: SpecRef) -> (path: Option<Vec<String>>)
        ensures
            match path {
                Some(names) => reference.index < self@.len() && spec_texts(names@) == spec_path(
                    self@,
                    reference.index as nat,
                ),
                None => reference.index >= self@.len(),
            },
    {
        if reference.index < self.specs.len() {
            Some(self.path_at(reference.index))
        } else {
            None
        }
    }

    fn path_at(&self, index: usize) -> (names: Vec<String>)
        requires
            index < self@.len(),
        ensures
            spec_texts(names@) == spec_path(self@, index as nat),
        decreases index,
    {
        proof {
            use_type_invariant(self);
        }
        assert(self@[index as int] == self.specs@[index as int].view());
        let mut names = match self.specs[index].enclosing {
            Some(outer) => {
                assert(self@[index as int].enclosing == Some(outer as nat));
                self.path_at(outer)
            },
            None => Vec::new(),
        };
        let ghost scope = spec_texts(names@);
        names.push(self.specs[index].name.clone());
        assert(spec_texts(names@) =~= scope.push(self.specs@[index as int].name@));
        assert(Seq::<Seq<char>>::empty().push(self.specs@[index as int].name@) =~= seq![
            self.specs@[index as int].name@,
        ]);
        names
    }

    /// The qualified name of the description that `reference` names; `None`
    /// where it names none.
    pub fn fqname(&self, reference: SpecRef) -> (name: Option<String>)
        ensures
            match name {
                Some(qualified) => reference.index < self@.len() && qualified@ == spec_fqname(
                    spec_path(self@, reference.index as nat),
                ),
                None => reference.index >= self@.len(),
            },
    {
        match self.path(reference) {
            Some(names) => Some(self::fqname(&names)),
            None => None,
        }
    }

    /// Whether `reference` names a class or a module; `None` where it names
    /// no description.
    pub fn kind(&self, reference: SpecRef) -> (kind: Option<Kind>)
        ensures
            match kind {
                Some(found) => reference.index < self@.len() && found
                    == self@[reference.index as int].kind,
                None => reference.index >= self@.len(),
            },
    {
        if reference.index < self.specs.len() {
            assert(self@[reference.index as int] == self.specs@[reference.index as int].view());
            Some(self.specs[reference.index].kind)
        } else {
            None
        }
    }

    /// Whether the virtual machine has defined what `reference` names.
    pub fn is_defined(&self, reference: SpecRef) -> (defined: bool)
        ensures
            defined == (reference.index < self@.len() && self@[reference.index as int].defined),
    {
        if reference.index < self.specs.len() {
            assert(self@[reference.index as int] == self.specs@[reference.index as int].view());
            self.specs[reference.index].defined
        } else {
            false
        }
    }

    /// Gives the class `class` the superclass `superclass`. This can be done
    /// once, and only before the class is defined in the virtual machine.
    ///
    /// Refused, and nothing changed, with `UnknownSpec` where one of the two
    /// names no description of this registry, with `NotAClass` where one of
    /// them is a module, and with `Sealed` where the class has a superclass
    /// or has been defined.
    pub fn with_super_class(&mut self, class: SpecRef, superclass: SpecRef) -> (done: Result<
        (),
        DefineError,
    >)
        ensures
            spec_well_formed(final(self)@),
            if class.index >= old(self)@.len() || superclass.index >= old(self)@.len() {
                done == Err::<(), DefineError>(DefineError::UnknownSpec) && final(self)@ == old(self)@
            } else if !(old(self)@[class.index as int].kind is Class) || !(old(self)@[superclass.index as int].kind is Class) {
                done == Err::<(), DefineError>(DefineError::NotAClass) && final(self)@ == old(self)@
            } else if old(self)@[class.index as int].defined || old(self)@[class.index as int].superclass.is_some() {
                done == Err::<(), DefineError>(DefineError::Sealed) && final(self)@ == old(self)@
            } else {
                done == Ok::<(), DefineError>(()) && final(self)@ == old(self)@.update(
                    class.index as int,
                    SpecView {
                        superclass: Some(superclass.index as nat),
                        ..old(self)@[class.index as int]
                    },
                )
            },
    {
        proof {
            use_type_invariant(&*self);
        }
        let count = self.specs.len();
        if class.index >= count || superclass.index >= count {
            return Err(DefineError::UnknownSpec);
        }
        assert(self@[class.index as int] == self.specs@[class.index as int].view());
        assert(self@[superclass.index as int] == self.specs@[superclass.index as int].view());
        match (self.specs[class.index].kind, self.specs[superclass.index].kind) {
            (Kind::Class, Kind::Class) => {},
            _ => {
                return Err(DefineError::NotAClass);
            },
        }
        if self.specs[class.index].defined || self.specs[class.index].superclass.is_some() {
            return Err(DefineError::Sealed);
        }
        let spec = Spec {
            identity: self.specs[class.index].identity,
            kind: Kind::Class,
            name: self.specs[class.index].name.clone(),
            superclass: Some(superclass.index),
            enclosing: self.specs[class.index].enclosing,
            defined: false,
        };
        self.replace(class.index, spec);
        Ok(())
    }

    fn replace(&mut self, index: usize, spec: Spec)
        requires
            index < old(self)@.len(),
            spec.view().identity == old(self)@[index as int].identity,
            spec.view().kind == old(self)@[index as int].kind,
            spec.view().enclosing == old(self)@[index as int].enclosing,
            match spec.view().superclass {
                Some(parent) => parent < old(self)@.len() && old(self)@[parent as int].kind is Class
                    && spec.view().kind is Class,
                None => true,
            },
        ensures
            final(self)@ == old(self)@.update(index as int, spec.view()),
            spec_well_formed(final(self)@),
    {
        proof {
            use_type_invariant(&*self);
        }
        let ghost before = self.specs@;
        let (mut specs, found) = self.take();
        specs.set(index, spec);
        proof {
            let old_views = views(before);
            let new_views = views(specs@);
            assert(new_views =~= old_views.update(index as int, spec.view()));
            assert forall|i: int, j: int|
                0 <= i < new_views.len() && 0 <= j < new_views.len() && i != j implies #[trigger] new_views[i].identity
                != #[trigger] new_views[j].identity by {
                assert(old_views[i].identity == new_views[i].identity);
                assert(old_views[j].identity == new_views[j].identity);
            }
            assert forall|i: int| 0 <= i < new_views.len() implies match #[trigger] new_views[i].enclosing {
                Some(outer) => outer < i,
                None => true,
            } by {
                assert(old_views[i].enclosing == new_views[i].enclosing);
            }
            assert forall|i: int| 0 <= i < new_views.len() implies match #[trigger] new_views[i].superclass {
                Some(parent) => parent < new_views.len() && new_views[parent as int].kind is Class
                    && new_views[i].kind is Class,
                None => true,
            } by {
                assert(old_views[i].kind == new_views[i].kind);
                if i != index {
                    assert(old_views[i].superclass == new_views[i].superclass);
                }
                match new_views[i].superclass {
                    Some(parent) => {
                        assert(old_views[parent as int].kind == new_views[parent as int].kind);
                    },
                    None => {},
                }
            }
        }
        proof {
            let old_views = views(before);
            let new_views = views(specs@);
            assert forall|i: int| 0 <= i < new_views.len() implies found@.contains_key(
                (#[trigger] new_views[i]).identity,
            ) && found@[new_views[i].identity] == i by {
                assert(old_views[i].identity == new_views[i].identity);
            }
            assert forall|known: u64| #[trigger] found@.contains_key(known) implies found@[known]
                < new_views.len() && new_views[found@[known] as int].identity == known by {
                assert(old_views[found@[known] as int].identity
                    == new_views[found@[known] as int].identity);
            }
        }
        *self = Registry { specs, index: found };
    }

    /// What the virtual machine has to define for the description that
    /// `reference` names; `UnknownSpec` where it names none.
    pub fn definition(&self, reference: SpecRef) -> (definition: Result<Definition, DefineError>)
        ensures
            match definition {
                Ok(wanted) => reference.index < self@.len() && wanted@ == spec_definition(
                    self@,
                    reference.index as nat,
                ),
                Err(error) => reference.index >= self@.len() && error == DefineError::UnknownSpec,
            },
    {
        proof {
            use_type_invariant(self);
        }
        if reference.index >= self.specs.len() {
            return Err(DefineError::UnknownSpec);
        }
        assert(self@[reference.index as int] == self.specs@[reference.index as int].view());
        let superclass = match self.specs[reference.index].superclass {
            Some(parent) => Some(self.path_at(parent)),
            None => None,
        };
        Ok(
            Definition {
                kind: self.specs[reference.index].kind,
                path: self.path_at(reference.index),
                superclass,
            },
        )
    }

    /// The call that defines what `reference` names in the virtual machine;
    /// `UnknownSpec` where it names no description. The reply to the call
    /// goes to [`Registry::defined`].
    pub fn define(&self, reference: SpecRef) -> (call: Result<VmCall, DefineError>)
        ensures
            match call {
                Ok(wanted) => reference.index < self@.len() && wanted@ == VmCallView::Define(
                    spec_definition(self@, reference.index as nat),
                ),
                Err(error) => reference.index >= self@.len() && error == DefineError::UnknownSpec,
            },
    {
        match self.definition(reference) {
            Ok(definition) => Ok(VmCall::Define(definition)),
            Err(error) => Err(error),
        }
    }

    /// Takes note of what the virtual machine replied to the definition of
    /// what `reference` names.
    ///
    /// Where the virtual machine has done it, the description is marked as
    /// defined. Where it failed, the failure is handed on as `Rejected` and
    /// nothing changes. `UnknownSpec`, and nothing changed, where
    /// `reference` names no description.
    pub fn defined(&mut self, reference: SpecRef, reply: &Reply) -> (done: Result<(), DefineError>)
        ensures
            spec_well_formed(final(self)@),
            if reference.index >= old(self)@.len() {
                done == Err::<(), DefineError>(DefineError::UnknownSpec) && final(self)@ == old(self)@
            } else {
                match reply@ {
                    ReplyView::Failed(reason) => final(self)@ == old(self)@ && (done matches Err(
                        DefineError::Rejected(text),
                    ) && text@ == reason),
                    _ => done == Ok::<(), DefineError>(()) && final(self)@ == old(self)@.update(
                        reference.index as int,
                        SpecView { defined: true, ..old(self)@[reference.index as int] },
                    ),
                }
            },
    {
        proof {
            use_type_invariant(&*self);
        }
        if reference.index >= self.specs.len() {
            return Err(DefineError::UnknownSpec);
        }
        assert(self@[reference.index as int] == self.specs@[reference.index as int].view());
        match reply {
            Reply::Failed(reason) => Err(DefineError::Rejected(reason.clone())),
            _ => {
                let spec = Spec {
                    identity: self.specs[reference.index].identity,
                    kind: self.specs[reference.index].kind,
                    name: self.specs[reference.index].name.clone(),
                    superclass: self.specs[reference.index].superclass,
                    enclosing: self.specs[reference.index].enclosing,
                    defined: true,
                };
                self.replace(reference.index, spec);
                Ok(())
            },
        }
    }
}

/// Registration is idempotent. Once an identity is registered, registering
/// it again finds the same description and changes nothing.
pub proof fn lemma_register_again(specs: Seq<SpecView>, spec: SpecView)
    requires
        spec_well_formed(specs),
        spec_lookup(specs, spec.identity) is None,
        spec_well_formed(specs.push(spec)),
    ensures
        spec_lookup(specs.push(spec), spec.identity) == Some(specs.len()),
{
    let after = specs.push(spec);
    assert(after[specs.len() as int].identity == spec.identity);
    lemma_lookup(after, spec.identity, specs.len() as int);
}

/// Descriptions keep their names. Whatever is registered later, and
/// whichever superclass is attached or definition noted, the qualified name
/// of a description stays what it was.
pub proof fn lemma_path_is_stable(before: Seq<SpecView>, after: Seq<SpecView>, index: nat)
    requires
        index < before.len() <= after.len(),
        forall|i: int|
            0 <= i < before.len() ==> (#[trigger] after[i]).name == before[i].name && after[i].enclosing
                == before[i].enclosing,
    ensures
        spec_path(after, index) == spec_path(before, index),
        spec_fqname(spec_path(after, index)) == spec_fqname(spec_path(before, index)),
    decreases index,
{
    assert(after[index as int].name == before[index as int].name);
    match before[index as int].enclosing {
        Some(outer) => {
            if outer < index {
                lemma_path_is_stable(before, after, outer);
            }
        },
        None => {},
    }
}

} // verus!

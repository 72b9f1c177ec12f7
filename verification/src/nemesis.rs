//! The Nemesis gem: a module `Nemesis` and a class `Nemesis::Response`,
//! each with a native loader, beside the source files that the gem brings.

use crate::def::{spec_lookup, Kind, SpecRef, SpecView};
use crate::error::MrbError;
use crate::interpreter::Mrb;
use crate::source::{spec_source_path, spec_with_loader};
use crate::state::{spec_of_kind, spec_registered, StateView};
use crate::vfs::{spec_is_dir, spec_write_file, NativeLoader, NodeView, VfsError};
use vstd::prelude::*;
use vstd::string::*;

verus! {

/// Name of the module of the gem.
pub const NEMESIS: &'static str = "Nemesis";

/// Name of the class of responses, inside the module of the gem.
pub const RESPONSE: &'static str = "Response";

/// The file whose `require` defines the module of the gem.
pub const NEMESIS_FILE: &'static str = "nemesis.rb";

/// The file whose `require` defines the class of responses.
pub const RESPONSE_FILE: &'static str = "nemesis/response.rb";

/// Identity of the host type [`Nemesis`].
pub const NEMESIS_TYPE: u64 = 1;

/// Identity of the host type [`Response`].
pub const RESPONSE_TYPE: u64 = 2;

/// One source file of the gem.
#[derive(Debug, Clone, PartialEq, Eq)]
pub struct Source {
    pub path: String,
    pub contents: Vec<u8>,
}

/// A [`Source`] over plain values.
pub struct SourceView {
    pub path: Seq<char>,
    pub contents: Seq<u8>,
}

impl View for Source {
    type V = SourceView;

    open spec fn view(&self) -> SourceView {
        SourceView { path: self.path@, contents: self.contents@ }
    }
}

/// The gem, with the source files that it brings.
#[derive(Debug, Clone, PartialEq, Eq)]
pub struct Nemesis {
    pub sources: Vec<Source>,
}

impl View for Nemesis {
    type V = Seq<SourceView>;

    open spec fn view(&self) -> Seq<SourceView> {
        Seq::new(self.sources@.len(), |i: int| self.sources@[i]@)
    }
}

/// The class of responses of the gem.
#[derive(Debug)]
pub struct Response;

/// The place of the first of `sources` that has the path `path`, if there
/// is one.
pub open spec fn spec_find(sources: Seq<SourceView>, path: Seq<char>) -> Option<int>
    decreases sources.len(),
{
    if sources.len() == 0 {
        None
    } else {
        match spec_find(sources.drop_last(), path) {
            Some(first) => Some(first),
            None => if sources.last().path == path {
                Some(sources.len() - 1)
            } else {
                None
            },
        }
    }
}

/// The contents that the gem with the sources `sources` has under `path`:
/// those of the first source with that path.
pub open spec fn spec_contents(sources: Seq<SourceView>, path: Seq<char>) -> Seq<u8> {
    match spec_find(sources, path) {
        Some(first) => sources[first].contents,
        None => Seq::empty(),
    }
}

/// The filesystem `files` after the first `upto` of `sources` have been
/// registered in order, each with the contents that the gem has under its
/// path; and whether all of them were accepted. Registration stops at the
/// first path that is a directory.
pub open spec fn spec_def_sources(files: Map<Seq<char>, NodeView>, sources: Seq<SourceView>, upto: nat) -> (
    Map<Seq<char>, NodeView>,
    bool,
)
    decreases upto,
{
    if upto == 0 {
        (files, true)
    } else {
        let (before, accepted) = spec_def_sources(files, sources, (upto - 1) as nat);
        let source = sources[upto - 1];
        let path = spec_source_path(source.path);
        if !accepted || spec_is_dir(before, path) {
            (before, false)
        } else {
            (spec_write_file(before, path, spec_contents(sources, source.path)), true)
        }
    }
}

/// The filesystem `files` after `loader` has been registered for
/// `filename`, and whether that was accepted; nothing is done where
/// `accepted` says that an earlier step was refused.
pub open spec fn spec_def_file(
    files: Map<Seq<char>, NodeView>,
    accepted: bool,
    filename: Seq<char>,
    loader: NativeLoader,
) -> (Map<Seq<char>, NodeView>, bool) {
    if !accepted || spec_is_dir(files, spec_source_path(filename)) {
        (files, false)
    } else {
        (spec_with_loader(files, spec_source_path(filename), loader), true)
    }
}

/// The filesystem `files` after the gem with the sources `sources` has been
/// set up, and whether all of it was accepted: the sources are registered
/// in order, then the native loaders of the two files of the gem.
pub open spec fn spec_init(files: Map<Seq<char>, NodeView>, sources: Seq<SourceView>) -> (
    Map<Seq<char>, NodeView>,
    bool,
) {
    let (with_sources, sourced) = spec_def_sources(files, sources, sources.len());
    let (with_module, loaded) = spec_def_file(
        with_sources,
        sourced,
        NEMESIS_FILE@,
        NativeLoader { id: NEMESIS_TYPE },
    );
    spec_def_file(with_module, loaded, RESPONSE_FILE@, NativeLoader { id: RESPONSE_TYPE })
}

proof fn lemma_find(sources: Seq<SourceView>, path: Seq<char>, upto: int)
    requires
        0 <= upto <= sources.len(),
        spec_find(sources.take(upto), path) is Some,
    ensures
        spec_find(sources, path) == spec_find(sources.take(upto), path),
    decreases sources.len() - upto,
{
    if upto < sources.len() {
        assert(sources.take(upto + 1).drop_last() =~= sources.take(upto));
        lemma_find(sources, path, upto + 1);
    } else {
        assert(sources.take(upto) =~= sources);
    }
}

impl Nemesis {
    /// The native loader of the module of the gem.
    pub fn loader() -> (loader: NativeLoader)
        ensures
            loader == (NativeLoader { id: NEMESIS_TYPE }),
    {
        NativeLoader { id: NEMESIS_TYPE }
    }

    /// The contents of the source file `path` of the gem: those of the
    /// first source with that path. `SourceNotFound` with the path where the
    /// gem has no such file.
    pub fn contents(&self, path: &str) -> (contents: Result<Vec<u8>, MrbError>)
        ensures
            match contents {
                Ok(bytes) => spec_find(self@, path@) matches Some(first) && bytes@
                    == self@[first].contents,
                Err(error) => spec_find(self@, path@) is None && (error matches MrbError::SourceNotFound(
                    missing,
                ) && missing@ == path@),
            },
    {
        let wanted = String::from_str(path);
        let mut i: usize = 0;
        while i < self.sources.len()
            invariant
                i <= self.sources@.len(),
                wanted@ == path@,
                spec_find(self@.take(i as int), path@) is None,
            decreases self.sources@.len() - i,
        {
            proof {
                assert(self@[i as int] == self.sources@[i as int]@);
                assert(self@.take(i + 1).drop_last() =~= self@.take(i as int));
                assert(self@.take(i + 1).last() == self@[i as int]);
            }
            if self.sources[i].path == wanted {
                proof {
                    lemma_find(self@, path@, i + 1);
                }
                return Ok(self.sources[i].contents.clone());
            }
            i += 1;
        }
        assert(self@.take(self@.len() as int) =~= self@);
        Err(MrbError::SourceNotFound(wanted))
    }

    /// The native loader of `nemesis.rb`: registers the module `Nemesis`.
    /// Nothing changes where the host type is registered already.
    pub fn require(interp: &mut Mrb) -> (done: Result<(), MrbError>)
        ensures
            done is Ok,
            final(interp)@.vfs == old(interp)@.vfs,
            final(interp)@.contexts == old(interp)@.contexts,
            final(interp)@.arena == old(interp)@.arena,
            exists|spec: SpecRef|
                spec_registered(
                    old(interp)@.registry,
                    final(interp)@.registry,
                    Ok(spec),
                    NEMESIS_TYPE,
                    Kind::Module,
                    NEMESIS@,
                    None,
                ),
    {
        let registered = interp.def_module(NEMESIS_TYPE, NEMESIS, None);
        match registered {
            Ok(spec) => {
                assert(spec_registered(
                    old(interp)@.registry,
                    interp@.registry,
                    Ok(spec),
                    NEMESIS_TYPE,
                    Kind::Module,
                    NEMESIS@,
                    None,
                ));
            },
            Err(_) => {},
        }
        Ok(())
    }

    /// Sets the gem up in the interpreter: registers every source file of
    /// the gem, then the native loaders of `nemesis.rb` and of
    /// `nemesis/response.rb`.
    ///
    /// The first path that is a directory ends the setting up with
    /// `Vfs(IsDirectory)`; what was registered before it stays.
    pub fn init(&self, interp: &mut Mrb) -> (done: Result<(), MrbError>)
        ensures
            (final(interp)@.vfs, done is Ok) == spec_init(old(interp)@.vfs, self@),
            final(interp)@.registry == old(interp)@.registry,
            final(interp)@.contexts == old(interp)@.contexts,
            final(interp)@.arena == old(interp)@.arena,
            done matches Err(error) ==> error == MrbError::Vfs(VfsError::IsDirectory),
    {
        let mut i: usize = 0;
        while i < self.sources.len()
            invariant
                i <= self.sources@.len(),
                (interp@.vfs, true) == spec_def_sources(old(interp)@.vfs, self@, i as nat),
                interp@.registry == old(interp)@.registry,
                interp@.contexts == old(interp)@.contexts,
                interp@.arena == old(interp)@.arena,
            decreases self.sources@.len() - i,
        {
            assert(self@[i as int] == self.sources@[i as int]@);
            let ghost before = interp@.vfs;
            let contents = match self.contents(self.sources[i].path.as_str()) {
                Ok(contents) => contents,
                Err(error) => {
                    proof {
                        lemma_found(self@, i as int);
                    }
                    return Err(error);
                },
            };
            match interp.def_rb_source_file(self.sources[i].path.as_str(), contents) {
                Ok(_) => {},
                Err(error) => {
                    proof {
                        lemma_sources_refused(old(interp)@.vfs, self@, i as nat);
                    }
                    return Err(error);
                },
            }
            i += 1;
        }
        match interp.def_file_for_type(NEMESIS_FILE, Nemesis::loader()) {
            Ok(_) => {},
            Err(error) => {
                return Err(error);
            },
        }
        match interp.def_file_for_type(RESPONSE_FILE, Response::loader()) {
            Ok(_) => Ok(()),
            Err(error) => Err(error),
        }
    }
}

proof fn lemma_found(sources: Seq<SourceView>, at: int)
    requires
        0 <= at < sources.len(),
    ensures
        spec_find(sources, sources[at].path) is Some,
    decreases sources.len(),
{
    if at < sources.len() - 1 {
        lemma_found(sources.drop_last(), at);
    }
}

proof fn lemma_sources_refused(files: Map<Seq<char>, NodeView>, sources: Seq<SourceView>, at: nat)
    requires
        at < sources.len(),
        spec_def_sources(files, sources, at).1,
        spec_is_dir(spec_def_sources(files, sources, at).0, spec_source_path(sources[at as int].path)),
    ensures
        spec_init(files, sources) == (spec_def_sources(files, sources, at).0, false),
{
    lemma_sources_stop(files, sources, at, sources.len());
}

proof fn lemma_sources_stop(
    files: Map<Seq<char>, NodeView>,
    sources: Seq<SourceView>,
    at: nat,
    upto: nat,
)
    requires
        at < upto <= sources.len(),
        spec_def_sources(files, sources, at).1,
        spec_is_dir(spec_def_sources(files, sources, at).0, spec_source_path(sources[at as int].path)),
    ensures
        spec_def_sources(files, sources, upto) == (spec_def_sources(files, sources, at).0, false),
    decreases upto,
{
    if upto > at + 1 {
        lemma_sources_stop(files, sources, at, (upto - 1) as nat);
    }
}

impl Response {
    /// The native loader of the class of responses.
    pub fn loader() -> (loader: NativeLoader)
        ensures
            loader == (NativeLoader { id: RESPONSE_TYPE }),
    {
        NativeLoader { id: RESPONSE_TYPE }
    }

    /// The native loader of `nemesis/response.rb`: registers the class
    /// `Response` inside the module `Nemesis`.
    ///
    /// Refused with `NotDefined` and the name of the module, and nothing
    /// changed, where the module has not been registered.
    pub fn require(interp: &mut Mrb) -> (done: Result<(), MrbError>)
        ensures
            final(interp)@.vfs == old(interp)@.vfs,
            final(interp)@.contexts == old(interp)@.contexts,
            final(interp)@.arena == old(interp)@.arena,
            match spec_of_kind(old(interp)@.registry, NEMESIS_TYPE, Kind::Module) {
                Some(parent) => done is Ok && exists|spec: SpecRef|
                    spec_registered(
                        old(interp)@.registry,
                        final(interp)@.registry,
                        Ok(spec),
                        RESPONSE_TYPE,
                        Kind::Class,
                        RESPONSE@,
                        Some(parent),
                    ),
                None => final(interp)@ == old(interp)@ && (done matches Err(
                    MrbError::NotDefined(name),
                ) && name@ == NEMESIS@),
            },
    {
        let parent = match interp.module_spec(NEMESIS_TYPE) {
            Some(parent) => parent,
            None => {
                return Err(MrbError::NotDefined(String::from_str(NEMESIS)));
            },
        };
        let registered = interp.def_class(RESPONSE_TYPE, RESPONSE, Some(parent));
        match registered {
            Ok(spec) => {
                assert(spec_registered(
                    old(interp)@.registry,
                    interp@.registry,
                    Ok(spec),
                    RESPONSE_TYPE,
                    Kind::Class,
                    RESPONSE@,
                    Some(parent),
                ));
            },
            Err(_) => {},
        }
        Ok(())
    }
}

/// Sets the gem up in the interpreter.
pub fn init(interp: &mut Mrb, gem: &Nemesis) -> (done: Result<(), MrbError>)
    ensures
        (final(interp)@.vfs, done is Ok) == spec_init(old(interp)@.vfs, gem@),
        final(interp)@.registry == old(interp)@.registry,
        final(interp)@.contexts == old(interp)@.contexts,
        final(interp)@.arena == old(interp)@.arena,
        done matches Err(error) ==> error == MrbError::Vfs(VfsError::IsDirectory),
{
    gem.init(interp)
}

} // verus!

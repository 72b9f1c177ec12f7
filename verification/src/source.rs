//! Registering what `require` can load: source texts and native loaders.
//!
//! A path may carry a source text, a native loader, or both; the two are
//! registered independently of one another and in any order.

use crate::error::MrbError;
use crate::load::{is_relative, resolve, spec_is_relative, spec_metadata_or_new, spec_resolve};
use crate::state::{State, StateView};
use crate::vfs::{
    spec_is_dir, spec_is_file, spec_write_file, NativeLoader, NodeView, VfsError, VfsMetadata,
};
use vstd::prelude::*;
use vstd::string::*;

verus! {

/// The path under which a source registered as `filename` is kept: a
/// relative name lies below the load root, an absolute one is kept as it is.
pub open spec fn spec_source_path(filename: Seq<char>) -> Seq<char> {
    if spec_is_relative(filename) {
        spec_resolve(filename)
    } else {
        filename
    }
}

/// The filesystem `files` after `loader` has been registered for `path`. A
/// file that is missing is created empty; a file that exists keeps its
/// content and stays required if it was.
pub open spec fn spec_with_loader(
    files: Map<Seq<char>, NodeView>,
    path: Seq<char>,
    loader: NativeLoader,
) -> Map<Seq<char>, NodeView> {
    files.insert(
        path,
        NodeView::File {
            content: if spec_is_file(files, path) {
                files[path]->content
            } else {
                Seq::empty()
            },
            metadata: Some(
                VfsMetadata {
                    require: Some(loader),
                    already_required: spec_metadata_or_new(files, path).already_required,
                },
            ),
        },
    )
}

/// The path under which a source registered as `filename` is kept.
pub fn source_path(filename: &str) -> (path: String)
    ensures
        path@ == spec_source_path(filename@),
{
    if is_relative(filename) {
        resolve(filename)
    } else {
        String::from_str(filename)
    }
}

impl State {
    /// Registers `contents` as the source text of `filename`. A source text
    /// registered before is replaced; a native loader registered for the
    /// same path stays, and so does the note that the file was required.
    ///
    /// Refused with `Vfs(IsDirectory)`, and nothing changed, where the path
    /// is a directory.
    pub fn def_rb_source_file(&mut self, filename: &str, contents: Vec<u8>) -> (done: Result<
        (),
        MrbError,
    >)
        ensures
            match done {
                Ok(_) => !spec_is_dir(old(self)@.vfs, spec_source_path(filename@)) && final(self)@
                    == (StateView {
                    vfs: spec_write_file(old(self)@.vfs, spec_source_path(filename@), contents@),
                    ..old(self)@
                }),
                Err(error) => spec_is_dir(old(self)@.vfs, spec_source_path(filename@)) && error
                    == MrbError::Vfs(VfsError::IsDirectory) && final(self)@ == old(self)@,
            },
    {
        let path = source_path(filename);
        match self.vfs.write_file(path.as_str(), contents) {
            Ok(_) => Ok(()),
            Err(error) => Err(MrbError::Vfs(error)),
        }
    }

    /// Registers `loader` as the native loader of `filename`. Where no file
    /// is there yet, an empty one is created; a source text registered for
    /// the same path stays, and so does the note that the file was required.
    ///
    /// Refused with `Vfs(IsDirectory)`, and nothing changed, where the path
    /// is a directory.
    pub fn def_file_for_type(&mut self, filename: &str, loader: NativeLoader) -> (done: Result<
        (),
        MrbError,
    >)
        ensures
            match done {
                Ok(_) => !spec_is_dir(old(self)@.vfs, spec_source_path(filename@)) && final(self)@
                    == (StateView {
                    vfs: spec_with_loader(old(self)@.vfs, spec_source_path(filename@), loader),
                    ..old(self)@
                }),
                Err(error) => spec_is_dir(old(self)@.vfs, spec_source_path(filename@)) && error
                    == MrbError::Vfs(VfsError::IsDirectory) && final(self)@ == old(self)@,
            },
    {
        let path = source_path(filename);
        if !self.vfs.is_file(path.as_str()) {
            match self.vfs.write_file(path.as_str(), Vec::new()) {
                Ok(_) => {},
                Err(error) => {
                    return Err(MrbError::Vfs(error));
                },
            }
        }
        let known = match self.vfs.metadata(path.as_str()) {
            Some(metadata) => metadata,
            None => VfsMetadata::new(),
        };
        match self.vfs.set_metadata(path.as_str(), known.with_require(loader)) {
            Ok(_) => {
                assert(self@.vfs =~= spec_with_loader(old(self)@.vfs, path@, loader));
                Ok(())
            },
            Err(error) => Err(MrbError::Vfs(error)),
        }
    }
}

/// The order of registration does not matter. Whether the source text or
/// the native loader of a path is registered first, the filesystem ends up
/// the same: the file has the source text as its content and the loader in
/// its metadata.
pub proof fn lemma_registration_order(
    files: Map<Seq<char>, NodeView>,
    path: Seq<char>,
    content: Seq<u8>,
    loader: NativeLoader,
)
    ensures
        spec_with_loader(spec_write_file(files, path, content), path, loader) == spec_write_file(
            spec_with_loader(files, path, loader),
            path,
            content,
        ),
        spec_is_file(spec_with_loader(spec_write_file(files, path, content), path, loader), path),
        spec_with_loader(spec_write_file(files, path, content), path, loader)[path]->content
            == content,
        spec_metadata_or_new(
            spec_with_loader(spec_write_file(files, path, content), path, loader),
            path,
        ).require == Some(loader),
{
    assert(spec_with_loader(spec_write_file(files, path, content), path, loader) =~= spec_write_file(
        spec_with_loader(files, path, loader),
        path,
        content,
    ));
}

} // verus!

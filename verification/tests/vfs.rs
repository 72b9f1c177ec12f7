use mruby::vfs::{ancestors, NativeLoader, Vfs, VfsError, VfsMetadata};

#[test]
fn an_empty_filesystem_holds_nothing() {
    let vfs = Vfs::new();
    assert!(!vfs.is_file("/a"));
    assert!(!vfs.is_dir("/a"));
    assert_eq!(vfs.read_file("/a"), Err(VfsError::NotFound));
    assert_eq!(vfs.metadata("/a"), None);
}

#[test]
fn a_written_file_is_read_back() {
    let mut vfs = Vfs::new();
    assert_eq!(vfs.write_file("/a", vec![1, 2]), Ok(()));
    assert!(vfs.is_file("/a"));
    assert!(!vfs.is_dir("/a"));
    assert_eq!(vfs.read_file("/a"), Ok(vec![1, 2]));
    assert_eq!(vfs.metadata("/a"), None);
    assert!(!vfs.is_file("/b"));
    assert_eq!(vfs.write_file("/a", vec![3]), Ok(()));
    assert_eq!(vfs.read_file("/a"), Ok(vec![3]));
}

#[test]
fn metadata_is_kept_when_the_content_changes() {
    let metadata = VfsMetadata::new().with_require(NativeLoader { id: 3 }).mark_required();
    let mut vfs = Vfs::new();
    assert_eq!(vfs.write_file("/a", vec![1]), Ok(()));
    assert_eq!(vfs.set_metadata("/a", metadata), Ok(()));
    assert_eq!(vfs.write_file("/a", vec![2]), Ok(()));
    assert_eq!(vfs.metadata("/a"), Some(metadata));
    assert_eq!(vfs.read_file("/a"), Ok(vec![2]));
}

#[test]
fn metadata_is_set_on_files_only() {
    let mut vfs = Vfs::new();
    assert_eq!(vfs.set_metadata("/a", VfsMetadata::new()), Err(VfsError::NotFound));
    assert_eq!(vfs.create_dir("/d"), Ok(()));
    assert_eq!(vfs.set_metadata("/d", VfsMetadata::new()), Err(VfsError::NotFound));
    assert_eq!(vfs.metadata("/d"), None);
    assert_eq!(vfs.read_file("/d"), Err(VfsError::NotFound));
}

#[test]
fn a_directory_is_no_file() {
    let mut vfs = Vfs::new();
    assert_eq!(vfs.create_dir("/d"), Ok(()));
    assert!(vfs.is_dir("/d"));
    assert!(!vfs.is_file("/d"));
    assert_eq!(vfs.write_file("/d", vec![]), Err(VfsError::IsDirectory));
    assert_eq!(vfs.create_dir("/d"), Ok(()));
    assert!(vfs.is_dir("/d"));
}

#[test]
fn a_file_is_no_directory() {
    let mut vfs = Vfs::new();
    assert_eq!(vfs.write_file("/f", vec![7]), Ok(()));
    assert_eq!(vfs.create_dir("/f"), Err(VfsError::IsFile));
    assert_eq!(vfs.create_dir_all("/f/g"), Err(VfsError::IsFile));
    assert!(!vfs.is_dir("/f/g"));
    assert_eq!(vfs.read_file("/f"), Ok(vec![7]));
}

#[test]
fn ancestors_are_the_path_and_the_directories_above_it() {
    assert_eq!(ancestors("/src/lib"), vec!["/src".to_owned(), "/src/lib".to_owned()]);
    assert_eq!(ancestors("a/b/c"), vec!["a".to_owned(), "a/b".to_owned(), "a/b/c".to_owned()]);
    assert_eq!(ancestors("a"), vec!["a".to_owned()]);
    assert_eq!(ancestors(""), Vec::<String>::new());
    assert_eq!(ancestors("/"), vec!["/".to_owned()]);
}

#[test]
fn create_dir_all_makes_every_directory_above() {
    let mut vfs = Vfs::new();
    assert_eq!(vfs.write_file("/other", vec![1]), Ok(()));
    assert_eq!(vfs.create_dir_all("/a/b/c"), Ok(()));
    assert!(vfs.is_dir("/a"));
    assert!(vfs.is_dir("/a/b"));
    assert!(vfs.is_dir("/a/b/c"));
    assert!(!vfs.is_dir("/a/b/c/d"));
    assert!(vfs.is_file("/other"));
    assert_eq!(vfs.create_dir_all("/a/b"), Ok(()));
    assert!(vfs.is_dir("/a/b/c"));
}

#[test]
fn metadata_is_built_step_by_step() {
    let fresh = VfsMetadata::new();
    assert_eq!(fresh, VfsMetadata { require: None, already_required: false });
    assert!(!fresh.is_already_required());
    assert!(!fresh.has_native_loader());
    let loaded = fresh.with_require(NativeLoader { id: 1 });
    assert!(loaded.has_native_loader());
    assert!(!loaded.is_already_required());
    let required = loaded.mark_required();
    assert_eq!(required, VfsMetadata { require: Some(NativeLoader { id: 1 }), already_required: true });
    assert_eq!(required.mark_required(), required);
    assert!(required.with_require(NativeLoader { id: 2 }).is_already_required());
}

#[test]
fn filesystem_errors_have_texts() {
    assert_eq!(VfsError::NotFound.message(), "entity not found");
    assert_eq!(VfsError::IsDirectory.message(), "is a directory");
    assert_eq!(VfsError::IsFile.message(), "is a file");
}

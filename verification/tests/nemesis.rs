use mruby::def::Kind;
use mruby::error::MrbError;
use mruby::nemesis::{init, Nemesis, Response, Source, NEMESIS_TYPE, RESPONSE_TYPE};
use mruby::state::State;
use mruby::vfs::{NativeLoader, VfsError, VfsMetadata};

fn gem() -> Nemesis {
    Nemesis {
        sources: vec![
            Source { path: "nemesis.rb".to_owned(), contents: b"module Nemesis; end".to_vec() },
            Source { path: "nemesis/response.rb".to_owned(), contents: b"# response".to_vec() },
            Source { path: "nemesis/request.rb".to_owned(), contents: b"# request".to_vec() },
        ],
    }
}

#[test]
fn contents_are_found_by_path() {
    let gem = gem();
    assert_eq!(gem.contents("nemesis/request.rb"), Ok(b"# request".to_vec()));
    assert_eq!(gem.contents("nemesis.rb"), Ok(b"module Nemesis; end".to_vec()));
    assert_eq!(
        gem.contents("nemesis/missing.rb"),
        Err(MrbError::SourceNotFound("nemesis/missing.rb".to_owned()))
    );
    assert_eq!(
        Nemesis { sources: vec![] }.contents("nemesis.rb"),
        Err(MrbError::SourceNotFound("nemesis.rb".to_owned()))
    );
}

#[test]
fn of_two_sources_with_one_path_the_first_counts() {
    let gem = Nemesis {
        sources: vec![
            Source { path: "a.rb".to_owned(), contents: vec![1] },
            Source { path: "a.rb".to_owned(), contents: vec![2] },
        ],
    };
    assert_eq!(gem.contents("a.rb"), Ok(vec![1]));
    let mut interp = State::new();
    assert_eq!(init(&mut interp, &gem), Ok(()));
    assert_eq!(interp.vfs.read_file("/src/lib/a.rb"), Ok(vec![1]));
}

#[test]
fn init_registers_sources_and_loaders() {
    let mut interp = State::new();
    assert_eq!(init(&mut interp, &gem()), Ok(()));
    assert_eq!(interp.vfs.read_file("/src/lib/nemesis.rb"), Ok(b"module Nemesis; end".to_vec()));
    assert_eq!(interp.vfs.read_file("/src/lib/nemesis/request.rb"), Ok(b"# request".to_vec()));
    assert_eq!(
        interp.vfs.metadata("/src/lib/nemesis.rb"),
        Some(VfsMetadata { require: Some(NativeLoader { id: NEMESIS_TYPE }), already_required: false })
    );
    assert_eq!(
        interp.vfs.metadata("/src/lib/nemesis/response.rb"),
        Some(VfsMetadata { require: Some(NativeLoader { id: RESPONSE_TYPE }), already_required: false })
    );
    assert_eq!(interp.vfs.metadata("/src/lib/nemesis/request.rb"), None);
    assert_eq!(Nemesis::loader(), NativeLoader { id: NEMESIS_TYPE });
    assert_eq!(Response::loader(), NativeLoader { id: RESPONSE_TYPE });
}

#[test]
fn init_without_sources_creates_empty_files() {
    let mut interp = State::new();
    assert_eq!(Nemesis { sources: vec![] }.init(&mut interp), Ok(()));
    assert_eq!(interp.vfs.read_file("/src/lib/nemesis.rb"), Ok(vec![]));
    assert_eq!(interp.vfs.read_file("/src/lib/nemesis/response.rb"), Ok(vec![]));
}

#[test]
fn init_stops_at_a_directory() {
    let mut interp = State::new();
    interp.vfs.create_dir_all("/src/lib/nemesis/response.rb").expect("mkdir");
    assert_eq!(init(&mut interp, &gem()), Err(MrbError::Vfs(VfsError::IsDirectory)));
    assert!(interp.vfs.is_file("/src/lib/nemesis.rb"));
    assert!(!interp.vfs.is_file("/src/lib/nemesis/request.rb"));
    assert_eq!(interp.vfs.metadata("/src/lib/nemesis.rb"), None);
}

#[test]
fn response_needs_the_module() {
    let mut interp = State::new();
    assert_eq!(
        Response::require(&mut interp),
        Err(MrbError::NotDefined("Nemesis".to_owned()))
    );
    assert_eq!(interp.registry.len(), 0);
    assert_eq!(Nemesis::require(&mut interp), Ok(()));
    assert_eq!(Response::require(&mut interp), Ok(()));
    let module = interp.module_spec(NEMESIS_TYPE).expect("module");
    let class = interp.class_spec(RESPONSE_TYPE).expect("class");
    assert_eq!(interp.registry.kind(module), Some(Kind::Module));
    assert_eq!(interp.registry.fqname(module), Some("Nemesis".to_owned()));
    assert_eq!(interp.registry.fqname(class), Some("Nemesis::Response".to_owned()));
    assert_eq!(Nemesis::require(&mut interp), Ok(()));
    assert_eq!(Response::require(&mut interp), Ok(()));
    assert_eq!(interp.registry.len(), 2);
}

#[test]
fn a_class_under_the_identity_of_the_module_is_no_module() {
    let mut interp = State::new();
    interp.def_class(NEMESIS_TYPE, "Nemesis", None).expect("class");
    assert_eq!(
        Response::require(&mut interp),
        Err(MrbError::NotDefined("Nemesis".to_owned()))
    );
}

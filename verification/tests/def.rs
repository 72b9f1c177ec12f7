use mruby::def::{fqname, DefineError, Kind, Registry, SpecRef};
use mruby::state::State;
use mruby::vm::{Reply, VmCall};

#[test]
fn registering_is_idempotent() {
    let mut registry = Registry::new();
    let first = registry.register(10, Kind::Module, "Nemesis", None, None);
    assert_eq!(first, Ok(SpecRef { index: 0 }));
    let again = registry.register(10, Kind::Class, "Other", None, None);
    assert_eq!(again, Ok(SpecRef { index: 0 }));
    assert_eq!(registry.len(), 1);
    assert_eq!(registry.kind(SpecRef { index: 0 }), Some(Kind::Module));
    assert_eq!(registry.fqname(SpecRef { index: 0 }), Some("Nemesis".to_owned()));
    assert_eq!(registry.lookup(10), Some(SpecRef { index: 0 }));
    assert_eq!(registry.lookup(11), None);
}

#[test]
fn qualified_names_follow_the_enclosing_scopes() {
    let mut registry = Registry::new();
    let outer = registry.register(1, Kind::Module, "A", None, None).expect("A");
    let middle = registry.register(2, Kind::Class, "B", None, Some(outer)).expect("B");
    let inner = registry.register(3, Kind::Class, "C", None, Some(middle)).expect("C");
    assert_eq!(registry.fqname(inner), Some("A::B::C".to_owned()));
    assert_eq!(registry.fqname(middle), Some("A::B".to_owned()));
    assert_eq!(
        registry.path(inner),
        Some(vec!["A".to_owned(), "B".to_owned(), "C".to_owned()])
    );
    assert_eq!(registry.path(SpecRef { index: 3 }), None);
    assert_eq!(registry.fqname(SpecRef { index: 3 }), None);
    assert_eq!(fqname(&vec![]), "");
    assert_eq!(fqname(&vec!["A".to_owned()]), "A");
    assert_eq!(fqname(&vec!["A".to_owned(), "B".to_owned()]), "A::B");
}

#[test]
fn references_have_to_be_known() {
    let mut registry = Registry::new();
    let unknown = Some(SpecRef { index: 5 });
    assert_eq!(registry.register(1, Kind::Class, "A", None, unknown), Err(DefineError::UnknownSpec));
    assert_eq!(registry.register(1, Kind::Class, "A", unknown, None), Err(DefineError::UnknownSpec));
    assert_eq!(registry.len(), 0);
    assert_eq!(registry.definition(SpecRef { index: 0 }), Err(DefineError::UnknownSpec));
    assert_eq!(registry.define(SpecRef { index: 0 }), Err(DefineError::UnknownSpec));
    assert_eq!(registry.defined(SpecRef { index: 0 }, &Reply::Done), Err(DefineError::UnknownSpec));
    assert_eq!(registry.kind(SpecRef { index: 0 }), None);
    assert!(!registry.is_defined(SpecRef { index: 0 }));
}

#[test]
fn a_superclass_is_a_class_of_a_class() {
    let mut registry = Registry::new();
    let module = registry.register(1, Kind::Module, "M", None, None).expect("M");
    let class = registry.register(2, Kind::Class, "C", None, None).expect("C");
    assert_eq!(
        registry.register(3, Kind::Class, "D", Some(module), None),
        Err(DefineError::NotAClass)
    );
    assert_eq!(
        registry.register(3, Kind::Module, "D", Some(class), None),
        Err(DefineError::NotAClass)
    );
    let child = registry.register(3, Kind::Class, "D", Some(class), None).expect("D");
    let definition = registry.definition(child).expect("definition");
    assert_eq!(definition.kind, Kind::Class);
    assert_eq!(definition.path, vec!["D".to_owned()]);
    assert_eq!(definition.superclass, Some(vec!["C".to_owned()]));
    assert_eq!(registry.with_super_class(module, class), Err(DefineError::NotAClass));
    assert_eq!(registry.with_super_class(class, module), Err(DefineError::NotAClass));
    assert_eq!(registry.with_super_class(child, class), Err(DefineError::Sealed));
    assert_eq!(registry.with_super_class(class, SpecRef { index: 9 }), Err(DefineError::UnknownSpec));
}

#[test]
fn a_superclass_is_attached_once_and_before_the_definition() {
    let mut registry = Registry::new();
    let exception = registry.register(1, Kind::Class, "Exception", None, None).expect("E");
    let script = registry.register(2, Kind::Class, "ScriptError", None, None).expect("S");
    let load = registry.register(3, Kind::Class, "LoadError", None, None).expect("L");
    assert_eq!(registry.with_super_class(script, exception), Ok(()));
    assert_eq!(registry.with_super_class(script, exception), Err(DefineError::Sealed));
    match registry.define(script) {
        Ok(VmCall::Define(definition)) => {
            assert_eq!(definition.path, vec!["ScriptError".to_owned()]);
            assert_eq!(definition.superclass, Some(vec!["Exception".to_owned()]));
        }
        other => panic!("unexpected {:?}", other),
    }
    assert!(!registry.is_defined(load));
    assert_eq!(
        registry.defined(load, &Reply::Failed("superclass mismatch".to_owned())),
        Err(DefineError::Rejected("superclass mismatch".to_owned()))
    );
    assert!(!registry.is_defined(load));
    assert_eq!(registry.defined(load, &Reply::Done), Ok(()));
    assert!(registry.is_defined(load));
    assert_eq!(registry.with_super_class(load, script), Err(DefineError::Sealed));
    assert_eq!(registry.definition(load).expect("definition").superclass, None);
}

#[test]
fn the_state_finds_specs_by_identity_and_kind() {
    let mut state = State::new();
    let module = state.def_module(1, "Nemesis", None).expect("module");
    let class = state.def_class(2, "Response", Some(module)).expect("class");
    assert_eq!(state.module_spec(1), Some(module));
    assert_eq!(state.class_spec(1), None);
    assert_eq!(state.class_spec(2), Some(class));
    assert_eq!(state.module_spec(2), None);
    assert_eq!(state.module_spec(3), None);
    assert_eq!(state.registry.fqname(class), Some("Nemesis::Response".to_owned()));
    assert_eq!(state.def_class(2, "Again", None), Ok(class));
    assert_eq!(
        state.def_class(4, "Lost", Some(SpecRef { index: 17 })),
        Err(DefineError::UnknownSpec)
    );
    assert_eq!(state.registry.len(), 2);
}

#[test]
fn many_identities_are_found_again() {
    let mut registry = Registry::new();
    for identity in 0..200u64 {
        let name = format!("C{}", identity);
        let spec = registry.register(identity * 7, Kind::Class, &name, None, None).expect("spec");
        assert_eq!(spec, SpecRef { index: identity as usize });
    }
    for identity in 0..200u64 {
        let found = registry.lookup(identity * 7).expect("found");
        assert_eq!(found, SpecRef { index: identity as usize });
        assert_eq!(registry.fqname(found), Some(format!("C{}", identity)));
    }
    assert_eq!(registry.lookup(1), None);
    assert_eq!(registry.len(), 200);
}

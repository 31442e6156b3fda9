use naga_oil::compose::Composer;
use std::path::PathBuf;

use renderer::resource_store::shader::{BuildShaderError, InitializationError, ShaderStore};

#[test]
fn test_missing_module_name() {
    let mut naga_oil_composer = Composer::default();
    let test_shaders = ["fn test() {}"];
    let ret = ShaderStore::load_shader_lib(&mut naga_oil_composer, &test_shaders);
    assert!(ret.is_err());
    assert_eq!(
        ret.unwrap_err().message(),
        "Missing `#define_import_path` in a lib shader shader_str: `fn test() {}`"
    );
}

#[test]
fn test_missing_import() {
    let mut naga_oil_composer = Composer::default();
    let test_shaders = ["
            #define_import_path test_module
            fn test() { missing_module::foo() }"];
    let ret = ShaderStore::load_shader_lib(&mut naga_oil_composer, &test_shaders);
    assert!(ret.is_err());
    assert_eq!(
        ret.unwrap_err().message(),
        "Imported module `missing_module` not found. Import located in module `test_module`"
    );
}

#[test]
fn test_existing_module_import() {
    let mut naga_oil_composer = Composer::default();
    let test_shaders = [
        "#define_import_path test_module
             fn test() { existing_module::foo() }",
        "#define_import_path existing_module
             fn foo() {}",
    ];
    let ret = ShaderStore::load_shader_lib(&mut naga_oil_composer, &test_shaders);
    assert!(ret.is_ok());
}

#[test]
fn lib_modules_end_up_in_composer() {
    let mut composer = Composer::default();
    let test_shaders = [
        "#define_import_path test_module
             fn test() { existing_module::foo() }",
        "#define_import_path existing_module
             fn foo() {}",
    ];
    assert!(ShaderStore::load_shader_lib(&mut composer, &test_shaders).is_ok());
    assert!(composer.contains_module("test_module"));
    assert!(composer.contains_module("existing_module"));
}

#[test]
fn first_unnamed_shader_is_reported() {
    let mut composer = Composer::default();
    let test_shaders = [
        "#define_import_path named
             fn a() {}",
        "fn first() {}",
        "fn second() {}",
    ];
    let ret = ShaderStore::load_shader_lib(&mut composer, &test_shaders);
    match ret {
        Err(InitializationError::MissingDefinitionOfImportPath { shader_str }) => {
            assert_eq!(shader_str, "fn first() {}")
        }
        _ => panic!("expected a missing module name"),
    }
    // nothing was added before the error
    assert!(!composer.contains_module("named"));
}

#[test]
fn chain_of_imports_is_resolved_in_order() {
    let mut composer = Composer::default();
    let test_shaders = [
        "#define_import_path top
             fn t() -> f32 { return middle::m(); }",
        "#define_import_path middle
             fn m() -> f32 { return bottom::b(); }",
        "#define_import_path bottom
             fn b() -> f32 { return 1.0; }",
    ];
    assert!(ShaderStore::load_shader_lib(&mut composer, &test_shaders).is_ok());
    assert!(composer.contains_module("top"));
    assert!(composer.contains_module("middle"));
    assert!(composer.contains_module("bottom"));
}

#[test]
fn import_already_in_composer_is_accepted() {
    let mut composer = Composer::default();
    assert!(ShaderStore::load_shader_lib(
        &mut composer,
        &["#define_import_path base
             fn foo() {}"]
    )
    .is_ok());
    let ret = ShaderStore::load_shader_lib(
        &mut composer,
        &["#define_import_path user
             fn bar() { base::foo(); }"],
    );
    assert!(ret.is_ok());
    assert!(composer.contains_module("user"));
}

#[test]
fn missing_import_of_nested_module_names_its_caller() {
    let mut composer = Composer::default();
    let test_shaders = [
        "#define_import_path outer
             fn o() { inner::i(); }",
        "#define_import_path inner
             fn i() { nowhere::x(); }",
    ];
    match ShaderStore::load_shader_lib(&mut composer, &test_shaders) {
        Err(InitializationError::ImportError { module_name, caller }) => {
            assert_eq!(module_name, "nowhere");
            assert_eq!(caller, "inner");
        }
        _ => panic!("expected an import error"),
    }
}

#[test]
fn empty_library_loads() {
    let mut composer = Composer::default();
    let empty: [&str; 0] = [];
    assert!(ShaderStore::load_shader_lib(&mut composer, &empty).is_ok());
}

#[test]
fn invalid_library_module_is_a_composer_error() {
    let mut composer = Composer::default();
    let test_shaders = ["#define_import_path broken
             fn f( {"];
    let ret = ShaderStore::load_shader_lib(&mut composer, &test_shaders);
    match ret {
        Err(err @ InitializationError::ComposerError(_)) => {
            assert_eq!(err.message(), "Oil composer error")
        }
        Ok(()) => {}
        Err(_) => panic!("unexpected error"),
    }
}

#[test]
fn shader_store_new_with_library() {
    let store = ShaderStore::new(&["#define_import_path lib_module
             fn helper() {}"]);
    assert!(store.is_ok());
}

#[test]
fn shader_store_new_reports_library_error() {
    let store = ShaderStore::new(&["fn helper() {}"]);
    match store {
        Err(err) => assert_eq!(
            err.message(),
            "Missing `#define_import_path` in a lib shader shader_str: `fn helper() {}`"
        ),
        Ok(_) => panic!("expected an error"),
    }
}

#[test]
fn composed_module_uses_library() {
    let mut store = ShaderStore::new(&["#define_import_path lib_module
             fn helper() -> f32 { return 2.0; }"])
    .ok()
    .unwrap();
    let module = store.compose_module(
        "#import lib_module
         @fragment
         fn fs_main() -> @location(0) vec4<f32> { return vec4<f32>(lib_module::helper()); }",
        "shader.wgsl",
        &PathBuf::from("shader.wgsl"),
    );
    assert!(module.is_ok());
    let bad = store.compose_module("fn broken( {", "broken.wgsl", &PathBuf::from("broken.wgsl"));
    match bad {
        Err(BuildShaderError::NagaComposerFailed { file, .. }) => {
            assert_eq!(file, PathBuf::from("broken.wgsl"))
        }
        _ => panic!("expected a composer failure"),
    }
}

#[test]
fn import_error_message() {
    let err = InitializationError::ImportError {
        module_name: "a".to_string(),
        caller: "b".to_string(),
    };
    assert_eq!(
        err.message(),
        "Imported module `a` not found. Import located in module `b`"
    );
    let err = InitializationError::ImportsNotResolved {
        module_name: "c".to_string(),
    };
    assert_eq!(err.message(), "Imports of module `c` could not be resolved");
}

#[test]
fn try_load_checks_composer_room() {
    let mut composer = Composer::default();
    let too_many: Vec<&str> = vec!["fn f() {}"; 2047];
    assert!(ShaderStore::try_load_shader_lib(&mut composer, &too_many).is_none());
    let fine = ["#define_import_path ok_module
             fn f() {}"];
    match ShaderStore::try_load_shader_lib(&mut composer, &fine) {
        Some(Ok(())) => assert!(composer.contains_module("ok_module")),
        _ => panic!("expected the library to load"),
    }
    let unnamed = ["fn g() {}"];
    match ShaderStore::try_load_shader_lib(&mut composer, &unnamed) {
        Some(Err(InitializationError::MissingDefinitionOfImportPath { shader_str })) => {
            assert_eq!(shader_str, "fn g() {}")
        }
        _ => panic!("expected a missing module name"),
    }
}

#[test]
fn later_shader_of_same_name_replaces_earlier() {
    let mut composer = Composer::default();
    let test_shaders = [
        "#define_import_path dup
             fn a() { gone::x(); }",
        "#define_import_path dup
             fn b() {}",
    ];
    // the first definition imports a missing module, but it is replaced
    assert!(ShaderStore::load_shader_lib(&mut composer, &test_shaders).is_ok());
    assert!(composer.contains_module("dup"));
}

#[test]
fn cyclic_imports_are_reported() {
    let mut composer = Composer::default();
    let test_shaders = [
        "#define_import_path cycle_a
             fn fa() { cycle_b::fb() }",
        "#define_import_path cycle_b
             fn fb() { cycle_a::fa() }",
    ];
    match ShaderStore::load_shader_lib(&mut composer, &test_shaders) {
        Err(InitializationError::ImportsNotResolved { module_name }) => {
            assert!(module_name == "cycle_a" || module_name == "cycle_b")
        }
        _ => panic!("expected unresolved imports"),
    }
    assert!(!composer.contains_module("cycle_a"));
    assert!(!composer.contains_module("cycle_b"));
}

#[test]
fn diamond_imports_resolve() {
    let mut composer = Composer::default();
    let test_shaders = [
        "#define_import_path top
             fn t() { left::l(); right::r(); }",
        "#define_import_path left
             fn l() { base::b(); }",
        "#define_import_path right
             fn r() { base::b(); }",
        "#define_import_path base
             fn b() {}",
    ];
    assert!(ShaderStore::load_shader_lib(&mut composer, &test_shaders).is_ok());
    for name in ["top", "left", "right", "base"] {
        assert!(composer.contains_module(name));
    }
}

#[test]
fn new_error_messages() {
    let full = InitializationError::ComposerFull {
        module_name: "m".to_string(),
    };
    assert_eq!(full.message(), "Composer full when adding module `m`");
    let renamed = InitializationError::RegisteredUnderOtherName {
        module_name: "m".to_string(),
    };
    assert_eq!(renamed.message(), "Module `m` was registered under another name");
}

#[test]
fn library_module_already_held_is_kept() {
    let mut composer = Composer::default();
    let first = ["#define_import_path shared
             fn s() {}"];
    assert!(ShaderStore::load_shader_lib(&mut composer, &first).is_ok());
    let second = [
        "#define_import_path user
             fn u() { shared::s(); }",
        "#define_import_path shared
             fn s() {}",
    ];
    assert!(ShaderStore::load_shader_lib(&mut composer, &second).is_ok());
    assert!(composer.contains_module("shared"));
    assert!(composer.contains_module("user"));
}

#[test]
fn missing_import_is_not_held_afterwards() {
    let mut composer = Composer::default();
    let test_shaders = ["#define_import_path needs_ghost
             fn f() { ghost_module::g(); }"];
    match ShaderStore::load_shader_lib(&mut composer, &test_shaders) {
        Err(InitializationError::ImportError { module_name, caller }) => {
            assert_eq!(module_name, "ghost_module");
            assert_eq!(caller, "needs_ghost");
        }
        _ => panic!("expected an import error"),
    }
    assert!(!composer.contains_module("ghost_module"));
}

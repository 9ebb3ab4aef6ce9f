use x07c::types::Ty;
use x07c::validate::{validate_local_name, validate_module_id, validate_symbol, validate_type_name};
use x07c::wasm_emit::features::{supported_features_v1, WasmFeatureSetV1, WasmFeatureV1};
use x07c::wasm_emit::layout::bytes_to_pages_exact;

#[test]
fn module_ids_accept_dotted_identifiers() {
    assert_eq!(validate_module_id("std.bytes"), Ok(()));
    assert_eq!(validate_module_id("  app_1.x-y  "), Ok(()));
    assert_eq!(validate_symbol("main.f"), Ok(()));
}

#[test]
fn module_id_errors() {
    assert_eq!(validate_module_id("   "), Err("module_id must not be empty".to_string()));
    assert_eq!(
        validate_module_id("a/b"),
        Err("invalid module_id (path separators are not allowed): \"a/b\"".to_string())
    );
    assert_eq!(
        validate_module_id("a..b"),
        Err("invalid module_id (empty segment): \"a..b\"".to_string())
    );
    assert_eq!(
        validate_module_id("a.1b"),
        Err("invalid module_id segment start (must be [A-Za-z_]): \"a.1b\" segment=\"1b\"".to_string())
    );
    assert_eq!(
        validate_module_id("a.b$"),
        Err("invalid module_id segment char (allowed [A-Za-z0-9_-]): \"a.b$\" segment=\"b$\"".to_string())
    );
}

#[test]
fn local_and_type_names() {
    assert_eq!(validate_local_name("_x1"), Ok(()));
    assert_eq!(validate_local_name(""), Err("local name must be non-empty".to_string()));
    assert_eq!(
        validate_local_name("1x"),
        Err("invalid local name start (must be [A-Za-z_]): \"1x\"".to_string())
    );
    assert_eq!(
        validate_local_name("x-y"),
        Err("invalid local name char (allowed [A-Za-z0-9_]): \"x-y\"".to_string())
    );
    assert_eq!(validate_type_name("Point_2"), Ok(()));
    assert_eq!(
        validate_type_name("_p"),
        Err("invalid type name start (must be [A-Za-z]): \"_p\"".to_string())
    );
    assert_eq!(validate_type_name(" "), Err("type name must be non-empty".to_string()));
}

#[test]
fn named_types_parse_and_classify() {
    assert_eq!(Ty::parse_named("i32"), Some(Ty::I32));
    assert_eq!(Ty::parse_named("ptr_mut_void"), Some(Ty::PtrMutVoid));
    assert_eq!(Ty::parse_named("never"), None);
    assert!(Ty::I32.is_ffi_ty());
    assert!(!Ty::I32.is_ptr_ty());
    assert!(Ty::PtrConstU8.is_ptr_ty());
    assert!(Ty::PtrConstU8.is_ffi_ty());
    assert!(!Ty::Bytes.is_ffi_ty());
}

#[test]
fn feature_sets() {
    let s = WasmFeatureSetV1::new(&[WasmFeatureV1::OpsArithV1, WasmFeatureV1::OpsArithV1]);
    assert!(s.has(WasmFeatureV1::OpsArithV1));
    assert!(!s.has(WasmFeatureV1::CodecU32LeV1));
    let all = supported_features_v1();
    assert!(all.has(WasmFeatureV1::CodecU32LeV1));
    assert!(all.has(WasmFeatureV1::CoreFormsV1));
    assert_eq!(WasmFeatureV1::ViewReadV1.as_str(), "ViewReadV1");
}

#[test]
fn pages_are_exact() {
    assert_eq!(bytes_to_pages_exact(0), Some(0));
    assert_eq!(bytes_to_pages_exact(65536 * 3), Some(3));
    assert_eq!(bytes_to_pages_exact(65537), None);
    assert_eq!(bytes_to_pages_exact(65536u64 * (1u64 << 32)), None);
}

use x07c::compile::CompileErrorKind;
use x07c::pipe_meta::{
    function_module_id, load_brand_registry_optional_v1, load_brand_registry_v1, load_brand_registry_v1_from_meta_v1,
    BrandMetaEntryV1, BrandsMetaV1,
};

fn entries(items: Vec<(&str, BrandMetaEntryV1)>) -> BrandsMetaV1 {
    BrandsMetaV1::Entries(items.into_iter().map(|(k, v)| (k.to_string(), v)).collect())
}

fn validate(v: &str) -> BrandMetaEntryV1 {
    BrandMetaEntryV1::Validate(v.to_string())
}

fn message<T: std::fmt::Debug>(r: Result<T, x07c::compile::CompilerError>) -> String {
    let e = r.unwrap_err();
    assert_eq!(e.kind, CompileErrorKind::Typing);
    e.message
}

#[test]
fn brands_meta_reads_validators_in_order() {
    let meta = entries(vec![("app.a", validate("app.check_a")), ("app.b", validate("app.check_b"))]);
    let reg = load_brand_registry_v1_from_meta_v1(&meta).unwrap();
    assert_eq!(
        reg,
        vec![
            ("app.a".to_string(), "app.check_a".to_string()),
            ("app.b".to_string(), "app.check_b".to_string())
        ]
    );
    assert!(load_brand_registry_v1_from_meta_v1(&BrandsMetaV1::Absent).unwrap().is_empty());
}

#[test]
fn brands_meta_errors() {
    assert_eq!(message(load_brand_registry_v1_from_meta_v1(&BrandsMetaV1::NotObject)), "meta.brands_v1 must be a JSON object");
    assert_eq!(
        message(load_brand_registry_v1_from_meta_v1(&entries(vec![("app.a", BrandMetaEntryV1::NotObject)]))),
        "meta.brands_v1[\"app.a\"] must be an object"
    );
    assert_eq!(
        message(load_brand_registry_v1_from_meta_v1(&entries(vec![("app.a", BrandMetaEntryV1::MissingValidate)]))),
        "meta.brands_v1[\"app.a\"] missing validate"
    );
    assert_eq!(
        message(load_brand_registry_v1_from_meta_v1(&entries(vec![("app.a", BrandMetaEntryV1::ValidateNotString)]))),
        "meta.brands_v1[\"app.a\"].validate must be a string"
    );
    assert_eq!(
        message(load_brand_registry_v1_from_meta_v1(&entries(vec![("", validate("app.v"))]))),
        "module_id must not be empty"
    );
    assert_eq!(
        message(load_brand_registry_v1_from_meta_v1(&entries(vec![
            ("app.a", validate("app.v")),
            ("app.a", validate("app.w")),
        ]))),
        "meta.brands_v1 duplicate entry for \"app.a\""
    );
}

#[test]
fn registry_by_module() {
    let metas = vec![
        ("app".to_string(), entries(vec![("app.a", validate("app.check_a"))])),
        ("lib".to_string(), BrandsMetaV1::Absent),
    ];
    assert_eq!(load_brand_registry_v1("app", &metas).unwrap().len(), 1);
    assert!(load_brand_registry_v1("lib", &metas).unwrap().is_empty());
    assert_eq!(
        message(load_brand_registry_v1("other", &metas)),
        "brand_registry_ref_v1 refers to unknown module_id: \"other\""
    );
    assert!(load_brand_registry_optional_v1("other", &metas).unwrap().is_empty());
    assert_eq!(load_brand_registry_optional_v1("app", &metas).unwrap()[0].1, "app.check_a");
}

#[test]
fn module_of_function_is_before_last_dot() {
    assert_eq!(function_module_id("std.text.split").unwrap(), "std.text");
    assert_eq!(function_module_id(".f").unwrap(), "");
    let e = function_module_id("main").unwrap_err();
    assert_eq!(e.kind, CompileErrorKind::Internal);
    assert_eq!(e.message, "internal error: function name missing module prefix: \"main\"");
}

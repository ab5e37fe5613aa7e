//! The data model: predicates, symbol accessors, and the non-JavaScript
//! source handlers.

use module_graph::errors::ModuleGraphError;
use module_graph::js::JavaScriptPackageType;
use module_graph::json::JsonModule;
use module_graph::module::{
    Export, ExportKind, ExportedKind, ExportedSymbol, Import, ImportKind, ImportedKind, Module,
    ModuleSourceInfo, Span,
};
use module_graph::yaml::YamlModule;

fn import(kind: ImportKind, source: &str, symbols: Vec<module_graph::module::ImportedSymbol>) -> Import {
    Import {
        kind,
        module_id: 0,
        source_request: source.to_owned(),
        span: Span { start: 0, end: 1 },
        symbols,
        type_only: false,
    }
}

fn symbol(kind: ImportedKind, name: &str) -> module_graph::module::ImportedSymbol {
    module_graph::module::ImportedSymbol {
        kind,
        source_name: None,
        symbol_id: None,
        name: name.to_owned(),
    }
}

#[test]
fn imported_kind_predicates() {
    assert!(ImportedKind::Default.is_default());
    assert!(ImportedKind::DefaultType.is_default());
    assert!(!ImportedKind::Value.is_default());
    assert!(ImportedKind::Namespace.is_namespace());
    assert!(ImportedKind::NamespaceType.is_namespace());
    assert!(!ImportedKind::Default.is_namespace());
    assert!(ImportedKind::DefaultType.is_type());
    assert!(ImportedKind::NamespaceType.is_type());
    assert!(ImportedKind::ValueType.is_type());
    assert!(!ImportedKind::Value.is_type());
}

#[test]
fn exported_kind_predicates() {
    assert!(ExportedKind::Default.is_default());
    assert!(ExportedKind::DefaultType.is_default());
    assert!(ExportedKind::Namespace.is_namespace());
    assert!(!ExportedKind::ValueType.is_namespace());
    assert!(ExportedKind::DefaultType.is_type());
    assert!(ExportedKind::NamespaceType.is_type());
    assert!(ExportedKind::ValueType.is_type());
    assert!(!ExportedKind::Default.is_type());
}

#[test]
fn package_type_predicates() {
    assert!(JavaScriptPackageType::Mjs.is_esm());
    assert!(JavaScriptPackageType::EsmPackageJson.is_esm());
    assert!(!JavaScriptPackageType::Cjs.is_esm());
    assert!(JavaScriptPackageType::Cjs.is_cjs());
    assert!(JavaScriptPackageType::CjsPackageJson.is_cjs());
    assert!(!JavaScriptPackageType::Unknown.is_cjs());
    assert!(!JavaScriptPackageType::Unknown.is_esm());
}

#[test]
fn side_effect_predicate_all_three_conditions() {
    // non-empty request, no symbols, ESM import statement
    assert!(import(ImportKind::AsyncStatic, "./a", vec![]).is_side_effect());
    // a bound symbol defeats it
    assert!(!import(
        ImportKind::AsyncStatic,
        "./a",
        vec![symbol(ImportedKind::Default, "d")]
    )
    .is_side_effect());
    // an empty request defeats it
    assert!(!import(ImportKind::AsyncStatic, "", vec![]).is_side_effect());
    // a dynamic or require-style import defeats it
    assert!(!import(ImportKind::AsyncDynamic, "./a", vec![]).is_side_effect());
    assert!(!import(ImportKind::SyncStatic, "./a", vec![]).is_side_effect());
}

#[test]
fn default_symbol_and_all_symbols() {
    let mut module = Module::new("/p/a.ts".to_owned());
    module.exports.push(Export {
        kind: ExportKind::Modern,
        module_id: None,
        source: None,
        span: None,
        symbols: vec![ExportedSymbol {
            kind: ExportedKind::Value,
            symbol_id: None,
            name: "x".to_owned(),
        }],
        type_only: false,
    });
    module.exports.push(Export {
        kind: ExportKind::Modern,
        module_id: None,
        source: None,
        span: None,
        symbols: vec![
            ExportedSymbol {
                kind: ExportedKind::Default,
                symbol_id: None,
                name: "main".to_owned(),
            },
            ExportedSymbol {
                kind: ExportedKind::Value,
                symbol_id: None,
                name: "y".to_owned(),
            },
        ],
        type_only: false,
    });
    let default = module.get_default_exported_symbol().unwrap();
    assert_eq!(default.name, "main");
    let names: Vec<&str> = module
        .get_exported_symbols()
        .iter()
        .map(|s| s.name.as_str())
        .collect();
    assert_eq!(names, vec!["x", "main", "y"]);

    let empty = Module::new("/p/b.ts".to_owned());
    assert!(empty.get_default_exported_symbol().is_none());
    assert!(empty.get_exported_symbols().is_empty());
}

#[test]
fn external_modules_live_under_node_modules() {
    let external = Module::new("/p/node_modules/dep/index.js".to_owned());
    assert!(external.is_external());
    let local = Module::new("/p/src/index.ts".to_owned());
    assert!(!local.is_external());
}

#[test]
fn json_object_document() {
    let mut module = Module::new("/p/data.json".to_owned());
    JsonModule::parse(&mut module, "{\"a\": 1, \"b\": 2}".to_owned()).unwrap();
    assert_eq!(module.exports.len(), 1);
    let rec = &module.exports[0];
    assert_eq!(rec.kind, ExportKind::Native);
    let names: Vec<&str> = rec.symbols.iter().map(|s| s.name.as_str()).collect();
    assert_eq!(names, vec!["default", "a", "b"]);
    assert_eq!(rec.symbols[0].kind, ExportedKind::Default);
    assert_eq!(rec.symbols[1].kind, ExportedKind::Value);
    assert_eq!(rec.symbols[2].kind, ExportedKind::Value);
    match &module.source {
        ModuleSourceInfo::Json(j) => assert_eq!(j.source, "{\"a\": 1, \"b\": 2}"),
        other => panic!("unexpected source {other:?}"),
    }
    assert_eq!(module.source.kind(), module_graph::module::SourceKind::Json);
}

#[test]
fn source_payloads() {
    let module = Module::new("/p/a.ts".to_owned());
    assert!(module.source.source_bytes().is_empty());
    assert_eq!(module.source.kind(), module_graph::module::SourceKind::Unknown);

    let mut json_module = Module::new("/p/d.json".to_owned());
    JsonModule::parse(&mut json_module, "{}".to_owned()).unwrap();
    assert_eq!(json_module.source.source_bytes(), b"{}");

    let media = ModuleSourceInfo::Media(module_graph::sources::MediaModule {
        bytes: vec![1, 2, 3],
        kind: module_graph::module::SourceKind::Audio,
    });
    assert_eq!(media.source_bytes(), &[1, 2, 3]);
    assert_eq!(media.kind(), module_graph::module::SourceKind::Audio);
}

#[test]
fn json_array_document_exports_default_only() {
    let mut module = Module::new("/p/data.json".to_owned());
    JsonModule::parse(&mut module, "[1, 2, 3]".to_owned()).unwrap();
    let names: Vec<&str> = module.exports[0]
        .symbols
        .iter()
        .map(|s| s.name.as_str())
        .collect();
    assert_eq!(names, vec!["default"]);
}

#[test]
fn json_parse_failure() {
    let mut module = Module::new("/p/data.json".to_owned());
    let err = JsonModule::parse(&mut module, "{broken".to_owned()).unwrap_err();
    match err {
        ModuleGraphError::ParseError { path, .. } => assert_eq!(path, "/p/data.json"),
        other => panic!("unexpected error {other:?}"),
    }
    assert!(module.exports.is_empty());
}

#[test]
fn yaml_mapping_document() {
    let mut module = Module::new("/p/conf.yaml".to_owned());
    YamlModule::parse(&mut module, "a: 1\nb: 2\n".to_owned()).unwrap();
    let names: Vec<&str> = module.exports[0]
        .symbols
        .iter()
        .map(|s| s.name.as_str())
        .collect();
    assert_eq!(names, vec!["default", "a", "b"]);
    assert_eq!(module.source.kind(), module_graph::module::SourceKind::Yaml);
}

#[test]
fn yaml_parse_failure() {
    let mut module = Module::new("/p/conf.yaml".to_owned());
    let err = YamlModule::parse(&mut module, "a: [unclosed".to_owned()).unwrap_err();
    match err {
        ModuleGraphError::ParseError { path, .. } => assert_eq!(path, "/p/conf.yaml"),
        other => panic!("unexpected error {other:?}"),
    }
}

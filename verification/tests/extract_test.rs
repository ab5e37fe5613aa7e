//! Extraction of import/export records from model trees.

use module_graph::ast::{
    ExportAllDecl, ExportDefaultDecl, ExportDefaultKind, ExportNamedDecl, ExportSpecifier,
    ImportDecl, ImportSpecifier, NamedDecl, Node, ObjectProp, Pattern, Program,
};
use module_graph::js::JavaScriptModule;
use module_graph::module::{
    BindingIdent, ExportKind, ExportedKind, ImportKind, ImportedKind, Module, Span,
};

fn span(a: u32, b: u32) -> Span {
    Span { start: a, end: b }
}

fn ident(name: &str) -> BindingIdent {
    BindingIdent {
        name: name.to_owned(),
        symbol_id: None,
    }
}

fn parse(body: Vec<Node>) -> (Module, module_graph::js::JavaScriptStats) {
    let mut module = Module::new("/proj/a.ts".to_owned());
    let program = Program { body };
    let stats = JavaScriptModule::parse_into_module(&mut module, &program, String::new());
    (module, stats)
}

#[test]
fn side_effect_import() {
    // import './b';
    let (module, stats) = parse(vec![Node::ImportDecl(ImportDecl {
        span: span(0, 12),
        source: "./b".to_owned(),
        type_only: false,
        specifiers: None,
    })]);
    assert_eq!(module.imports.len(), 1);
    let rec = &module.imports[0];
    assert_eq!(rec.kind, ImportKind::AsyncStatic);
    assert_eq!(rec.source_request, "./b");
    assert!(rec.symbols.is_empty());
    assert!(!rec.type_only);
    assert!(rec.is_side_effect());
    assert_eq!(stats.import_statements, 1);
    assert_eq!(stats.export_statements, 0);
    assert_eq!(stats.other_statements, 0);
}

#[test]
fn renamed_type_only_named_import() {
    // import { type Foo as Bar } from './x';
    let (module, _) = parse(vec![Node::ImportDecl(ImportDecl {
        span: span(0, 38),
        source: "./x".to_owned(),
        type_only: false,
        specifiers: Some(vec![ImportSpecifier::Named {
            imported: "Foo".to_owned(),
            local: ident("Bar"),
            type_only: true,
        }]),
    })]);
    assert_eq!(module.imports.len(), 1);
    let rec = &module.imports[0];
    assert!(!rec.type_only);
    assert_eq!(rec.symbols.len(), 1);
    let sym = &rec.symbols[0];
    assert_eq!(sym.kind, ImportedKind::ValueType);
    assert_eq!(sym.source_name.as_deref(), Some("Foo"));
    assert_eq!(sym.name, "Bar");
}

#[test]
fn named_import_default_promotion() {
    // import { default as D } from './x';
    let (module, _) = parse(vec![Node::ImportDecl(ImportDecl {
        span: span(0, 35),
        source: "./x".to_owned(),
        type_only: false,
        specifiers: Some(vec![ImportSpecifier::Named {
            imported: "default".to_owned(),
            local: ident("D"),
            type_only: false,
        }]),
    })]);
    let sym = &module.imports[0].symbols[0];
    assert_eq!(sym.kind, ImportedKind::Default);
    assert_eq!(sym.source_name, None);
    assert_eq!(sym.name, "D");
}

#[test]
fn type_only_import_statement_symbols() {
    // import type { T, U as V } from './t';
    let (module, _) = parse(vec![Node::ImportDecl(ImportDecl {
        span: span(0, 37),
        source: "./t".to_owned(),
        type_only: true,
        specifiers: Some(vec![
            ImportSpecifier::Named {
                imported: "T".to_owned(),
                local: ident("T"),
                type_only: false,
            },
            ImportSpecifier::Named {
                imported: "U".to_owned(),
                local: ident("V"),
                type_only: false,
            },
        ]),
    })]);
    let rec = &module.imports[0];
    assert!(rec.type_only);
    assert_eq!(rec.symbols.len(), 2);
    for sym in &rec.symbols {
        assert!(sym.kind.is_type());
    }
}

#[test]
fn type_only_statement_with_default_specifier_promotes() {
    // import type { default as X } from './m';
    // The promotion to a plain default import wins over the statement's
    // `type` prefix, so this is the one shape on which a type-only
    // statement binds a non-type symbol.
    let (module, _) = parse(vec![Node::ImportDecl(ImportDecl {
        span: span(0, 40),
        source: "./m".to_owned(),
        type_only: true,
        specifiers: Some(vec![ImportSpecifier::Named {
            imported: "default".to_owned(),
            local: ident("X"),
            type_only: false,
        }]),
    })]);
    let rec = &module.imports[0];
    assert!(rec.type_only);
    assert_eq!(rec.symbols[0].kind, ImportedKind::Default);
    assert!(!rec.symbols[0].kind.is_type());
}

#[test]
fn export_star_as_namespace() {
    // export * as NS from './m';
    let (module, stats) = parse(vec![Node::ExportAll(ExportAllDecl {
        span: span(0, 26),
        source: "./m".to_owned(),
        type_only: false,
        exported: Some("NS".to_owned()),
    })]);
    assert_eq!(module.exports.len(), 1);
    let rec = &module.exports[0];
    assert_eq!(rec.kind, ExportKind::Modern);
    assert_eq!(rec.source.as_deref(), Some("./m"));
    assert_eq!(rec.symbols.len(), 1);
    assert_eq!(rec.symbols[0].kind, ExportedKind::Namespace);
    assert_eq!(rec.symbols[0].name, "NS");
    assert_eq!(stats.export_statements, 1);
}

#[test]
fn export_star_bare() {
    // export * from './m';
    let (module, _) = parse(vec![Node::ExportAll(ExportAllDecl {
        span: span(0, 20),
        source: "./m".to_owned(),
        type_only: false,
        exported: None,
    })]);
    assert_eq!(module.exports[0].symbols[0].name, "*");
}

#[test]
fn destructured_dynamic_import() {
    // const { default: D, a, b: c, ...rest } = await import('./p');
    // The nested import('./p') is visited a second time while walking the
    // initializer; the span set keeps the record count at one.
    let import_span = span(42, 61);
    let declarator = Node::VarDeclarator {
        id: Pattern::Object {
            props: vec![
                ObjectProp {
                    key: Some("default".to_owned()),
                    value: Pattern::Ident(ident("D")),
                },
                ObjectProp {
                    key: Some("a".to_owned()),
                    value: Pattern::Ident(ident("a")),
                },
                ObjectProp {
                    key: Some("b".to_owned()),
                    value: Pattern::Ident(ident("c")),
                },
            ],
            rest: Some(Box::new(Pattern::Ident(ident("rest")))),
        },
        init: Some(Box::new(Node::Await {
            inner: Box::new(Node::ImportCall {
                span: import_span,
                source: Box::new(Node::Str {
                    value: "./p".to_owned(),
                }),
            }),
        })),
    };
    let (module, stats) = parse(vec![Node::Other {
        children: vec![declarator],
    }]);
    assert_eq!(module.imports.len(), 1);
    let rec = &module.imports[0];
    assert_eq!(rec.kind, ImportKind::AsyncDynamic);
    assert_eq!(rec.source_request, "./p");
    assert!(!rec.type_only);
    assert_eq!(rec.symbols.len(), 4);
    assert_eq!(rec.symbols[0].kind, ImportedKind::Default);
    assert_eq!(rec.symbols[0].name, "D");
    assert_eq!(rec.symbols[1].kind, ImportedKind::Value);
    assert_eq!(rec.symbols[1].name, "a");
    assert_eq!(rec.symbols[1].source_name, None);
    assert_eq!(rec.symbols[2].kind, ImportedKind::Value);
    assert_eq!(rec.symbols[2].name, "c");
    assert_eq!(rec.symbols[2].source_name.as_deref(), Some("b"));
    assert_eq!(rec.symbols[3].kind, ImportedKind::Namespace);
    assert_eq!(rec.symbols[3].name, "rest");
    assert_eq!(stats.dynamic_import_count, 1);
    assert_eq!(stats.other_statements, 1);
}

#[test]
fn legacy_module_exports_named_function() {
    // function greet(){} module.exports = greet;
    let (module, stats) = parse(vec![
        Node::Func {
            id: Some(ident("greet")),
            children: vec![],
        },
        Node::Assign {
            span: span(19, 42),
            target: Box::new(Node::Member {
                span: span(19, 33),
                object: Box::new(Node::Ident {
                    name: "module".to_owned(),
                }),
                prop: "exports".to_owned(),
            }),
            value: Box::new(Node::Ident {
                name: "greet".to_owned(),
            }),
        },
    ]);
    assert_eq!(module.exports.len(), 1);
    let rec = &module.exports[0];
    assert_eq!(rec.kind, ExportKind::Legacy);
    assert_eq!(rec.symbols.len(), 1);
    assert_eq!(rec.symbols[0].kind, ExportedKind::Default);
    assert_eq!(rec.symbols[0].name, "greet");
    assert!(stats.exports_default);
    assert_eq!(stats.other_statements, 2);
}

#[test]
fn legacy_exports_member() {
    // exports.total = 1;
    let (module, _) = parse(vec![Node::Assign {
        span: span(0, 17),
        target: Box::new(Node::Member {
            span: span(0, 13),
            object: Box::new(Node::Ident {
                name: "exports".to_owned(),
            }),
            prop: "total".to_owned(),
        }),
        value: Box::new(Node::Str {
            value: "1".to_owned(),
        }),
    }]);
    assert_eq!(module.exports.len(), 1);
    assert_eq!(module.exports[0].kind, ExportKind::Legacy);
    assert_eq!(module.exports[0].symbols[0].kind, ExportedKind::Value);
    assert_eq!(module.exports[0].symbols[0].name, "total");
}

#[test]
fn nested_require_call() {
    // function f() { const p = require('./q'); require('./r'); }
    let req_span_one = span(20, 34);
    let req_span_two = span(40, 54);
    let body = Node::Func {
        id: Some(ident("f")),
        children: vec![
            Node::VarDeclarator {
                id: Pattern::Ident(ident("p")),
                init: Some(Box::new(Node::Call {
                    span: req_span_one,
                    callee: Box::new(Node::Ident {
                        name: "require".to_owned(),
                    }),
                    args: vec![Node::Str {
                        value: "./q".to_owned(),
                    }],
                })),
            },
            Node::Call {
                span: req_span_two,
                callee: Box::new(Node::Ident {
                    name: "require".to_owned(),
                }),
                args: vec![Node::Str {
                    value: "./r".to_owned(),
                }],
            },
        ],
    };
    let (module, stats) = parse(vec![body]);
    assert_eq!(module.imports.len(), 2);
    assert_eq!(module.imports[0].kind, ImportKind::SyncStatic);
    assert_eq!(module.imports[0].source_request, "./q");
    assert_eq!(module.imports[0].symbols.len(), 1);
    assert_eq!(module.imports[0].symbols[0].kind, ImportedKind::Namespace);
    assert_eq!(module.imports[0].symbols[0].name, "p");
    assert_eq!(module.imports[1].source_request, "./r");
    assert!(module.imports[1].symbols.is_empty());
    assert_eq!(stats.require_count, 2);
}

#[test]
fn import_equals_declaration() {
    // import X = require('./s');
    let (module, stats) = parse(vec![Node::ImportEquals {
        span: span(0, 26),
        id: ident("X"),
        source: Some("./s".to_owned()),
        type_only: false,
    }]);
    assert_eq!(module.imports.len(), 1);
    let rec = &module.imports[0];
    assert_eq!(rec.kind, ImportKind::SyncStatic);
    assert_eq!(rec.source_request, "./s");
    assert_eq!(rec.symbols.len(), 1);
    assert_eq!(rec.symbols[0].kind, ImportedKind::Default);
    assert_eq!(rec.symbols[0].name, "X");
    // not a module declaration: counted among the other statements
    assert_eq!(stats.other_statements, 1);
}

#[test]
fn export_default_forms() {
    // export default function named() {}
    let (m1, _) = parse(vec![Node::ExportDefault(ExportDefaultDecl {
        span: span(0, 34),
        decl: ExportDefaultKind::Func {
            id: Some(ident("named")),
        },
    })]);
    assert_eq!(m1.exports[0].symbols[0].kind, ExportedKind::Default);
    assert_eq!(m1.exports[0].symbols[0].name, "named");
    assert!(!m1.exports[0].type_only);

    // export default class {}
    let (m2, _) = parse(vec![Node::ExportDefault(ExportDefaultDecl {
        span: span(0, 23),
        decl: ExportDefaultKind::Class { id: None },
    })]);
    assert_eq!(m2.exports[0].symbols[0].name, "default");

    // export default value;
    let (m3, _) = parse(vec![Node::ExportDefault(ExportDefaultDecl {
        span: span(0, 21),
        decl: ExportDefaultKind::Ident {
            name: "value".to_owned(),
        },
    })]);
    assert_eq!(m3.exports[0].symbols[0].name, "value");

    // export default interface I {}
    let (m4, _) = parse(vec![Node::ExportDefault(ExportDefaultDecl {
        span: span(0, 29),
        decl: ExportDefaultKind::Interface { id: ident("I") },
    })]);
    assert_eq!(m4.exports[0].symbols[0].kind, ExportedKind::DefaultType);
    assert_eq!(m4.exports[0].symbols[0].name, "I");
    assert!(m4.exports[0].type_only);
}

#[test]
fn export_named_destructuring_flattens() {
    // export const { a, rest: [b, ...c] } = value;
    let (module, _) = parse(vec![Node::ExportNamed(ExportNamedDecl {
        span: span(0, 44),
        type_only: false,
        kind_type: false,
        decl: Some(NamedDecl::Var {
            declarators: vec![Pattern::Object {
                props: vec![
                    ObjectProp {
                        key: Some("a".to_owned()),
                        value: Pattern::Ident(ident("a")),
                    },
                    ObjectProp {
                        key: Some("rest".to_owned()),
                        value: Pattern::Array {
                            elements: vec![Some(Pattern::Ident(ident("b")))],
                            rest: Some(Box::new(Pattern::Ident(ident("c")))),
                        },
                    },
                ],
                rest: None,
            }],
        }),
        specifiers: vec![],
        source: None,
    })]);
    let names: Vec<&str> = module.exports[0]
        .symbols
        .iter()
        .map(|s| s.name.as_str())
        .collect();
    assert_eq!(names, vec!["a", "b", "c"]);
    for sym in &module.exports[0].symbols {
        assert_eq!(sym.kind, ExportedKind::Value);
    }
}

#[test]
fn export_named_specifiers_from_source() {
    // export { a, type b as c } from './y';
    let (module, _) = parse(vec![Node::ExportNamed(ExportNamedDecl {
        span: span(0, 37),
        type_only: false,
        kind_type: false,
        decl: None,
        specifiers: vec![
            ExportSpecifier {
                local: "a".to_owned(),
                type_only: false,
            },
            ExportSpecifier {
                local: "b".to_owned(),
                type_only: true,
            },
        ],
        source: Some("./y".to_owned()),
    })]);
    let rec = &module.exports[0];
    assert_eq!(rec.source.as_deref(), Some("./y"));
    assert_eq!(rec.symbols[0].kind, ExportedKind::Value);
    assert_eq!(rec.symbols[1].kind, ExportedKind::ValueType);
}

#[test]
fn export_named_without_symbols_is_dropped() {
    // export {};
    let (module, stats) = parse(vec![Node::ExportNamed(ExportNamedDecl {
        span: span(0, 10),
        type_only: false,
        kind_type: false,
        decl: None,
        specifiers: vec![],
        source: None,
    })]);
    assert!(module.exports.is_empty());
    assert_eq!(stats.export_statements, 1);
}

#[test]
fn awaited_dynamic_import_statement_not_counted_as_other() {
    // await import('./fx');
    let (module, stats) = parse(vec![Node::Await {
        inner: Box::new(Node::ImportCall {
            span: span(6, 20),
            source: Box::new(Node::Str {
                value: "./fx".to_owned(),
            }),
        }),
    }]);
    assert_eq!(module.imports.len(), 1);
    assert_eq!(module.imports[0].kind, ImportKind::AsyncDynamic);
    assert!(module.imports[0].symbols.is_empty());
    assert_eq!(stats.other_statements, 0);
    assert_eq!(stats.import_statements, 0);
}

#[test]
fn computed_import_specifier_is_ignored() {
    // import(pathVariable);
    let (module, _) = parse(vec![Node::ImportCall {
        span: span(0, 20),
        source: Box::new(Node::Ident {
            name: "pathVariable".to_owned(),
        }),
    }]);
    assert!(module.imports.is_empty());
}

#[test]
fn ts_export_assignment() {
    // export = thing;
    let (module, _) = parse(vec![Node::ExportAssign {
        span: span(0, 15),
        value: Box::new(Node::Ident {
            name: "thing".to_owned(),
        }),
    }]);
    assert_eq!(module.exports.len(), 1);
    assert_eq!(module.exports[0].kind, ExportKind::Modern);
    assert_eq!(module.exports[0].symbols[0].kind, ExportedKind::Default);
    assert_eq!(module.exports[0].symbols[0].name, "default");
}

//! The graph driver: identity by canonical path, identifier allocation,
//! edges, and package manifest interning.

use module_graph::ast::{ImportDecl, Node, Program};
use module_graph::errors::ModuleGraphError;
use module_graph::js::JavaScriptModule;
use module_graph::module::Module;
use module_graph::module_graph::{BeginModule, ModuleGraph, ModuleGraphEdge};

fn import_stmt(source: &str) -> Node {
    Node::ImportDecl(ImportDecl {
        span: module_graph::module::Span { start: 0, end: 20 },
        source: source.to_owned(),
        type_only: false,
        specifiers: None,
    })
}

/// Load a module whose parsed body is given, resolving each specifier
/// with the closure. Drives the graph exactly as an embedder would:
/// register, parse, recurse, finish.
fn load(
    graph: &mut ModuleGraph,
    path: &str,
    files: &dyn Fn(&str) -> Vec<Node>,
    resolve: &dyn Fn(&str, &str) -> String,
) -> u32 {
    match graph.begin_module(path, None, None, None) {
        BeginModule::Existing(id) => id,
        BeginModule::New(mut module) => {
            let id = module.id;
            let program = Program { body: files(path) };
            JavaScriptModule::parse_into_module(&mut module, &program, String::new());
            let parent = module_graph::paths::parent_dir_of(&module.path);
            let mut import_ids: Vec<u32> = Vec::new();
            for k in 0..module.imports.len() {
                let request = module.imports[k].source_request.clone();
                let child_path = resolve(&parent, &request);
                let child = load(graph, &child_path, files, resolve);
                import_ids.push(child);
            }
            let export_ids: Vec<u32> = Vec::new();
            assert!(graph.finish_module(module, &import_ids, &export_ids));
            id
        }
    }
}

fn toy_resolver(parent: &str, specifier: &str) -> String {
    // "./x" under "/p" becomes "/p/x.ts"
    let mut path = parent.to_owned();
    path.push('/');
    path.push_str(specifier.trim_start_matches("./"));
    path.push_str(".ts");
    path
}

#[test]
fn cycle_terminates_with_two_nodes() {
    // a.ts: import './b'   b.ts: import './a'
    let files = |path: &str| -> Vec<Node> {
        match path {
            "/p/a.ts" => vec![import_stmt("./b")],
            "/p/b.ts" => vec![import_stmt("./a")],
            _ => panic!("unexpected path {path}"),
        }
    };
    let mut graph = ModuleGraph::new();
    let id = load(&mut graph, "/p/a.ts", &files, &toy_resolver);
    assert_eq!(id, 1);
    assert_eq!(graph.node_count(), 2);
    assert!(graph.has_edge(1, 2, ModuleGraphEdge::Import));
    assert!(graph.has_edge(2, 1, ModuleGraphEdge::Import));
    assert!(!graph.has_edge(1, 2, ModuleGraphEdge::Export));
    assert_eq!(graph.modules.len(), 2);
    // children complete before their parents
    assert_eq!(graph.modules[0].path, "/p/b.ts");
    assert_eq!(graph.modules[1].path, "/p/a.ts");
    assert_eq!(graph.modules[1].imports[0].module_id, 2);
    assert_eq!(graph.modules[0].imports[0].module_id, 1);
}

#[test]
fn same_canonical_path_same_id() {
    let files = |_: &str| -> Vec<Node> { vec![] };
    let mut graph = ModuleGraph::new();
    let first = load(&mut graph, "/p/./x/../m.ts", &files, &toy_resolver);
    let second = load(&mut graph, "/p/m.ts", &files, &toy_resolver);
    assert_eq!(first, second);
    assert_eq!(graph.node_count(), 1);
    assert_eq!(graph.modules[0].path, "/p/m.ts");
}

#[test]
fn identifiers_increase_from_one() {
    let files = |_: &str| -> Vec<Node> { vec![] };
    let mut graph = ModuleGraph::new();
    let a = load(&mut graph, "/p/a.ts", &files, &toy_resolver);
    let b = load(&mut graph, "/p/b.ts", &files, &toy_resolver);
    let c = load(&mut graph, "/p/c.ts", &files, &toy_resolver);
    assert_eq!((a, b, c), (1, 2, 3));
}

#[test]
fn reloading_is_a_pure_lookup() {
    let files = |path: &str| -> Vec<Node> {
        match path {
            "/p/a.ts" => vec![import_stmt("./b")],
            _ => vec![],
        }
    };
    let mut graph = ModuleGraph::new();
    let id = load(&mut graph, "/p/a.ts", &files, &toy_resolver);
    let nodes_before = graph.node_count();
    let edges_before = graph.edge_count();
    let modules_before = graph.modules.len();
    // a second begin is answered from the identity table alone
    match graph.begin_module("/p/a.ts", None, None, None) {
        BeginModule::Existing(seen) => assert_eq!(seen, id),
        BeginModule::New(_) => panic!("path should already be registered"),
    }
    assert_eq!(graph.node_count(), nodes_before);
    assert_eq!(graph.edge_count(), edges_before);
    assert_eq!(graph.modules.len(), modules_before);
}

#[test]
fn identical_loads_build_identical_graphs() {
    let files = |path: &str| -> Vec<Node> {
        match path {
            "/p/a.ts" => vec![import_stmt("./b"), import_stmt("./c")],
            "/p/b.ts" => vec![import_stmt("./c")],
            _ => vec![],
        }
    };
    let build = || -> ModuleGraph {
        let mut graph = ModuleGraph::new();
        load(&mut graph, "/p/a.ts", &files, &toy_resolver);
        graph
    };
    let g1 = build();
    let g2 = build();
    assert_eq!(g1.modules, g2.modules);
    assert_eq!(g1.node_count(), g2.node_count());
    assert_eq!(g1.edge_count(), g2.edge_count());
    for a in 0..5u32 {
        for b in 0..5u32 {
            assert_eq!(
                g1.has_edge(a, b, ModuleGraphEdge::Import),
                g2.has_edge(a, b, ModuleGraphEdge::Import)
            );
            assert_eq!(
                g1.has_edge(a, b, ModuleGraphEdge::Export),
                g2.has_edge(a, b, ModuleGraphEdge::Export)
            );
        }
    }
}

#[test]
fn export_source_connects_export_edge() {
    // a.ts: export * as NS from './m'
    let mut graph = ModuleGraph::new();
    let mut module = match graph.begin_module("/p/a.ts", None, None, None) {
        BeginModule::New(m) => m,
        BeginModule::Existing(_) => panic!("fresh graph"),
    };
    let program = Program {
        body: vec![Node::ExportAll(module_graph::ast::ExportAllDecl {
            span: module_graph::module::Span { start: 0, end: 26 },
            source: "./m".to_owned(),
            type_only: false,
            exported: Some("NS".to_owned()),
        })],
    };
    JavaScriptModule::parse_into_module(&mut module, &program, String::new());
    let parent_id = module.id;
    let dep = match graph.begin_module("/p/m.ts", None, None, None) {
        BeginModule::New(m) => {
            let id = m.id;
            assert!(graph.finish_module(m, &Vec::new(), &Vec::new()));
            id
        }
        BeginModule::Existing(id) => id,
    };
    assert!(graph.finish_module(module, &Vec::new(), &vec![dep]));
    assert!(graph.has_edge(parent_id, dep, ModuleGraphEdge::Export));
    assert!(!graph.has_edge(parent_id, dep, ModuleGraphEdge::Import));
    let installed = &graph.modules[1];
    assert_eq!(installed.exports[0].module_id, Some(dep));
}

#[test]
fn parallel_edges_of_differing_labels() {
    let mut graph = ModuleGraph::new();
    let a = match graph.begin_module("/p/a.ts", None, None, None) {
        BeginModule::New(m) => m,
        _ => panic!(),
    };
    let b = match graph.begin_module("/p/b.ts", None, None, None) {
        BeginModule::New(m) => {
            let id = m.id;
            assert!(graph.finish_module(m, &Vec::new(), &Vec::new()));
            id
        }
        _ => panic!(),
    };
    // one import record and one re-export record, both targeting b
    let mut module = a;
    let program = Program {
        body: vec![
            import_stmt("./b"),
            Node::ExportAll(module_graph::ast::ExportAllDecl {
                span: module_graph::module::Span { start: 0, end: 26 },
                source: "./b".to_owned(),
                type_only: false,
                exported: None,
            }),
        ],
    };
    JavaScriptModule::parse_into_module(&mut module, &program, String::new());
    let aid = module.id;
    assert!(graph.finish_module(module, &vec![b], &vec![b]));
    assert!(graph.has_edge(aid, b, ModuleGraphEdge::Import));
    assert!(graph.has_edge(aid, b, ModuleGraphEdge::Export));
    // the two labels coalesce onto one keyed edge
    assert_eq!(graph.edge_count(), 1);
}

#[test]
fn finish_rejects_unknown_target() {
    let mut graph = ModuleGraph::new();
    let mut module = match graph.begin_module("/p/a.ts", None, None, None) {
        BeginModule::New(m) => m,
        _ => panic!(),
    };
    let program = Program {
        body: vec![import_stmt("./b")],
    };
    JavaScriptModule::parse_into_module(&mut module, &program, String::new());
    // 7 was never allocated
    assert!(!graph.finish_module(module, &vec![7], &Vec::new()));
    assert_eq!(graph.modules.len(), 0);
}

#[test]
fn package_manifest_interning() {
    let mut graph = ModuleGraph::new();
    assert!(graph.package_json_cached("/p/package.json").is_none());
    let manifest = graph
        .load_package_json("/p/package.json".to_owned(), "{\"name\": \"acme\"}")
        .unwrap();
    assert_eq!(manifest.name.as_deref(), Some("acme"));
    let cached = graph.package_json_cached("/p/package.json").unwrap();
    assert_eq!(cached.name.as_deref(), Some("acme"));
    // a cached path is answered without parsing the new text
    let again = graph
        .load_package_json("/p/package.json".to_owned(), "not json at all")
        .unwrap();
    assert_eq!(again.name.as_deref(), Some("acme"));
}

#[test]
fn package_manifest_parse_failure() {
    let mut graph = ModuleGraph::new();
    let err = graph
        .load_package_json("/p/package.json".to_owned(), "{broken")
        .unwrap_err();
    match err {
        ModuleGraphError::PackageJsonError { path, .. } => {
            assert_eq!(path, "/p/package.json");
        }
        other => panic!("unexpected error {other:?}"),
    }
    assert!(graph.package_json_cached("/p/package.json").is_none());
}

#[test]
fn begin_module_carries_package_name() {
    let mut graph = ModuleGraph::new();
    let manifest = graph
        .load_package_json("/p/package.json".to_owned(), "{\"name\": \"acme\"}")
        .unwrap();
    let module = match graph.begin_module("/p/index.ts", None, None, Some(&manifest)) {
        BeginModule::New(m) => m,
        _ => panic!(),
    };
    assert_eq!(module.package_name.as_deref(), Some("acme"));
    assert_eq!(module.id, 1);
    assert_eq!(module.path, "/p/index.ts");
}

#[test]
fn resolver_configuration_values() {
    let conditions = module_graph::module_graph::resolver_condition_names();
    assert_eq!(
        conditions,
        vec!["import", "module", "require", "node", "default"]
    );
    let extensions = module_graph::module_graph::resolver_extensions();
    assert_eq!(
        extensions,
        vec![".ts", ".tsx", ".mts", ".cts", ".mjs", ".cjs", ".js", ".jsx"]
    );
    let main_fields = module_graph::module_graph::resolver_main_fields();
    assert_eq!(main_fields, vec!["module", "main"]);
}

#[test]
fn module_id_for_path_cleans_before_lookup() {
    let files = |_: &str| -> Vec<Node> { vec![] };
    let mut graph = ModuleGraph::new();
    let id = load(&mut graph, "/p/m.ts", &files, &toy_resolver);
    assert_eq!(graph.module_id_for_path("/p/sub/../m.ts"), Some(id));
    assert_eq!(graph.module_id_for_path("/p/other.ts"), None);
}

#[test]
fn begin_module_stores_canonical_paths() {
    let mut graph = ModuleGraph::new();
    let a = match graph.begin_module("/a//b/./x/../c.ts", None, None, None) {
        BeginModule::New(m) => m,
        _ => panic!(),
    };
    assert_eq!(a.path, "/a/b/c.ts");
    let b = match graph.begin_module("/../up.ts", None, None, None) {
        BeginModule::New(m) => m,
        _ => panic!(),
    };
    assert_eq!(b.path, "/up.ts");
}

#[test]
fn fresh_module_is_empty() {
    let module = Module::new("/p/a.ts".to_owned());
    assert_eq!(module.id, 0);
    assert!(module.imports.is_empty());
    assert!(module.exports.is_empty());
    assert!(module.query.is_none());
    assert!(module.fragment.is_none());
    assert!(module.package_name.is_none());
}

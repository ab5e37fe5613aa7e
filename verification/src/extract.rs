//! Import/export extraction: the specification of what each syntactic
//! form contributes, and the verified walker that emits the records.
//!
//! The specification side is a fold over the model tree: [`ext_node`]
//! takes the state before a node and returns the state after it, in
//! source order. The executable walker, [`ExtractImportsExports`], is
//! proved to compute exactly that fold.

use vstd::prelude::*;
use crate::ast::{
    elems_height, lemma_elems_height_elem, lemma_nodes_height_elem, lemma_props_height_elem,
    node_height, nodes_height, pattern_height, props_height, ExportAllDecl, ExportDefaultDecl,
    ExportDefaultKind, ExportNamedDecl, ExportSpecifier, ImportDecl, ImportSpecifier, NamedDecl,
    Node, ObjectProp, Pattern, Program,
};
use crate::module::{
    exported_views, export_views, imported_views, import_views, lemma_export_views_push,
    lemma_exported_views_push, lemma_import_views_push, lemma_imported_views_push, Export,
    ExportKind, ExportedKind, ExportedSymbol, Import, ImportKind, ImportedKind, ImportedSymbol,
    SpecExport, SpecExportedSymbol, SpecImport, SpecImportedSymbol, Span,
};

verus! {

// ---------------------------------------------------------------------
// What a single declaration form contributes
// ---------------------------------------------------------------------

/// Mathematical image of a [`crate::module::BindingIdent`].
pub struct SpecBindingIdent {
    pub name: Seq<char>,
    pub symbol_id: Option<u32>,
}

/// The symbol one `import` specifier binds. The statement-level `type`
/// prefix forces the type variant of each kind; a specifier whose imported
/// name is literally `default` is promoted to a default import.
pub open spec fn import_decl_symbol(stmt_type: bool, s: ImportSpecifier) -> SpecImportedSymbol {
    match s {
        ImportSpecifier::Named { imported, local, type_only } => {
            let base = if stmt_type || type_only {
                ImportedKind::ValueType
            } else {
                ImportedKind::Value
            };
            if imported@ == "default"@ {
                SpecImportedSymbol {
                    kind: ImportedKind::Default,
                    source_name: None,
                    symbol_id: local.symbol_id,
                    name: local.name@,
                }
            } else if imported@ != local.name@ {
                SpecImportedSymbol {
                    kind: base,
                    source_name: Some(imported@),
                    symbol_id: local.symbol_id,
                    name: local.name@,
                }
            } else {
                SpecImportedSymbol {
                    kind: base,
                    source_name: None,
                    symbol_id: local.symbol_id,
                    name: local.name@,
                }
            }
        },
        ImportSpecifier::Default { local } => SpecImportedSymbol {
            kind: if stmt_type {
                ImportedKind::DefaultType
            } else {
                ImportedKind::Default
            },
            source_name: None,
            symbol_id: local.symbol_id,
            name: local.name@,
        },
        ImportSpecifier::Namespace { local } => SpecImportedSymbol {
            kind: if stmt_type {
                ImportedKind::NamespaceType
            } else {
                ImportedKind::Namespace
            },
            source_name: None,
            symbol_id: local.symbol_id,
            name: local.name@,
        },
    }
}

/// The symbols of a list of `import` specifiers, in order.
pub open spec fn import_decl_symbols(
    stmt_type: bool,
    sps: Seq<ImportSpecifier>,
) -> Seq<SpecImportedSymbol>
    decreases sps,
{
    if sps.len() == 0 {
        Seq::<SpecImportedSymbol>::empty()
    } else {
        seq![import_decl_symbol(stmt_type, sps[0])] + import_decl_symbols(
            stmt_type,
            sps.drop_first(),
        )
    }
}

/// The record of an `import … from 's'` statement. A specifier-less
/// statement (`import 's'`) keeps an empty symbol list, which is what
/// makes it a side-effect import.
pub open spec fn import_decl_record(d: ImportDecl) -> SpecImport {
    SpecImport {
        kind: ImportKind::AsyncStatic,
        module_id: 0,
        source_request: d.source@,
        span: d.span,
        symbols: match d.specifiers {
            None => Seq::<SpecImportedSymbol>::empty(),
            Some(sp) => import_decl_symbols(d.type_only, sp@),
        },
        type_only: d.type_only,
    }
}

/// The record of `export * [as name] from 's'`: one namespace symbol,
/// named `*` when no alias is given.
pub open spec fn export_all_record(d: ExportAllDecl) -> SpecExport {
    SpecExport {
        kind: ExportKind::Modern,
        module_id: None,
        source: Some(d.source@),
        span: Some(d.span),
        symbols: seq![
            SpecExportedSymbol {
                kind: if d.type_only {
                    ExportedKind::NamespaceType
                } else {
                    ExportedKind::Namespace
                },
                symbol_id: None,
                name: match d.exported {
                    Some(n) => n@,
                    None => "*"@,
                },
            },
        ],
        type_only: d.type_only,
    }
}

/// The record of `export default …`: the declaration's own name when it
/// has one, the identifier for a bare identifier expression, and the name
/// `default` otherwise. Pure type forms yield a default-type symbol.
pub open spec fn export_default_record(d: ExportDefaultDecl) -> SpecExport {
    let ts = d.decl is Interface || d.decl is Enum;
    SpecExport {
        kind: ExportKind::Modern,
        module_id: None,
        source: None,
        span: Some(d.span),
        symbols: seq![
            match d.decl {
                ExportDefaultKind::Ident { name } => SpecExportedSymbol {
                    kind: ExportedKind::Default,
                    symbol_id: None,
                    name: name@,
                },
                ExportDefaultKind::Class { id: Some(b) } => SpecExportedSymbol {
                    kind: ExportedKind::Default,
                    symbol_id: b.symbol_id,
                    name: b.name@,
                },
                ExportDefaultKind::Func { id: Some(b) } => SpecExportedSymbol {
                    kind: ExportedKind::Default,
                    symbol_id: b.symbol_id,
                    name: b.name@,
                },
                ExportDefaultKind::Interface { id } => SpecExportedSymbol {
                    kind: ExportedKind::DefaultType,
                    symbol_id: id.symbol_id,
                    name: id.name@,
                },
                ExportDefaultKind::Enum { id } => SpecExportedSymbol {
                    kind: ExportedKind::DefaultType,
                    symbol_id: id.symbol_id,
                    name: id.name@,
                },
                _ => SpecExportedSymbol {
                    kind: ExportedKind::Default,
                    symbol_id: None,
                    name: "default"@,
                },
            },
        ],
        type_only: ts,
    }
}

/// The symbols of one binding pattern of an exported declaration:
/// identifiers, flattened recursively through object, array, rest and
/// default forms.
pub open spec fn export_pattern_symbols(p: Pattern) -> Seq<SpecExportedSymbol>
    decreases p,
{
    match p {
        Pattern::Ident(b) => seq![
            SpecExportedSymbol { kind: ExportedKind::Value, symbol_id: b.symbol_id, name: b.name@ },
        ],
        Pattern::Object { props, rest } => export_props_symbols(props@) + match rest {
            Some(r) => export_pattern_symbols(*r),
            None => Seq::<SpecExportedSymbol>::empty(),
        },
        Pattern::Array { elements, rest } => export_elems_symbols(elements@) + match rest {
            Some(r) => export_pattern_symbols(*r),
            None => Seq::<SpecExportedSymbol>::empty(),
        },
        Pattern::Assign { left } => export_pattern_symbols(*left),
    }
}

pub open spec fn export_props_symbols(props: Seq<ObjectProp>) -> Seq<SpecExportedSymbol>
    decreases props,
{
    if props.len() == 0 {
        Seq::<SpecExportedSymbol>::empty()
    } else {
        export_pattern_symbols(props[0].value) + export_props_symbols(props.drop_first())
    }
}

pub open spec fn export_elems_symbols(es: Seq<Option<Pattern>>) -> Seq<SpecExportedSymbol>
    decreases es,
{
    if es.len() == 0 {
        Seq::<SpecExportedSymbol>::empty()
    } else {
        (match es[0] {
            Some(p) => export_pattern_symbols(p),
            None => Seq::<SpecExportedSymbol>::empty(),
        }) + export_elems_symbols(es.drop_first())
    }
}

pub open spec fn export_patterns_symbols(ps: Seq<Pattern>) -> Seq<SpecExportedSymbol>
    decreases ps,
{
    if ps.len() == 0 {
        Seq::<SpecExportedSymbol>::empty()
    } else {
        export_pattern_symbols(ps[0]) + export_patterns_symbols(ps.drop_first())
    }
}

/// The symbols contributed by the declaration attached to an `export`
/// statement.
pub open spec fn named_decl_symbols(d: NamedDecl) -> Seq<SpecExportedSymbol> {
    match d {
        NamedDecl::Var { declarators } => export_patterns_symbols(declarators@),
        NamedDecl::Func { id } => seq![
            SpecExportedSymbol { kind: ExportedKind::Value, symbol_id: id.symbol_id, name: id.name@ },
        ],
        NamedDecl::Class { id } => seq![
            SpecExportedSymbol { kind: ExportedKind::Value, symbol_id: id.symbol_id, name: id.name@ },
        ],
        NamedDecl::TsTypeAlias { id } => seq![
            SpecExportedSymbol {
                kind: ExportedKind::ValueType,
                symbol_id: id.symbol_id,
                name: id.name@,
            },
        ],
        NamedDecl::TsInterface { id } => seq![
            SpecExportedSymbol {
                kind: ExportedKind::ValueType,
                symbol_id: id.symbol_id,
                name: id.name@,
            },
        ],
        NamedDecl::TsEnum { id } => seq![
            SpecExportedSymbol {
                kind: ExportedKind::ValueType,
                symbol_id: id.symbol_id,
                name: id.name@,
            },
        ],
        NamedDecl::TsModule { name } => seq![
            SpecExportedSymbol { kind: ExportedKind::ValueType, symbol_id: None, name: name@ },
        ],
        NamedDecl::TsImportEquals { id } => seq![
            SpecExportedSymbol {
                kind: ExportedKind::ValueType,
                symbol_id: id.symbol_id,
                name: id.name@,
            },
        ],
        NamedDecl::Other => Seq::<SpecExportedSymbol>::empty(),
    }
}

/// The symbols of the optional declaration of an `export` statement.
pub open spec fn opt_decl_symbols(d: Option<NamedDecl>) -> Seq<SpecExportedSymbol> {
    match d {
        Some(decl) => named_decl_symbols(decl),
        None => Seq::<SpecExportedSymbol>::empty(),
    }
}

/// The symbol of one `export { … }` specifier, under its local name.
pub open spec fn export_spec_symbol(kind_type: bool, s: ExportSpecifier) -> SpecExportedSymbol {
    SpecExportedSymbol {
        kind: if kind_type || s.type_only {
            ExportedKind::ValueType
        } else {
            ExportedKind::Value
        },
        symbol_id: None,
        name: s.local@,
    }
}

/// The symbols of a list of `export { … }` specifiers, in order.
pub open spec fn export_spec_symbols(
    kind_type: bool,
    sps: Seq<ExportSpecifier>,
) -> Seq<SpecExportedSymbol>
    decreases sps,
{
    if sps.len() == 0 {
        Seq::<SpecExportedSymbol>::empty()
    } else {
        seq![export_spec_symbol(kind_type, sps[0])] + export_spec_symbols(
            kind_type,
            sps.drop_first(),
        )
    }
}

/// The record of `export { … } [from 's']` and `export <declaration>`:
/// the declaration's symbols, then one symbol per specifier under its
/// local name. The record is only emitted when it names at least one
/// symbol.
pub open spec fn export_named_record(d: ExportNamedDecl) -> SpecExport {
    SpecExport {
        kind: ExportKind::Modern,
        module_id: None,
        source: match d.source {
            Some(s) => Some(s@),
            None => None,
        },
        span: Some(d.span),
        symbols: opt_decl_symbols(d.decl) + export_spec_symbols(d.kind_type, d.specifiers@),
        type_only: d.type_only,
    }
}

/// The record of TypeScript `export = value`: one default symbol named
/// `default`.
pub open spec fn export_assign_record(span: Span) -> SpecExport {
    SpecExport {
        kind: ExportKind::Modern,
        module_id: None,
        source: None,
        span: Some(span),
        symbols: seq![
            SpecExportedSymbol { kind: ExportedKind::Default, symbol_id: None, name: "default"@ },
        ],
        type_only: false,
    }
}

/// The record of `import id = require('s')`.
pub open spec fn import_equals_record(
    span: Span,
    id: SpecBindingIdent,
    source: Seq<char>,
    type_only: bool,
) -> SpecImport {
    SpecImport {
        kind: ImportKind::SyncStatic,
        module_id: 0,
        source_request: source,
        span,
        symbols: seq![
            SpecImportedSymbol {
                kind: ImportedKind::Default,
                source_name: None,
                symbol_id: id.symbol_id,
                name: id.name,
            },
        ],
        type_only,
    }
}

/// The symbols of a binding pattern that destructures a dynamic import or
/// a `require` call. An identifier takes the whole module; an object
/// property takes one member (or the default export, when the key is
/// literally `default`); an object rest takes the whole module again;
/// array patterns have no stable mapping and bind nothing.
pub open spec fn import_pattern_symbols(p: Pattern) -> Seq<SpecImportedSymbol>
    decreases p,
{
    match p {
        Pattern::Ident(b) => seq![
            SpecImportedSymbol {
                kind: ImportedKind::Namespace,
                source_name: None,
                symbol_id: b.symbol_id,
                name: b.name@,
            },
        ],
        Pattern::Object { props, rest } => import_props_symbols(props@) + match rest {
            Some(r) => match *r {
                Pattern::Ident(b) => seq![
                    SpecImportedSymbol {
                        kind: ImportedKind::Namespace,
                        source_name: None,
                        symbol_id: None,
                        name: b.name@,
                    },
                ],
                _ => Seq::<SpecImportedSymbol>::empty(),
            },
            None => Seq::<SpecImportedSymbol>::empty(),
        },
        Pattern::Array { .. } => Seq::<SpecImportedSymbol>::empty(),
        Pattern::Assign { left } => import_pattern_symbols(*left),
    }
}

pub open spec fn import_props_symbols(props: Seq<ObjectProp>) -> Seq<SpecImportedSymbol>
    decreases props,
{
    if props.len() == 0 {
        Seq::<SpecImportedSymbol>::empty()
    } else {
        import_prop_symbols(props[0]) + import_props_symbols(props.drop_first())
    }
}

/// One object-pattern property of a destructured import. A property whose
/// value is not a plain identifier contributes its key's name; a computed
/// key there has no name to contribute.
pub open spec fn import_prop_symbols(prop: ObjectProp) -> Seq<SpecImportedSymbol> {
    let kind = match prop.key {
        Some(k) => if k@ == "default"@ {
            ImportedKind::Default
        } else {
            ImportedKind::Value
        },
        None => ImportedKind::Value,
    };
    match prop.value {
        Pattern::Ident(b) => seq![
            SpecImportedSymbol {
                kind,
                source_name: match prop.key {
                    Some(k) => if k@ == b.name@ {
                        None
                    } else {
                        Some(k@)
                    },
                    None => None,
                },
                symbol_id: b.symbol_id,
                name: b.name@,
            },
        ],
        _ => match prop.key {
            Some(k) => seq![
                SpecImportedSymbol { kind, source_name: None, symbol_id: None, name: k@ },
            ],
            None => Seq::<SpecImportedSymbol>::empty(),
        },
    }
}

// ---------------------------------------------------------------------
// The traversal fold
// ---------------------------------------------------------------------

/// The extraction state: the records emitted so far, the spans already
/// processed for dynamic imports and for `require` calls, and the running
/// counters.
#[verifier::ext_equal]
pub struct ExtState {
    pub imports: Seq<SpecImport>,
    pub exports: Seq<SpecExport>,
    pub dyn_seen: Set<Span>,
    pub req_seen: Set<Span>,
    pub exports_default: bool,
    pub require_count: nat,
    pub dynamic_import_count: nat,
}

impl ExtState {
    pub open spec fn init() -> ExtState {
        ExtState {
            imports: Seq::<SpecImport>::empty(),
            exports: Seq::<SpecExport>::empty(),
            dyn_seen: Set::<Span>::empty(),
            req_seen: Set::<Span>::empty(),
            exports_default: false,
            require_count: 0,
            dynamic_import_count: 0,
        }
    }
}

/// Whether a node is a `require('literal')` call: the callee is the bare
/// identifier `require` with exactly one argument, a string literal.
pub open spec fn is_require_str(n: Node) -> bool {
    match n {
        Node::Call { callee, args, .. } => (*callee matches Node::Ident { name } && name@
            == "require"@) && args@.len() == 1 && (args@[0] matches Node::Str { .. }),
        _ => false,
    }
}

pub open spec fn require_source(n: Node) -> Seq<char>
    recommends
        is_require_str(n),
{
    match n {
        Node::Call { args, .. } => match args@[0] {
            Node::Str { value } => value@,
            _ => Seq::<char>::empty(),
        },
        _ => Seq::<char>::empty(),
    }
}

pub open spec fn node_span(n: Node) -> Span {
    match n {
        Node::Call { span, .. } => span,
        Node::ImportCall { span, .. } => span,
        Node::Assign { span, .. } => span,
        Node::Member { span, .. } => span,
        _ => Span { start: 0, end: 0 },
    }
}

/// Whether a node is `await import('literal')`.
pub open spec fn is_await_import_str(n: Node) -> bool {
    match n {
        Node::Await { inner } => match *inner {
            Node::ImportCall { source, .. } => *source matches Node::Str { .. },
            _ => false,
        },
        _ => false,
    }
}

pub open spec fn await_import_span(n: Node) -> Span
    recommends
        is_await_import_str(n),
{
    match n {
        Node::Await { inner } => node_span(*inner),
        _ => Span { start: 0, end: 0 },
    }
}

pub open spec fn await_import_source(n: Node) -> Seq<char>
    recommends
        is_await_import_str(n),
{
    match n {
        Node::Await { inner } => match *inner {
            Node::ImportCall { source, .. } => match *source {
                Node::Str { value } => value@,
                _ => Seq::<char>::empty(),
            },
            _ => Seq::<char>::empty(),
        },
        _ => Seq::<char>::empty(),
    }
}

/// Whether an assignment target is exactly `module.exports`.
pub open spec fn is_module_exports_target(n: Node) -> bool {
    match n {
        Node::Member { object, prop, .. } => (*object matches Node::Ident { name } && name@
            == "module"@) && prop@ == "exports"@,
        _ => false,
    }
}

/// The name under which `module.exports = value` exports: the identifier,
/// or the name of a named class or function expression.
pub open spec fn assigned_export_name(n: Node) -> Option<Seq<char>> {
    match n {
        Node::Ident { name } => Some(name@),
        Node::Class { id: Some(b), .. } => Some(b.name@),
        Node::Func { id: Some(b), .. } => Some(b.name@),
        _ => None,
    }
}

/// A dynamic-import record, with the symbols bound by the surrounding
/// pattern (empty for a bare `import('s')` expression).
pub open spec fn dynamic_import_record(
    span: Span,
    source: Seq<char>,
    symbols: Seq<SpecImportedSymbol>,
) -> SpecImport {
    SpecImport {
        kind: ImportKind::AsyncDynamic,
        module_id: 0,
        source_request: source,
        span,
        symbols,
        type_only: false,
    }
}

/// A `require` record, with the symbols bound by the surrounding pattern
/// (empty for a bare `require('s')` call).
pub open spec fn require_record(
    span: Span,
    source: Seq<char>,
    symbols: Seq<SpecImportedSymbol>,
) -> SpecImport {
    SpecImport {
        kind: ImportKind::SyncStatic,
        module_id: 0,
        source_request: source,
        span,
        symbols,
        type_only: false,
    }
}

/// The record of `module.exports = value`.
pub open spec fn legacy_default_record(span: Span, name: Option<Seq<char>>) -> SpecExport {
    SpecExport {
        kind: ExportKind::Legacy,
        module_id: None,
        source: None,
        span: Some(span),
        symbols: seq![
            SpecExportedSymbol {
                kind: ExportedKind::Default,
                symbol_id: None,
                name: match name {
                    Some(n) => n,
                    None => "default"@,
                },
            },
        ],
        type_only: false,
    }
}

/// The record of a read or write of `exports.name`.
pub open spec fn legacy_value_record(span: Span, name: Seq<char>) -> SpecExport {
    SpecExport {
        kind: ExportKind::Legacy,
        module_id: None,
        source: None,
        span: Some(span),
        symbols: seq![
            SpecExportedSymbol { kind: ExportedKind::Value, symbol_id: None, name },
        ],
        type_only: false,
    }
}

/// Mark a dynamic-import span as processed and emit its record, unless
/// the span was already processed.
pub open spec fn emit_dynamic_import(
    st: ExtState,
    span: Span,
    source: Seq<char>,
    symbols: Seq<SpecImportedSymbol>,
) -> ExtState {
    if st.dyn_seen.contains(span) {
        st
    } else {
        ExtState {
            imports: st.imports.push(dynamic_import_record(span, source, symbols)),
            dyn_seen: st.dyn_seen.insert(span),
            dynamic_import_count: st.dynamic_import_count + 1,
            ..st
        }
    }
}

/// Mark a `require` span as processed and emit its record, unless the
/// span was already processed.
pub open spec fn emit_require(
    st: ExtState,
    span: Span,
    source: Seq<char>,
    symbols: Seq<SpecImportedSymbol>,
) -> ExtState {
    if st.req_seen.contains(span) {
        st
    } else {
        ExtState {
            imports: st.imports.push(require_record(span, source, symbols)),
            req_seen: st.req_seen.insert(span),
            require_count: st.require_count + 1,
            ..st
        }
    }
}

/// The state after one node: what the node itself contributes, then, in
/// source order, what its children contribute. Import and export
/// declarations do not walk their children; every expression form does.
pub open spec fn ext_node(st: ExtState, n: Node) -> ExtState
    decreases n,
{
    match n {
        Node::ImportDecl(d) => ExtState { imports: st.imports.push(import_decl_record(d)), ..st },
        Node::ExportAll(d) => ExtState { exports: st.exports.push(export_all_record(d)), ..st },
        Node::ExportDefault(d) => ExtState {
            exports: st.exports.push(export_default_record(d)),
            exports_default: true,
            ..st
        },
        Node::ExportNamed(d) => {
            let r = export_named_record(d);
            if r.symbols.len() > 0 {
                ExtState { exports: st.exports.push(r), ..st }
            } else {
                st
            }
        },
        Node::ExportAssign { span, value } => ext_node(
            ExtState { exports: st.exports.push(export_assign_record(span)), ..st },
            *value,
        ),
        Node::ImportEquals { span, id, source, type_only } => match source {
            Some(s) => {
                if st.req_seen.contains(span) {
                    st
                } else {
                    ExtState {
                        imports: st.imports.push(
                            import_equals_record(
                                span,
                                SpecBindingIdent { name: id.name@, symbol_id: id.symbol_id },
                                s@,
                                type_only,
                            ),
                        ),
                        req_seen: st.req_seen.insert(span),
                        ..st
                    }
                }
            },
            None => st,
        },
        Node::VarDeclarator { id, init } => match init {
            None => st,
            Some(e) => {
                let st1 = if is_await_import_str(*e) {
                    emit_dynamic_import(
                        st,
                        await_import_span(*e),
                        await_import_source(*e),
                        import_pattern_symbols(id),
                    )
                } else {
                    st
                };
                let st2 = if is_require_str(*e) {
                    emit_require(st1, node_span(*e), require_source(*e), import_pattern_symbols(id))
                } else {
                    st1
                };
                ext_node(st2, *e)
            },
        },
        Node::Ident { .. } => st,
        Node::Str { .. } => st,
        Node::Class { children, .. } => ext_nodes(st, children@),
        Node::Func { children, .. } => ext_nodes(st, children@),
        Node::Call { span, callee, args } => {
            let st1 = if is_require_str(n) {
                emit_require(st, span, require_source(n), Seq::<SpecImportedSymbol>::empty())
            } else {
                st
            };
            let st2 = ext_node(st1, *callee);
            ext_nodes(st2, args@)
        },
        Node::ImportCall { span, source } => {
            let st1 = match *source {
                Node::Str { value } => emit_dynamic_import(
                    st,
                    span,
                    value@,
                    Seq::<SpecImportedSymbol>::empty(),
                ),
                _ => st,
            };
            ext_node(st1, *source)
        },
        Node::Await { inner } => ext_node(st, *inner),
        Node::Assign { span, target, value } => {
            let st1 = if is_module_exports_target(*target) {
                ExtState {
                    exports: st.exports.push(
                        legacy_default_record(span, assigned_export_name(*value)),
                    ),
                    exports_default: true,
                    ..st
                }
            } else {
                st
            };
            let st2 = ext_node(st1, *target);
            ext_node(st2, *value)
        },
        Node::Member { span, object, prop } => {
            let st1 = if (*object matches Node::Ident { name } && name@ == "exports"@) && prop@.len()
                > 0 {
                ExtState { exports: st.exports.push(legacy_value_record(span, prop@)), ..st }
            } else {
                st
            };
            ext_node(st1, *object)
        },
        Node::Other { children } => ext_nodes(st, children@),
    }
}

/// The state after a sequence of nodes, folded in order.
pub open spec fn ext_nodes(st: ExtState, l: Seq<Node>) -> ExtState
    decreases l,
{
    if l.len() == 0 {
        st
    } else {
        ext_nodes(ext_node(st, l[0]), l.drop_first())
    }
}

/// The state after a whole program.
pub open spec fn ext_program(p: Program) -> ExtState {
    ext_nodes(ExtState::init(), p.body@)
}

/// Folding over one more node at the end.
pub proof fn lemma_ext_nodes_snoc(st: ExtState, l: Seq<Node>, x: Node)
    ensures
        ext_nodes(st, l.push(x)) == ext_node(ext_nodes(st, l), x),
    decreases l.len(),
{
    if l.len() == 0 {
        assert(l.push(x)[0] == x);
        assert(l.push(x).drop_first() =~= l);
        assert(ext_nodes(st, l.push(x)) == ext_nodes(ext_node(st, x), l));
        assert(ext_nodes(ext_node(st, x), l) == ext_node(st, x));
        assert(ext_nodes(st, l) == st);
    } else {
        assert(l.push(x)[0] == l[0]);
        assert(l.push(x).drop_first() =~= l.drop_first().push(x));
        lemma_ext_nodes_snoc(ext_node(st, l[0]), l.drop_first(), x);
        assert(ext_nodes(st, l.push(x)) == ext_nodes(ext_node(st, l[0]), l.drop_first().push(x)));
        assert(ext_nodes(st, l) == ext_nodes(ext_node(st, l[0]), l.drop_first()));
    }
}

// ---------------------------------------------------------------------
// Statement classification
// ---------------------------------------------------------------------

/// A top-level statement counted as an import statement.
pub open spec fn is_import_stmt(n: Node) -> bool {
    n is ImportDecl
}

/// A top-level statement counted as an export statement.
pub open spec fn is_export_stmt(n: Node) -> bool {
    n is ExportAll || n is ExportDefault || n is ExportNamed || n is ExportAssign
}

/// A top-level `await import(…)` expression statement, which is counted
/// neither as an import/export statement nor as another statement.
pub open spec fn is_awaited_dynamic_import_stmt(n: Node) -> bool {
    match n {
        Node::Await { inner } => *inner is ImportCall,
        _ => false,
    }
}

/// A top-level statement counted as "other".
pub open spec fn is_other_stmt(n: Node) -> bool {
    !is_import_stmt(n) && !is_export_stmt(n) && !is_awaited_dynamic_import_stmt(n)
}

/// How many top-level statements are import statements.
pub open spec fn count_import_stmts(l: Seq<Node>) -> nat
    decreases l,
{
    if l.len() == 0 {
        0
    } else {
        (if is_import_stmt(l[0]) {
            1nat
        } else {
            0nat
        }) + count_import_stmts(l.drop_first())
    }
}

/// How many top-level statements are export statements.
pub open spec fn count_export_stmts(l: Seq<Node>) -> nat
    decreases l,
{
    if l.len() == 0 {
        0
    } else {
        (if is_export_stmt(l[0]) {
            1nat
        } else {
            0nat
        }) + count_export_stmts(l.drop_first())
    }
}

/// How many top-level statements are neither import/export statements
/// nor awaited dynamic imports.
pub open spec fn count_other_stmts(l: Seq<Node>) -> nat
    decreases l,
{
    if l.len() == 0 {
        0
    } else {
        (if is_other_stmt(l[0]) {
            1nat
        } else {
            0nat
        }) + count_other_stmts(l.drop_first())
    }
}

proof fn lemma_count_stmts_snoc(l: Seq<Node>, x: Node)
    ensures
        count_import_stmts(l.push(x)) == count_import_stmts(l) + (if is_import_stmt(x) {
            1nat
        } else {
            0nat
        }),
        count_export_stmts(l.push(x)) == count_export_stmts(l) + (if is_export_stmt(x) {
            1nat
        } else {
            0nat
        }),
        count_other_stmts(l.push(x)) == count_other_stmts(l) + (if is_other_stmt(x) {
            1nat
        } else {
            0nat
        }),
    decreases l.len(),
{
    if l.len() == 0 {
        assert(l.push(x)[0] == x);
        assert(l.push(x).drop_first() =~= l);
    } else {
        assert(l.push(x)[0] == l[0]);
        assert(l.push(x).drop_first() =~= l.drop_first().push(x));
        lemma_count_stmts_snoc(l.drop_first(), x);
    }
}

/// Count the top-level statements of a program: import statements,
/// export statements, and other statements (`await import(…)` expression
/// statements are counted in no family).
pub fn classify_statements(program: &Program) -> (r: (usize, usize, usize))
    ensures
        r.0 == count_import_stmts(program.body@),
        r.1 == count_export_stmts(program.body@),
        r.2 == count_other_stmts(program.body@),
{
    let body = &program.body;
    let mut imp: usize = 0;
    let mut exp: usize = 0;
    let mut oth: usize = 0;
    let mut i: usize = 0;
    while i < body.len()
        invariant
            i <= body.len(),
            imp <= i && exp <= i && oth <= i,
            imp == count_import_stmts(body@.subrange(0, i as int)),
            exp == count_export_stmts(body@.subrange(0, i as int)),
            oth == count_other_stmts(body@.subrange(0, i as int)),
        decreases body.len() - i,
    {
        let n = &body[i];
        let is_imp = matches!(n, Node::ImportDecl(_));
        let is_exp = matches!(
            n,
            Node::ExportAll(_) | Node::ExportDefault(_) | Node::ExportNamed(_)
                | Node::ExportAssign { .. },
        );
        let is_skip = match n {
            Node::Await { inner } => matches!(&**inner, Node::ImportCall { .. }),
            _ => false,
        };
        proof {
            assert(is_imp == is_import_stmt(body@[i as int]));
            assert(is_exp == is_export_stmt(body@[i as int]));
            assert(is_skip == is_awaited_dynamic_import_stmt(body@[i as int]));
        }
        if is_imp {
            imp = imp + 1;
        } else if is_exp {
            exp = exp + 1;
        } else if !is_skip {
            oth = oth + 1;
        }
        proof {
            lemma_count_stmts_snoc(body@.subrange(0, i as int), body@[i as int]);
            assert(body@.subrange(0, i as int).push(body@[i as int]) =~= body@.subrange(
                0,
                i as int + 1,
            ));
        }
        i = i + 1;
    }
    proof {
        assert(body@.subrange(0, body@.len() as int) =~= body@);
    }
    (imp, exp, oth)
}

// ---------------------------------------------------------------------
// Executable record builders
// ---------------------------------------------------------------------

/// Build the symbol of one `import` specifier.
fn build_import_spec_symbol(stmt_type: bool, s: &ImportSpecifier) -> (r: ImportedSymbol)
    ensures
        r@ == import_decl_symbol(stmt_type, *s),
{
    match s {
        ImportSpecifier::Named { imported, local, type_only } => {
            let base = if stmt_type || *type_only {
                ImportedKind::ValueType
            } else {
                ImportedKind::Value
            };
            if crate::paths::str_eq(imported.as_str(), "default") {
                ImportedSymbol {
                    kind: ImportedKind::Default,
                    source_name: None,
                    symbol_id: local.symbol_id,
                    name: local.name.clone(),
                }
            } else if !crate::paths::str_eq(imported.as_str(), local.name.as_str()) {
                ImportedSymbol {
                    kind: base,
                    source_name: Some(imported.clone()),
                    symbol_id: local.symbol_id,
                    name: local.name.clone(),
                }
            } else {
                ImportedSymbol {
                    kind: base,
                    source_name: None,
                    symbol_id: local.symbol_id,
                    name: local.name.clone(),
                }
            }
        },
        ImportSpecifier::Default { local } => ImportedSymbol {
            kind: if stmt_type {
                ImportedKind::DefaultType
            } else {
                ImportedKind::Default
            },
            source_name: None,
            symbol_id: local.symbol_id,
            name: local.name.clone(),
        },
        ImportSpecifier::Namespace { local } => ImportedSymbol {
            kind: if stmt_type {
                ImportedKind::NamespaceType
            } else {
                ImportedKind::Namespace
            },
            source_name: None,
            symbol_id: local.symbol_id,
            name: local.name.clone(),
        },
    }
}

proof fn lemma_import_decl_symbols_snoc(stmt_type: bool, sps: Seq<ImportSpecifier>, x: ImportSpecifier)
    ensures
        import_decl_symbols(stmt_type, sps.push(x)) =~= import_decl_symbols(stmt_type, sps).push(
            import_decl_symbol(stmt_type, x),
        ),
    decreases sps.len(),
{
    if sps.len() == 0 {
        assert(sps.push(x)[0] == x);
        assert(sps.push(x).drop_first() =~= sps);
    } else {
        assert(sps.push(x)[0] == sps[0]);
        assert(sps.push(x).drop_first() =~= sps.drop_first().push(x));
        lemma_import_decl_symbols_snoc(stmt_type, sps.drop_first(), x);
    }
}

proof fn lemma_export_spec_symbols_snoc(kind_type: bool, sps: Seq<ExportSpecifier>, x: ExportSpecifier)
    ensures
        export_spec_symbols(kind_type, sps.push(x)) =~= export_spec_symbols(kind_type, sps).push(
            export_spec_symbol(kind_type, x),
        ),
    decreases sps.len(),
{
    if sps.len() == 0 {
        assert(sps.push(x)[0] == x);
        assert(sps.push(x).drop_first() =~= sps);
    } else {
        assert(sps.push(x)[0] == sps[0]);
        assert(sps.push(x).drop_first() =~= sps.drop_first().push(x));
        lemma_export_spec_symbols_snoc(kind_type, sps.drop_first(), x);
    }
}

proof fn lemma_export_props_snoc(props: Seq<ObjectProp>, x: ObjectProp)
    ensures
        export_props_symbols(props.push(x)) =~= export_props_symbols(props)
            + export_pattern_symbols(x.value),
    decreases props.len(),
{
    if props.len() == 0 {
        assert(props.push(x)[0] == x);
        assert(props.push(x).drop_first() =~= props);
    } else {
        assert(props.push(x)[0] == props[0]);
        assert(props.push(x).drop_first() =~= props.drop_first().push(x));
        lemma_export_props_snoc(props.drop_first(), x);
    }
}

proof fn lemma_export_elems_snoc(es: Seq<Option<Pattern>>, x: Option<Pattern>)
    ensures
        export_elems_symbols(es.push(x)) =~= export_elems_symbols(es) + (match x {
            Some(p) => export_pattern_symbols(p),
            None => Seq::<SpecExportedSymbol>::empty(),
        }),
    decreases es.len(),
{
    if es.len() == 0 {
        assert(es.push(x)[0] == x);
        assert(es.push(x).drop_first() =~= es);
    } else {
        assert(es.push(x)[0] == es[0]);
        assert(es.push(x).drop_first() =~= es.drop_first().push(x));
        lemma_export_elems_snoc(es.drop_first(), x);
    }
}

proof fn lemma_export_patterns_snoc(ps: Seq<Pattern>, x: Pattern)
    ensures
        export_patterns_symbols(ps.push(x)) =~= export_patterns_symbols(ps)
            + export_pattern_symbols(x),
    decreases ps.len(),
{
    if ps.len() == 0 {
        assert(ps.push(x)[0] == x);
        assert(ps.push(x).drop_first() =~= ps);
    } else {
        assert(ps.push(x)[0] == ps[0]);
        assert(ps.push(x).drop_first() =~= ps.drop_first().push(x));
        lemma_export_patterns_snoc(ps.drop_first(), x);
    }
}

proof fn lemma_import_props_snoc(props: Seq<ObjectProp>, x: ObjectProp)
    ensures
        import_props_symbols(props.push(x)) =~= import_props_symbols(props) + import_prop_symbols(
            x,
        ),
    decreases props.len(),
{
    if props.len() == 0 {
        assert(props.push(x)[0] == x);
        assert(props.push(x).drop_first() =~= props);
    } else {
        assert(props.push(x)[0] == props[0]);
        assert(props.push(x).drop_first() =~= props.drop_first().push(x));
        lemma_import_props_snoc(props.drop_first(), x);
    }
}

/// Build the record of an `import … from 's'` statement.
fn build_import_decl(d: &ImportDecl) -> (r: Import)
    ensures
        r@ == import_decl_record(*d),
{
    let mut symbols: Vec<ImportedSymbol> = Vec::new();
    match &d.specifiers {
        None => {
            proof {
                assert(imported_views(symbols@) =~= Seq::<SpecImportedSymbol>::empty());
            }
        },
        Some(sp) => {
            let mut i: usize = 0;
            while i < sp.len()
                invariant
                    i <= sp.len(),
                    imported_views(symbols@) =~= import_decl_symbols(
                        d.type_only,
                        sp@.subrange(0, i as int),
                    ),
                decreases sp.len() - i,
            {
                let ghost pre = symbols@;
                let sym = build_import_spec_symbol(d.type_only, &sp[i]);
                symbols.push(sym);
                proof {
                    lemma_imported_views_push(pre, sym);
                    lemma_import_decl_symbols_snoc(
                        d.type_only,
                        sp@.subrange(0, i as int),
                        sp@[i as int],
                    );
                    assert(sp@.subrange(0, i as int).push(sp@[i as int]) =~= sp@.subrange(
                        0,
                        i + 1 as int,
                    ));
                }
                i = i + 1;
            }
            proof {
                assert(sp@.subrange(0, sp@.len() as int) =~= sp@);
            }
        },
    }
    let r = Import {
        kind: ImportKind::AsyncStatic,
        module_id: 0,
        source_request: d.source.clone(),
        span: d.span,
        symbols,
        type_only: d.type_only,
    };
    proof {
        assert(r@.symbols == import_decl_record(*d).symbols);
    }
    r
}

/// Build the record of `export * [as name] from 's'`.
fn build_export_all(d: &ExportAllDecl) -> (r: Export)
    ensures
        r@ == export_all_record(*d),
{
    let kind = if d.type_only {
        ExportedKind::NamespaceType
    } else {
        ExportedKind::Namespace
    };
    let name = match &d.exported {
        Some(n) => n.clone(),
        None => "*".to_owned(),
    };
    let mut symbols: Vec<ExportedSymbol> = Vec::new();
    symbols.push(ExportedSymbol { kind, symbol_id: None, name });
    let r = Export {
        kind: ExportKind::Modern,
        module_id: None,
        source: Some(d.source.clone()),
        span: Some(d.span),
        symbols,
        type_only: d.type_only,
    };
    proof {
        assert(r@.symbols =~= export_all_record(*d).symbols);
    }
    r
}

/// Build the record of `export default …`.
fn build_export_default(d: &ExportDefaultDecl) -> (r: Export)
    ensures
        r@ == export_default_record(*d),
{
    let sym = match &d.decl {
        ExportDefaultKind::Ident { name } => ExportedSymbol {
            kind: ExportedKind::Default,
            symbol_id: None,
            name: name.clone(),
        },
        ExportDefaultKind::Class { id: Some(b) } => ExportedSymbol {
            kind: ExportedKind::Default,
            symbol_id: b.symbol_id,
            name: b.name.clone(),
        },
        ExportDefaultKind::Func { id: Some(b) } => ExportedSymbol {
            kind: ExportedKind::Default,
            symbol_id: b.symbol_id,
            name: b.name.clone(),
        },
        ExportDefaultKind::Interface { id } => ExportedSymbol {
            kind: ExportedKind::DefaultType,
            symbol_id: id.symbol_id,
            name: id.name.clone(),
        },
        ExportDefaultKind::Enum { id } => ExportedSymbol {
            kind: ExportedKind::DefaultType,
            symbol_id: id.symbol_id,
            name: id.name.clone(),
        },
        _ => ExportedSymbol {
            kind: ExportedKind::Default,
            symbol_id: None,
            name: "default".to_owned(),
        },
    };
    let ts = matches!(&d.decl, ExportDefaultKind::Interface { .. } | ExportDefaultKind::Enum { .. });
    let mut symbols: Vec<ExportedSymbol> = Vec::new();
    symbols.push(sym);
    let r = Export {
        kind: ExportKind::Modern,
        module_id: None,
        source: None,
        span: Some(d.span),
        symbols,
        type_only: ts,
    };
    proof {
        assert(r@.symbols =~= export_default_record(*d).symbols);
    }
    r
}

/// Append the symbols of one exported binding pattern.
fn push_export_pattern(p: &Pattern, out: &mut Vec<ExportedSymbol>)
    ensures
        exported_views(final(out)@) =~= exported_views(old(out)@) + export_pattern_symbols(*p),
    decreases pattern_height(*p),
{
    match p {
        Pattern::Ident(b) => {
            let ghost pre = out@;
            let sym = ExportedSymbol {
                kind: ExportedKind::Value,
                symbol_id: b.symbol_id,
                name: b.name.clone(),
            };
            out.push(sym);
            proof {
                lemma_exported_views_push(pre, sym);
            }
        },
        Pattern::Object { props, rest } => {
            let ghost mid0 = exported_views(out@);
            let mut i: usize = 0;
            proof {
                assert(props_height(props@) < pattern_height(*p));
            }
            while i < props.len()
                invariant
                    i <= props.len(),
                    props_height(props@) < pattern_height(*p),
                    exported_views(out@) =~= mid0 + export_props_symbols(
                        props@.subrange(0, i as int),
                    ),
                decreases props.len() - i,
            {
                proof {
                    lemma_props_height_elem(props@, i as int);
                }
                push_export_pattern(&props[i].value, out);
                proof {
                    lemma_export_props_snoc(props@.subrange(0, i as int), props@[i as int]);
                    assert(props@.subrange(0, i as int).push(props@[i as int]) =~= props@.subrange(
                        0,
                        i + 1 as int,
                    ));
                }
                i = i + 1;
            }
            proof {
                assert(props@.subrange(0, props@.len() as int) =~= props@);
            }
            match rest {
                Some(r) => {
                    push_export_pattern(r, out);
                },
                None => {},
            }
        },
        Pattern::Array { elements, rest } => {
            let ghost mid0 = exported_views(out@);
            let mut i: usize = 0;
            proof {
                assert(elems_height(elements@) < pattern_height(*p));
            }
            while i < elements.len()
                invariant
                    i <= elements.len(),
                    elems_height(elements@) < pattern_height(*p),
                    exported_views(out@) =~= mid0 + export_elems_symbols(
                        elements@.subrange(0, i as int),
                    ),
                decreases elements.len() - i,
            {
                match &elements[i] {
                    Some(p2) => {
                        proof {
                            lemma_elems_height_elem(elements@, i as int);
                        }
                        push_export_pattern(p2, out);
                    },
                    None => {},
                }
                proof {
                    lemma_export_elems_snoc(elements@.subrange(0, i as int), elements@[i as int]);
                    assert(elements@.subrange(0, i as int).push(elements@[i as int]) =~= elements@
                        .subrange(0, i + 1 as int));
                }
                i = i + 1;
            }
            proof {
                assert(elements@.subrange(0, elements@.len() as int) =~= elements@);
            }
            match rest {
                Some(r) => {
                    push_export_pattern(r, out);
                },
                None => {},
            }
        },
        Pattern::Assign { left } => {
            push_export_pattern(left, out);
        },
    }
}

/// Build the record of `export { … } [from 's']` / `export <declaration>`.
fn build_export_named(d: &ExportNamedDecl) -> (r: Export)
    ensures
        r@ == export_named_record(*d),
{
    let mut symbols: Vec<ExportedSymbol> = Vec::new();
    match &d.decl {
        None => {},
        Some(decl) => match decl {
            NamedDecl::Var { declarators } => {
                let mut i: usize = 0;
                while i < declarators.len()
                    invariant
                        i <= declarators.len(),
                        exported_views(symbols@) =~= export_patterns_symbols(
                            declarators@.subrange(0, i as int),
                        ),
                    decreases declarators.len() - i,
                {
                    push_export_pattern(&declarators[i], &mut symbols);
                    proof {
                        lemma_export_patterns_snoc(
                            declarators@.subrange(0, i as int),
                            declarators@[i as int],
                        );
                        assert(declarators@.subrange(0, i as int).push(declarators@[i as int])
                            =~= declarators@.subrange(0, i + 1 as int));
                    }
                    i = i + 1;
                }
                proof {
                    assert(declarators@.subrange(0, declarators@.len() as int) =~= declarators@);
                }
            },
            NamedDecl::Func { id } => {
                symbols.push(
                    ExportedSymbol {
                        kind: ExportedKind::Value,
                        symbol_id: id.symbol_id,
                        name: id.name.clone(),
                    },
                );
            },
            NamedDecl::Class { id } => {
                symbols.push(
                    ExportedSymbol {
                        kind: ExportedKind::Value,
                        symbol_id: id.symbol_id,
                        name: id.name.clone(),
                    },
                );
            },
            NamedDecl::TsTypeAlias { id } => {
                symbols.push(
                    ExportedSymbol {
                        kind: ExportedKind::ValueType,
                        symbol_id: id.symbol_id,
                        name: id.name.clone(),
                    },
                );
            },
            NamedDecl::TsInterface { id } => {
                symbols.push(
                    ExportedSymbol {
                        kind: ExportedKind::ValueType,
                        symbol_id: id.symbol_id,
                        name: id.name.clone(),
                    },
                );
            },
            NamedDecl::TsEnum { id } => {
                symbols.push(
                    ExportedSymbol {
                        kind: ExportedKind::ValueType,
                        symbol_id: id.symbol_id,
                        name: id.name.clone(),
                    },
                );
            },
            NamedDecl::TsModule { name } => {
                symbols.push(
                    ExportedSymbol {
                        kind: ExportedKind::ValueType,
                        symbol_id: None,
                        name: name.clone(),
                    },
                );
            },
            NamedDecl::TsImportEquals { id } => {
                symbols.push(
                    ExportedSymbol {
                        kind: ExportedKind::ValueType,
                        symbol_id: id.symbol_id,
                        name: id.name.clone(),
                    },
                );
            },
            NamedDecl::Other => {},
        },
    }
    let ghost decl_syms = opt_decl_symbols(d.decl);
    proof {
        assert(exported_views(symbols@) =~= decl_syms);
    }
    let mut i: usize = 0;
    while i < d.specifiers.len()
        invariant
            i <= d.specifiers.len(),
            exported_views(symbols@) =~= decl_syms + export_spec_symbols(
                d.kind_type,
                d.specifiers@.subrange(0, i as int),
            ),
        decreases d.specifiers.len() - i,
    {
        let sp = &d.specifiers[i];
        let kind = if d.kind_type || sp.type_only {
            ExportedKind::ValueType
        } else {
            ExportedKind::Value
        };
        let ghost pre = symbols@;
        let sym = ExportedSymbol { kind, symbol_id: None, name: sp.local.clone() };
        symbols.push(sym);
        proof {
            lemma_exported_views_push(pre, sym);
            lemma_export_spec_symbols_snoc(
                d.kind_type,
                d.specifiers@.subrange(0, i as int),
                d.specifiers@[i as int],
            );
            assert(d.specifiers@.subrange(0, i as int).push(d.specifiers@[i as int]) =~= d
                .specifiers@.subrange(0, i + 1 as int));
        }
        i = i + 1;
    }
    proof {
        assert(d.specifiers@.subrange(0, d.specifiers@.len() as int) =~= d.specifiers@);
    }
    let source = match &d.source {
        Some(s) => Some(s.clone()),
        None => None,
    };
    let r = Export {
        kind: ExportKind::Modern,
        module_id: None,
        source,
        span: Some(d.span),
        symbols,
        type_only: d.type_only,
    };
    proof {
        assert(r@.symbols =~= export_named_record(*d).symbols);
        assert(r@.source == export_named_record(*d).source);
    }
    r
}

/// Append the symbols bound by the pattern around a dynamic import or a
/// `require` call.
fn push_import_pattern(p: &Pattern, out: &mut Vec<ImportedSymbol>)
    ensures
        imported_views(final(out)@) =~= imported_views(old(out)@) + import_pattern_symbols(*p),
    decreases pattern_height(*p),
{
    match p {
        Pattern::Ident(b) => {
            let ghost pre = out@;
            let sym = ImportedSymbol {
                kind: ImportedKind::Namespace,
                source_name: None,
                symbol_id: b.symbol_id,
                name: b.name.clone(),
            };
            out.push(sym);
            proof {
                lemma_imported_views_push(pre, sym);
            }
        },
        Pattern::Object { props, rest } => {
            let ghost mid0 = imported_views(out@);
            let mut i: usize = 0;
            while i < props.len()
                invariant
                    i <= props.len(),
                    imported_views(out@) =~= mid0 + import_props_symbols(
                        props@.subrange(0, i as int),
                    ),
                decreases props.len() - i,
            {
                let ghost pre = out@;
                let prop = &props[i];
                let kind = match &prop.key {
                    Some(k) => if crate::paths::str_eq(k.as_str(), "default") {
                        ImportedKind::Default
                    } else {
                        ImportedKind::Value
                    },
                    None => ImportedKind::Value,
                };
                match &prop.value {
                    Pattern::Ident(b) => {
                        let source_name = match &prop.key {
                            Some(k) => if crate::paths::str_eq(k.as_str(), b.name.as_str()) {
                                None
                            } else {
                                Some(k.clone())
                            },
                            None => None,
                        };
                        let sym = ImportedSymbol {
                            kind,
                            source_name,
                            symbol_id: b.symbol_id,
                            name: b.name.clone(),
                        };
                        out.push(sym);
                        proof {
                            lemma_imported_views_push(pre, sym);
                            assert(imported_views(out@) =~= imported_views(pre)
                                + import_prop_symbols(props@[i as int]));
                        }
                    },
                    _ => {
                        match &prop.key {
                            Some(k) => {
                                let sym = ImportedSymbol {
                                    kind,
                                    source_name: None,
                                    symbol_id: None,
                                    name: k.clone(),
                                };
                                out.push(sym);
                                proof {
                                    lemma_imported_views_push(pre, sym);
                                    assert(imported_views(out@) =~= imported_views(pre)
                                        + import_prop_symbols(props@[i as int]));
                                }
                            },
                            None => {
                                proof {
                                    assert(imported_views(out@) =~= imported_views(pre)
                                        + import_prop_symbols(props@[i as int]));
                                }
                            },
                        }
                    },
                }
                proof {
                    lemma_import_props_snoc(props@.subrange(0, i as int), props@[i as int]);
                    assert(props@.subrange(0, i as int).push(props@[i as int]) =~= props@.subrange(
                        0,
                        i + 1 as int,
                    ));
                }
                i = i + 1;
            }
            proof {
                assert(props@.subrange(0, props@.len() as int) =~= props@);
            }
            match rest {
                Some(r) => {
                    match &**r {
                        Pattern::Ident(b) => {
                            let ghost pre = out@;
                            let sym = ImportedSymbol {
                                kind: ImportedKind::Namespace,
                                source_name: None,
                                symbol_id: None,
                                name: b.name.clone(),
                            };
                            out.push(sym);
                            proof {
                                lemma_imported_views_push(pre, sym);
                            }
                        },
                        _ => {},
                    }
                },
                None => {},
            }
        },
        Pattern::Array { .. } => {},
        Pattern::Assign { left } => {
            push_import_pattern(left, out);
        },
    }
}

// ---------------------------------------------------------------------
// The verified walker
// ---------------------------------------------------------------------

/// Whether a span list holds a span.
fn span_seen(list: &Vec<Span>, s: Span) -> (r: bool)
    ensures
        r == list@.contains(s),
{
    let mut i: usize = 0;
    while i < list.len()
        invariant
            i <= list.len(),
            forall|k: int| 0 <= k < i ==> list@[k] != s,
        decreases list.len() - i,
    {
        if list[i] == s {
            proof {
                assert(list@[i as int] == s);
            }
            return true;
        }
        i = i + 1;
    }
    false
}

/// The walker that extracts import and export records from a model tree.
/// It mirrors the extraction fold exactly: records in source order, spans
/// de-duplicated across the two discovery paths.
pub struct ExtractImportsExports {
    pub imports: Vec<Import>,
    pub exports: Vec<Export>,
    pub extracted_dynamic_imports: Vec<Span>,
    pub extracted_requires: Vec<Span>,
    pub exports_default: bool,
    pub require_count: usize,
    pub dynamic_import_count: usize,
}

impl ExtractImportsExports {
    /// The walker's state as an extraction state.
    pub open spec fn st(&self) -> ExtState {
        ExtState {
            imports: import_views(self.imports@),
            exports: export_views(self.exports@),
            dyn_seen: self.extracted_dynamic_imports@.to_set(),
            req_seen: self.extracted_requires@.to_set(),
            exports_default: self.exports_default,
            require_count: self.require_count as nat,
            dynamic_import_count: self.dynamic_import_count as nat,
        }
    }

    /// The two counters never exceed the number of emitted import
    /// records, which keeps their increments free of overflow.
    pub open spec fn counters_ok(&self) -> bool {
        self.require_count + self.dynamic_import_count <= self.imports@.len()
    }

    /// A fresh walker, with no records and no processed spans.
    pub fn new() -> (r: ExtractImportsExports)
        ensures
            r.st() == ExtState::init(),
            r.counters_ok(),
    {
        let r = ExtractImportsExports {
            imports: Vec::new(),
            exports: Vec::new(),
            extracted_dynamic_imports: Vec::new(),
            extracted_requires: Vec::new(),
            exports_default: false,
            require_count: 0,
            dynamic_import_count: 0,
        };
        proof {
            assert(r.st() =~~= ExtState::init());
        }
        r
    }

    /// Append an import record.
    fn add_import(&mut self, rec: Import)
        requires
            old(self).counters_ok(),
        ensures
            final(self).counters_ok(),
            final(self).st() == (ExtState {
                imports: old(self).st().imports.push(rec@),
                ..old(self).st()
            }),
    {
        let ghost pre = self.imports@;
        self.imports.push(rec);
        proof {
            lemma_import_views_push(pre, rec);
            assert(self.st() =~~= (ExtState {
                imports: old(self).st().imports.push(rec@),
                ..old(self).st()
            }));
        }
    }

    /// Append an export record.
    fn add_export(&mut self, rec: Export)
        requires
            old(self).counters_ok(),
        ensures
            final(self).counters_ok(),
            final(self).st() == (ExtState {
                exports: old(self).st().exports.push(rec@),
                ..old(self).st()
            }),
    {
        let ghost pre = self.exports@;
        self.exports.push(rec);
        proof {
            lemma_export_views_push(pre, rec);
            assert(self.st() =~~= (ExtState {
                exports: old(self).st().exports.push(rec@),
                ..old(self).st()
            }));
        }
    }

    /// Emit a dynamic-import record unless its span was processed.
    fn do_emit_dynamic_import(&mut self, span: Span, source: &String, symbols: Vec<ImportedSymbol>)
        requires
            old(self).counters_ok(),
        ensures
            final(self).counters_ok(),
            final(self).st() == emit_dynamic_import(
                old(self).st(),
                span,
                source@,
                imported_views(symbols@),
            ),
    {
        if span_seen(&self.extracted_dynamic_imports, span) {
            proof {
                assert(self.st().dyn_seen.contains(span));
            }
            return ;
        }
        let ghost pre_spans = self.extracted_dynamic_imports@;
        let ghost pre_imports = self.imports@;
        self.extracted_dynamic_imports.push(span);
        let rec = Import {
            kind: ImportKind::AsyncDynamic,
            module_id: 0,
            source_request: source.clone(),
            span,
            symbols,
            type_only: false,
        };
        self.imports.push(rec);
        let n = self.imports.len();
        proof {
            assert(self.require_count + self.dynamic_import_count < n);
        }
        self.dynamic_import_count = self.dynamic_import_count + 1;
        proof {
            lemma_import_views_push(pre_imports, rec);
            Seq::lemma_to_set_insert_commutes(pre_spans, span);
            assert(pre_spans.push(span) =~= pre_spans + seq![span]);
            assert(self.st() =~~= emit_dynamic_import(
                old(self).st(),
                span,
                source@,
                imported_views(rec.symbols@),
            ));
        }
    }

    /// Emit a `require` record unless its span was processed.
    fn do_emit_require(&mut self, span: Span, source: &String, symbols: Vec<ImportedSymbol>)
        requires
            old(self).counters_ok(),
        ensures
            final(self).counters_ok(),
            final(self).st() == emit_require(old(self).st(), span, source@, imported_views(symbols@)),
    {
        if span_seen(&self.extracted_requires, span) {
            proof {
                assert(self.st().req_seen.contains(span));
            }
            return ;
        }
        let ghost pre_spans = self.extracted_requires@;
        let ghost pre_imports = self.imports@;
        self.extracted_requires.push(span);
        let rec = Import {
            kind: ImportKind::SyncStatic,
            module_id: 0,
            source_request: source.clone(),
            span,
            symbols,
            type_only: false,
        };
        self.imports.push(rec);
        let n = self.imports.len();
        proof {
            assert(self.require_count + self.dynamic_import_count < n);
        }
        self.require_count = self.require_count + 1;
        proof {
            lemma_import_views_push(pre_imports, rec);
            Seq::lemma_to_set_insert_commutes(pre_spans, span);
            assert(pre_spans.push(span) =~= pre_spans + seq![span]);
            assert(self.st() =~~= emit_require(
                old(self).st(),
                span,
                source@,
                imported_views(rec.symbols@),
            ));
        }
    }

    /// Walk one node: emit what the node itself contributes, then its
    /// children in source order.
    pub fn visit_node(&mut self, n: &Node)
        requires
            old(self).counters_ok(),
        ensures
            final(self).counters_ok(),
            final(self).st() == ext_node(old(self).st(), *n),
        decreases node_height(*n),
    {
        match n {
            Node::ImportDecl(d) => {
                let rec = build_import_decl(d);
                self.add_import(rec);
                proof {
                    assert(self.st() =~~= ext_node(old(self).st(), *n));
                }
            },
            Node::ExportAll(d) => {
                let rec = build_export_all(d);
                self.add_export(rec);
                proof {
                    assert(self.st() =~~= ext_node(old(self).st(), *n));
                }
            },
            Node::ExportDefault(d) => {
                let rec = build_export_default(d);
                self.add_export(rec);
                self.exports_default = true;
                proof {
                    assert(self.st() =~~= ext_node(old(self).st(), *n));
                }
            },
            Node::ExportNamed(d) => {
                let rec = build_export_named(d);
                if rec.symbols.len() > 0 {
                    self.add_export(rec);
                    proof {
                        assert(self.st() =~~= ext_node(old(self).st(), *n));
                    }
                } else {
                    proof {
                        assert(export_named_record(*d).symbols.len() == 0);
                        assert(self.st() =~~= ext_node(old(self).st(), *n));
                    }
                }
            },
            Node::ExportAssign { span, value } => {
                let rec = Export {
                    kind: ExportKind::Modern,
                    module_id: None,
                    source: None,
                    span: Some(*span),
                    symbols: vec![
                        ExportedSymbol {
                            kind: ExportedKind::Default,
                            symbol_id: None,
                            name: "default".to_owned(),
                        },
                    ],
                    type_only: false,
                };
                proof {
                    assert(rec@.symbols =~= export_assign_record(*span).symbols);
                }
                self.add_export(rec);
                self.visit_node(value);
                proof {
                    assert(self.st() =~~= ext_node(old(self).st(), *n));
                }
            },
            Node::ImportEquals { span, id, source, type_only } => {
                match source {
                    Some(s) => {
                        if !span_seen(&self.extracted_requires, *span) {
                            let ghost pre_spans = self.extracted_requires@;
                            let ghost pre_imports = self.imports@;
                            self.extracted_requires.push(*span);
                            let rec = Import {
                                kind: ImportKind::SyncStatic,
                                module_id: 0,
                                source_request: s.clone(),
                                span: *span,
                                symbols: vec![
                                    ImportedSymbol {
                                        kind: ImportedKind::Default,
                                        source_name: None,
                                        symbol_id: id.symbol_id,
                                        name: id.name.clone(),
                                    },
                                ],
                                type_only: *type_only,
                            };
                            self.imports.push(rec);
                            proof {
                                lemma_import_views_push(pre_imports, rec);
                                Seq::lemma_to_set_insert_commutes(pre_spans, *span);
                                assert(pre_spans.push(*span) =~= pre_spans + seq![*span]);
                                assert(rec@.symbols =~= import_equals_record(
                                    *span,
                                    SpecBindingIdent { name: id.name@, symbol_id: id.symbol_id },
                                    s@,
                                    *type_only,
                                ).symbols);
                                assert(self.st() =~~= ext_node(old(self).st(), *n));
                            }
                        } else {
                            proof {
                                assert(self.st().req_seen.contains(*span));
                                assert(self.st() =~~= ext_node(old(self).st(), *n));
                            }
                        }
                    },
                    None => {
                        proof {
                            assert(self.st() =~~= ext_node(old(self).st(), *n));
                        }
                    },
                }
            },
            Node::VarDeclarator { id, init } => {
                match init {
                    None => {
                        proof {
                            assert(self.st() =~~= ext_node(old(self).st(), *n));
                        }
                    },
                    Some(e) => {
                        match &**e {
                            Node::Await { inner } => {
                                match &**inner {
                                    Node::ImportCall { span, source } => {
                                        match &**source {
                                            Node::Str { value } => {
                                                let mut syms: Vec<ImportedSymbol> = Vec::new();
                                                push_import_pattern(id, &mut syms);
                                                proof {
                                                    assert(imported_views(syms@)
                                                        =~= import_pattern_symbols(*id));
                                                    assert(is_await_import_str(**e));
                                                }
                                                self.do_emit_dynamic_import(*span, value, syms);
                                            },
                                            _ => {},
                                        }
                                    },
                                    _ => {},
                                }
                            },
                            Node::Call { span, callee, args } => {
                                let is_req = match &**callee {
                                    Node::Ident { name } => crate::paths::str_eq(
                                        name.as_str(),
                                        "require",
                                    ),
                                    _ => false,
                                };
                                if is_req && args.len() == 1 {
                                    match &args[0] {
                                        Node::Str { value } => {
                                            let mut syms: Vec<ImportedSymbol> = Vec::new();
                                            push_import_pattern(id, &mut syms);
                                            proof {
                                                assert(imported_views(syms@)
                                                    =~= import_pattern_symbols(*id));
                                                assert(args@[0] matches Node::Str { .. });
                                                assert(is_require_str(**e));
                                            }
                                            self.do_emit_require(*span, value, syms);
                                        },
                                        _ => {},
                                    }
                                }
                            },
                            _ => {},
                        }
                        self.visit_node(e);
                        proof {
                            assert(self.st() =~~= ext_node(old(self).st(), *n));
                        }
                    },
                }
            },
            Node::Ident { .. } => {
                proof {
                    assert(self.st() =~~= ext_node(old(self).st(), *n));
                }
            },
            Node::Str { .. } => {
                proof {
                    assert(self.st() =~~= ext_node(old(self).st(), *n));
                }
            },
            Node::Class { children, .. } => {
                self.visit_nodes(children);
                proof {
                    assert(self.st() =~~= ext_node(old(self).st(), *n));
                }
            },
            Node::Func { children, .. } => {
                self.visit_nodes(children);
                proof {
                    assert(self.st() =~~= ext_node(old(self).st(), *n));
                }
            },
            Node::Call { span, callee, args } => {
                let is_req = match &**callee {
                    Node::Ident { name } => crate::paths::str_eq(name.as_str(), "require"),
                    _ => false,
                };
                if is_req && args.len() == 1 {
                    match &args[0] {
                        Node::Str { value } => {
                            proof {
                                assert(args@[0] matches Node::Str { .. });
                                assert(is_require_str(*n));
                            }
                            let syms: Vec<ImportedSymbol> = Vec::new();
                            proof {
                                assert(imported_views(syms@) =~= Seq::<
                                    SpecImportedSymbol,
                                >::empty());
                            }
                            self.do_emit_require(*span, value, syms);
                        },
                        _ => {
                            proof {
                                assert(!is_require_str(*n));
                            }
                        },
                    }
                } else {
                    proof {
                        assert(!is_require_str(*n));
                    }
                }
                self.visit_node(callee);
                self.visit_nodes(args);
                proof {
                    assert(self.st() =~~= ext_node(old(self).st(), *n));
                }
            },
            Node::ImportCall { span, source } => {
                match &**source {
                    Node::Str { value } => {
                        let syms: Vec<ImportedSymbol> = Vec::new();
                        proof {
                            assert(imported_views(syms@) =~= Seq::<SpecImportedSymbol>::empty());
                        }
                        self.do_emit_dynamic_import(*span, value, syms);
                    },
                    _ => {},
                }
                self.visit_node(source);
                proof {
                    assert(self.st() =~~= ext_node(old(self).st(), *n));
                }
            },
            Node::Await { inner } => {
                self.visit_node(inner);
                proof {
                    assert(self.st() =~~= ext_node(old(self).st(), *n));
                }
            },
            Node::Assign { span, target, value } => {
                let is_me = match &**target {
                    Node::Member { object, prop, .. } => {
                        let obj_is_module = match &**object {
                            Node::Ident { name } => crate::paths::str_eq(name.as_str(), "module"),
                            _ => false,
                        };
                        obj_is_module && crate::paths::str_eq(prop.as_str(), "exports")
                    },
                    _ => false,
                };
                if is_me {
                    let name = match &**value {
                        Node::Ident { name } => Some(name.clone()),
                        Node::Class { id: Some(b), .. } => Some(b.name.clone()),
                        Node::Func { id: Some(b), .. } => Some(b.name.clone()),
                        _ => None,
                    };
                    let sym_name = match name {
                        Some(nm) => nm,
                        None => "default".to_owned(),
                    };
                    let rec = Export {
                        kind: ExportKind::Legacy,
                        module_id: None,
                        source: None,
                        span: Some(*span),
                        symbols: vec![
                            ExportedSymbol {
                                kind: ExportedKind::Default,
                                symbol_id: None,
                                name: sym_name,
                            },
                        ],
                        type_only: false,
                    };
                    proof {
                        assert(is_module_exports_target(**target));
                        assert(rec@.symbols =~= legacy_default_record(
                            *span,
                            assigned_export_name(**value),
                        ).symbols);
                    }
                    self.add_export(rec);
                    self.exports_default = true;
                } else {
                    proof {
                        assert(!is_module_exports_target(**target));
                    }
                }
                self.visit_node(target);
                self.visit_node(value);
                proof {
                    assert(self.st() =~~= ext_node(old(self).st(), *n));
                }
            },
            Node::Member { span, object, prop } => {
                let is_exports = match &**object {
                    Node::Ident { name } => crate::paths::str_eq(name.as_str(), "exports"),
                    _ => false,
                };
                if is_exports && !prop.as_str().is_empty() {
                    let rec = Export {
                        kind: ExportKind::Legacy,
                        module_id: None,
                        source: None,
                        span: Some(*span),
                        symbols: vec![
                            ExportedSymbol {
                                kind: ExportedKind::Value,
                                symbol_id: None,
                                name: prop.clone(),
                            },
                        ],
                        type_only: false,
                    };
                    proof {
                        assert(rec@.symbols =~= legacy_value_record(*span, prop@).symbols);
                    }
                    self.add_export(rec);
                }
                self.visit_node(object);
                proof {
                    assert(self.st() =~~= ext_node(old(self).st(), *n));
                }
            },
            Node::Other { children } => {
                self.visit_nodes(children);
                proof {
                    assert(self.st() =~~= ext_node(old(self).st(), *n));
                }
            },
        }
    }

    /// Walk a list of nodes in order.
    pub fn visit_nodes(&mut self, l: &Vec<Node>)
        requires
            old(self).counters_ok(),
        ensures
            final(self).counters_ok(),
            final(self).st() == ext_nodes(old(self).st(), l@),
        decreases nodes_height(l@),
    {
        let ghost st0 = self.st();
        let mut i: usize = 0;
        while i < l.len()
            invariant
                i <= l.len(),
                self.counters_ok(),
                self.st() == ext_nodes(st0, l@.subrange(0, i as int)),
            decreases l.len() - i,
        {
            proof {
                lemma_nodes_height_elem(l@, i as int);
            }
            self.visit_node(&l[i]);
            proof {
                lemma_ext_nodes_snoc(st0, l@.subrange(0, i as int), l@[i as int]);
                assert(l@.subrange(0, i as int).push(l@[i as int]) =~= l@.subrange(0, i as int + 1));
            }
            i = i + 1;
        }
        proof {
            assert(l@.subrange(0, l@.len() as int) =~= l@);
        }
    }

    /// Walk a whole program.
    pub fn visit_program(&mut self, program: &Program)
        requires
            old(self).counters_ok(),
        ensures
            final(self).counters_ok(),
            final(self).st() == ext_nodes(old(self).st(), program.body@),
    {
        self.visit_nodes(&program.body);
    }
}

// ---------------------------------------------------------------------
// Laws of the extraction
// ---------------------------------------------------------------------

/// Dynamic-import and `require` records are keyed by span: every such
/// record's span is registered in the respective processed set, and no
/// two records of the same family share a span.
pub open spec fn records_deduped(st: ExtState) -> bool {
    &&& (forall|i: int|
        0 <= i < st.imports.len() && (#[trigger] st.imports[i]).kind is AsyncDynamic
            ==> st.dyn_seen.contains(st.imports[i].span))
    &&& (forall|i: int|
        0 <= i < st.imports.len() && (#[trigger] st.imports[i]).kind is SyncStatic
            ==> st.req_seen.contains(st.imports[i].span))
    &&& (forall|i: int, j: int|
        0 <= i < j < st.imports.len() && (#[trigger] st.imports[i]).kind is AsyncDynamic && (
        #[trigger] st.imports[j]).kind is AsyncDynamic ==> st.imports[i].span
            != st.imports[j].span)
    &&& (forall|i: int, j: int|
        0 <= i < j < st.imports.len() && (#[trigger] st.imports[i]).kind is SyncStatic && (
        #[trigger] st.imports[j]).kind is SyncStatic ==> st.imports[i].span
            != st.imports[j].span)
}

proof fn lemma_emit_dynamic_import_dedup(
    st: ExtState,
    span: Span,
    source: Seq<char>,
    symbols: Seq<SpecImportedSymbol>,
)
    requires
        records_deduped(st),
    ensures
        records_deduped(emit_dynamic_import(st, span, source, symbols)),
{
    let st2 = emit_dynamic_import(st, span, source, symbols);
    if !st.dyn_seen.contains(span) {
        assert forall|i: int, j: int|
            0 <= i < j < st2.imports.len() && (#[trigger] st2.imports[i]).kind is AsyncDynamic && (
            #[trigger] st2.imports[j]).kind is AsyncDynamic implies st2.imports[i].span
            != st2.imports[j].span by {
            if j == st2.imports.len() - 1 {
                assert(st.dyn_seen.contains(st.imports[i].span));
            }
        }
    }
}

proof fn lemma_emit_require_dedup(
    st: ExtState,
    span: Span,
    source: Seq<char>,
    symbols: Seq<SpecImportedSymbol>,
)
    requires
        records_deduped(st),
    ensures
        records_deduped(emit_require(st, span, source, symbols)),
{
    let st2 = emit_require(st, span, source, symbols);
    if !st.req_seen.contains(span) {
        assert forall|i: int, j: int|
            0 <= i < j < st2.imports.len() && (#[trigger] st2.imports[i]).kind is SyncStatic && (
            #[trigger] st2.imports[j]).kind is SyncStatic implies st2.imports[i].span
            != st2.imports[j].span by {
            if j == st2.imports.len() - 1 {
                assert(st.req_seen.contains(st.imports[i].span));
            }
        }
    }
}

/// A record whose kind is neither dynamic-import nor `require` keeps the
/// de-duplication intact.
proof fn lemma_push_other_dedup(st: ExtState, rec: SpecImport)
    requires
        records_deduped(st),
        !(rec.kind is AsyncDynamic),
        rec.kind is SyncStatic ==> !st.req_seen.contains(rec.span),
    ensures
        rec.kind is SyncStatic ==> records_deduped(
            ExtState {
                imports: st.imports.push(rec),
                req_seen: st.req_seen.insert(rec.span),
                ..st
            },
        ),
        !(rec.kind is SyncStatic) ==> records_deduped(
            ExtState { imports: st.imports.push(rec), ..st },
        ),
{
    if rec.kind is SyncStatic {
        let st2 = ExtState {
            imports: st.imports.push(rec),
            req_seen: st.req_seen.insert(rec.span),
            ..st
        };
        assert forall|i: int, j: int|
            0 <= i < j < st2.imports.len() && (#[trigger] st2.imports[i]).kind is SyncStatic && (
            #[trigger] st2.imports[j]).kind is SyncStatic implies st2.imports[i].span
            != st2.imports[j].span by {
            if j == st2.imports.len() - 1 {
                assert(st.req_seen.contains(st.imports[i].span));
            }
        }
    }
}

proof fn lemma_ext_node_dedup(st: ExtState, n: Node)
    requires
        records_deduped(st),
    ensures
        records_deduped(ext_node(st, n)),
    decreases n,
{
    match n {
        Node::ImportDecl(d) => {
            lemma_push_other_dedup(st, import_decl_record(d));
        },
        Node::ExportAll(_) => {},
        Node::ExportDefault(_) => {},
        Node::ExportNamed(_) => {},
        Node::ExportAssign { span, value } => {
            lemma_ext_node_dedup(
                ExtState { exports: st.exports.push(export_assign_record(span)), ..st },
                *value,
            );
        },
        Node::ImportEquals { span, id, source, type_only } => {
            match source {
                Some(s) => {
                    if !st.req_seen.contains(span) {
                        lemma_push_other_dedup(
                            st,
                            import_equals_record(
                                span,
                                SpecBindingIdent { name: id.name@, symbol_id: id.symbol_id },
                                s@,
                                type_only,
                            ),
                        );
                    }
                },
                None => {},
            }
        },
        Node::VarDeclarator { id, init } => {
            match init {
                None => {},
                Some(e) => {
                    let st1 = if is_await_import_str(*e) {
                        emit_dynamic_import(
                            st,
                            await_import_span(*e),
                            await_import_source(*e),
                            import_pattern_symbols(id),
                        )
                    } else {
                        st
                    };
                    if is_await_import_str(*e) {
                        lemma_emit_dynamic_import_dedup(
                            st,
                            await_import_span(*e),
                            await_import_source(*e),
                            import_pattern_symbols(id),
                        );
                    }
                    let st2 = if is_require_str(*e) {
                        emit_require(
                            st1,
                            node_span(*e),
                            require_source(*e),
                            import_pattern_symbols(id),
                        )
                    } else {
                        st1
                    };
                    if is_require_str(*e) {
                        lemma_emit_require_dedup(
                            st1,
                            node_span(*e),
                            require_source(*e),
                            import_pattern_symbols(id),
                        );
                    }
                    lemma_ext_node_dedup(st2, *e);
                },
            }
        },
        Node::Ident { .. } => {},
        Node::Str { .. } => {},
        Node::Class { children, .. } => {
            lemma_ext_nodes_dedup(st, children@);
        },
        Node::Func { children, .. } => {
            lemma_ext_nodes_dedup(st, children@);
        },
        Node::Call { span, callee, args } => {
            let st1 = if is_require_str(n) {
                emit_require(st, span, require_source(n), Seq::<SpecImportedSymbol>::empty())
            } else {
                st
            };
            if is_require_str(n) {
                lemma_emit_require_dedup(
                    st,
                    span,
                    require_source(n),
                    Seq::<SpecImportedSymbol>::empty(),
                );
            }
            lemma_ext_node_dedup(st1, *callee);
            lemma_ext_nodes_dedup(ext_node(st1, *callee), args@);
        },
        Node::ImportCall { span, source } => {
            let st1 = match *source {
                Node::Str { value } => emit_dynamic_import(
                    st,
                    span,
                    value@,
                    Seq::<SpecImportedSymbol>::empty(),
                ),
                _ => st,
            };
            match *source {
                Node::Str { value } => {
                    lemma_emit_dynamic_import_dedup(
                        st,
                        span,
                        value@,
                        Seq::<SpecImportedSymbol>::empty(),
                    );
                },
                _ => {},
            }
            lemma_ext_node_dedup(st1, *source);
        },
        Node::Await { inner } => {
            lemma_ext_node_dedup(st, *inner);
        },
        Node::Assign { span, target, value } => {
            let st1 = if is_module_exports_target(*target) {
                ExtState {
                    exports: st.exports.push(
                        legacy_default_record(span, assigned_export_name(*value)),
                    ),
                    exports_default: true,
                    ..st
                }
            } else {
                st
            };
            lemma_ext_node_dedup(st1, *target);
            lemma_ext_node_dedup(ext_node(st1, *target), *value);
        },
        Node::Member { span, object, prop } => {
            let st1 = if (*object matches Node::Ident { name } && name@ == "exports"@) && prop@.len()
                > 0 {
                ExtState { exports: st.exports.push(legacy_value_record(span, prop@)), ..st }
            } else {
                st
            };
            lemma_ext_node_dedup(st1, *object);
        },
        Node::Other { children } => {
            lemma_ext_nodes_dedup(st, children@);
        },
    }
}

proof fn lemma_ext_nodes_dedup(st: ExtState, l: Seq<Node>)
    requires
        records_deduped(st),
    ensures
        records_deduped(ext_nodes(st, l)),
    decreases l,
{
    if l.len() > 0 {
        lemma_ext_node_dedup(st, l[0]);
        lemma_ext_nodes_dedup(ext_node(st, l[0]), l.drop_first());
    }
}

/// Law: one record per span. Among the records extracted from a program,
/// no two dynamic-import records share a span, and no two synchronous
/// `require`-style records share a span, even when a call is discovered
/// both as a variable-declarator initializer and as a nested expression.
pub proof fn lemma_one_record_per_span(p: Program)
    ensures
        forall|i: int, j: int|
            0 <= i < j < ext_program(p).imports.len() && (#[trigger] ext_program(
                p,
            ).imports[i]).kind is AsyncDynamic && (#[trigger] ext_program(
                p,
            ).imports[j]).kind is AsyncDynamic ==> ext_program(p).imports[i].span != ext_program(
                p,
            ).imports[j].span,
        forall|i: int, j: int|
            0 <= i < j < ext_program(p).imports.len() && (#[trigger] ext_program(
                p,
            ).imports[i]).kind is SyncStatic && (#[trigger] ext_program(
                p,
            ).imports[j]).kind is SyncStatic ==> ext_program(p).imports[i].span != ext_program(
                p,
            ).imports[j].span,
{
    lemma_ext_nodes_dedup(ExtState::init(), p.body@);
}

/// Whether some specifier imports the exporter's `default` binding under
/// a named clause, as in `import { default as x }`.
pub open spec fn has_default_named_specifier(sps: Seq<ImportSpecifier>) -> bool {
    exists|i: int|
        0 <= i < sps.len() && (#[trigger] sps[i] matches ImportSpecifier::Named { imported, .. }
            && imported@ == "default"@)
}

proof fn lemma_type_only_symbols_list(sps: Seq<ImportSpecifier>)
    requires
        !has_default_named_specifier(sps),
    ensures
        forall|j: int|
            0 <= j < import_decl_symbols(true, sps).len() ==> (#[trigger] import_decl_symbols(
                true,
                sps,
            )[j]).kind.spec_is_type(),
    decreases sps.len(),
{
    if sps.len() > 0 {
        assert(!(sps[0] matches ImportSpecifier::Named { imported, .. } && imported@
            == "default"@));
        assert forall|i: int|
            0 <= i < sps.drop_first().len() implies !(#[trigger] sps.drop_first()[i] matches
            ImportSpecifier::Named { imported, .. } && imported@ == "default"@) by {
            assert(sps.drop_first()[i] == sps[i + 1]);
        }
        lemma_type_only_symbols_list(sps.drop_first());
        assert(import_decl_symbol(true, sps[0]).kind.spec_is_type());
        assert forall|j: int| 0 <= j < import_decl_symbols(true, sps).len() implies (
        #[trigger] import_decl_symbols(true, sps)[j]).kind.spec_is_type() by {
            if j > 0 {
                assert(import_decl_symbols(true, sps)[j] == import_decl_symbols(
                    true,
                    sps.drop_first(),
                )[j - 1]);
            }
        }
    }
}

/// Law: a `type`-prefixed import statement binds only type symbols,
/// provided no specifier names the exporter's `default` binding (such a
/// specifier is promoted to a plain default import).
pub proof fn lemma_type_only_import_symbols(d: ImportDecl)
    requires
        d.type_only,
        d.specifiers matches Some(sp) ==> !has_default_named_specifier(sp@),
    ensures
        forall|j: int|
            0 <= j < import_decl_record(d).symbols.len() ==> (#[trigger] import_decl_record(
                d,
            ).symbols[j]).kind.spec_is_type(),
{
    match d.specifiers {
        None => {},
        Some(sp) => {
            lemma_type_only_symbols_list(sp@);
        },
    }
}

} // verus!

//! The data model: typed records for every import and export declaration
//! form, and the module record that aggregates them.

use vstd::prelude::*;

verus! {

/// Identifier of a module within a graph. `0` is reserved as the
/// "unresolved" sentinel; real identifiers start at `1`.
pub type ModuleId = u32;

/// A pair of byte offsets `(start, end)` into the source text. Used for
/// diagnostics and for de-duplicating already-processed syntax-tree nodes.
#[derive(Debug, Clone, Copy, PartialEq, Eq, Structural)]
pub struct Span {
    pub start: u32,
    pub end: u32,
}

/// How a single imported symbol binds.
#[derive(Debug, Clone, Copy, PartialEq, Eq, Structural)]
pub enum ImportedKind {
    /// `import name`
    Default,
    /// `import type name`
    DefaultType,
    /// `import * as name`
    Namespace,
    /// `import type * as name`
    NamespaceType,
    /// `import { value }`, `import { value as name }`
    Value,
    /// `import { type T }`, `import type { T }`
    ValueType,
}

impl ImportedKind {
    pub open spec fn spec_is_default(self) -> bool {
        self is Default || self is DefaultType
    }

    pub open spec fn spec_is_namespace(self) -> bool {
        self is Namespace || self is NamespaceType
    }

    pub open spec fn spec_is_type(self) -> bool {
        self is DefaultType || self is NamespaceType || self is ValueType
    }

    pub fn is_default(&self) -> (r: bool)
        ensures
            r == self.spec_is_default(),
    {
        matches!(self, Self::Default | Self::DefaultType)
    }

    pub fn is_namespace(&self) -> (r: bool)
        ensures
            r == self.spec_is_namespace(),
    {
        matches!(self, Self::Namespace | Self::NamespaceType)
    }

    pub fn is_type(&self) -> (r: bool)
        ensures
            r == self.spec_is_type(),
    {
        matches!(self, Self::DefaultType | Self::NamespaceType | Self::ValueType)
    }
}

/// One symbol bound by an import record.
#[derive(Debug, Clone, PartialEq)]
pub struct ImportedSymbol {
    pub kind: ImportedKind,
    /// Present only when the local binding was renamed from the exporter's
    /// name (`import { a as b }` stores `a` here).
    pub source_name: Option<String>,
    /// Best-effort binding identifier assigned by the parser.
    pub symbol_id: Option<u32>,
    /// The local binding name.
    pub name: String,
}

/// Mathematical image of an [`ImportedSymbol`].
pub struct SpecImportedSymbol {
    pub kind: ImportedKind,
    pub source_name: Option<Seq<char>>,
    pub symbol_id: Option<u32>,
    pub name: Seq<char>,
}

impl View for ImportedSymbol {
    type V = SpecImportedSymbol;

    open spec fn view(&self) -> SpecImportedSymbol {
        SpecImportedSymbol {
            kind: self.kind,
            source_name: match self.source_name {
                Some(s) => Some(s@),
                None => None,
            },
            symbol_id: self.symbol_id,
            name: self.name@,
        }
    }
}

/// An identifier binding produced by the parser: a name plus the parser's
/// best-effort symbol identifier.
#[derive(Debug, Clone, PartialEq)]
pub struct BindingIdent {
    pub name: String,
    pub symbol_id: Option<u32>,
}

impl ImportedSymbol {
    /// Build a symbol of the given kind from an identifier binding.
    pub fn from_binding(kind: ImportedKind, binding: &BindingIdent) -> (r: ImportedSymbol)
        ensures
            r@ == (SpecImportedSymbol {
                kind,
                source_name: None,
                symbol_id: binding.symbol_id,
                name: binding.name@,
            }),
    {
        ImportedSymbol {
            kind,
            source_name: None,
            symbol_id: binding.symbol_id,
            name: binding.name.clone(),
        }
    }
}

/// How an import statement is issued.
#[derive(Debug, Clone, Copy, PartialEq, Eq, Structural)]
pub enum ImportKind {
    /// ESM `import`
    AsyncStatic,
    /// `import()` expression
    AsyncDynamic,
    /// CommonJS `require` and TypeScript `import =`
    SyncStatic,
}

/// One import record: a module request plus the symbols it binds.
#[derive(Debug, Clone, PartialEq)]
pub struct Import {
    pub kind: ImportKind,
    /// `0` until the graph driver resolves the request.
    pub module_id: ModuleId,
    /// The specifier as written in the source, prior to resolution.
    pub source_request: String,
    pub span: Span,
    pub symbols: Vec<ImportedSymbol>,
    pub type_only: bool,
}

/// Mathematical image of an [`Import`].
pub struct SpecImport {
    pub kind: ImportKind,
    pub module_id: ModuleId,
    pub source_request: Seq<char>,
    pub span: Span,
    pub symbols: Seq<SpecImportedSymbol>,
    pub type_only: bool,
}

impl View for Import {
    type V = SpecImport;

    open spec fn view(&self) -> SpecImport {
        SpecImport {
            kind: self.kind,
            module_id: self.module_id,
            source_request: self.source_request@,
            span: self.span,
            symbols: imported_views(self.symbols@),
            type_only: self.type_only,
        }
    }
}

/// A side-effect import binds no symbols: the module is brought in purely
/// for its evaluation effects, as in `import './setup'`.
pub open spec fn spec_is_side_effect(i: SpecImport) -> bool {
    i.source_request.len() > 0 && i.symbols.len() == 0 && i.kind is AsyncStatic
}

impl Import {
    /// Whether this record is a side-effect import: a non-empty source
    /// request, no bound symbols, and an ESM `import` statement. The
    /// equivalence holds in both directions.
    pub fn is_side_effect(&self) -> (r: bool)
        ensures
            r == spec_is_side_effect(self@),
    {
        !self.source_request.as_str().is_empty() && self.symbols.len() == 0 && matches!(
            self.kind,
            ImportKind::AsyncStatic,
        )
    }
}

/// How a single exported symbol binds.
#[derive(Debug, Clone, Copy, PartialEq, Eq, Structural)]
pub enum ExportedKind {
    /// `export default name`
    Default,
    /// `export default T` where `T` is a pure type form
    DefaultType,
    /// `export *`, `export * as name`
    Namespace,
    /// `export type *`, `export type * as name`
    NamespaceType,
    /// `export name`, `export { name }`
    Value,
    /// `export type T`, `export { type name }`
    ValueType,
}

impl ExportedKind {
    pub open spec fn spec_is_default(self) -> bool {
        self is Default || self is DefaultType
    }

    pub open spec fn spec_is_namespace(self) -> bool {
        self is Namespace || self is NamespaceType
    }

    pub open spec fn spec_is_type(self) -> bool {
        self is DefaultType || self is NamespaceType || self is ValueType
    }

    pub fn is_default(&self) -> (r: bool)
        ensures
            r == self.spec_is_default(),
    {
        matches!(self, Self::Default | Self::DefaultType)
    }

    pub fn is_namespace(&self) -> (r: bool)
        ensures
            r == self.spec_is_namespace(),
    {
        matches!(self, Self::Namespace | Self::NamespaceType)
    }

    pub fn is_type(&self) -> (r: bool)
        ensures
            r == self.spec_is_type(),
    {
        matches!(self, Self::DefaultType | Self::NamespaceType | Self::ValueType)
    }
}

/// One symbol named by an export record.
#[derive(Debug, Clone, PartialEq)]
pub struct ExportedSymbol {
    pub kind: ExportedKind,
    /// Best-effort binding identifier; may be absent for re-exports.
    pub symbol_id: Option<u32>,
    pub name: String,
}

/// Mathematical image of an [`ExportedSymbol`].
pub struct SpecExportedSymbol {
    pub kind: ExportedKind,
    pub symbol_id: Option<u32>,
    pub name: Seq<char>,
}

impl View for ExportedSymbol {
    type V = SpecExportedSymbol;

    open spec fn view(&self) -> SpecExportedSymbol {
        SpecExportedSymbol { kind: self.kind, symbol_id: self.symbol_id, name: self.name@ }
    }
}

/// The statement family an export record came from.
#[derive(Debug, Clone, Copy, PartialEq, Eq, Structural, Default)]
pub enum ExportKind {
    /// ESM `export`
    #[default]
    Modern,
    /// CommonJS `module.exports`, `exports.name`
    Legacy,
    /// Synthetic export of a non-JavaScript file
    Native,
}

/// One export record: the symbols made public by one statement, and
/// optionally the module they are re-exported from.
#[derive(Debug, Clone, PartialEq)]
pub struct Export {
    pub kind: ExportKind,
    /// Set by the graph driver when the record re-exports from another file.
    pub module_id: Option<ModuleId>,
    /// The re-export source request, when present.
    pub source: Option<String>,
    pub span: Option<Span>,
    pub symbols: Vec<ExportedSymbol>,
    pub type_only: bool,
}

/// Mathematical image of an [`Export`].
pub struct SpecExport {
    pub kind: ExportKind,
    pub module_id: Option<ModuleId>,
    pub source: Option<Seq<char>>,
    pub span: Option<Span>,
    pub symbols: Seq<SpecExportedSymbol>,
    pub type_only: bool,
}

impl View for Export {
    type V = SpecExport;

    open spec fn view(&self) -> SpecExport {
        SpecExport {
            kind: self.kind,
            module_id: self.module_id,
            source: match self.source {
                Some(s) => Some(s@),
                None => None,
            },
            span: self.span,
            symbols: exported_views(self.symbols@),
            type_only: self.type_only,
        }
    }
}

/// The views of a sequence of imported symbols.
pub open spec fn imported_views(s: Seq<ImportedSymbol>) -> Seq<SpecImportedSymbol> {
    s.map_values(|t: ImportedSymbol| t@)
}

/// The views of a sequence of exported symbols.
pub open spec fn exported_views(s: Seq<ExportedSymbol>) -> Seq<SpecExportedSymbol> {
    s.map_values(|t: ExportedSymbol| t@)
}

/// The views of a sequence of import records.
pub open spec fn import_views(s: Seq<Import>) -> Seq<SpecImport> {
    s.map_values(|t: Import| t@)
}

/// The views of a sequence of export records.
pub open spec fn export_views(s: Seq<Export>) -> Seq<SpecExport> {
    s.map_values(|t: Export| t@)
}

pub broadcast proof fn lemma_imported_views_push(s: Seq<ImportedSymbol>, x: ImportedSymbol)
    ensures
        #[trigger] imported_views(s.push(x)) =~= imported_views(s).push(x@),
{
}

pub broadcast proof fn lemma_exported_views_push(s: Seq<ExportedSymbol>, x: ExportedSymbol)
    ensures
        #[trigger] exported_views(s.push(x)) =~= exported_views(s).push(x@),
{
}

pub broadcast proof fn lemma_import_views_push(s: Seq<Import>, x: Import)
    ensures
        #[trigger] import_views(s.push(x)) =~= import_views(s).push(x@),
{
}

pub broadcast proof fn lemma_export_views_push(s: Seq<Export>, x: Export)
    ensures
        #[trigger] export_views(s.push(x)) =~= export_views(s).push(x@),
{
}

/// The file family a module's source belongs to.
#[derive(Debug, Clone, Copy, PartialEq, Eq, Structural, Default)]
pub enum SourceKind {
    #[default]
    Unknown,
    Audio,
    Css,
    Image,
    JavaScript,
    Json,
    Text,
    Video,
    Yaml,
}

/// File-type specific source information attached to a module. A freshly
/// created module carries the `Dummy` placeholder until its single parse
/// replaces it.
#[derive(Debug, Clone, PartialEq)]
pub enum ModuleSourceInfo {
    Dummy,
    JavaScript(crate::js::JavaScriptModule),
    Json(crate::json::JsonModule),
    Yaml(crate::yaml::YamlModule),
    Css(crate::sources::CssModule),
    Text(crate::sources::TextModule),
    Media(crate::sources::MediaModule),
}

impl ModuleSourceInfo {
    /// The file family this source information belongs to.
    pub open spec fn kind_spec(&self) -> SourceKind {
        match self {
            ModuleSourceInfo::Dummy => SourceKind::Unknown,
            ModuleSourceInfo::JavaScript(_) => SourceKind::JavaScript,
            ModuleSourceInfo::Json(_) => SourceKind::Json,
            ModuleSourceInfo::Yaml(_) => SourceKind::Yaml,
            ModuleSourceInfo::Css(_) => SourceKind::Css,
            ModuleSourceInfo::Text(_) => SourceKind::Text,
            ModuleSourceInfo::Media(m) => m.kind,
        }
    }

    pub fn kind(&self) -> (r: SourceKind)
        ensures
            r == self.kind_spec(),
    {
        match self {
            ModuleSourceInfo::Dummy => SourceKind::Unknown,
            ModuleSourceInfo::JavaScript(_) => SourceKind::JavaScript,
            ModuleSourceInfo::Json(_) => SourceKind::Json,
            ModuleSourceInfo::Yaml(_) => SourceKind::Yaml,
            ModuleSourceInfo::Css(_) => SourceKind::Css,
            ModuleSourceInfo::Text(_) => SourceKind::Text,
            ModuleSourceInfo::Media(m) => m.kind,
        }
    }

    /// The raw byte payload of the source: the text's encoding for the
    /// textual handlers, the stored bytes for a media asset, and nothing
    /// for the placeholder.
    pub fn source_bytes(&self) -> (r: &[u8])
        ensures
            match self {
                ModuleSourceInfo::Dummy => r@.len() == 0,
                ModuleSourceInfo::JavaScript(js) => r@ == vstd::utf8::encode_utf8(js.source@),
                ModuleSourceInfo::Json(j) => r@ == vstd::utf8::encode_utf8(j.source@),
                ModuleSourceInfo::Yaml(y) => r@ == vstd::utf8::encode_utf8(y.source@),
                ModuleSourceInfo::Css(c) => r@ == vstd::utf8::encode_utf8(c.source@),
                ModuleSourceInfo::Text(t) => r@ == vstd::utf8::encode_utf8(t.source@),
                ModuleSourceInfo::Media(m) => r@ == m.bytes@,
            },
    {
        match self {
            ModuleSourceInfo::Dummy => &[],
            ModuleSourceInfo::JavaScript(js) => js.source.as_str().as_bytes(),
            ModuleSourceInfo::Json(j) => j.source.as_str().as_bytes(),
            ModuleSourceInfo::Yaml(y) => y.source.as_str().as_bytes(),
            ModuleSourceInfo::Css(c) => c.source.as_str().as_bytes(),
            ModuleSourceInfo::Text(t) => t.source.as_str().as_bytes(),
            ModuleSourceInfo::Media(m) => m.bytes.as_slice(),
        }
    }
}

/// One file of the graph: its identity, its records, and its source.
#[derive(Debug, Clone, PartialEq)]
pub struct Module {
    /// List of symbols being exported, and optionally the module they
    /// came from.
    pub exports: Vec<Export>,
    /// Fragment string appended to the file path.
    pub fragment: Option<String>,
    /// Unique identifier of the module within its graph.
    pub id: ModuleId,
    /// List of modules being imported from, and the symbols being
    /// imported.
    pub imports: Vec<Import>,
    /// Name of the package the module belongs to.
    pub package_name: Option<String>,
    /// Canonical absolute path to the module file.
    pub path: String,
    /// Query string appended to the file path.
    pub query: Option<String>,
    /// File type specific source information.
    pub source: ModuleSourceInfo,
}

/// Mathematical image of a [`Module`]: its identity and records.
#[verifier::ext_equal]
pub struct SpecModule {
    pub exports: Seq<SpecExport>,
    pub fragment: Option<Seq<char>>,
    pub id: ModuleId,
    pub imports: Seq<SpecImport>,
    pub package_name: Option<Seq<char>>,
    pub path: Seq<char>,
    pub query: Option<Seq<char>>,
}

impl View for Module {
    type V = SpecModule;

    open spec fn view(&self) -> SpecModule {
        SpecModule {
            exports: export_views(self.exports@),
            fragment: match self.fragment {
                Some(s) => Some(s@),
                None => None,
            },
            id: self.id,
            imports: import_views(self.imports@),
            package_name: match self.package_name {
                Some(s) => Some(s@),
                None => None,
            },
            path: self.path@,
            query: match self.query {
                Some(s) => Some(s@),
                None => None,
            },
        }
    }
}

/// The symbols of every export record, flattened in order.
pub open spec fn all_export_symbols(exports: Seq<SpecExport>) -> Seq<SpecExportedSymbol>
    decreases exports,
{
    if exports.len() == 0 {
        Seq::<SpecExportedSymbol>::empty()
    } else {
        exports[0].symbols + all_export_symbols(exports.drop_first())
    }
}

/// Whether some export record names a default-kind symbol.
pub open spec fn has_default_export_symbol(exports: Seq<SpecExport>) -> bool {
    exists|i: int, j: int|
        0 <= i < exports.len() && 0 <= j < (#[trigger] exports[i]).symbols.len() && (
        #[trigger] exports[i].symbols[j]).kind.spec_is_default()
}

proof fn lemma_all_export_symbols_snoc(exports: Seq<SpecExport>, x: SpecExport)
    ensures
        all_export_symbols(exports.push(x)) =~= all_export_symbols(exports) + x.symbols,
    decreases exports.len(),
{
    if exports.len() == 0 {
        assert(exports.push(x)[0] == x);
        assert(exports.push(x).drop_first() =~= exports);
    } else {
        assert(exports.push(x)[0] == exports[0]);
        assert(exports.push(x).drop_first() =~= exports.drop_first().push(x));
        lemma_all_export_symbols_snoc(exports.drop_first(), x);
    }
}

/// The views of a sequence of borrowed exported symbols.
pub open spec fn ref_exported_views(s: Seq<&ExportedSymbol>) -> Seq<SpecExportedSymbol> {
    s.map_values(|t: &ExportedSymbol| t@)
}

proof fn lemma_ref_exported_views_push(s: Seq<&ExportedSymbol>, x: &ExportedSymbol)
    ensures
        ref_exported_views(s.push(x)) =~= ref_exported_views(s).push(x@),
{
}

impl Module {
    /// A fresh module for a path: no records, the sentinel identifier,
    /// and the placeholder source.
    pub fn new(path: String) -> (r: Module)
        ensures
            r@ == (SpecModule {
                exports: Seq::<SpecExport>::empty(),
                fragment: None,
                id: 0,
                imports: Seq::<SpecImport>::empty(),
                package_name: None,
                path: path@,
                query: None,
            }),
            r.source is Dummy,
    {
        let r = Module {
            exports: Vec::new(),
            fragment: None,
            id: 0,
            imports: Vec::new(),
            package_name: None,
            path,
            query: None,
            source: ModuleSourceInfo::Dummy,
        };
        proof {
            assert(r@.imports =~= Seq::<SpecImport>::empty());
            assert(r@.exports =~= Seq::<SpecExport>::empty());
        }
        r
    }

    /// Return the first symbol that has been exported as the default, in
    /// record order, if any export record names one.
    pub fn get_default_exported_symbol(&self) -> (r: Option<&ExportedSymbol>)
        ensures
            r is Some <==> has_default_export_symbol(self@.exports),
            r matches Some(s) ==> s@.kind.spec_is_default() && (exists|i: int, j: int|
                {
                    &&& 0 <= i < self@.exports.len()
                    &&& 0 <= j < self@.exports[i].symbols.len()
                    &&& (#[trigger] self@.exports[i].symbols[j]) == s@
                    &&& forall|i2: int, j2: int|
                        0 <= i2 < self@.exports.len() && 0 <= j2
                            < self@.exports[i2].symbols.len() && (i2 < i || (i2 == i && j2 < j))
                            ==> !(#[trigger] self@.exports[i2].symbols[j2]).kind.spec_is_default()
                }),
    {
        let mut i: usize = 0;
        while i < self.exports.len()
            invariant
                i <= self.exports.len(),
                forall|i2: int, j2: int|
                    0 <= i2 < i && 0 <= j2 < (#[trigger] self@.exports[i2]).symbols.len() ==> !(
                    #[trigger] self@.exports[i2].symbols[j2]).kind.spec_is_default(),
            decreases self.exports.len() - i,
        {
            let export = &self.exports[i];
            let mut j: usize = 0;
            while j < export.symbols.len()
                invariant
                    i < self.exports.len(),
                    j <= export.symbols.len(),
                    export == &self.exports[i as int],
                    forall|i2: int, j2: int|
                        0 <= i2 < i && 0 <= j2 < (#[trigger] self@.exports[i2]).symbols.len() ==> !(
                        #[trigger] self@.exports[i2].symbols[j2]).kind.spec_is_default(),
                    forall|j2: int|
                        0 <= j2 < j ==> !(#[trigger] self@.exports[i as int].symbols[j2]).kind.spec_is_default(),
                decreases export.symbols.len() - j,
            {
                let symbol = &export.symbols[j];
                if symbol.kind.is_default() {
                    proof {
                        assert(self@.exports[i as int].symbols[j as int] == symbol@);
                        assert(has_default_export_symbol(self@.exports));
                        assert forall|i2: int, j2: int|
                            0 <= i2 < self@.exports.len() && 0 <= j2
                                < self@.exports[i2].symbols.len() && (i2 < i as int || (i2
                                == i as int && j2 < j as int)) implies !(
                        #[trigger] self@.exports[i2].symbols[j2]).kind.spec_is_default() by {}
                    }
                    return Some(symbol);
                }
                proof {
                    assert(self@.exports[i as int].symbols[j as int] == symbol@);
                }
                j = j + 1;
            }
            i = i + 1;
        }
        None
    }

    /// Return all symbols named by all export records, in order.
    pub fn get_exported_symbols(&self) -> (r: Vec<&ExportedSymbol>)
        ensures
            ref_exported_views(r@) == all_export_symbols(self@.exports),
    {
        let mut symbols: Vec<&ExportedSymbol> = Vec::new();
        let mut i: usize = 0;
        while i < self.exports.len()
            invariant
                i <= self.exports.len(),
                ref_exported_views(symbols@) =~= all_export_symbols(
                    self@.exports.subrange(0, i as int),
                ),
            decreases self.exports.len() - i,
        {
            let export = &self.exports[i];
            let ghost mid = ref_exported_views(symbols@);
            let mut j: usize = 0;
            while j < export.symbols.len()
                invariant
                    i < self.exports.len(),
                    j <= export.symbols.len(),
                    export == &self.exports[i as int],
                    ref_exported_views(symbols@) =~= mid + self@.exports[i as int].symbols.subrange(
                        0,
                        j as int,
                    ),
                decreases export.symbols.len() - j,
            {
                let ghost pre = symbols@;
                let symbol = &export.symbols[j];
                symbols.push(symbol);
                proof {
                    lemma_ref_exported_views_push(pre, symbol);
                    assert(self@.exports[i as int].symbols[j as int] == symbol@);
                    assert(self@.exports[i as int].symbols.subrange(0, j as int).push(symbol@)
                        =~= self@.exports[i as int].symbols.subrange(0, j as int + 1));
                }
                j = j + 1;
            }
            proof {
                lemma_all_export_symbols_snoc(
                    self@.exports.subrange(0, i as int),
                    self@.exports[i as int],
                );
                assert(self@.exports.subrange(0, i as int).push(self@.exports[i as int]) =~= self@
                    .exports.subrange(0, i as int + 1));
                assert(self@.exports[i as int].symbols.subrange(
                    0,
                    self@.exports[i as int].symbols.len() as int,
                ) =~= self@.exports[i as int].symbols);
            }
            i = i + 1;
        }
        proof {
            assert(self@.exports.subrange(0, self@.exports.len() as int) =~= self@.exports);
        }
        symbols
    }

    /// Whether the module is an external file: one that lives under a
    /// `node_modules` segment of its path.
    pub fn is_external(&self) -> (r: bool)
        ensures
            r == crate::paths::has_segment(self@.path, "node_modules"@),
    {
        proof {
            reveal_strlit("node_modules");
        }
        crate::paths::str_has_segment(self.path.as_str(), "node_modules")
    }
}

} // verus!

//! The JavaScript/TypeScript source handler: it runs the verified
//! extractor over a model tree and stores the records on the module.

use vstd::prelude::*;
use crate::ast::Program;
use crate::extract::{
    classify_statements, count_export_stmts, count_import_stmts, count_other_stmts, ext_program,
    ExtractImportsExports,
};
use crate::module::{export_views, import_views, Module, ModuleSourceInfo};

verus! {

/// How a JavaScript file's module system was determined.
#[derive(Debug, Clone, Copy, PartialEq, Eq, Structural, Default)]
pub enum JavaScriptPackageType {
    #[default]
    Unknown,
    /// A `.cjs` file.
    Cjs,
    /// `"type": "commonjs"` in the owning manifest.
    CjsPackageJson,
    /// An `.mjs` file.
    Mjs,
    /// `"type": "module"` in the owning manifest.
    EsmPackageJson,
}

impl JavaScriptPackageType {
    pub open spec fn spec_is_esm(self) -> bool {
        self is Mjs || self is EsmPackageJson
    }

    pub open spec fn spec_is_cjs(self) -> bool {
        self is Cjs || self is CjsPackageJson
    }

    pub fn is_esm(&self) -> (r: bool)
        ensures
            r == self.spec_is_esm(),
    {
        matches!(self, Self::Mjs | Self::EsmPackageJson)
    }

    pub fn is_cjs(&self) -> (r: bool)
        ensures
            r == self.spec_is_cjs(),
    {
        matches!(self, Self::Cjs | Self::CjsPackageJson)
    }
}

/// Diagnostic counters of one parsed JavaScript/TypeScript file.
#[derive(Debug, Clone, Copy, PartialEq, Eq, Structural)]
pub struct JavaScriptStats {
    pub import_statements: usize,
    pub export_statements: usize,
    pub other_statements: usize,
    pub exports_default: bool,
    pub require_count: usize,
    pub dynamic_import_count: usize,
}

/// Source information of a JavaScript/TypeScript module.
#[derive(Debug, Clone, PartialEq)]
pub struct JavaScriptModule {
    pub package_type: JavaScriptPackageType,
    pub source: String,
}

impl JavaScriptModule {
    /// Extract the import and export records of a parsed program into the
    /// module, store the source text, and return the statement counters.
    /// The records are exactly the extraction fold of the tree, in source
    /// order.
    pub fn parse_into_module(module: &mut Module, program: &Program, source_text: String) -> (r:
        JavaScriptStats)
        ensures
            import_views(final(module).imports@) == ext_program(*program).imports,
            export_views(final(module).exports@) == ext_program(*program).exports,
            final(module).id == old(module).id,
            final(module).path == old(module).path,
            final(module).query == old(module).query,
            final(module).fragment == old(module).fragment,
            final(module).package_name == old(module).package_name,
            final(module).source matches ModuleSourceInfo::JavaScript(js) && js.source@
                == source_text@ && js.package_type is Unknown,
            r.import_statements == count_import_stmts(program.body@),
            r.export_statements == count_export_stmts(program.body@),
            r.other_statements == count_other_stmts(program.body@),
            r.exports_default == ext_program(*program).exports_default,
            r.require_count as nat == ext_program(*program).require_count,
            r.dynamic_import_count as nat == ext_program(*program).dynamic_import_count,
    {
        let mut visitor = ExtractImportsExports::new();
        visitor.visit_program(program);
        proof {
            assert(visitor.st() == ext_program(*program));
        }
        let counts = classify_statements(program);
        module.imports = visitor.imports;
        module.exports = visitor.exports;
        module.source = ModuleSourceInfo::JavaScript(
            JavaScriptModule { package_type: JavaScriptPackageType::Unknown, source: source_text },
        );
        JavaScriptStats {
            import_statements: counts.0,
            export_statements: counts.1,
            other_statements: counts.2,
            exports_default: visitor.exports_default,
            require_count: visitor.require_count,
            dynamic_import_count: visitor.dynamic_import_count,
        }
    }
}

} // verus!

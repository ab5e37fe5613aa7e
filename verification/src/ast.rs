//! The library's own syntax tree for JavaScript/TypeScript sources.
//!
//! The extractor does not read a parser's tree directly: a parse produces a
//! tree tied to an allocator's lifetime, which the verified logic cannot
//! hold. Instead, the embedder converts the parsed tree into these plain
//! nodes, which carry exactly what import/export extraction reads: the
//! module declaration forms, the expression shapes that can contain
//! `require(…)`, `import(…)`, `module.exports` and `exports.name`, and the
//! binding patterns that destructure them. Every other construct appears
//! as an [`Node::Other`] node holding its children in source order.

use vstd::prelude::*;
use crate::module::{BindingIdent, Span};

verus! {

/// One specifier of an `import … from 's'` declaration.
pub enum ImportSpecifier {
    /// `import { imported }`, `import { imported as local }`
    Named { imported: String, local: BindingIdent, type_only: bool },
    /// `import local from 's'`
    Default { local: BindingIdent },
    /// `import * as local from 's'`
    Namespace { local: BindingIdent },
}

/// `import … from 's'`, `import 's'`
pub struct ImportDecl {
    pub span: Span,
    /// The requested module specifier.
    pub source: String,
    /// Whether the statement is `import type …`.
    pub type_only: bool,
    /// `None` for a bare side-effect import `import 's'`.
    pub specifiers: Option<Vec<ImportSpecifier>>,
}

/// `export * from 's'`, `export * as name from 's'`, and their `type`
/// variants.
pub struct ExportAllDecl {
    pub span: Span,
    pub source: String,
    /// Whether the statement is `export type * …`.
    pub type_only: bool,
    /// The alias of `export * as name`, absent for a bare `export *`.
    pub exported: Option<String>,
}

/// What follows `export default`.
pub enum ExportDefaultKind {
    /// A class declaration, named or anonymous.
    Class { id: Option<BindingIdent> },
    /// A function declaration, named or anonymous.
    Func { id: Option<BindingIdent> },
    /// A bare identifier expression.
    Ident { name: String },
    /// A TypeScript interface declaration.
    Interface { id: BindingIdent },
    /// A TypeScript enum declaration.
    Enum { id: BindingIdent },
    /// Any other expression.
    OtherExpr,
}

/// `export default …`
pub struct ExportDefaultDecl {
    pub span: Span,
    pub decl: ExportDefaultKind,
}

/// The declaration attached to an `export` statement.
pub enum NamedDecl {
    /// `export const/let/var …`; one pattern per declarator.
    Var { declarators: Vec<Pattern> },
    /// `export function name …`
    Func { id: BindingIdent },
    /// `export class Name …`
    Class { id: BindingIdent },
    /// `export type Name = …`
    TsTypeAlias { id: BindingIdent },
    /// `export interface Name …`
    TsInterface { id: BindingIdent },
    /// `export enum Name …`
    TsEnum { id: BindingIdent },
    /// `export module Name …`, `export namespace Name …`
    TsModule { name: String },
    /// `export import Name = …`
    TsImportEquals { id: BindingIdent },
    /// A declaration form that exports no symbol.
    Other,
}

/// One specifier of an `export { … }` clause.
pub struct ExportSpecifier {
    /// The local name being exported (`a` in `export { a as b }`).
    pub local: String,
    /// Whether the specifier is `type`-prefixed (`export { type a }`).
    pub type_only: bool,
}

/// `export { … } [from 's']`, `export <declaration>`
pub struct ExportNamedDecl {
    pub span: Span,
    /// Whether the whole statement is TypeScript-only syntax (a type-only
    /// clause or a pure type declaration).
    pub type_only: bool,
    /// Whether the clause itself is `export type { … }`.
    pub kind_type: bool,
    pub decl: Option<NamedDecl>,
    pub specifiers: Vec<ExportSpecifier>,
    pub source: Option<String>,
}

/// A binding pattern, as found on the left of `=`.
pub enum Pattern {
    /// `name`
    Ident(BindingIdent),
    /// `{ … }` with an optional `…rest`
    Object { props: Vec<ObjectProp>, rest: Option<Box<Pattern>> },
    /// `[ … ]` with holes and an optional `…rest`
    Array { elements: Vec<Option<Pattern>>, rest: Option<Box<Pattern>> },
    /// `pattern = default`; the default value is not inspected
    Assign { left: Box<Pattern> },
}

/// One `key: value` of an object pattern.
pub struct ObjectProp {
    /// The static name of the key; `None` for a computed key.
    pub key: Option<String>,
    pub value: Pattern,
}

/// A node of the model tree: the statement and expression shapes the
/// extractor reads, plus [`Node::Other`] for everything else.
pub enum Node {
    /// `import … from 's'`, `import 's'`
    ImportDecl(ImportDecl),
    /// `export * …`
    ExportAll(ExportAllDecl),
    /// `export default …`
    ExportDefault(ExportDefaultDecl),
    /// `export { … }`, `export <declaration>`
    ExportNamed(ExportNamedDecl),
    /// TypeScript `export = value`
    ExportAssign { span: Span, value: Box<Node> },
    /// TypeScript `import id = require('s')`; `source` is `None` when the
    /// reference is not an external module reference.
    ImportEquals { span: Span, id: BindingIdent, source: Option<String>, type_only: bool },
    /// One declarator of a `const`/`let`/`var` statement.
    VarDeclarator { id: Pattern, init: Option<Box<Node>> },
    /// An identifier expression.
    Ident { name: String },
    /// A string literal expression.
    Str { value: String },
    /// A class expression or declaration; children in source order.
    Class { id: Option<BindingIdent>, children: Vec<Node> },
    /// A function expression or declaration; children in source order.
    Func { id: Option<BindingIdent>, children: Vec<Node> },
    /// A call expression.
    Call { span: Span, callee: Box<Node>, args: Vec<Node> },
    /// An `import(source)` expression.
    ImportCall { span: Span, source: Box<Node> },
    /// An `await` expression.
    Await { inner: Box<Node> },
    /// An assignment expression.
    Assign { span: Span, target: Box<Node>, value: Box<Node> },
    /// A static member expression `object.prop`.
    Member { span: Span, object: Box<Node>, prop: String },
    /// Any other construct; children in source order.
    Other { children: Vec<Node> },
}

/// A parsed program: its top-level statements in source order.
pub struct Program {
    pub body: Vec<Node>,
}

/// A size measure of a pattern, used as the termination measure of the
/// executable reducers.
pub open spec fn pattern_height(p: Pattern) -> nat
    decreases p,
{
    match p {
        Pattern::Ident(_) => 0,
        Pattern::Object { props, rest } => 1 + props_height(props@) + (match rest {
            Some(r) => 1 + pattern_height(*r),
            None => 0,
        }),
        Pattern::Array { elements, rest } => 1 + elems_height(elements@) + (match rest {
            Some(r) => 1 + pattern_height(*r),
            None => 0,
        }),
        Pattern::Assign { left } => 1 + pattern_height(*left),
    }
}

pub open spec fn props_height(props: Seq<ObjectProp>) -> nat
    decreases props,
{
    if props.len() == 0 {
        0
    } else {
        1 + pattern_height(props[0].value) + props_height(props.drop_first())
    }
}

pub open spec fn elems_height(es: Seq<Option<Pattern>>) -> nat
    decreases es,
{
    if es.len() == 0 {
        0
    } else {
        1 + (match es[0] {
            Some(p) => pattern_height(p),
            None => 0,
        }) + elems_height(es.drop_first())
    }
}

/// Each property's pattern is strictly smaller than the property list.
pub proof fn lemma_props_height_elem(props: Seq<ObjectProp>, i: int)
    requires
        0 <= i < props.len(),
    ensures
        pattern_height(props[i].value) < props_height(props),
    decreases props.len(),
{
    if i > 0 {
        lemma_props_height_elem(props.drop_first(), i - 1);
    }
}

/// Each present element's pattern is strictly smaller than the element
/// list.
pub proof fn lemma_elems_height_elem(es: Seq<Option<Pattern>>, i: int)
    requires
        0 <= i < es.len(),
        es[i] is Some,
    ensures
        pattern_height(es[i]->0) < elems_height(es),
    decreases es.len(),
{
    if i > 0 {
        lemma_elems_height_elem(es.drop_first(), i - 1);
    }
}

/// A size measure of a node, used as the termination measure of the
/// executable walker. The binding pattern of a declarator is excluded:
/// the walker reduces it with its own measure.
pub open spec fn node_height(n: Node) -> nat
    decreases n,
{
    match n {
        Node::ImportDecl(_) => 0,
        Node::ExportAll(_) => 0,
        Node::ExportDefault(_) => 0,
        Node::ExportNamed(_) => 0,
        Node::ExportAssign { value, .. } => 1 + node_height(*value),
        Node::ImportEquals { .. } => 0,
        Node::VarDeclarator { init, .. } => 1 + (match init {
            Some(e) => 1 + node_height(*e),
            None => 0,
        }),
        Node::Ident { .. } => 0,
        Node::Str { .. } => 0,
        Node::Class { children, .. } => 1 + nodes_height(children@),
        Node::Func { children, .. } => 1 + nodes_height(children@),
        Node::Call { callee, args, .. } => 1 + node_height(*callee) + nodes_height(args@),
        Node::ImportCall { source, .. } => 1 + node_height(*source),
        Node::Await { inner } => 1 + node_height(*inner),
        Node::Assign { target, value, .. } => 1 + node_height(*target) + node_height(*value),
        Node::Member { object, .. } => 1 + node_height(*object),
        Node::Other { children } => 1 + nodes_height(children@),
    }
}

pub open spec fn nodes_height(l: Seq<Node>) -> nat
    decreases l,
{
    if l.len() == 0 {
        0
    } else {
        1 + node_height(l[0]) + nodes_height(l.drop_first())
    }
}

/// Each node is strictly smaller than the list that holds it.
pub proof fn lemma_nodes_height_elem(l: Seq<Node>, i: int)
    requires
        0 <= i < l.len(),
    ensures
        node_height(l[i]) < nodes_height(l),
    decreases l.len(),
{
    if i > 0 {
        lemma_nodes_height_elem(l.drop_first(), i - 1);
    }
}

} // verus!

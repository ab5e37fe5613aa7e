//! The graph driver: module identity by canonical path, identifier
//! allocation, and the labeled directed graph of imports and exports.
//!
//! The driver performs no I/O itself. The embedder resolves specifiers
//! and reads files, and drives the graph through three verified steps:
//! [`ModuleGraph::begin_module`] registers a canonical path and allocates
//! an identifier before any recursion (which is what makes cycles
//! terminate), the source handlers populate the module's records, and
//! [`ModuleGraph::finish_module`] connects the edges and installs the
//! completed module.

use vstd::prelude::*;
use crate::module::{Module, ModuleId, SpecImport, SpecExport, SpecModule};
use crate::package::{manifest_name, manifest_name_view, parse_manifest_text, PackageManifest};
use crate::errors::ModuleGraphError;
use crate::paths::{canonical_path_of, is_absolute, is_canonical_abs, path_clean};

verus! {

/// Declares petgraph's `GraphMap` so the graph can stand in a field.
#[verifier::external_type_specification]
#[verifier::external_body]
#[verifier::reject_recursive_types(N)]
#[verifier::reject_recursive_types(E)]
#[verifier::reject_recursive_types(Ty)]
#[verifier::reject_recursive_types(S)]
pub struct ExGraphMap<N, E, Ty, S>(petgraph::graphmap::GraphMap<N, E, Ty, S>)
    where S: std::hash::BuildHasher;

/// Declares petgraph's `Directed` marker so it can stand as a type
/// argument.
#[verifier::external_type_specification]
#[verifier::external_body]
pub struct ExDirected(petgraph::Directed);

/// The labeled directed graph the driver builds. An edge's weight
/// encodes the set of labels it carries: `1` for an import edge, `2` for
/// an export edge, `3` for both.
pub type ModuleGraphType = petgraph::graphmap::GraphMap<u32, u8, petgraph::Directed>;

/// The nodes a graph holds.
pub uninterp spec fn graph_nodes(g: ModuleGraphType) -> Set<u32>;

/// The directed edges a graph holds, with their weights.
pub uninterp spec fn graph_edges(g: ModuleGraphType) -> Map<(u32, u32), u8>;

/// Relies on petgraph's `GraphMap::new`: an empty graph.
#[verifier::external_body]
fn graph_new() -> (r: ModuleGraphType)
    ensures
        graph_nodes(r) == Set::<u32>::empty(),
        graph_edges(r) == (Map::<(u32, u32), u8>::empty()),
{
    petgraph::graphmap::GraphMap::new()
}

/// Relies on petgraph's `GraphMap::add_node`: inserts the node and
/// leaves the edges alone.
#[verifier::external_body]
fn graph_add_node(g: &mut ModuleGraphType, n: u32)
    ensures
        graph_nodes(*final(g)) == graph_nodes(*old(g)).insert(n),
        graph_edges(*final(g)) == graph_edges(*old(g)),
{
    g.add_node(n);
}

/// Relies on petgraph's `GraphMap::add_edge` on a directed graph:
/// inserts both endpoints, keys the edge by the ordered pair, replaces
/// the weight of an existing edge, and returns the replaced weight.
#[verifier::external_body]
fn graph_add_edge(g: &mut ModuleGraphType, a: u32, b: u32, w: u8) -> (r: Option<u8>)
    ensures
        graph_nodes(*final(g)) == graph_nodes(*old(g)).insert(a).insert(b),
        graph_edges(*final(g)) == graph_edges(*old(g)).insert((a, b), w),
        r == (if graph_edges(*old(g)).dom().contains((a, b)) {
            Some(graph_edges(*old(g))[(a, b)])
        } else {
            Option::<u8>::None
        }),
{
    g.add_edge(a, b, w)
}

/// Relies on petgraph's `GraphMap::edge_weight` on a directed graph: the
/// weight of the edge from `a` to `b`, if present.
#[verifier::external_body]
fn graph_edge_weight(g: &ModuleGraphType, a: u32, b: u32) -> (r: Option<u8>)
    ensures
        r == (if graph_edges(*g).dom().contains((a, b)) {
            Some(graph_edges(*g)[(a, b)])
        } else {
            Option::<u8>::None
        }),
{
    g.edge_weight(a, b).copied()
}

/// Relies on petgraph's `GraphMap::contains_node`.
#[verifier::external_body]
fn graph_contains_node(g: &ModuleGraphType, n: u32) -> (r: bool)
    ensures
        r == graph_nodes(*g).contains(n),
{
    g.contains_node(n)
}

/// Relies on petgraph's `GraphMap::node_count`: the number of distinct
/// nodes.
#[verifier::external_body]
fn graph_node_count(g: &ModuleGraphType) -> (r: usize)
    ensures
        r == graph_nodes(*g).len(),
{
    g.node_count()
}

/// Relies on petgraph's `GraphMap::edge_count`: the number of distinct
/// keyed edges.
#[verifier::external_body]
fn graph_edge_count(g: &ModuleGraphType) -> (r: usize)
    ensures
        r == graph_edges(*g).dom().len(),
{
    g.edge_count()
}

/// The label of a graph edge.
#[derive(Debug, Clone, Copy, PartialEq, Eq, Structural)]
pub enum ModuleGraphEdge {
    Import,
    Export,
}

/// Whether an edge weight carries a label.
pub open spec fn edge_label_in(w: u8, label: ModuleGraphEdge) -> bool {
    match label {
        ModuleGraphEdge::Import => w == 1 || w == 3,
        ModuleGraphEdge::Export => w == 2 || w == 3,
    }
}

/// The weight of an edge after adding a label to an existing weight:
/// parallel edges of differing labels are permitted, parallel edges of
/// the same label coalesce.
pub open spec fn edge_merge(w: Option<u8>, label: ModuleGraphEdge) -> u8 {
    match label {
        ModuleGraphEdge::Import => match w {
            None => 1,
            Some(x) => if x == 2 || x == 3 {
                3
            } else {
                1
            },
        },
        ModuleGraphEdge::Export => match w {
            None => 2,
            Some(x) => if x == 1 || x == 3 {
                3
            } else {
                2
            },
        },
    }
}

/// The graph holds an edge from `a` to `b` carrying the label.
pub open spec fn spec_has_edge(g: ModuleGraphType, a: u32, b: u32, label: ModuleGraphEdge) -> bool {
    graph_edges(g).dom().contains((a, b)) && edge_label_in(graph_edges(g)[(a, b)], label)
}

/// Merging keeps every label an edge already carries.
proof fn lemma_merge_preserves_labels(w: u8, l1: ModuleGraphEdge, l2: ModuleGraphEdge)
    ensures
        edge_label_in(w, l1) ==> edge_label_in(edge_merge(Some(w), l2), l1),
        edge_label_in(edge_merge(Some(w), l2), l2),
{
}

/// Add a labeled edge: inserts the endpoints, adds the label to the
/// edge's weight, and keeps the labels the edge already carried.
fn add_labeled_edge(g: &mut ModuleGraphType, a: u32, b: u32, label: ModuleGraphEdge)
    ensures
        graph_nodes(*final(g)) == graph_nodes(*old(g)).insert(a).insert(b),
        graph_edges(*final(g)) == graph_edges(*old(g)).insert(
            (a, b),
            edge_merge(
                if graph_edges(*old(g)).dom().contains((a, b)) {
                    Some(graph_edges(*old(g))[(a, b)])
                } else {
                    Option::<u8>::None
                },
                label,
            ),
        ),
{
    let w0 = graph_edge_weight(g, a, b);
    let w = match label {
        ModuleGraphEdge::Import => match w0 {
            None => 1,
            Some(x) => if x == 2 || x == 3 {
                3
            } else {
                1
            },
        },
        ModuleGraphEdge::Export => match w0 {
            None => 2,
            Some(x) => if x == 1 || x == 3 {
                3
            } else {
                2
            },
        },
    };
    let _ = graph_add_edge(g, a, b, w);
}

/// First-match lookup in the path table.
pub open spec fn lookup_path(l: Seq<(String, u32)>, p: Seq<char>) -> Option<u32>
    decreases l,
{
    if l.len() == 0 {
        None
    } else if l[0].0@ == p {
        Some(l[0].1)
    } else {
        lookup_path(l.drop_first(), p)
    }
}

/// A lookup misses exactly when no entry holds the key.
proof fn lemma_lookup_none_iff(l: Seq<(String, u32)>, p: Seq<char>)
    ensures
        (lookup_path(l, p) is None) <==> (forall|i: int|
            0 <= i < l.len() ==> (#[trigger] l[i]).0@ != p),
    decreases l.len(),
{
    if l.len() > 0 {
        lemma_lookup_none_iff(l.drop_first(), p);
        if l[0].0@ != p {
            assert forall|i: int| 0 <= i < l.len() && (lookup_path(l, p) is None) implies (
            #[trigger] l[i]).0@ != p by {
                if i > 0 {
                    assert(l.drop_first()[i - 1] == l[i]);
                }
            }
            if forall|i: int| 0 <= i < l.len() ==> (#[trigger] l[i]).0@ != p {
                assert forall|i: int| 0 <= i < l.drop_first().len() implies (
                #[trigger] l.drop_first()[i]).0@ != p by {
                    assert(l.drop_first()[i] == l[i + 1]);
                }
            }
        }
    }
}

/// A hit names some entry of the table.
proof fn lemma_lookup_some_entry(l: Seq<(String, u32)>, p: Seq<char>)
    requires
        lookup_path(l, p) is Some,
    ensures
        exists|i: int|
            0 <= i < l.len() && (#[trigger] l[i]).0@ == p && l[i].1 == lookup_path(l, p)->0,
    decreases l.len(),
{
    if l[0].0@ == p {
        assert(l[0].0@ == p && l[0].1 == lookup_path(l, p)->0);
    } else {
        lemma_lookup_some_entry(l.drop_first(), p);
        let i = choose|i: int|
            0 <= i < l.drop_first().len() && (#[trigger] l.drop_first()[i]).0@ == p
                && l.drop_first()[i].1 == lookup_path(l.drop_first(), p)->0;
        assert(l[i + 1] == l.drop_first()[i]);
        assert((#[trigger] l[i + 1]).0@ == p && l[i + 1].1 == lookup_path(l, p)->0);
    }
}

/// Appending an entry leaves every present key's lookup unchanged, and
/// gives the new key its identifier.
proof fn lemma_lookup_push(l: Seq<(String, u32)>, pair: (String, u32), p: Seq<char>)
    ensures
        lookup_path(l.push(pair), p) == (if lookup_path(l, p) is Some {
            lookup_path(l, p)
        } else if pair.0@ == p {
            Some(pair.1)
        } else {
            Option::<u32>::None
        }),
    decreases l.len(),
{
    if l.len() == 0 {
        assert(l.push(pair)[0] == pair);
        assert(l.push(pair).drop_first() =~= l);
    } else {
        assert(l.push(pair)[0] == l[0]);
        assert(l.push(pair).drop_first() =~= l.drop_first().push(pair));
        lemma_lookup_push(l.drop_first(), pair, p);
    }
}

/// First-match lookup in the package table.
pub open spec fn lookup_manifest(
    l: Seq<(String, PackageManifest)>,
    p: Seq<char>,
) -> Option<PackageManifest>
    decreases l,
{
    if l.len() == 0 {
        None
    } else if l[0].0@ == p {
        Some(l[0].1)
    } else {
        lookup_manifest(l.drop_first(), p)
    }
}

proof fn lemma_lookup_manifest_push(
    l: Seq<(String, PackageManifest)>,
    pair: (String, PackageManifest),
    p: Seq<char>,
)
    ensures
        lookup_manifest(l.push(pair), p) == (if lookup_manifest(l, p) is Some {
            lookup_manifest(l, p)
        } else if pair.0@ == p {
            Some(pair.1)
        } else {
            Option::<PackageManifest>::None
        }),
    decreases l.len(),
{
    if l.len() == 0 {
        assert(l.push(pair)[0] == pair);
        assert(l.push(pair).drop_first() =~= l);
    } else {
        assert(l.push(pair)[0] == l[0]);
        assert(l.push(pair).drop_first() =~= l.drop_first().push(pair));
        lemma_lookup_manifest_push(l.drop_first(), pair, p);
    }
}

/// The module dependency graph: the labeled directed graph over module
/// identifiers, the completed modules in completion order, the interned
/// package manifests, and the identity table from canonical path to
/// identifier.
pub struct ModuleGraph {
    pub graph: ModuleGraphType,
    pub modules: Vec<Module>,
    pub packages: Vec<(String, PackageManifest)>,
    pub next_id: u32,
    pub paths_to_ids: Vec<(String, ModuleId)>,
}

impl ModuleGraph {
    /// Well-formedness: identifiers are dense in `[1, next_id)`, unique,
    /// and registered as graph nodes; canonical paths key the identity
    /// table uniquely; every completed module is registered under its
    /// path, and each of its resolved import and export targets exists
    /// in the graph with an edge of the right label.
    pub open spec fn wf(&self) -> bool {
        &&& 1 <= self.next_id
        &&& (forall|i: int, j: int|
            0 <= i < j < self.paths_to_ids@.len() ==> (#[trigger] self.paths_to_ids@[i]).0@ != (
            #[trigger] self.paths_to_ids@[j]).0@)
        &&& (forall|i: int, j: int|
            0 <= i < j < self.paths_to_ids@.len() ==> (#[trigger] self.paths_to_ids@[i]).1 != (
            #[trigger] self.paths_to_ids@[j]).1)
        &&& (forall|i: int|
            0 <= i < self.paths_to_ids@.len() ==> 1 <= (#[trigger] self.paths_to_ids@[i]).1
                < self.next_id)
        &&& (forall|i: int|
            0 <= i < self.paths_to_ids@.len() ==> is_canonical_abs(
                (#[trigger] self.paths_to_ids@[i]).0@,
            ))
        &&& (forall|i: int|
            0 <= i < self.paths_to_ids@.len() ==> graph_nodes(self.graph).contains(
                (#[trigger] self.paths_to_ids@[i]).1,
            ))
        &&& (forall|n: u32| #[trigger] graph_nodes(self.graph).contains(n) ==> 1 <= n < self.next_id)
        &&& (forall|e: (u32, u32)|
            #[trigger] graph_edges(self.graph).dom().contains(e) ==> graph_nodes(
                self.graph,
            ).contains(e.0) && graph_nodes(self.graph).contains(e.1) && 1 <= graph_edges(
                self.graph,
            )[e] <= 3)
        &&& (forall|i: int|
            0 <= i < self.modules@.len() ==> lookup_path(
                self.paths_to_ids@,
                (#[trigger] self.modules@[i]).path@,
            ) == Some(self.modules@[i].id))
        &&& (forall|i: int, j: int|
            0 <= i < j < self.modules@.len() ==> (#[trigger] self.modules@[i]).id != (
            #[trigger] self.modules@[j]).id)
        &&& (forall|i: int, k: int|
            0 <= i < self.modules@.len() && 0 <= k < self.modules@[i].imports@.len() ==> ((
            #[trigger] self.modules@[i].imports@[k]).module_id == 0 || (graph_nodes(
                self.graph,
            ).contains(self.modules@[i].imports@[k].module_id) && spec_has_edge(
                self.graph,
                self.modules@[i].id,
                self.modules@[i].imports@[k].module_id,
                ModuleGraphEdge::Import,
            ))))
        &&& (forall|i: int, k: int|
            0 <= i < self.modules@.len() && 0 <= k < self.modules@[i].exports@.len() ==> ((
            #[trigger] self.modules@[i].exports@[k]).module_id matches Some(t) ==> (graph_nodes(
                self.graph,
            ).contains(t) && spec_has_edge(
                self.graph,
                self.modules@[i].id,
                t,
                ModuleGraphEdge::Export,
            ))))
    }

    /// Every lookup that hits keeps hitting with the same identifier.
    pub open spec fn preserves_lookups(pre: &ModuleGraph, post: &ModuleGraph) -> bool {
        forall|p: Seq<char>|
            (#[trigger] lookup_path(pre.paths_to_ids@, p)) is Some ==> lookup_path(
                post.paths_to_ids@,
                p,
            ) == lookup_path(pre.paths_to_ids@, p)
    }

    /// An empty graph. Real identifiers start at `1`; `0` stays the
    /// "unresolved" sentinel.
    pub fn new() -> (r: ModuleGraph)
        ensures
            r.wf(),
            r.next_id == 1,
            r.modules@.len() == 0,
            r.packages@.len() == 0,
            r.paths_to_ids@.len() == 0,
            graph_nodes(r.graph) == Set::<u32>::empty(),
            graph_edges(r.graph) == (Map::<(u32, u32), u8>::empty()),
    {
        ModuleGraph {
            graph: graph_new(),
            modules: Vec::new(),
            packages: Vec::new(),
            next_id: 1,
            paths_to_ids: Vec::new(),
        }
    }

    /// First-match lookup of an exact canonical path.
    fn lookup_exact(&self, path: &str) -> (r: Option<ModuleId>)
        ensures
            r == lookup_path(self.paths_to_ids@, path@),
    {
        let mut i: usize = 0;
        proof {
            assert(self.paths_to_ids@.subrange(0, self.paths_to_ids@.len() as int) =~= self
                .paths_to_ids@);
        }
        while i < self.paths_to_ids.len()
            invariant
                i <= self.paths_to_ids@.len(),
                lookup_path(self.paths_to_ids@, path@) == lookup_path(
                    self.paths_to_ids@.subrange(i as int, self.paths_to_ids@.len() as int),
                    path@,
                ),
            decreases self.paths_to_ids@.len() - i,
        {
            let entry = &self.paths_to_ids[i];
            if crate::paths::str_eq(entry.0.as_str(), path) {
                proof {
                    let tail = self.paths_to_ids@.subrange(
                        i as int,
                        self.paths_to_ids@.len() as int,
                    );
                    assert(tail[0] == self.paths_to_ids@[i as int]);
                }
                return Some(entry.1);
            }
            proof {
                let tail = self.paths_to_ids@.subrange(i as int, self.paths_to_ids@.len() as int);
                assert(tail[0] == self.paths_to_ids@[i as int]);
                assert(tail.drop_first() =~= self.paths_to_ids@.subrange(
                    i as int + 1,
                    self.paths_to_ids@.len() as int,
                ));
            }
            i = i + 1;
        }
        proof {
            assert(self.paths_to_ids@.subrange(
                self.paths_to_ids@.len() as int,
                self.paths_to_ids@.len() as int,
            ) =~= Seq::<(String, u32)>::empty());
        }
        None
    }

    /// The identifier registered for a path, after cleaning it. A pure
    /// lookup: no state changes, no file access.
    pub fn module_id_for_path(&self, path: &str) -> (r: Option<ModuleId>)
        requires
            is_absolute(path@),
        ensures
            r == lookup_path(self.paths_to_ids@, path_clean(path@)),
    {
        let canonical = canonical_path_of(path);
        self.lookup_exact(canonical.as_str())
    }

    /// Whether an identifier is a node of the graph.
    pub fn contains_module_id(&self, id: ModuleId) -> (r: bool)
        ensures
            r == graph_nodes(self.graph).contains(id),
    {
        graph_contains_node(&self.graph, id)
    }

    /// The number of nodes in the graph.
    pub fn node_count(&self) -> (r: usize)
        ensures
            r == graph_nodes(self.graph).len(),
    {
        graph_node_count(&self.graph)
    }

    /// The number of keyed edges in the graph.
    pub fn edge_count(&self) -> (r: usize)
        ensures
            r == graph_edges(self.graph).dom().len(),
    {
        graph_edge_count(&self.graph)
    }

    /// Whether the graph holds an edge with the given label.
    pub fn has_edge(&self, from: ModuleId, to: ModuleId, label: ModuleGraphEdge) -> (r: bool)
        ensures
            r == spec_has_edge(self.graph, from, to, label),
    {
        match graph_edge_weight(&self.graph, from, to) {
            Some(w) => match label {
                ModuleGraphEdge::Import => w == 1 || w == 3,
                ModuleGraphEdge::Export => w == 2 || w == 3,
            },
            None => false,
        }
    }

    /// Begin loading the module at a path: clean the path, return the
    /// registered identifier when the canonical path is already known
    /// (a pure lookup: the graph is left untouched, nothing is read or
    /// parsed), and otherwise allocate the next identifier, register it
    /// in the graph and in the identity table, and hand back a fresh
    /// module to load and parse. Registration happens before any
    /// recursion into dependencies; that is what terminates cycles.
    pub fn begin_module(
        &mut self,
        path: &str,
        query: Option<String>,
        fragment: Option<String>,
        package: Option<&PackageManifest>,
    ) -> (r: BeginModule)
        requires
            old(self).wf(),
            is_absolute(path@),
            old(self).next_id < u32::MAX,
        ensures
            final(self).wf(),
            ModuleGraph::preserves_lookups(old(self), final(self)),
            final(self).modules == old(self).modules,
            final(self).packages == old(self).packages,
            r matches BeginModule::Existing(id) ==> *final(self) == *old(self) && lookup_path(
                old(self).paths_to_ids@,
                path_clean(path@),
            ) == Some(id),
            r matches BeginModule::New(m) ==> {
                &&& lookup_path(old(self).paths_to_ids@, path_clean(path@)) is None
                &&& m.id == old(self).next_id
                &&& m@.path == path_clean(path@)
                &&& m@.imports.len() == 0
                &&& m@.exports.len() == 0
                &&& m.source is Dummy
                &&& m.query == query
                &&& m.fragment == fragment
                &&& m@.package_name == (match package {
                    Some(p) => match p.name {
                        Some(n) => Some(n@),
                        None => None,
                    },
                    None => None,
                })
                &&& final(self).next_id == old(self).next_id + 1
                &&& lookup_path(final(self).paths_to_ids@, path_clean(path@)) == Some(m.id)
                &&& graph_nodes(final(self).graph) == graph_nodes(old(self).graph).insert(m.id)
                &&& graph_edges(final(self).graph) == graph_edges(old(self).graph)
            },
    {
        let canonical = canonical_path_of(path);
        match self.lookup_exact(canonical.as_str()) {
            Some(id) => BeginModule::Existing(id),
            None => {
                let ghost pre = *self;
                let ghost canon_view = canonical@;
                let id = self.next_id;
                self.next_id = self.next_id + 1;
                graph_add_node(&mut self.graph, id);
                let key = canonical.clone();
                self.paths_to_ids.push((key, id));
                let mut m = Module::new(canonical);
                m.id = id;
                m.query = query;
                m.fragment = fragment;
                m.package_name = match package {
                    Some(p) => match &p.name {
                        Some(n) => Some(n.clone()),
                        None => None,
                    },
                    None => None,
                };
                proof {
                    let ghost pushed = self.paths_to_ids@;
                    let ghost pair = pushed.last();
                    assert(pushed =~= pre.paths_to_ids@.push(pair));
                    assert(pair.0@ == canon_view && pair.1 == id);
                    lemma_lookup_none_iff(pre.paths_to_ids@, canon_view);
                    lemma_lookup_push(pre.paths_to_ids@, pair, canon_view);
                    // lookups of other paths are preserved
                    assert forall|p: Seq<char>|
                        (#[trigger] lookup_path(pre.paths_to_ids@, p)) is Some implies lookup_path(
                        pushed,
                        p,
                    ) == lookup_path(pre.paths_to_ids@, p) by {
                        lemma_lookup_push(pre.paths_to_ids@, pair, p);
                    }
                    // the path table stays well formed
                    assert forall|i: int, j: int| 0 <= i < j < pushed.len() implies (
                    #[trigger] pushed[i]).0@ != (#[trigger] pushed[j]).0@ by {
                        if j == pushed.len() - 1 {
                            assert(pushed[i] == pre.paths_to_ids@[i]);
                        }
                    }
                    assert forall|i: int, j: int| 0 <= i < j < pushed.len() implies (
                    #[trigger] pushed[i]).1 != (#[trigger] pushed[j]).1 by {
                        if j == pushed.len() - 1 {
                            assert(pushed[i] == pre.paths_to_ids@[i]);
                        }
                    }
                    // completed modules stay registered
                    assert forall|i: int| 0 <= i < self.modules@.len() implies lookup_path(
                        pushed,
                        (#[trigger] self.modules@[i]).path@,
                    ) == Some(self.modules@[i].id) by {
                        lemma_lookup_push(pre.paths_to_ids@, pair, self.modules@[i].path@);
                    }
                    assert(self.wf());
                }
                BeginModule::New(m)
            },
        }
    }
}

/// What beginning a module load yields: the identifier already
/// registered for the canonical path, or a freshly registered module
/// still to be loaded and parsed.
pub enum BeginModule {
    Existing(ModuleId),
    New(Module),
}

impl ModuleGraph {
    /// The manifest already interned for a path, if any. A pure lookup.
    pub fn package_json_cached(&self, path: &str) -> (r: Option<&PackageManifest>)
        ensures
            match r {
                Some(m) => lookup_manifest(self.packages@, path@) == Some(*m),
                None => lookup_manifest(self.packages@, path@) is None,
            },
    {
        let mut i: usize = 0;
        proof {
            assert(self.packages@.subrange(0, self.packages@.len() as int) =~= self.packages@);
        }
        while i < self.packages.len()
            invariant
                i <= self.packages@.len(),
                lookup_manifest(self.packages@, path@) == lookup_manifest(
                    self.packages@.subrange(i as int, self.packages@.len() as int),
                    path@,
                ),
            decreases self.packages@.len() - i,
        {
            let entry = &self.packages[i];
            if crate::paths::str_eq(entry.0.as_str(), path) {
                proof {
                    let tail = self.packages@.subrange(i as int, self.packages@.len() as int);
                    assert(tail[0] == self.packages@[i as int]);
                }
                return Some(&entry.1);
            }
            proof {
                let tail = self.packages@.subrange(i as int, self.packages@.len() as int);
                assert(tail[0] == self.packages@[i as int]);
                assert(tail.drop_first() =~= self.packages@.subrange(
                    i as int + 1,
                    self.packages@.len() as int,
                ));
            }
            i = i + 1;
        }
        proof {
            assert(self.packages@.subrange(
                self.packages@.len() as int,
                self.packages@.len() as int,
            ) =~= Seq::<(String, PackageManifest)>::empty());
        }
        None
    }

    /// Intern the manifest at a path: return the cached manifest when
    /// the path was seen before (without parsing again), otherwise parse
    /// the given text and cache the result under the path. Fails exactly
    /// when an uncached text is not a valid manifest document, leaving
    /// the graph untouched.
    pub fn load_package_json(&mut self, path: String, text: &str) -> (r: Result<
        PackageManifest,
        ModuleGraphError,
    >)
        requires
            old(self).wf(),
        ensures
            final(self).wf(),
            ModuleGraph::preserves_lookups(old(self), final(self)),
            final(self).paths_to_ids == old(self).paths_to_ids,
            final(self).modules == old(self).modules,
            final(self).graph == old(self).graph,
            final(self).next_id == old(self).next_id,
            lookup_manifest(old(self).packages@, path@) matches Some(c) ==> (*final(self) == *old(
                self,
            ) && (r matches Ok(m) && manifest_name_view(m) == manifest_name_view(c))),
            lookup_manifest(old(self).packages@, path@) is None ==> {
                &&& (r is Ok <==> manifest_name(text@) is Some)
                &&& (r matches Ok(m) ==> manifest_name_view(m) == manifest_name(text@)->0 && (
                lookup_manifest(final(self).packages@, path@) matches Some(c2)
                    && manifest_name_view(c2) == manifest_name(text@)->0) && (forall|p: Seq<char>|
                    (#[trigger] lookup_manifest(old(self).packages@, p)) is Some ==> lookup_manifest(
                        final(self).packages@,
                        p,
                    ) == lookup_manifest(old(self).packages@, p)))
                &&& (r matches Err(e) ==> *final(self) == *old(self) && (e matches
                    ModuleGraphError::PackageJsonError { path: pp, .. } && pp@ == path@))
            },
    {
        let mut idx: usize = 0;
        let mut found = false;
        proof {
            assert(self.packages@.subrange(0, self.packages@.len() as int) =~= self.packages@);
        }
        while idx < self.packages.len() && !found
            invariant
                idx <= self.packages@.len(),
                !found ==> lookup_manifest(self.packages@, path@) == lookup_manifest(
                    self.packages@.subrange(idx as int, self.packages@.len() as int),
                    path@,
                ),
                found ==> idx < self.packages@.len() && lookup_manifest(self.packages@, path@)
                    == Some(self.packages@[idx as int].1),
            decreases self.packages@.len() - idx, (if found { 0int } else { 1int }),
        {
            let entry = &self.packages[idx];
            if crate::paths::str_eq(entry.0.as_str(), path.as_str()) {
                proof {
                    let tail = self.packages@.subrange(idx as int, self.packages@.len() as int);
                    assert(tail[0] == self.packages@[idx as int]);
                }
                found = true;
            } else {
                proof {
                    let tail = self.packages@.subrange(idx as int, self.packages@.len() as int);
                    assert(tail[0] == self.packages@[idx as int]);
                    assert(tail.drop_first() =~= self.packages@.subrange(
                        idx as int + 1,
                        self.packages@.len() as int,
                    ));
                }
                idx = idx + 1;
            }
        }
        if found {
            let cached = &self.packages[idx].1;
            let copy = PackageManifest {
                name: match &cached.name {
                    Some(n) => Some(n.clone()),
                    None => None,
                },
            };
            return Ok(copy);
        }
        proof {
            assert(self.packages@.subrange(
                self.packages@.len() as int,
                self.packages@.len() as int,
            ) =~= Seq::<(String, PackageManifest)>::empty());
            assert(lookup_manifest(self.packages@, path@) is None);
        }
        match parse_manifest_text(text) {
            Ok(m) => {
                let copy = PackageManifest {
                    name: match &m.name {
                        Some(n) => Some(n.clone()),
                        None => None,
                    },
                };
                let ghost pre_packages = self.packages@;
                self.packages.push((path, m));
                proof {
                    let ghost pair = self.packages@.last();
                    assert(self.packages@ =~= pre_packages.push(pair));
                    lemma_lookup_manifest_push(pre_packages, pair, pair.0@);
                    assert forall|p: Seq<char>|
                        (#[trigger] lookup_manifest(pre_packages, p)) is Some implies lookup_manifest(
                        self.packages@,
                        p,
                    ) == lookup_manifest(pre_packages, p) by {
                        lemma_lookup_manifest_push(pre_packages, pair, p);
                    }
                }
                Ok(copy)
            },
            Err(cause) => Err(ModuleGraphError::PackageJsonError { path, cause }),
        }
    }
}

// ---------------------------------------------------------------------
// Resolver configuration
// ---------------------------------------------------------------------

/// The manifest condition names the graph resolves with, in priority
/// order.
pub fn resolver_condition_names() -> (r: Vec<String>)
    ensures
        r@.len() == 5,
        r@[0]@ == "import"@,
        r@[1]@ == "module"@,
        r@[2]@ == "require"@,
        r@[3]@ == "node"@,
        r@[4]@ == "default"@,
{
    let mut v: Vec<String> = Vec::new();
    v.push("import".to_owned());
    v.push("module".to_owned());
    v.push("require".to_owned());
    v.push("node".to_owned());
    v.push("default".to_owned());
    v
}

/// The extensions the graph resolves, in probe order.
pub fn resolver_extensions() -> (r: Vec<String>)
    ensures
        r@.len() == 8,
        r@[0]@ == ".ts"@,
        r@[1]@ == ".tsx"@,
        r@[2]@ == ".mts"@,
        r@[3]@ == ".cts"@,
        r@[4]@ == ".mjs"@,
        r@[5]@ == ".cjs"@,
        r@[6]@ == ".js"@,
        r@[7]@ == ".jsx"@,
{
    let mut v: Vec<String> = Vec::new();
    v.push(".ts".to_owned());
    v.push(".tsx".to_owned());
    v.push(".mts".to_owned());
    v.push(".cts".to_owned());
    v.push(".mjs".to_owned());
    v.push(".cjs".to_owned());
    v.push(".js".to_owned());
    v.push(".jsx".to_owned());
    v
}

/// The manifest entry-point fields the graph resolves with, in priority
/// order.
pub fn resolver_main_fields() -> (r: Vec<String>)
    ensures
        r@.len() == 2,
        r@[0]@ == "module"@,
        r@[1]@ == "main"@,
{
    let mut v: Vec<String> = Vec::new();
    v.push("module".to_owned());
    v.push("main".to_owned());
    v
}

// ---------------------------------------------------------------------
// Laws of the graph
// ---------------------------------------------------------------------

/// Law: every module of a well-formed graph is identified by an
/// absolute, canonical path (single separators, no trailing separator,
/// no `.` or `..` segments).
pub proof fn lemma_module_paths_canonical(g: &ModuleGraph)
    requires
        g.wf(),
    ensures
        forall|i: int|
            0 <= i < g.modules@.len() ==> is_canonical_abs((#[trigger] g.modules@[i]).path@)
                && is_absolute(g.modules@[i].path@),
{
    assert forall|i: int| 0 <= i < g.modules@.len() implies is_canonical_abs(
        (#[trigger] g.modules@[i]).path@,
    ) && is_absolute(g.modules@[i].path@) by {
        lemma_lookup_some_entry(g.paths_to_ids@, g.modules@[i].path@);
    }
}

/// Law: in a well-formed graph, every resolved import target names an
/// existing node, below the allocation bound, and the graph holds an
/// import-labeled edge from the importing module to it.
pub proof fn lemma_import_targets_resolved(g: &ModuleGraph)
    requires
        g.wf(),
    ensures
        forall|i: int, k: int|
            0 <= i < g.modules@.len() && 0 <= k < g.modules@[i].imports@.len() && (
            #[trigger] g.modules@[i].imports@[k]).module_id != 0 ==> graph_nodes(g.graph).contains(
                g.modules@[i].imports@[k].module_id,
            ) && 1 <= g.modules@[i].imports@[k].module_id < g.next_id && spec_has_edge(
                g.graph,
                g.modules@[i].id,
                g.modules@[i].imports@[k].module_id,
                ModuleGraphEdge::Import,
            ),
{
}

/// Law: in a well-formed graph, every re-exporting export record with a
/// resolved target names an existing node, and the graph holds an
/// export-labeled edge from the re-exporting module to it.
pub proof fn lemma_export_targets_resolved(g: &ModuleGraph)
    requires
        g.wf(),
    ensures
        forall|i: int, k: int|
            0 <= i < g.modules@.len() && 0 <= k < g.modules@[i].exports@.len() ==> ((
            #[trigger] g.modules@[i].exports@[k]).module_id matches Some(t) ==> graph_nodes(
                g.graph,
            ).contains(t) && spec_has_edge(
                g.graph,
                g.modules@[i].id,
                t,
                ModuleGraphEdge::Export,
            )),
{
}

/// Law: loads of one canonical path agree on the identifier. Once some
/// specifier registered a path, any operation that preserves lookups
/// (every operation of the graph does) keeps the same identifier for any
/// specifier that cleans to the same canonical path.
pub proof fn lemma_same_canonical_path_same_id(
    pre: &ModuleGraph,
    post: &ModuleGraph,
    p1: Seq<char>,
    p2: Seq<char>,
)
    requires
        ModuleGraph::preserves_lookups(pre, post),
        path_clean(p1) == path_clean(p2),
        lookup_path(pre.paths_to_ids@, path_clean(p1)) is Some,
    ensures
        lookup_path(post.paths_to_ids@, path_clean(p2)) == lookup_path(
            pre.paths_to_ids@,
            path_clean(p1),
        ),
{
}

/// Law: identifiers are never reused. In a well-formed graph, every
/// registered identifier, every completed module's identifier and every
/// graph node lies strictly below the allocation counter, so the next
/// allocation is fresh; and an allocation strictly increases the
/// counter.
pub proof fn lemma_allocated_ids_below_next(g: &ModuleGraph)
    requires
        g.wf(),
    ensures
        forall|i: int|
            0 <= i < g.paths_to_ids@.len() ==> 1 <= (#[trigger] g.paths_to_ids@[i]).1 < g.next_id,
        forall|i: int| 0 <= i < g.modules@.len() ==> 1 <= (#[trigger] g.modules@[i]).id < g.next_id,
        forall|n: u32| #[trigger] graph_nodes(g.graph).contains(n) ==> 1 <= n < g.next_id,
{
    assert forall|i: int| 0 <= i < g.modules@.len() implies 1 <= (#[trigger] g.modules@[i]).id
        < g.next_id by {
        lemma_lookup_some_entry(g.paths_to_ids@, g.modules@[i].path@);
    }
}

/// The import records with their resolved targets filled in, in order.
pub open spec fn set_import_ids(imports: Seq<SpecImport>, ids: Seq<u32>) -> Seq<SpecImport> {
    Seq::new(imports.len(), |k: int| SpecImport { module_id: ids[k], ..imports[k] })
}

/// How many of the first `upto` export records re-export from a source.
pub open spec fn count_sources(exports: Seq<SpecExport>, upto: int) -> nat
    decreases upto,
{
    if upto <= 0 {
        0
    } else {
        count_sources(exports, upto - 1) + (if exports[upto - 1].source is Some {
            1nat
        } else {
            0nat
        })
    }
}

/// The export records with their resolved targets filled in: the `k`-th
/// record with a source takes the `k`-th identifier.
pub open spec fn set_export_ids(exports: Seq<SpecExport>, ids: Seq<u32>) -> Seq<SpecExport> {
    Seq::new(
        exports.len(),
        |k: int|
            if exports[k].source is Some {
                SpecExport { module_id: Some(ids[count_sources(exports, k) as int]), ..exports[k] }
            } else {
                exports[k]
            },
    )
}

proof fn lemma_count_sources_monotone(exports: Seq<SpecExport>, k1: int, k2: int)
    requires
        k1 <= k2,
    ensures
        count_sources(exports, k1) <= count_sources(exports, k2),
    decreases k2 - k1,
{
    if k1 < k2 {
        lemma_count_sources_monotone(exports, k1, k2 - 1);
    }
}

proof fn lemma_count_sources_bound(exports: Seq<SpecExport>, k: int)
    requires
        0 <= k < exports.len(),
        exports[k].source is Some,
    ensures
        count_sources(exports, k) < count_sources(exports, exports.len() as int),
{
    lemma_count_sources_monotone(exports, k + 1, exports.len() as int);
}

/// The conditions under which a module can be installed: it is
/// registered under its path with its identifier, not installed yet, its
/// resolved targets are existing nodes, one per import and one per
/// re-exporting export, and no other record claims a target.
pub open spec fn finish_ok(
    g: ModuleGraph,
    module: Module,
    import_ids: Seq<u32>,
    export_ids: Seq<u32>,
) -> bool {
    &&& lookup_path(g.paths_to_ids@, module.path@) == Some(module.id)
    &&& (forall|i: int| 0 <= i < g.modules@.len() ==> (#[trigger] g.modules@[i]).id != module.id)
    &&& import_ids.len() == module@.imports.len()
    &&& (forall|k: int|
        0 <= k < import_ids.len() ==> graph_nodes(g.graph).contains(#[trigger] import_ids[k]))
    &&& export_ids.len() == count_sources(module@.exports, module@.exports.len() as int)
    &&& (forall|k: int|
        0 <= k < export_ids.len() ==> graph_nodes(g.graph).contains(#[trigger] export_ids[k]))
    &&& (forall|k: int|
        0 <= k < module@.exports.len() && (#[trigger] module@.exports[k]).source is None
            ==> module@.exports[k].module_id is None)
}

impl ModuleGraph {
    /// Install a completed module: fill each import's resolved target
    /// and add an import-labeled edge, fill each re-exporting export's
    /// target and add an export-labeled edge (in record order, imports
    /// first), then append the module. Returns whether the module was
    /// accepted; a rejected call leaves the graph untouched. Labels an
    /// edge already carries are never lost.
    pub fn finish_module(
        &mut self,
        module: Module,
        import_ids: &Vec<ModuleId>,
        export_ids: &Vec<ModuleId>,
    ) -> (ok: bool)
        requires
            old(self).wf(),
        ensures
            final(self).wf(),
            ModuleGraph::preserves_lookups(old(self), final(self)),
            final(self).paths_to_ids == old(self).paths_to_ids,
            final(self).next_id == old(self).next_id,
            final(self).packages == old(self).packages,
            graph_nodes(final(self).graph) == graph_nodes(old(self).graph),
            ok == finish_ok(*old(self), module, import_ids@, export_ids@),
            !ok ==> *final(self) == *old(self),
            ok ==> final(self).modules@.len() == old(self).modules@.len() + 1 && (forall|i: int|
                0 <= i < old(self).modules@.len() ==> final(self).modules@[i] == old(
                    self,
                ).modules@[i]) && final(self).modules@.last()@ == (SpecModule {
                imports: set_import_ids(module@.imports, import_ids@),
                exports: set_export_ids(module@.exports, export_ids@),
                ..module@
            }),
            ok ==> (forall|k: int|
                0 <= k < import_ids@.len() ==> spec_has_edge(
                    final(self).graph,
                    module.id,
                    #[trigger] import_ids@[k],
                    ModuleGraphEdge::Import,
                )),
            ok ==> (forall|k: int|
                0 <= k < export_ids@.len() ==> spec_has_edge(
                    final(self).graph,
                    module.id,
                    #[trigger] export_ids@[k],
                    ModuleGraphEdge::Export,
                )),
            forall|a: u32, b: u32, l: ModuleGraphEdge|
                #[trigger] spec_has_edge(old(self).graph, a, b, l) ==> spec_has_edge(
                    final(self).graph,
                    a,
                    b,
                    l,
                ),
            forall|e: (u32, u32)|
                #[trigger] graph_edges(final(self).graph).dom().contains(e) ==> graph_edges(
                    old(self).graph,
                ).dom().contains(e) || (e.0 == module.id && ((exists|k: int|
                    0 <= k < import_ids@.len() && import_ids@[k] == e.1) || (exists|k: int|
                    0 <= k < export_ids@.len() && export_ids@[k] == e.1))),
    {
        // check every condition before touching any state
        let ok1 = match self.lookup_exact(module.path.as_str()) {
            Some(id) => id == module.id,
            None => false,
        };
        let mut ok2 = true;
        let mut i: usize = 0;
        while i < self.modules.len()
            invariant
                i <= self.modules@.len(),
                ok2 == (forall|t: int|
                    0 <= t < i ==> (#[trigger] self.modules@[t]).id != module.id),
            decreases self.modules@.len() - i,
        {
            if self.modules[i].id == module.id {
                ok2 = false;
            }
            i = i + 1;
        }
        let mut ok3 = import_ids.len() == module.imports.len();
        let mut k: usize = 0;
        while k < import_ids.len()
            invariant
                k <= import_ids@.len(),
                ok3 == (import_ids@.len() == module@.imports.len() && (forall|t: int|
                    0 <= t < k ==> graph_nodes(self.graph).contains(#[trigger] import_ids@[t]))),
            decreases import_ids@.len() - k,
        {
            if !graph_contains_node(&self.graph, import_ids[k]) {
                ok3 = false;
            }
            k = k + 1;
        }
        let mut nsrc: usize = 0;
        let mut ok5 = true;
        let mut k2: usize = 0;
        while k2 < module.exports.len()
            invariant
                k2 <= module.exports@.len(),
                nsrc <= k2,
                nsrc == count_sources(module@.exports, k2 as int),
                ok5 == (forall|t: int|
                    0 <= t < k2 && (#[trigger] module@.exports[t]).source is None
                        ==> module@.exports[t].module_id is None),
            decreases module.exports@.len() - k2,
        {
            let e = &module.exports[k2];
            if e.source.is_some() {
                nsrc = nsrc + 1;
            } else {
                if e.module_id.is_some() {
                    ok5 = false;
                }
            }
            proof {
                assert(module@.exports[k2 as int] == module.exports@[k2 as int]@);
            }
            k2 = k2 + 1;
        }
        let mut ok4 = export_ids.len() == nsrc;
        let mut k3: usize = 0;
        while k3 < export_ids.len()
            invariant
                k3 <= export_ids@.len(),
                ok4 == (export_ids@.len() == count_sources(
                    module@.exports,
                    module@.exports.len() as int,
                ) && (forall|t: int|
                    0 <= t < k3 ==> graph_nodes(self.graph).contains(#[trigger] export_ids@[t]))),
            decreases export_ids@.len() - k3,
        {
            if !graph_contains_node(&self.graph, export_ids[k3]) {
                ok4 = false;
            }
            k3 = k3 + 1;
        }
        if !(ok1 && ok2 && ok3 && ok4 && ok5) {
            proof {
                assert(!finish_ok(*old(self), module, import_ids@, export_ids@));
            }
            return false;
        }
        proof {
            assert(finish_ok(*old(self), module, import_ids@, export_ids@));
            lemma_lookup_some_entry(self.paths_to_ids@, module.path@);
        }
        let ghost pre = *old(self);
        let ghost orig = module@;
        let ghost m0 = module;
        let mid = module.id;
        let mut module = module;
        proof {
            assert(graph_nodes(pre.graph).contains(mid));
        }
        // fill the import targets and connect the import edges, in order
        let mut k: usize = 0;
        while k < module.imports.len()
            invariant
                self.wf(),
                k <= module.imports@.len(),
                module.imports@.len() == m0.imports@.len(),
                import_ids@.len() == m0.imports@.len(),
                mid == m0.id,
                module.id == m0.id && module.path == m0.path && module.query == m0.query
                    && module.fragment == m0.fragment && module.package_name == m0.package_name
                    && module.source == m0.source && module.exports == m0.exports,
                forall|t: int|
                    k <= t < m0.imports@.len() ==> module.imports@[t] == m0.imports@[t],
                forall|t: int|
                    0 <= t < k ==> (#[trigger] module.imports@[t])@ == (SpecImport {
                        module_id: import_ids@[t],
                        ..m0.imports@[t]@
                    }),
                self.paths_to_ids == pre.paths_to_ids,
                self.next_id == pre.next_id,
                self.packages == pre.packages,
                self.modules == pre.modules,
                graph_nodes(self.graph) == graph_nodes(pre.graph),
                graph_nodes(pre.graph).contains(mid),
                forall|t: int|
                    0 <= t < import_ids@.len() ==> graph_nodes(pre.graph).contains(
                        #[trigger] import_ids@[t],
                    ),
                forall|a: u32, b: u32, l: ModuleGraphEdge|
                    #[trigger] spec_has_edge(pre.graph, a, b, l) ==> spec_has_edge(
                        self.graph,
                        a,
                        b,
                        l,
                    ),
                forall|t: int|
                    0 <= t < k ==> spec_has_edge(
                        self.graph,
                        mid,
                        #[trigger] import_ids@[t],
                        ModuleGraphEdge::Import,
                    ),
                forall|e: (u32, u32)|
                    #[trigger] graph_edges(self.graph).dom().contains(e) ==> graph_edges(
                        pre.graph,
                    ).dom().contains(e) || (e.0 == mid && (exists|t: int|
                        0 <= t < k && import_ids@[t] == e.1)),
            decreases module.imports@.len() - k,
        {
            let target = import_ids[k];
            module.imports[k].module_id = target;
            let ghost gpre = self.graph;
            add_labeled_edge(&mut self.graph, mid, target, ModuleGraphEdge::Import);
            proof {
                assert(graph_nodes(self.graph) =~= graph_nodes(gpre));
                assert forall|a: u32, b: u32, l: ModuleGraphEdge|
                    #[trigger] spec_has_edge(gpre, a, b, l) implies spec_has_edge(
                    self.graph,
                    a,
                    b,
                    l,
                ) by {
                    if a == mid && b == target {
                        lemma_merge_preserves_labels(
                            graph_edges(gpre)[(mid, target)],
                            l,
                            ModuleGraphEdge::Import,
                        );
                    }
                }
                if graph_edges(gpre).dom().contains((mid, target)) {
                    lemma_merge_preserves_labels(
                        graph_edges(gpre)[(mid, target)],
                        ModuleGraphEdge::Import,
                        ModuleGraphEdge::Import,
                    );
                }
                assert(spec_has_edge(self.graph, mid, target, ModuleGraphEdge::Import));
                assert(self.wf());
            }
            k = k + 1;
        }
        // fill the export targets and connect the export edges, in order
        let ghost especs = orig.exports;
        let mut k2: usize = 0;
        let mut src_idx: usize = 0;
        while k2 < module.exports.len()
            invariant
                self.wf(),
                k2 <= module.exports@.len(),
                module.exports@.len() == m0.exports@.len(),
                especs == orig.exports,
                especs.len() == m0.exports@.len(),
                forall|t: int| 0 <= t < especs.len() ==> especs[t] == m0.exports@[t]@,
                export_ids@.len() == count_sources(especs, especs.len() as int),
                src_idx == count_sources(especs, k2 as int),
                mid == m0.id,
                module.id == m0.id && module.path == m0.path && module.query == m0.query
                    && module.fragment == m0.fragment && module.package_name == m0.package_name
                    && module.source == m0.source,
                module.imports@.len() == m0.imports@.len(),
                forall|t: int|
                    0 <= t < m0.imports@.len() ==> (#[trigger] module.imports@[t])@ == (SpecImport {
                        module_id: import_ids@[t],
                        ..m0.imports@[t]@
                    }),
                import_ids@.len() == m0.imports@.len(),
                forall|t: int|
                    k2 <= t < m0.exports@.len() ==> module.exports@[t] == m0.exports@[t],
                forall|t: int|
                    0 <= t < k2 ==> (#[trigger] module.exports@[t])@ == set_export_ids(
                        especs,
                        export_ids@,
                    )[t],
                self.paths_to_ids == pre.paths_to_ids,
                self.next_id == pre.next_id,
                self.packages == pre.packages,
                self.modules == pre.modules,
                graph_nodes(self.graph) == graph_nodes(pre.graph),
                graph_nodes(pre.graph).contains(mid),
                forall|t: int|
                    0 <= t < export_ids@.len() ==> graph_nodes(pre.graph).contains(
                        #[trigger] export_ids@[t],
                    ),
                forall|a: u32, b: u32, l: ModuleGraphEdge|
                    #[trigger] spec_has_edge(pre.graph, a, b, l) ==> spec_has_edge(
                        self.graph,
                        a,
                        b,
                        l,
                    ),
                forall|t: int|
                    0 <= t < import_ids@.len() ==> spec_has_edge(
                        self.graph,
                        mid,
                        #[trigger] import_ids@[t],
                        ModuleGraphEdge::Import,
                    ),
                forall|t: int|
                    0 <= t < src_idx ==> spec_has_edge(
                        self.graph,
                        mid,
                        #[trigger] export_ids@[t],
                        ModuleGraphEdge::Export,
                    ),
                forall|e: (u32, u32)|
                    #[trigger] graph_edges(self.graph).dom().contains(e) ==> graph_edges(
                        pre.graph,
                    ).dom().contains(e) || (e.0 == mid && ((exists|t: int|
                        0 <= t < import_ids@.len() && import_ids@[t] == e.1) || (exists|t: int|
                        0 <= t < src_idx && export_ids@[t] == e.1))),
            decreases module.exports@.len() - k2,
        {
            proof {
                assert(module.exports@[k2 as int] == m0.exports@[k2 as int]);
                assert(especs[k2 as int] == m0.exports@[k2 as int]@);
            }
            let has_source = module.exports[k2].source.is_some();
            if has_source {
                proof {
                    lemma_count_sources_bound(especs, k2 as int);
                }
                let target = export_ids[src_idx];
                module.exports[k2].module_id = Some(target);
                let ghost gpre = self.graph;
                add_labeled_edge(&mut self.graph, mid, target, ModuleGraphEdge::Export);
                proof {
                    assert(graph_nodes(self.graph) =~= graph_nodes(gpre));
                    assert forall|a: u32, b: u32, l: ModuleGraphEdge|
                        #[trigger] spec_has_edge(gpre, a, b, l) implies spec_has_edge(
                        self.graph,
                        a,
                        b,
                        l,
                    ) by {
                        if a == mid && b == target {
                            lemma_merge_preserves_labels(
                                graph_edges(gpre)[(mid, target)],
                                l,
                                ModuleGraphEdge::Export,
                            );
                        }
                    }
                    if graph_edges(gpre).dom().contains((mid, target)) {
                        lemma_merge_preserves_labels(
                            graph_edges(gpre)[(mid, target)],
                            ModuleGraphEdge::Export,
                            ModuleGraphEdge::Export,
                        );
                    }
                    assert(spec_has_edge(self.graph, mid, target, ModuleGraphEdge::Export));
                    assert(self.wf());
                    assert((module.exports@[k2 as int])@ == (SpecExport {
                        module_id: Some(export_ids@[count_sources(especs, k2 as int) as int]),
                        ..especs[k2 as int]
                    }));
                }
                let bound = export_ids.len();
                proof {
                    assert(src_idx < bound);
                }
                src_idx = src_idx + 1;
            } else {
                proof {
                    assert((module.exports@[k2 as int])@ == set_export_ids(
                        especs,
                        export_ids@,
                    )[k2 as int]);
                }
            }
            k2 = k2 + 1;
        }
        // install the completed module
        let ghost fm = module@;
        proof {
            assert(fm.imports =~= set_import_ids(orig.imports, import_ids@));
            assert(fm.exports =~= set_export_ids(especs, export_ids@));
            assert(fm =~~= (SpecModule {
                imports: set_import_ids(orig.imports, import_ids@),
                exports: set_export_ids(orig.exports, export_ids@),
                ..orig
            }));
        }
        let ghost mods_pre = self.modules@;
        self.modules.push(module);
        proof {
            assert(self.modules@ =~= mods_pre.push(self.modules@.last()));
            // the new entry meets every module condition of wf
            assert forall|i: int, kk: int|
                0 <= i < self.modules@.len() && 0 <= kk < self.modules@[i].imports@.len() implies ((
            #[trigger] self.modules@[i].imports@[kk]).module_id == 0 || (graph_nodes(
                self.graph,
            ).contains(self.modules@[i].imports@[kk].module_id) && spec_has_edge(
                self.graph,
                self.modules@[i].id,
                self.modules@[i].imports@[kk].module_id,
                ModuleGraphEdge::Import,
            ))) by {
                if i == self.modules@.len() - 1 {
                    assert(self.modules@[i].imports@[kk]@ == (SpecImport {
                        module_id: import_ids@[kk],
                        ..m0.imports@[kk]@
                    }));
                    assert(graph_nodes(pre.graph).contains(import_ids@[kk]));
                }
            }
            assert forall|i: int, kk: int|
                0 <= i < self.modules@.len() && 0 <= kk < self.modules@[i].exports@.len() implies ((
            #[trigger] self.modules@[i].exports@[kk]).module_id matches Some(t) ==> (graph_nodes(
                self.graph,
            ).contains(t) && spec_has_edge(
                self.graph,
                self.modules@[i].id,
                t,
                ModuleGraphEdge::Export,
            ))) by {
                if i == self.modules@.len() - 1 {
                    assert(self.modules@[i].exports@[kk]@ == set_export_ids(
                        especs,
                        export_ids@,
                    )[kk]);
                    if especs[kk].source is Some {
                        lemma_count_sources_bound(especs, kk);
                        lemma_count_sources_monotone(especs, 0, kk);
                    }
                }
            }
            assert(self.wf());
        }
        true
    }
}

} // verus!

//! The YAML source handler. Like the JSON handler: the document itself
//! is the default export, and each top-level mapping key with a string
//! name becomes a value symbol, in document order.

use vstd::prelude::*;
use crate::errors::ModuleGraphError;
use crate::module::{
    export_views, lemma_export_views_push, lemma_exported_views_push, Export, ExportKind,
    ExportedKind, ExportedSymbol, Module, ModuleSourceInfo, SpecExport, SpecExportedSymbol,
};

verus! {

/// What parsing a YAML document yields: `None` when the text is not a
/// valid document, otherwise the top-level mapping keys in document order
/// (a key without a string name appears as `None`; a non-mapping root
/// yields no keys).
pub uninterp spec fn yaml_doc_keys(s: Seq<char>) -> Option<Seq<Option<Seq<char>>>>;

/// Relies on `starbase_utils::yaml::parse`: the result is a function of
/// the text alone; a valid document yields its root mapping's keys in
/// order, each key's string name or `None` for a non-string key.
#[verifier::external_body]
fn parse_yaml_mapping_keys(text: &str) -> (r: Result<Vec<Option<String>>, String>)
    ensures
        r is Ok <==> yaml_doc_keys(text@) is Some,
        r matches Ok(keys) ==> yaml_doc_keys(text@) matches Some(ks) && keys@.len() == ks.len()
            && (forall|i: int|
            0 <= i < ks.len() ==> (#[trigger] keys@[i] matches Some(k) ==> ks[i] == Some(k@)) && (
            keys@[i] is None ==> ks[i] is None)),
{
    match starbase_utils::yaml::parse::<starbase_utils::yaml::YamlValue>(text) {
        Ok(starbase_utils::yaml::YamlValue::Mapping(map)) => Ok(
            map.keys().map(|k| k.as_str().map(|s| s.to_owned())).collect(),
        ),
        Ok(_) => Ok(Vec::new()),
        Err(e) => Err(e.to_string()),
    }
}

/// The symbols of the keys of a native YAML export: one value symbol per
/// key with a string name; nameless keys contribute nothing.
pub open spec fn yaml_key_symbols(keys: Seq<Option<Seq<char>>>) -> Seq<SpecExportedSymbol>
    decreases keys,
{
    if keys.len() == 0 {
        Seq::<SpecExportedSymbol>::empty()
    } else {
        (match keys[0] {
            Some(k) => seq![
                SpecExportedSymbol { kind: ExportedKind::Value, symbol_id: None, name: k },
            ],
            None => Seq::<SpecExportedSymbol>::empty(),
        }) + yaml_key_symbols(keys.drop_first())
    }
}

proof fn lemma_yaml_key_symbols_snoc(keys: Seq<Option<Seq<char>>>, x: Option<Seq<char>>)
    ensures
        yaml_key_symbols(keys.push(x)) =~= yaml_key_symbols(keys) + (match x {
            Some(k) => seq![
                SpecExportedSymbol { kind: ExportedKind::Value, symbol_id: None, name: k },
            ],
            None => Seq::<SpecExportedSymbol>::empty(),
        }),
    decreases keys.len(),
{
    if keys.len() == 0 {
        assert(keys.push(x)[0] == x);
        assert(keys.push(x).drop_first() =~= keys);
    } else {
        assert(keys.push(x)[0] == keys[0]);
        assert(keys.push(x).drop_first() =~= keys.drop_first().push(x));
        lemma_yaml_key_symbols_snoc(keys.drop_first(), x);
    }
}

/// The native export record of a YAML document with the given root keys.
pub open spec fn yaml_export_record(keys: Seq<Option<Seq<char>>>) -> SpecExport {
    SpecExport {
        kind: ExportKind::Native,
        module_id: None,
        source: None,
        span: None,
        symbols: seq![
            SpecExportedSymbol { kind: ExportedKind::Default, symbol_id: None, name: "default"@ },
        ] + yaml_key_symbols(keys),
        type_only: false,
    }
}

/// Source information of a YAML module.
#[derive(Debug, Clone, PartialEq)]
pub struct YamlModule {
    pub source: String,
}

impl YamlModule {
    /// Parse a YAML document and append its native export record to the
    /// module. Fails exactly when the text is not a valid document,
    /// leaving the module untouched.
    pub fn parse(module: &mut Module, text: String) -> (r: Result<(), ModuleGraphError>)
        ensures
            r is Ok <==> yaml_doc_keys(text@) is Some,
            r is Ok ==> export_views(final(module).exports@) == export_views(old(module).exports@)
                .push(yaml_export_record(yaml_doc_keys(text@)->0)),
            r is Ok ==> (final(module).source matches ModuleSourceInfo::Yaml(y) && y.source@
                == text@),
            r is Ok ==> final(module).imports == old(module).imports && final(module).id == old(
                module,
            ).id && final(module).path == old(module).path,
            r matches Err(e) ==> *final(module) == *old(module) && (e matches
                ModuleGraphError::ParseError { path, .. } && path@ == old(module).path@),
    {
        match parse_yaml_mapping_keys(text.as_str()) {
            Ok(keys) => {
                let ghost ks = yaml_doc_keys(text@)->0;
                let mut symbols: Vec<ExportedSymbol> = Vec::new();
                symbols.push(
                    ExportedSymbol {
                        kind: ExportedKind::Default,
                        symbol_id: None,
                        name: "default".to_owned(),
                    },
                );
                let ghost head = seq![
                    SpecExportedSymbol {
                        kind: ExportedKind::Default,
                        symbol_id: None,
                        name: "default"@,
                    },
                ];
                proof {
                    assert(crate::module::exported_views(symbols@) =~= head + yaml_key_symbols(
                        ks.subrange(0, 0),
                    ));
                }
                let mut i: usize = 0;
                while i < keys.len()
                    invariant
                        i <= keys.len(),
                        keys@.len() == ks.len(),
                        forall|k: int|
                            0 <= k < ks.len() ==> ((#[trigger] keys@[k] matches Some(s) ==> ks[k]
                                == Some(s@)) && (keys@[k] is None ==> ks[k] is None)),
                        crate::module::exported_views(symbols@) =~= head + yaml_key_symbols(
                            ks.subrange(0, i as int),
                        ),
                    decreases keys.len() - i,
                {
                    let ghost pre = symbols@;
                    match &keys[i] {
                        Some(k) => {
                            let sym = ExportedSymbol {
                                kind: ExportedKind::Value,
                                symbol_id: None,
                                name: k.clone(),
                            };
                            symbols.push(sym);
                            proof {
                                lemma_exported_views_push(pre, sym);
                            }
                        },
                        None => {},
                    }
                    proof {
                        lemma_yaml_key_symbols_snoc(ks.subrange(0, i as int), ks[i as int]);
                        assert(ks.subrange(0, i as int).push(ks[i as int]) =~= ks.subrange(
                            0,
                            i as int + 1,
                        ));
                    }
                    i = i + 1;
                }
                proof {
                    assert(ks.subrange(0, ks.len() as int) =~= ks);
                }
                let rec = Export {
                    kind: ExportKind::Native,
                    module_id: None,
                    source: None,
                    span: None,
                    symbols,
                    type_only: false,
                };
                proof {
                    assert(rec@.symbols =~= yaml_export_record(ks).symbols);
                }
                let ghost pre_exports = module.exports@;
                module.exports.push(rec);
                proof {
                    lemma_export_views_push(pre_exports, rec);
                }
                module.source = ModuleSourceInfo::Yaml(YamlModule { source: text });
                Ok(())
            },
            Err(cause) => Err(
                ModuleGraphError::ParseError { path: module.path.clone(), cause },
            ),
        }
    }
}

} // verus!

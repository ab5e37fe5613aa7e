//! The JSON source handler. The document is parsed by an outside crate;
//! the verified logic turns its top-level object keys into one native
//! export record: the whole document as the default export, then one
//! value symbol per direct key, in document order.

use vstd::prelude::*;
use crate::errors::ModuleGraphError;
use crate::module::{
    export_views, lemma_export_views_push, lemma_exported_views_push, Export, ExportKind,
    ExportedKind, ExportedSymbol, Module, ModuleSourceInfo, SpecExport, SpecExportedSymbol,
};

verus! {

/// What parsing a JSON document yields: `None` when the text is not a
/// valid document, otherwise the names of the direct keys of its root
/// object, in document order (empty for a non-object root).
pub uninterp spec fn json_doc_keys(s: Seq<char>) -> Option<Seq<Seq<char>>>;

/// Relies on `starbase_utils::json::parse` (comment-tolerant parsing
/// into `serde_json` values, with key order preserved): the result is a
/// function of the text alone; a valid document yields its root object's
/// keys in order, or no keys when the root is not an object.
#[verifier::external_body]
fn parse_json_object_keys(text: &str) -> (r: Result<Vec<String>, String>)
    ensures
        r is Ok <==> json_doc_keys(text@) is Some,
        r matches Ok(keys) ==> json_doc_keys(text@) matches Some(ks) && keys@.len() == ks.len()
            && (forall|i: int| 0 <= i < ks.len() ==> #[trigger] keys@[i]@ == ks[i]),
{
    match starbase_utils::json::parse::<starbase_utils::json::JsonValue>(text) {
        Ok(starbase_utils::json::JsonValue::Object(map)) => Ok(
            map.keys().map(|k| k.clone()).collect(),
        ),
        Ok(_) => Ok(Vec::new()),
        Err(e) => Err(e.to_string()),
    }
}

/// The symbols of a native export's keys: one value symbol per key.
pub open spec fn native_key_symbols(keys: Seq<Seq<char>>) -> Seq<SpecExportedSymbol>
    decreases keys,
{
    if keys.len() == 0 {
        Seq::<SpecExportedSymbol>::empty()
    } else {
        seq![
            SpecExportedSymbol { kind: ExportedKind::Value, symbol_id: None, name: keys[0] },
        ] + native_key_symbols(keys.drop_first())
    }
}

proof fn lemma_native_key_symbols_snoc(keys: Seq<Seq<char>>, x: Seq<char>)
    ensures
        native_key_symbols(keys.push(x)) =~= native_key_symbols(keys).push(
            SpecExportedSymbol { kind: ExportedKind::Value, symbol_id: None, name: x },
        ),
    decreases keys.len(),
{
    if keys.len() == 0 {
        assert(keys.push(x)[0] == x);
        assert(keys.push(x).drop_first() =~= keys);
    } else {
        assert(keys.push(x)[0] == keys[0]);
        assert(keys.push(x).drop_first() =~= keys.drop_first().push(x));
        lemma_native_key_symbols_snoc(keys.drop_first(), x);
    }
}

/// The native export record of a document with the given root keys: the
/// default export first, then one value symbol per key.
pub open spec fn native_export_record(keys: Seq<Seq<char>>) -> SpecExport {
    SpecExport {
        kind: ExportKind::Native,
        module_id: None,
        source: None,
        span: None,
        symbols: seq![
            SpecExportedSymbol { kind: ExportedKind::Default, symbol_id: None, name: "default"@ },
        ] + native_key_symbols(keys),
        type_only: false,
    }
}

/// Build the native export record of a document whose root keys are
/// given.
fn build_native_export(keys: &Vec<String>) -> (r: Export)
    ensures
        r@ == native_export_record(keys@.map_values(|k: String| k@)),
{
    let ghost kviews = keys@.map_values(|k: String| k@);
    let mut symbols: Vec<ExportedSymbol> = Vec::new();
    symbols.push(
        ExportedSymbol { kind: ExportedKind::Default, symbol_id: None, name: "default".to_owned() },
    );
    let ghost head = seq![
        SpecExportedSymbol { kind: ExportedKind::Default, symbol_id: None, name: "default"@ },
    ];
    proof {
        assert(crate::module::exported_views(symbols@) =~= head + native_key_symbols(
            kviews.subrange(0, 0),
        ));
    }
    let mut i: usize = 0;
    while i < keys.len()
        invariant
            i <= keys.len(),
            kviews == keys@.map_values(|k: String| k@),
            kviews.len() == keys@.len(),
            crate::module::exported_views(symbols@) =~= head + native_key_symbols(
                kviews.subrange(0, i as int),
            ),
        decreases keys.len() - i,
    {
        let ghost pre = symbols@;
        let sym = ExportedSymbol {
            kind: ExportedKind::Value,
            symbol_id: None,
            name: keys[i].clone(),
        };
        symbols.push(sym);
        proof {
            lemma_exported_views_push(pre, sym);
            lemma_native_key_symbols_snoc(kviews.subrange(0, i as int), kviews[i as int]);
            assert(kviews[i as int] == keys@[i as int]@);
            assert(kviews.subrange(0, i as int).push(kviews[i as int]) =~= kviews.subrange(
                0,
                i as int + 1,
            ));
        }
        i = i + 1;
    }
    proof {
        assert(kviews.subrange(0, kviews.len() as int) =~= kviews);
    }
    let r = Export {
        kind: ExportKind::Native,
        module_id: None,
        source: None,
        span: None,
        symbols,
        type_only: false,
    };
    proof {
        assert(r@.symbols =~= native_export_record(kviews).symbols);
    }
    r
}

/// Source information of a JSON module.
#[derive(Debug, Clone, PartialEq)]
pub struct JsonModule {
    pub source: String,
}

impl JsonModule {
    /// Parse a JSON document and append its native export record to the
    /// module: the whole document as the default export, then one value
    /// symbol per direct key of an object root. Fails exactly when the
    /// text is not a valid document, leaving the module untouched.
    pub fn parse(module: &mut Module, text: String) -> (r: Result<(), ModuleGraphError>)
        ensures
            r is Ok <==> json_doc_keys(text@) is Some,
            r is Ok ==> export_views(final(module).exports@) == export_views(old(module).exports@)
                .push(native_export_record(json_doc_keys(text@)->0)),
            r is Ok ==> (final(module).source matches ModuleSourceInfo::Json(j) && j.source@
                == text@),
            r is Ok ==> final(module).imports == old(module).imports && final(module).id == old(
                module,
            ).id && final(module).path == old(module).path,
            r matches Err(e) ==> *final(module) == *old(module) && (e matches
                ModuleGraphError::ParseError { path, .. } && path@ == old(module).path@),
    {
        match parse_json_object_keys(text.as_str()) {
            Ok(keys) => {
                let rec = build_native_export(&keys);
                let ghost pre = module.exports@;
                module.exports.push(rec);
                proof {
                    lemma_export_views_push(pre, rec);
                    assert(keys@.map_values(|k: String| k@) =~= json_doc_keys(text@)->0);
                }
                module.source = ModuleSourceInfo::Json(JsonModule { source: text });
                Ok(())
            },
            Err(cause) => Err(
                ModuleGraphError::ParseError { path: module.path.clone(), cause },
            ),
        }
    }
}

} // verus!

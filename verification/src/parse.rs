//! The trusted boundary to the JSON decoder.
//!
//! The manifest text is decoded by `serde_json`; everything the library
//! then does with the decoded document works on the plain [`JsonVal`] tree
//! that [`parse_json`] returns.  What the decoder returns for a given text
//! is named by the uninterpreted function [`json_doc_of`]; the accessor
//! wrappers below say, over [`jtree_of`], exactly what each `serde_json`
//! accessor hands out.

use vstd::prelude::*;
use crate::json::{deep_entries, deep_seq, lemma_deep_entries, lemma_deep_seq, wf_keys, JTree,
    JsonVal};

verus! {

#[verifier::external_type_specification]
#[verifier::external_body]
pub struct ExValue(serde_json::Value);

/// The JSON tree that a decoded `serde_json::Value` holds.
pub uninterp spec fn jtree_of(v: serde_json::Value) -> JTree;

/// The result of decoding a text as one JSON document: the tree, or
/// nothing when the text is not well-formed JSON.
pub uninterp spec fn json_doc_of(s: Seq<char>) -> Option<JTree>;

/// Relies on `serde_json::from_str::<Value>`: decodes one JSON document;
/// the result is a function of the text alone.
#[verifier::external_body]
fn from_str_value(s: &str) -> (r: Option<serde_json::Value>)
    ensures
        match r {
            Some(v) => json_doc_of(s@) == Some(jtree_of(v)),
            None => json_doc_of(s@) is None,
        },
{
    serde_json::from_str::<serde_json::Value>(s).ok()
}

/// Relies on the six variants of `serde_json::Value`: reports which JSON
/// kind `v` holds.
#[verifier::external_body]
fn value_kind(v: &serde_json::Value) -> (k: u8)
    ensures
        (k == 0) == (jtree_of(*v) is Null),
        (k == 1) == (jtree_of(*v) is Bool),
        (k == 2) == (jtree_of(*v) is Num),
        (k == 3) == (jtree_of(*v) is Str),
        (k == 4) == (jtree_of(*v) is Arr),
        (k == 5) == (jtree_of(*v) is Obj),
{
    match v {
        serde_json::Value::Null => 0,
        serde_json::Value::Bool(_) => 1,
        serde_json::Value::Number(_) => 2,
        serde_json::Value::String(_) => 3,
        serde_json::Value::Array(_) => 4,
        serde_json::Value::Object(_) => 5,
    }
}

/// Relies on `serde_json::Value::as_bool`.
#[verifier::external_body]
fn value_bool(v: &serde_json::Value) -> (b: bool)
    requires
        jtree_of(*v) is Bool,
    ensures
        b == jtree_of(*v)->b,
{
    v.as_bool().unwrap_or(false)
}

/// Relies on `serde_json::Value::as_str`.
#[verifier::external_body]
fn value_str(v: &serde_json::Value) -> (s: String)
    requires
        jtree_of(*v) is Str,
    ensures
        s@ == jtree_of(*v)->text,
{
    v.as_str().unwrap_or("").to_owned()
}

/// Relies on the `Display` of `serde_json::Number`: the canonical decimal
/// text of the number, a function of the number alone.
#[verifier::external_body]
fn value_num_text(v: &serde_json::Value) -> (s: String)
    requires
        jtree_of(*v) is Num,
    ensures
        s@ == jtree_of(*v)->digits,
{
    match v {
        serde_json::Value::Number(n) => n.to_string(),
        _ => String::new(),
    }
}

/// Relies on `serde_json::Value::as_array`.
#[verifier::external_body]
fn value_items(v: &serde_json::Value) -> (r: Vec<serde_json::Value>)
    requires
        jtree_of(*v) is Arr,
    ensures
        r@.len() == jtree_of(*v)->items.len(),
        forall|i: int| 0 <= i < r@.len() ==> jtree_of(#[trigger] r@[i]) == jtree_of(*v)->items[i],
{
    v.as_array().cloned().unwrap_or_default()
}

/// Relies on `serde_json::Map` iteration: the members in ascending key
/// order, with pairwise distinct keys.
#[verifier::external_body]
fn value_entries(v: &serde_json::Value) -> (r: Vec<(String, serde_json::Value)>)
    requires
        jtree_of(*v) is Obj,
    ensures
        r@.len() == jtree_of(*v)->entries.len(),
        forall|i: int| 0 <= i < r@.len() ==> (#[trigger] r@[i]).0@ == jtree_of(*v)->entries[i].0
            && jtree_of(r@[i].1) == jtree_of(*v)->entries[i].1,
        forall|i: int, j: int| 0 <= i < j < r@.len() ==> (#[trigger] r@[i]).0@ != (
        #[trigger] r@[j]).0@,
{
    match v {
        serde_json::Value::Object(m) => m.iter().map(|(k, x)| (k.clone(), x.clone())).collect(),
        _ => Vec::new(),
    }
}

/// Rebuilds the tree of a decoded value as plain data.  The result's deep
/// view is exactly the tree the value holds, and every object in it has
/// distinct keys.
fn to_tree(v: &serde_json::Value) -> (t: JsonVal)
    ensures
        t.deep() == jtree_of(*v),
        wf_keys(t.deep()),
    decreases jtree_of(*v),
{
    let k = value_kind(v);
    if k == 0 {
        JsonVal::Null
    } else if k == 1 {
        JsonVal::Bool(value_bool(v))
    } else if k == 2 {
        let t = JsonVal::Num(value_num_text(v));
        proof {
            assert(t.deep() =~= jtree_of(*v));
        }
        t
    } else if k == 3 {
        let t = JsonVal::Str(value_str(v));
        proof {
            assert(t.deep() =~= jtree_of(*v));
        }
        t
    } else if k == 4 {
        let items = value_items(v);
        let n = items.len();
        proof {
            broadcast use vstd::seq::axiom_seq_index_decreases;

            assert forall|j: int| 0 <= j < n implies decreases_to!(jtree_of(*v) => jtree_of(
            #[trigger] items@[j])) by {
                assert(decreases_to!(jtree_of(*v) => jtree_of(*v)->items));
                assert(decreases_to!(jtree_of(*v)->items => jtree_of(*v)->items[j]));
            }
        }
        let mut out: Vec<JsonVal> = Vec::new();
        let mut i: usize = 0;
        while i < n
            invariant
                n == items@.len(),
                i <= n,
                out@.len() == i,
                jtree_of(*v) is Arr,
                n == jtree_of(*v)->items.len(),
                forall|j: int| 0 <= j < n ==> jtree_of(#[trigger] items@[j]) == jtree_of(
                    *v,
                )->items[j],
                forall|j: int| 0 <= j < n ==> decreases_to!(jtree_of(*v) => jtree_of(
                #[trigger] items@[j])),
                forall|j: int| 0 <= j < i ==> (#[trigger] out@[j]).deep() == jtree_of(
                    *v,
                )->items[j] && wf_keys(out@[j].deep()),
            decreases n - i,
        {
            let child = to_tree(&items[i]);
            out.push(child);
            i += 1;
        }
        proof {
            lemma_deep_seq(out@);
            assert(deep_seq(out@) =~= jtree_of(*v)->items);
        }
        let t = JsonVal::Arr(out);
        proof {
            assert(t.deep() =~= jtree_of(*v));
        }
        t
    } else if k == 5 {
        let entries = value_entries(v);
        let n = entries.len();
        proof {
            broadcast use vstd::seq::axiom_seq_index_decreases;

            assert forall|j: int| 0 <= j < n implies decreases_to!(jtree_of(*v) => jtree_of((
            #[trigger] entries@[j]).1)) by {
                assert(decreases_to!(jtree_of(*v) => jtree_of(*v)->entries));
                assert(decreases_to!(jtree_of(*v)->entries => jtree_of(*v)->entries[j]));
                assert(decreases_to!(jtree_of(*v)->entries[j] => jtree_of(*v)->entries[j].1));
            }
        }
        let mut out: Vec<(String, JsonVal)> = Vec::new();
        let mut i: usize = 0;
        while i < n
            invariant
                n == entries@.len(),
                i <= n,
                out@.len() == i,
                jtree_of(*v) is Obj,
                n == jtree_of(*v)->entries.len(),
                forall|j: int| 0 <= j < n ==> (#[trigger] entries@[j]).0@ == jtree_of(
                    *v,
                )->entries[j].0 && jtree_of(entries@[j].1) == jtree_of(*v)->entries[j].1,
                forall|j: int, l: int| 0 <= j < l < n ==> (#[trigger] entries@[j]).0@ != (
                #[trigger] entries@[l]).0@,
                forall|j: int| 0 <= j < n ==> decreases_to!(jtree_of(*v) => jtree_of((
                #[trigger] entries@[j]).1)),
                forall|j: int| 0 <= j < i ==> (#[trigger] out@[j]).0@ == jtree_of(
                    *v,
                )->entries[j].0 && out@[j].1.deep() == jtree_of(*v)->entries[j].1 && wf_keys(
                    out@[j].1.deep(),
                ),
            decreases n - i,
        {
            let child = to_tree(&entries[i].1);
            let key = entries[i].0.clone();
            proof {
                assert(key@ == entries@[i as int].0@);
            }
            out.push((key, child));
            i += 1;
        }
        proof {
            lemma_deep_entries(out@);
            assert(deep_entries(out@) =~= jtree_of(*v)->entries);
            assert forall|j: int, l: int|
                0 <= j < l < deep_entries(out@).len() implies (
            #[trigger] deep_entries(out@)[j].0) != (#[trigger] deep_entries(out@)[l].0) by {
                assert(deep_entries(out@)[j].0 == entries@[j].0@);
                assert(deep_entries(out@)[l].0 == entries@[l].0@);
            }
        }
        let t = JsonVal::Obj(out);
        proof {
            assert(t.deep() =~= jtree_of(*v));
        }
        t
    } else {
        proof {
            assert(false);
        }
        JsonVal::Null
    }
}

/// Decodes one JSON document into a plain tree.  `None` exactly when the
/// text is not well-formed JSON; a returned tree is the document's tree
/// and every object in it has distinct keys.
pub fn parse_json(s: &str) -> (r: Option<JsonVal>)
    ensures
        match r {
            Some(t) => json_doc_of(s@) == Some(t.deep()) && wf_keys(t.deep()),
            None => json_doc_of(s@) is None,
        },
{
    match from_str_value(s) {
        Some(v) => Some(to_tree(&v)),
        None => None,
    }
}

} // verus!

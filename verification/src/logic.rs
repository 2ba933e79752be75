//! The rule evaluator: JSON-expressed logic applied to a data context.
use crate::json::{
    entries_map, entries_view, find_key, items_view, last_place, lemma_entries_finite,
    lemma_entries_last_wins, lemma_found, lemma_last_place, Json, JsonValue,
};
use vstd::prelude::*;

verus! {

/// `serde_json::Value`: the form in which the evaluator takes and gives
/// documents.
#[verifier::external_type_specification]
#[verifier::external_body]
pub struct ExValue(serde_json::Value);

/// The document that a `serde_json::Value` holds.
pub uninterp spec fn outside_json(v: serde_json::Value) -> JsonValue;

/// The documents that a list of `serde_json::Value`s holds.
pub open spec fn outside_items(items: Seq<serde_json::Value>) -> Seq<JsonValue> {
    Seq::new(items.len(), |i: int| outside_json(items[i]))
}

/// The entries that a list of keyed `serde_json::Value`s holds.
pub open spec fn outside_entries(entries: Seq<(String, serde_json::Value)>) -> Seq<(Seq<char>, JsonValue)> {
    Seq::new(entries.len(), |i: int| (entries[i].0@, outside_json(entries[i].1)))
}

/// `serde_json::Value::Null`: the null document.
#[verifier::external_body]
fn outside_null() -> (v: serde_json::Value)
    ensures
        outside_json(v) == JsonValue::Null,
{
    serde_json::Value::Null
}

/// `serde_json::Value::Bool`: the document of a boolean.
#[verifier::external_body]
fn outside_bool(b: bool) -> (v: serde_json::Value)
    ensures
        outside_json(v) == JsonValue::Bool(b),
{
    serde_json::Value::Bool(b)
}

/// `serde_json::Value::Number`: the document of a number.
#[verifier::external_body]
fn outside_number(n: serde_json::Number) -> (v: serde_json::Value)
    ensures
        outside_json(v) == JsonValue::Number(n),
{
    serde_json::Value::Number(n)
}

/// `serde_json::Value::String`: the document of a text.
#[verifier::external_body]
fn outside_text(s: String) -> (v: serde_json::Value)
    ensures
        outside_json(v) == JsonValue::Text(s@),
{
    serde_json::Value::String(s)
}

/// `serde_json::Value::Array`: the array of the given documents, in order.
#[verifier::external_body]
fn outside_array(items: Vec<serde_json::Value>) -> (v: serde_json::Value)
    ensures
        outside_json(v) == JsonValue::Array(outside_items(items@)),
{
    serde_json::Value::Array(items)
}

/// `serde_json::Map::insert`, once for each entry in order, into a map made by
/// `serde_json::Map::new`: an insert under a key that the map holds replaces
/// the value, so of two entries with one key the later one stays.
#[verifier::external_body]
fn outside_object(entries: Vec<(String, serde_json::Value)>) -> (v: serde_json::Value)
    ensures
        outside_json(v) == JsonValue::Object(entries_map(outside_entries(entries@))),
{
    let mut map = serde_json::Map::new();
    for (key, value) in entries {
        map.insert(key, value);
    }
    serde_json::Value::Object(map)
}

/// Builds the `serde_json::Value` that holds the document `j`.
fn to_outside(j: &Json) -> (v: serde_json::Value)
    ensures
        outside_json(v) == j@,
    decreases j,
{
    match j {
        Json::Null => outside_null(),
        Json::Bool(b) => outside_bool(*b),
        Json::Number(n) => outside_number(n.clone()),
        Json::Text(s) => outside_text(s.clone()),
        Json::Array(items) => {
            let mut out: Vec<serde_json::Value> = Vec::new();
            let mut i: usize = 0;
            while i < items.len()
                invariant
                    j->Array_0 == *items,
                    j is Array,
                    i <= items.len(),
                    out@.len() == i,
                    forall|k: int| 0 <= k < i ==> outside_json(#[trigger] out@[k]) == items@[k]@,
                decreases items.len() - i,
            {
                out.push(to_outside(&items[i]));
                i = i + 1;
            }
            assert(outside_items(out@) =~= items_view(items@));
            outside_array(out)
        },
        Json::Object(entries) => {
            let mut out: Vec<(String, serde_json::Value)> = Vec::new();
            let mut i: usize = 0;
            while i < entries.len()
                invariant
                    j->Object_0 == *entries,
                    j is Object,
                    i <= entries.len(),
                    out@.len() == i,
                    forall|k: int|
                        0 <= k < i ==> (#[trigger] out@[k]).0@ == entries@[k].0@ && outside_json(
                            out@[k].1,
                        ) == entries@[k].1@,
                decreases entries.len() - i,
            {
                out.push((entries[i].0.clone(), to_outside(&entries[i].1)));
                i = i + 1;
            }
            assert(outside_entries(out@) =~= entries_view(entries@));
            outside_object(out)
        },
    }
}

/// Telling the variants of `serde_json::Value` apart: the document of a null,
/// a boolean, a number or a text, and nothing for an array or an object.
#[verifier::external_body]
fn outside_scalar(v: &serde_json::Value) -> (r: Option<Json>)
    ensures
        match r {
            Some(j) => j@ == outside_json(*v) && !(j@ is Array) && !(j@ is Object),
            None => outside_json(*v) is Array || outside_json(*v) is Object,
        },
{
    match v {
        serde_json::Value::Null => Some(Json::Null),
        serde_json::Value::Bool(b) => Some(Json::Bool(*b)),
        serde_json::Value::Number(n) => Some(Json::Number(n.clone())),
        serde_json::Value::String(s) => Some(Json::Text(s.clone())),
        _ => None,
    }
}

/// Taking the items out of a `serde_json::Value::Array`; any other value is
/// handed back as it came.
#[verifier::external_body]
fn outside_take_items(v: serde_json::Value) -> (r: Result<Vec<serde_json::Value>, serde_json::Value>)
    ensures
        match r {
            Ok(items) => outside_json(v) == JsonValue::Array(outside_items(items@)),
            Err(back) => back == v && !(outside_json(v) is Array),
        },
{
    match v {
        serde_json::Value::Array(items) => Ok(items),
        other => Err(other),
    }
}

/// Taking the entries out of a `serde_json::Value::Object` with
/// `serde_json::Map::into_iter`, which hands out each key of the map once; any
/// other value is handed back as it came.
#[verifier::external_body]
fn outside_take_entries(v: serde_json::Value) -> (r: Result<
    Vec<(String, serde_json::Value)>,
    serde_json::Value,
>)
    ensures
        match r {
            Ok(entries) => outside_json(v) == JsonValue::Object(
                entries_map(outside_entries(entries@)),
            ) && forall|i: int, j: int|
                0 <= i < j < entries.len() ==> (#[trigger] entries@[i]).0@ != (
                #[trigger] entries@[j]).0@,
            Err(back) => back == v && !(outside_json(v) is Object),
        },
{
    match v {
        serde_json::Value::Object(map) => Ok(map.into_iter().collect()),
        other => Err(other),
    }
}

/// Reads the document that a `serde_json::Value` holds.
fn from_outside(v: serde_json::Value) -> (j: Json)
    ensures
        j@ == outside_json(v),
    decreases outside_json(v),
{
    let scalar = outside_scalar(&v);
    if let Some(j) = scalar {
        return j;
    }
    match outside_take_items(v) {
        Ok(mut items) => {
            let ghost all = items@;
            let mut out: Vec<Json> = Vec::new();
            while items.len() > 0
                invariant
                    outside_json(v) == JsonValue::Array(outside_items(all)),
                    items@.len() <= all.len(),
                    items@ == all.subrange(0, items@.len() as int),
                    out@.len() == all.len() - items@.len(),
                    forall|k: int|
                        0 <= k < out@.len() ==> (#[trigger] out@[k])@ == outside_json(
                            all[all.len() - 1 - k],
                        ),
                decreases items.len(),
            {
                let ghost n = items@.len();
                let last = items.pop().unwrap();
                assert(last == all[n - 1]);
                assert(outside_items(all)[n - 1] == outside_json(last));
                assert(decreases_to!(outside_json(v)->Array_0 => outside_json(v)->Array_0[n - 1]));
                out.push(from_outside(last));
                assert(items@ =~= all.subrange(0, items@.len() as int));
            }
            let mut i: usize = 0;
            let mut ordered: Vec<Json> = Vec::new();
            while out.len() > 0
                invariant
                    out@.len() + ordered@.len() == all.len(),
                    forall|k: int|
                        0 <= k < out@.len() ==> (#[trigger] out@[k])@ == outside_json(
                            all[all.len() - 1 - k],
                        ),
                    forall|k: int|
                        0 <= k < ordered@.len() ==> (#[trigger] ordered@[k])@ == outside_json(all[k]),
                decreases out.len(),
            {
                let item = out.pop().unwrap();
                ordered.push(item);
            }
            assert(items_view(ordered@) =~= outside_items(all));
            Json::Array(ordered)
        },
        Err(other) => match outside_take_entries(other) {
            Ok(mut entries) => {
                let ghost all = entries@;
                let mut out: Vec<(String, Json)> = Vec::new();
                while entries.len() > 0
                    invariant
                        outside_json(v) == JsonValue::Object(
                            entries_map(outside_entries(all)),
                        ),
                        forall|i: int, j: int|
                            0 <= i < j < all.len() ==> (#[trigger] all[i]).0@ != (#[trigger] all[j]).0@,
                        entries@.len() <= all.len(),
                        entries@ == all.subrange(0, entries@.len() as int),
                        out@.len() == all.len() - entries@.len(),
                        forall|k: int|
                            0 <= k < out@.len() ==> (#[trigger] out@[k]).0@ == all[all.len() - 1
                                - k].0@ && out@[k].1@ == outside_json(all[all.len() - 1 - k].1),
                    decreases entries.len(),
                {
                    let ghost n = entries@.len();
                    let last = entries.pop().unwrap();
                    assert(last == all[n - 1]);
                    proof {
                        let oe = outside_entries(all);
                        assert forall|j: int| n - 1 < j < oe.len() implies (#[trigger] oe[j]).0
                            != oe[n - 1].0 by {
                            assert(all[n - 1].0@ != all[j].0@);
                        }
                        lemma_entries_last_wins(oe, n - 1);
                        lemma_entries_finite(oe);
                        assert(outside_json(v)->Object_0[oe[n - 1].0] == outside_json(last.1));
                        assert(decreases_to!(outside_json(v)->Object_0 => outside_json(v)->Object_0[oe[n - 1].0]));
                    }
                    let child = from_outside(last.1);
                    out.push((last.0, child));
                    assert(entries@ =~= all.subrange(0, entries@.len() as int));
                }
                let mut ordered: Vec<(String, Json)> = Vec::new();
                while out.len() > 0
                    invariant
                        out@.len() + ordered@.len() == all.len(),
                        forall|k: int|
                            0 <= k < out@.len() ==> (#[trigger] out@[k]).0@ == all[all.len() - 1
                                - k].0@ && out@[k].1@ == outside_json(all[all.len() - 1 - k].1),
                        forall|k: int|
                            0 <= k < ordered@.len() ==> (#[trigger] ordered@[k]).0@ == all[k].0@
                                && ordered@[k].1@ == outside_json(all[k].1),
                    decreases out.len(),
                {
                    let entry = out.pop().unwrap();
                    ordered.push(entry);
                }
                assert(entries_view(ordered@) =~= outside_entries(all));
                Json::Object(ordered)
            },
            Err(_) => Json::Null,
        },
    }
}

/// The operator names that the evaluator is never handed: the arithmetic
/// operators, `substr` and `cat`.
pub open spec fn refused(key: Seq<char>) -> bool {
    key == "+"@ || key == "-"@ || key == "*"@ || key == "/"@ || key == "%"@ || key == "max"@
        || key == "min"@ || key == "substr"@ || key == "cat"@
}

/// True when no object of `v`, at any depth, has a refused key.
pub open spec fn calm(v: JsonValue) -> bool
    decreases v,
{
    match v {
        JsonValue::Array(items) => forall|i: int| 0 <= i < items.len() ==> calm(#[trigger] items[i]),
        JsonValue::Object(fields) => forall|k: Seq<char>| #[trigger]
            fields.contains_key(k) ==> !refused(k) && calm(fields[k]),
        _ => true,
    }
}

/// What the evaluator makes of a rule and a data context: a value, or the text
/// of its error.
pub uninterp spec fn logic_result(rule: JsonValue, data: JsonValue) -> Result<JsonValue, Seq<char>>;

/// The text handed back in place of an evaluation that is refused.
pub open spec fn refusal() -> Seq<char> {
    "Unsupported(\"arithmetic, substr and cat operators are not evaluated\")"@
}

/// What applying `rule` to `context` comes to: the evaluator's result where
/// both are calm, a refusal where they are not.
pub open spec fn evaluation(rule: JsonValue, context: JsonValue) -> Result<JsonValue, Seq<char>> {
    if calm(rule) && calm(context) {
        logic_result(rule, context)
    } else {
        Err(refusal())
    }
}

/// The value of an outcome: the document's value, or the error's text.
pub open spec fn outcome_view(r: Result<Json, String>) -> Result<JsonValue, Seq<char>> {
    match r {
        Ok(j) => Ok(j@),
        Err(e) => Err(e@),
    }
}

/// `datalogic_rs::JsonLogic::apply` on an evaluator made by
/// `datalogic_rs::JsonLogic::new`: the result is a function of the rule and the
/// data alone. An error comes back as its `Debug` text. The evaluator panics
/// where an arithmetic operator comes to a number that is not finite, and
/// where `substr` negates the least integer; and `cat` and `substr` write an
/// object out in the order in which the map holds its entries, which is no
/// part of a document's value. The evaluator reaches an operator only through
/// a key of an object of the rule or of the data, so calm arguments keep it
/// away from all of these.
#[verifier::external_body]
fn outside_apply(rule: &serde_json::Value, data: &serde_json::Value) -> (r: Result<
    serde_json::Value,
    String,
>)
    requires
        calm(outside_json(*rule)),
        calm(outside_json(*data)),
    ensures
        match r {
            Ok(v) => logic_result(outside_json(*rule), outside_json(*data)) == Ok::<
                JsonValue,
                Seq<char>,
            >(outside_json(v)),
            Err(e) => logic_result(outside_json(*rule), outside_json(*data)) == Err::<
                JsonValue,
                Seq<char>,
            >(e@),
        },
{
    match datalogic_rs::JsonLogic::new().apply(rule, data) {
        Ok(v) => Ok(v),
        Err(e) => Err(format!("{:?}", e)),
    }
}

/// True when `key` names an operator that is refused.
fn is_refused(key: &String) -> (r: bool)
    ensures
        r == refused(key@),
{
    *key == String::from_str("+") || *key == String::from_str("-") || *key == String::from_str("*")
        || *key == String::from_str("/") || *key == String::from_str("%") || *key
        == String::from_str("max") || *key == String::from_str("min") || *key == String::from_str(
        "substr",
    ) || *key == String::from_str("cat")
}

/// True when the document is calm.
pub fn is_calm(j: &Json) -> (r: bool)
    ensures
        r == calm(j@),
    decreases j,
{
    match j {
        Json::Array(items) => {
            let mut i: usize = 0;
            while i < items.len()
                invariant
                    j is Array,
                    j->Array_0 == *items,
                    i <= items.len(),
                    forall|k: int| 0 <= k < i ==> calm(#[trigger] items_view(items@)[k]),
                decreases items.len() - i,
            {
                if !is_calm(&items[i]) {
                    assert(!calm(j@)) by {
                        assert(j@ == JsonValue::Array(items_view(items@)));
                        assert(items_view(items@)[i as int] == items@[i as int]@);
                        if calm(j@) {
                            assert(calm(j@->Array_0[i as int]));
                        }
                    }
                    return false;
                }
                i = i + 1;
            }
            assert(j@ == JsonValue::Array(items_view(items@)));
            true
        },
        Json::Object(entries) => {
            let ghost ev = entries_view(entries@);
            let mut i: usize = 0;
            while i < entries.len()
                invariant
                    j is Object,
                    j->Object_0 == *entries,
                    ev == entries_view(entries@),
                    i <= entries.len(),
                    forall|k: int|
                        0 <= k < i && k == last_place(ev, (#[trigger] ev[k]).0) ==> !refused(ev[k].0)
                            && calm(ev[k].1),
                decreases entries.len() - i,
            {
                let found = find_key(entries, &entries[i].0);
                proof {
                    lemma_found(entries@, entries@[i as int].0@, found);
                    lemma_last_place(ev, ev[i as int].0);
                }
                if found == Some(i) {
                    assert(entries_map(ev)[ev[i as int].0] == ev[i as int].1);
                    if is_refused(&entries[i].0) || !is_calm(&entries[i].1) {
                        assert(!calm(j@)) by {
                            assert(j@ == JsonValue::Object(entries_map(ev)));
                            assert(ev[i as int] == (entries@[i as int].0@, entries@[i as int].1@));
                            assert(entries_map(ev).contains_key(ev[i as int].0));
                            if calm(j@) {
                                assert(j@->Object_0.contains_key(ev[i as int].0));
                                assert(calm(j@->Object_0[ev[i as int].0]));
                            }
                        }
                        return false;
                    }
                } else {
                    assert(last_place(ev, ev[i as int].0) != i) by {
                        let f = found->0 as int;
                        assert(entries_map(ev)[ev[i as int].0] == ev[f].1);
                        if last_place(ev, ev[i as int].0) == i {
                            lemma_last_place_is_last(ev, ev[i as int].0, f);
                        }
                    }
                }
                i = i + 1;
            }
            assert forall|k: Seq<char>| #[trigger] entries_map(ev).contains_key(k) implies !refused(k)
                && calm(entries_map(ev)[k]) by {
                lemma_last_place(ev, k);
                let at = last_place(ev, k);
                assert(ev[at].0 == k);
            }
            assert(j@ == JsonValue::Object(entries_map(ev)));
            true
        },
        _ => true,
    }
}

/// No entry after the last place of a key has that key.
proof fn lemma_last_place_is_last(entries: Seq<(Seq<char>, JsonValue)>, key: Seq<char>, at: int)
    requires
        0 <= at < entries.len(),
        entries[at].0 == key,
    ensures
        at <= last_place(entries, key),
    decreases entries.len(),
{
    if entries.last().0 != key {
        assert(at < entries.len() - 1);
        assert(entries.drop_last()[at] == entries[at]);
        lemma_last_place_is_last(entries.drop_last(), key, at);
    }
}

/// Applies `rule` to the data `context`.
///
/// Literals evaluate to themselves, an operator is an object with one key, and
/// `{"var": path}` reads from the context. The result is the evaluator's, as a
/// value or as the text of its error, for every calm rule and context; a rule
/// or a context that is not calm is refused.
pub fn apply(rule: &Json, context: &Json) -> (r: Result<Json, String>)
    ensures
        outcome_view(r) == evaluation(rule@, context@),
{
    if !is_calm(rule) || !is_calm(context) {
        return Err(
            String::from_str(
                "Unsupported(\"arithmetic, substr and cat operators are not evaluated\")",
            ),
        );
    }
    let outside_rule = to_outside(rule);
    let outside_data = to_outside(context);
    match outside_apply(&outside_rule, &outside_data) {
        Ok(v) => Ok(from_outside(v)),
        Err(e) => Err(e),
    }
}

} // verus!

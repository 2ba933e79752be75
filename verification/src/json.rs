//! Structured documents: the tree-shaped values that a message carries as its
//! data, its metadata and the context of its rules.
//!
//! A document is held as a [`Json`] tree. What a contract says about a document
//! it says about its mathematical value, a [`JsonValue`], in which an object is a
//! finite map from keys to values.
use vstd::prelude::*;

verus! {

/// `serde_json::Number`: a JSON number, carried from the parser to the
/// evaluator and back without a look inside.
#[verifier::external_type_specification]
#[verifier::external_body]
pub struct ExNumber(serde_json::Number);

/// `Clone::clone` of `serde_json::Number`: the copy is the same number.
pub assume_specification[ <serde_json::Number as Clone>::clone ](n: &serde_json::Number) -> (r:
    serde_json::Number)
    ensures
        r == *n,
;

/// A JSON document.
///
/// An object is a list of entries. Where a key occurs more than once the last
/// entry counts, as it does when the entries are inserted one by one into a map.
#[derive(Debug, PartialEq)]
pub enum Json {
    Null,
    Bool(bool),
    /// A number, carried as the parser made it.
    Number(serde_json::Number),
    Text(String),
    Array(Vec<Json>),
    Object(Vec<(String, Json)>),
}

/// The mathematical value of a [`Json`] document.
#[verifier::ext_equal]
pub ghost enum JsonValue {
    Null,
    Bool(bool),
    Number(serde_json::Number),
    Text(Seq<char>),
    Array(Seq<JsonValue>),
    Object(Map<Seq<char>, JsonValue>),
}

/// The map that a list of entries stands for: the entries inserted in order, so
/// that of two entries with one key the later one stays.
pub open spec fn entries_map(entries: Seq<(Seq<char>, JsonValue)>) -> Map<Seq<char>, JsonValue>
    decreases entries.len(),
{
    if entries.len() == 0 {
        Map::empty()
    } else {
        entries_map(entries.drop_last()).insert(entries.last().0, entries.last().1)
    }
}

/// The entries of an object, each taken by its value.
pub open spec fn entries_view(entries: Seq<(String, Json)>) -> Seq<(Seq<char>, JsonValue)>
    decreases entries,
{
    Seq::new(
        entries.len(),
        |i: int|
            if 0 <= i < entries.len() {
                (entries[i].0@, entries[i].1.view())
            } else {
                (Seq::empty(), JsonValue::Null)
            },
    )
}

/// The items of an array, each taken by its value.
pub open spec fn items_view(items: Seq<Json>) -> Seq<JsonValue>
    decreases items,
{
    Seq::new(
        items.len(),
        |i: int|
            if 0 <= i < items.len() {
                items[i].view()
            } else {
                JsonValue::Null
            },
    )
}

impl View for Json {
    type V = JsonValue;

    open spec fn view(&self) -> JsonValue
        decreases self,
    {
        match self {
            Json::Null => JsonValue::Null,
            Json::Bool(b) => JsonValue::Bool(*b),
            Json::Number(n) => JsonValue::Number(*n),
            Json::Text(s) => JsonValue::Text(s@),
            Json::Array(items) => JsonValue::Array(items_view(items@)),
            Json::Object(entries) => JsonValue::Object(entries_map(entries_view(entries@))),
        }
    }
}


impl JsonValue {
    /// The fields of an object; no fields where the value is not an object.
    pub open spec fn fields(self) -> Map<Seq<char>, JsonValue> {
        if self is Object {
            self->Object_0
        } else {
            Map::empty()
        }
    }

    /// The value under `key`: null where the value is not an object or has no
    /// such key.
    pub open spec fn member(self, key: Seq<char>) -> JsonValue {
        if self.fields().contains_key(key) {
            self.fields()[key]
        } else {
            JsonValue::Null
        }
    }

    /// The value found by following `path` key by key.
    pub open spec fn at(self, path: Seq<Seq<char>>) -> JsonValue
        decreases path.len(),
    {
        if path.len() == 0 {
            self
        } else {
            self.member(path[0]).at(path.skip(1))
        }
    }

    /// True when every key of `path` is found, each in an object.
    pub open spec fn has(self, path: Seq<Seq<char>>) -> bool
        decreases path.len(),
    {
        path.len() == 0 || (self is Object && self.fields().contains_key(path[0])
            && self.fields()[path[0]].has(path.skip(1)))
    }

    /// The value with `value` written at `path`. Every node on the way that is
    /// not an object is replaced by an object that holds the next key alone.
    pub open spec fn with(self, path: Seq<Seq<char>>, value: JsonValue) -> JsonValue
        decreases path.len(),
    {
        if path.len() == 0 {
            value
        } else {
            JsonValue::Object(
                self.fields().insert(path[0], self.member(path[0]).with(path.skip(1), value)),
            )
        }
    }

    /// The value with `former` put back at `path`, as far as the way to it still
    /// stands: where a node on the way is not an object, or a key before the
    /// last is missing, nothing changes.
    pub open spec fn restored(self, path: Seq<Seq<char>>, former: JsonValue) -> JsonValue
        decreases path.len(),
    {
        if path.len() == 0 {
            former
        } else if !(self is Object) {
            self
        } else if path.len() == 1 || self.fields().contains_key(path[0]) {
            JsonValue::Object(
                self.fields().insert(path[0], self.member(path[0]).restored(path.skip(1), former)),
            )
        } else {
            self
        }
    }
}

/// Writing at a path that was there, then putting back what stood there, gives
/// the value that one started from.
pub proof fn lemma_restore_undoes_write(node: JsonValue, path: Seq<Seq<char>>, value: JsonValue)
    requires
        node.has(path),
    ensures
        node.with(path, value).restored(path, node.at(path)) == node,
    decreases path.len(),
{
    if path.len() > 0 {
        let key = path[0];
        let child = node.fields()[key];
        lemma_restore_undoes_write(child, path.skip(1), value);
        let written = node.with(path, value);
        assert(written.fields() == node.fields().insert(key, child.with(path.skip(1), value)));
        assert(written.member(key) == child.with(path.skip(1), value));
        assert(written.restored(path, node.at(path)).fields() =~= node.fields());
        assert(written.restored(path, node.at(path)) =~= node);
    }
}

// ---------------------------------------------------------------------------
// What the list of entries says of the map it stands for.
// ---------------------------------------------------------------------------
/// True when some entry has the key `key`.
pub open spec fn has_key(entries: Seq<(Seq<char>, JsonValue)>, key: Seq<char>) -> bool {
    exists|i: int| 0 <= i < entries.len() && (#[trigger] entries[i]).0 == key
}

/// An entry that is pushed is inserted.
pub proof fn lemma_entries_push(entries: Seq<(Seq<char>, JsonValue)>, entry: (Seq<char>, JsonValue))
    ensures
        entries_map(entries.push(entry)) == entries_map(entries).insert(entry.0, entry.1),
{
    assert(entries.push(entry).drop_last() =~= entries);
}

/// The map of a list of entries has finitely many keys.
pub proof fn lemma_entries_finite(entries: Seq<(Seq<char>, JsonValue)>)
    ensures
        entries_map(entries).dom().finite(),
    decreases entries.len(),
{
    if entries.len() > 0 {
        lemma_entries_finite(entries.drop_last());
    }
}

/// The place of the last entry with the key `key`, or -1 where there is none.
pub open spec fn last_place(entries: Seq<(Seq<char>, JsonValue)>, key: Seq<char>) -> int
    decreases entries.len(),
{
    if entries.len() == 0 {
        -1
    } else if entries.last().0 == key {
        entries.len() - 1
    } else {
        last_place(entries.drop_last(), key)
    }
}

/// A key of the map stands in a last entry, whose value the map holds.
pub proof fn lemma_last_place(entries: Seq<(Seq<char>, JsonValue)>, key: Seq<char>)
    requires
        entries_map(entries).contains_key(key),
    ensures
        0 <= last_place(entries, key) < entries.len(),
        entries[last_place(entries, key)].0 == key,
        entries_map(entries)[key] == entries[last_place(entries, key)].1,
    decreases entries.len(),
{
    if entries.len() > 0 && entries.last().0 != key {
        lemma_last_place(entries.drop_last(), key);
    }
}

/// The map holds exactly the keys of the entries.
pub proof fn lemma_entries_keys(entries: Seq<(Seq<char>, JsonValue)>, key: Seq<char>)
    ensures
        entries_map(entries).contains_key(key) <==> has_key(entries, key),
    decreases entries.len(),
{
    if entries.len() > 0 {
        lemma_entries_keys(entries.drop_last(), key);
        if has_key(entries, key) {
            let i = choose|i: int| 0 <= i < entries.len() && (#[trigger] entries[i]).0 == key;
            if i < entries.len() - 1 {
                assert(entries.drop_last()[i] == entries[i]);
            }
        }
        if has_key(entries.drop_last(), key) {
            let i = choose|i: int|
                0 <= i < entries.drop_last().len() && (#[trigger] entries.drop_last()[i]).0 == key;
            assert(entries[i] == entries.drop_last()[i]);
        }
        if entries.last().0 == key {
            assert(entries[entries.len() - 1].0 == key);
        }
    }
}

/// Under a key the map holds the value of the last entry with that key.
pub proof fn lemma_entries_last_wins(entries: Seq<(Seq<char>, JsonValue)>, at: int)
    requires
        0 <= at < entries.len(),
        forall|j: int| at < j < entries.len() ==> (#[trigger] entries[j]).0 != entries[at].0,
    ensures
        entries_map(entries).contains_key(entries[at].0),
        entries_map(entries)[entries[at].0] == entries[at].1,
    decreases entries.len(),
{
    if at < entries.len() - 1 {
        assert(entries[entries.len() - 1].0 != entries[at].0);
        let front = entries.drop_last();
        assert(front[at] == entries[at]);
        assert forall|j: int| at < j < front.len() implies (#[trigger] front[j]).0 != front[at].0 by {
            assert(front[j] == entries[j]);
        }
        lemma_entries_last_wins(front, at);
    }
}

/// Replacing the value of the last entry with a key is an insert under that key.
pub proof fn lemma_entries_update(
    entries: Seq<(Seq<char>, JsonValue)>,
    at: int,
    value: JsonValue,
)
    requires
        0 <= at < entries.len(),
        forall|j: int| at < j < entries.len() ==> (#[trigger] entries[j]).0 != entries[at].0,
    ensures
        entries_map(entries.update(at, (entries[at].0, value))) == entries_map(entries).insert(
            entries[at].0,
            value,
        ),
    decreases entries.len(),
{
    let key = entries[at].0;
    let changed = entries.update(at, (key, value));
    if at == entries.len() - 1 {
        assert(changed.drop_last() =~= entries.drop_last());
        assert(entries_map(changed) =~= entries_map(entries).insert(key, value));
    } else {
        let front = entries.drop_last();
        assert(front[at] == entries[at]);
        assert forall|j: int| at < j < front.len() implies (#[trigger] front[j]).0 != front[at].0 by {
            assert(front[j] == entries[j]);
        }
        lemma_entries_update(front, at, value);
        assert(changed.drop_last() =~= front.update(at, (key, value)));
        assert(changed.last() == entries.last());
        assert(entries[entries.len() - 1].0 != key);
        assert(entries_map(changed) =~= entries_map(entries).insert(key, value));
    }
}


/// The keys of a path, each taken as a sequence of characters.
pub open spec fn keys_view(path: Seq<String>) -> Seq<Seq<char>> {
    Seq::new(path.len(), |i: int| path[i]@)
}

/// The place of the last entry with the key `key`, if there is one.
pub(crate) fn find_key(entries: &Vec<(String, Json)>, key: &String) -> (r: Option<usize>)
    ensures
        match r {
            Some(i) => i < entries.len() && entries@[i as int].0@ == key@ && forall|j: int|
                i < j < entries.len() ==> (#[trigger] entries@[j]).0@ != key@,
            None => forall|j: int| 0 <= j < entries.len() ==> (#[trigger] entries@[j]).0@ != key@,
        },
{
    let mut i: usize = entries.len();
    while i > 0
        invariant
            i <= entries.len(),
            forall|j: int| i <= j < entries.len() ==> (#[trigger] entries@[j]).0@ != key@,
        decreases i,
    {
        i = i - 1;
        if entries[i].0 == *key {
            return Some(i);
        }
    }
    None
}

/// What [`find_key`] found, said of the map: the key is in the map exactly when
/// an entry was found, and the map holds that entry's value.
pub(crate) proof fn lemma_found(entries: Seq<(String, Json)>, key: Seq<char>, found: Option<usize>)
    requires
        match found {
            Some(i) => i < entries.len() && entries[i as int].0@ == key && forall|j: int|
                i < j < entries.len() ==> (#[trigger] entries[j]).0@ != key,
            None => forall|j: int| 0 <= j < entries.len() ==> (#[trigger] entries[j]).0@ != key,
        },
    ensures
        entries_map(entries_view(entries)).contains_key(key) <==> found is Some,
        found matches Some(i) ==> entries_map(entries_view(entries))[key] == entries[i as int].1@,
{
    let ev = entries_view(entries);
    lemma_entries_keys(ev, key);
    match found {
        Some(i) => {
            assert(ev[i as int].0 == key);
            assert forall|j: int| i < j < ev.len() implies (#[trigger] ev[j]).0 != ev[i as int].0 by {
                assert(entries[j].0@ != key);
            }
            lemma_entries_last_wins(ev, i as int);
        },
        None => {
            if has_key(ev, key) {
                let j = choose|j: int| 0 <= j < ev.len() && (#[trigger] ev[j]).0 == key;
                assert(entries[j].0@ != key);
            }
        },
    }
}

/// Replacing the value of the entry that [`find_key`] found is an insert.
proof fn lemma_replaced(entries: Seq<(String, Json)>, at: int, key: String, value: Json)
    requires
        0 <= at < entries.len(),
        entries[at].0@ == key@,
        forall|j: int| at < j < entries.len() ==> (#[trigger] entries[j]).0@ != key@,
    ensures
        entries_map(entries_view(entries.update(at, (key, value)))) == entries_map(
            entries_view(entries),
        ).insert(key@, value@),
{
    let ev = entries_view(entries);
    assert forall|j: int| at < j < ev.len() implies (#[trigger] ev[j]).0 != ev[at].0 by {
        assert(entries[j].0@ != key@);
    }
    lemma_entries_update(ev, at, value@);
    assert(entries_view(entries.update(at, (key, value))) =~= ev.update(at, (key@, value@)));
}

/// Pushing an entry is an insert.
proof fn lemma_pushed(entries: Seq<(String, Json)>, key: String, value: Json)
    ensures
        entries_map(entries_view(entries.push((key, value)))) == entries_map(
            entries_view(entries),
        ).insert(key@, value@),
{
    lemma_entries_push(entries_view(entries), (key@, value@));
    assert(entries_view(entries.push((key, value))) =~= entries_view(entries).push(
        (key@, value@),
    ));
}

impl Json {
    /// True for the null document.
    pub fn is_null(&self) -> (r: bool)
        ensures
            r == (self@ is Null),
    {
        match self {
            Json::Null => true,
            _ => false,
        }
    }

    /// True for an object.
    pub fn is_object(&self) -> (r: bool)
        ensures
            r == (self@ is Object),
    {
        match self {
            Json::Object(_) => true,
            _ => false,
        }
    }

    /// The boolean that the document is, if it is one.
    pub fn as_bool(&self) -> (r: Option<bool>)
        ensures
            r == (if self@ is Bool {
                Some(self@->Bool_0)
            } else {
                None
            }),
    {
        match self {
            Json::Bool(b) => Some(*b),
            _ => None,
        }
    }

    /// The document under `key`, if this is an object that has the key.
    pub fn get(&self, key: &String) -> (r: Option<&Json>)
        ensures
            r is Some <==> self@.fields().contains_key(key@),
            r matches Some(found) ==> found@ == self@.member(key@),
    {
        match self {
            Json::Object(entries) => {
                let found = find_key(entries, key);
                proof {
                    lemma_found(entries@, key@, found);
                }
                match found {
                    Some(i) => Some(&entries[i].1),
                    None => None,
                }
            },
            _ => None,
        }
    }

    /// A copy of the document, with the same value.
    pub fn duplicate(&self) -> (r: Json)
        ensures
            r@ == self@,
        decreases self,
    {
        match self {
            Json::Null => Json::Null,
            Json::Bool(b) => Json::Bool(*b),
            Json::Number(n) => Json::Number(n.clone()),
            Json::Text(s) => Json::Text(s.clone()),
            Json::Array(items) => {
                let mut out: Vec<Json> = Vec::new();
                let mut i: usize = 0;
                while i < items.len()
                    invariant
                        self is Array,
                        self->Array_0 == *items,
                        i <= items.len(),
                        out@.len() == i,
                        forall|k: int| 0 <= k < i ==> (#[trigger] out@[k])@ == items@[k]@,
                    decreases items.len() - i,
                {
                    out.push(items[i].duplicate());
                    i = i + 1;
                }
                assert(items_view(out@) =~= items_view(items@));
                Json::Array(out)
            },
            Json::Object(entries) => {
                let mut out: Vec<(String, Json)> = Vec::new();
                let mut i: usize = 0;
                while i < entries.len()
                    invariant
                        self is Object,
                        self->Object_0 == *entries,
                        i <= entries.len(),
                        out@.len() == i,
                        forall|k: int|
                            0 <= k < i ==> (#[trigger] out@[k]).0@ == entries@[k].0@
                                && out@[k].1@ == entries@[k].1@,
                    decreases entries.len() - i,
                {
                    out.push((entries[i].0.clone(), entries[i].1.duplicate()));
                    i = i + 1;
                }
                assert(entries_view(out@) =~= entries_view(entries@));
                Json::Object(out)
            },
        }
    }

    /// Writes `value` at the keys of `path` from place `from` on, and hands back
    /// the changed document and what stood at that place before. A node on the
    /// way that is not an object is replaced by a fresh object.
    pub fn write(self, path: &Vec<String>, from: usize, value: Json) -> (r: (Json, Json))
        requires
            from <= path.len(),
        ensures
            r.0@ == self@.with(keys_view(path@).skip(from as int), value@),
            r.1@ == self@.at(keys_view(path@).skip(from as int)),
        decreases path.len() - from,
    {
        let ghost rest = keys_view(path@).skip(from as int);
        if from == path.len() {
            return (value, self);
        }
        assert(rest[0] == path@[from as int]@);
        assert(rest.skip(1) =~= keys_view(path@).skip(from + 1));
        let key = &path[from];
        let mut entries: Vec<(String, Json)> = match self {
            Json::Object(entries) => entries,
            _ => Vec::new(),
        };
        let ghost before = entries@;
        assert(entries_map(entries_view(before)) == self@.fields());
        let found = find_key(&entries, key);
        proof {
            lemma_found(before, key@, found);
        }
        match found {
            Some(i) => {
                let entry = entries.remove(i);
                let (child, former) = entry.1.write(path, from + 1, value);
                proof {
                    lemma_replaced(before, i as int, entry.0, child);
                }
                entries.insert(i, (entry.0, child));
                assert(entries@ =~= before.update(i as int, (entry.0, child)));
                (Json::Object(entries), former)
            },
            None => {
                let (child, former) = Json::Null.write(path, from + 1, value);
                let owned = key.clone();
                proof {
                    lemma_pushed(before, owned, child);
                }
                entries.push((owned, child));
                (Json::Object(entries), former)
            },
        }
    }

    /// Puts `former` back at the keys of `path` from place `from` on, as far as
    /// the way to it still stands.
    pub fn restore(self, path: &Vec<String>, from: usize, former: Json) -> (r: Json)
        requires
            from <= path.len(),
        ensures
            r@ == self@.restored(keys_view(path@).skip(from as int), former@),
        decreases path.len() - from,
    {
        let ghost rest = keys_view(path@).skip(from as int);
        if from == path.len() {
            return former;
        }
        assert(rest[0] == path@[from as int]@);
        assert(rest.skip(1) =~= keys_view(path@).skip(from + 1));
        let key = &path[from];
        match self {
            Json::Object(mut entries) => {
                let ghost before = entries@;
                assert(self@.fields() == entries_map(entries_view(before)));
                assert(rest.len() == path.len() - from);
                let found = find_key(&entries, key);
                proof {
                    lemma_found(before, key@, found);
                }
                match found {
                    Some(i) => {
                        let entry = entries.remove(i);
                        let child = entry.1.restore(path, from + 1, former);
                        proof {
                            lemma_replaced(before, i as int, entry.0, child);
                        }
                        entries.insert(i, (entry.0, child));
                        assert(entries@ =~= before.update(i as int, (entry.0, child)));
                        Json::Object(entries)
                    },
                    None => {
                        if from + 1 == path.len() {
                            let owned = key.clone();
                            proof {
                                lemma_pushed(before, owned, former);
                                assert(JsonValue::Null.restored(rest.skip(1), former@) == former@);
                            }
                            entries.push((owned, former));
                        }
                        Json::Object(entries)
                    },
                }
            },
            other => other,
        }
    }
}

impl Clone for Json {
    fn clone(&self) -> (r: Json)
        ensures
            r@ == self@,
    {
        self.duplicate()
    }
}

} // verus!

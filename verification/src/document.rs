//! JSON documents as `serde_json` reads and prints them.

use crate::json;
use crate::json::{Json, JsonTree};
use crate::order;
use crate::order::ordered_positions;
use crate::text;
use serde_json::Value;
use vstd::prelude::*;

verus! {

/// `serde_json::Value`, a parsed JSON document or a part of one.
#[verifier::external_type_specification]
#[verifier::external_body]
pub struct ExValue(serde_json::Value);

/// `serde_json::Error`, the reason for which a value cannot be printed.
#[verifier::external_type_specification]
#[verifier::external_body]
pub struct ExError(serde_json::Error);

/// What a `serde_json::Value` holds: its members and elements down to the leaves, an integer
/// as such, any other number by the text that `serde_json` prints for it.
pub uninterp spec fn value_tree(value: serde_json::Value) -> JsonTree;

/// The document that `serde_json::from_str` reads from a text, or the words of the error for
/// which it reads none.
pub uninterp spec fn parsed_json(text: Seq<char>) -> Result<JsonTree, Seq<char>>;

/// The text that `serde_json::to_string` prints for a value.
pub uninterp spec fn compact_json(tree: JsonTree) -> Seq<char>;

/// How a value without members, elements and quotes is printed.
pub open spec fn leaf_text(tree: JsonTree) -> Option<Seq<char>> {
    match tree {
        JsonTree::Null => Some("null"@),
        JsonTree::Bool(true) => Some("true"@),
        JsonTree::Bool(false) => Some("false"@),
        JsonTree::Int(i) => Some(text::decimal_int(i)),
        JsonTree::Float(s) => Some(s),
        _ => None,
    }
}

/// The value holds no `Float`, and its arrays and objects are nested at most so deep.
pub open spec fn nested_within(tree: JsonTree, depth: nat) -> bool
    decreases depth,
{
    match tree {
        JsonTree::Float(_) => false,
        JsonTree::Array(items) => depth > 0 && forall|i: int|
            0 <= i < items.len() ==> nested_within(#[trigger] items[i], (depth - 1) as nat),
        JsonTree::Object(members) => depth > 0 && forall|name: Seq<char>| #[trigger]
            members.contains_key(name) ==> nested_within(members[name], (depth - 1) as nat),
        _ => true,
    }
}

/// What is printed for the value is read back as the value: it holds no `Float`, which may come
/// back as a neighbouring number, and is nested no deeper than a text may be.
pub open spec fn restorable(tree: JsonTree) -> bool {
    nested_within(tree, 127)
}

/// What the values of a `serde_json` array hold, one by one.
pub open spec fn value_trees(values: Seq<Value>) -> Seq<JsonTree> {
    Seq::new(values.len(), |i: int| value_tree(values[i]))
}

/// The members of an object are these, with no name twice.
pub open spec fn lists(
    names: Seq<Seq<char>>,
    trees: Seq<JsonTree>,
    members: Map<Seq<char>, JsonTree>,
) -> bool {
    &&& names.len() == trees.len()
    &&& names.no_duplicates()
    &&& forall|i: int|
        0 <= i < names.len() ==> members.contains_key(#[trigger] names[i]) && members[names[i]]
            == trees[i]
    &&& forall|name: Seq<char>| #[trigger] members.contains_key(name) ==> names.contains(name)
}

/// One level of a `serde_json::Value`.
enum Level<'a> {
    Null,
    Bool(bool),
    Number,
    Text(&'a String),
    Array(&'a Vec<Value>),
    Object(Vec<(&'a String, &'a Value)>),
}

/// The names of entries that are handed out by reference.
spec fn level_names(entries: Seq<(&String, &Value)>) -> Seq<Seq<char>> {
    Seq::new(entries.len(), |i: int| entries[i].0@)
}

/// The values of entries that are handed out by reference.
spec fn level_trees(entries: Seq<(&String, &Value)>) -> Seq<JsonTree> {
    Seq::new(entries.len(), |i: int| value_tree(*entries[i].1))
}

/// A number that `serde_json` holds: an integer of 64 bits, or a `Float` with its printed text.
spec fn is_number(tree: JsonTree) -> bool {
    match tree {
        JsonTree::Int(i) => i64::MIN <= i <= u64::MAX,
        JsonTree::Float(text) => text.len() > 0,
        _ => false,
    }
}

/// Tells the variants of `serde_json::Value` apart and hands out what each holds. A number is
/// an integer from `i64::MIN` to `u64::MAX` or a `Float`, for which something is printed. The
/// entries of an object come from `serde_json::Map::iter`, each name once.
#[verifier::external_body]
fn level(value: &Value) -> (r: Level<'_>)
    ensures
        match r {
            Level::Null => value_tree(*value) == JsonTree::Null,
            Level::Bool(b) => value_tree(*value) == JsonTree::Bool(b),
            Level::Number => is_number(value_tree(*value)),
            Level::Text(s) => value_tree(*value) == JsonTree::Text(s@),
            Level::Array(items) => value_tree(*value) == JsonTree::Array(value_trees(items@)),
            Level::Object(entries) => value_tree(*value) is Object && lists(
                level_names(entries@),
                level_trees(entries@),
                value_tree(*value)->Object_0,
            ),
        },
{
    match value {
        Value::Null => Level::Null,
        Value::Bool(b) => Level::Bool(*b),
        Value::Number(_) => Level::Number,
        Value::String(s) => Level::Text(s),
        Value::Array(items) => Level::Array(items),
        Value::Object(map) => Level::Object(map.iter().collect()),
    }
}

/// `serde_json::Value::as_u64`: the number, where it is an integer that `u64` holds.
#[verifier::external_body]
fn value_as_u64(value: &Value) -> (r: Option<u64>)
    ensures
        r == value_tree(*value).unsigned(),
{
    value.as_u64()
}

/// `serde_json::Value::as_i64`: the number, where it is an integer that `i64` holds.
#[verifier::external_body]
fn value_as_i64(value: &Value) -> (r: Option<i64>)
    ensures
        r == match value_tree(*value) {
            JsonTree::Int(i) if i64::MIN <= i <= i64::MAX => Some(i as i64),
            _ => None,
        },
{
    value.as_i64()
}

/// The clone of a `serde_json::Value` holds the same.
#[verifier::external_body]
fn clone_value(value: &Value) -> (r: Value)
    ensures
        value_tree(r) == value_tree(*value),
{
    value.clone()
}

/// `serde_json::from_str`, which reads a whole text as one JSON document. Whether it reads one,
/// which, and what the error's own `to_string` says where it reads none, depends on the text alone.
#[verifier::external_body]
fn parse_value(text: &str) -> (r: Result<Value, String>)
    ensures
        match r {
            Ok(value) => parsed_json(text@) is Ok && parsed_json(text@)->Ok_0 == value_tree(value),
            Err(reason) => parsed_json(text@) is Err && parsed_json(text@)->Err_0 == reason@,
        },
{
    match serde_json::from_str(text) {
        Ok(value) => Ok(value),
        Err(error) => Err(error.to_string()),
    }
}

/// `serde_json::to_string` on a `serde_json::Value`. It does not fail: every name is a string,
/// and the text is written to memory. The text depends on what the value holds alone, since
/// the entries of an object are printed in the order of their names. Null and the truth values
/// are printed as these words, an integer in decimal notation, any other number as its own
/// `to_string` prints it. `serde_json::from_str` reads the text back as the value, unless the
/// value holds a `Float` or nests deeper than the parser's limit, which allows 127 levels.
#[verifier::external_body]
fn print_value(value: &Value) -> (r: Result<String, serde_json::Error>)
    ensures
        r is Ok,
        r->Ok_0@ == compact_json(value_tree(*value)),
        leaf_text(value_tree(*value)) is Some ==> leaf_text(value_tree(*value)) == Some(r->Ok_0@),
        restorable(value_tree(*value)) ==> parsed_json(r->Ok_0@) is Ok && parsed_json(
            r->Ok_0@,
        )->Ok_0 == value_tree(*value),
{
    serde_json::to_string(value)
}

/// What a `serde_json::Value` is put together from.
enum Parts {
    Null,
    Bool(bool),
    Unsigned(u64),
    Signed(i64),
    Text(String),
    Array(Vec<Value>),
    Object(Vec<(String, Value)>),
}

/// The names of entries that are handed over.
spec fn part_names(entries: Seq<(String, Value)>) -> Seq<Seq<char>> {
    Seq::new(entries.len(), |i: int| entries[i].0@)
}

/// The values of entries that are handed over.
spec fn part_trees(entries: Seq<(String, Value)>) -> Seq<JsonTree> {
    Seq::new(entries.len(), |i: int| value_tree(entries[i].1))
}

/// The variants of `serde_json::Value`, its `From<u64>` and `From<i64>` for integers, and
/// `serde_json::Map`'s `FromIterator` for the entries of an object, no two of one name.
#[verifier::external_body]
fn assemble(parts: Parts) -> (r: Value)
    requires
        parts matches Parts::Object(entries) ==> part_names(entries@).no_duplicates(),
    ensures
        match parts {
            Parts::Null => value_tree(r) == JsonTree::Null,
            Parts::Bool(b) => value_tree(r) == JsonTree::Bool(b),
            Parts::Unsigned(n) => value_tree(r) == JsonTree::Int(n as int),
            Parts::Signed(n) => value_tree(r) == JsonTree::Int(n as int),
            Parts::Text(s) => value_tree(r) == JsonTree::Text(s@),
            Parts::Array(items) => value_tree(r) == JsonTree::Array(value_trees(items@)),
            Parts::Object(entries) => value_tree(r) is Object && lists(
                part_names(entries@),
                part_trees(entries@),
                value_tree(r)->Object_0,
            ),
        },
{
    match parts {
        Parts::Null => Value::Null,
        Parts::Bool(b) => Value::Bool(b),
        Parts::Unsigned(n) => Value::from(n),
        Parts::Signed(n) => Value::from(n),
        Parts::Text(s) => Value::String(s),
        Parts::Array(items) => Value::Array(items),
        Parts::Object(entries) => Value::Object(entries.into_iter().collect()),
    }
}

/// A number that is no integer of 64 bits, as `serde_json` read it.
pub struct Float {
    text: String,
    value: Value,
}

impl Float {
    #[verifier::type_invariant]
    spec fn well_formed(self) -> bool {
        value_tree(self.value) == JsonTree::Float(self.text@) && self.text@.len() > 0
    }

    /// The number as it is printed, which is never nothing.
    pub fn text(&self) -> (r: &str)
        ensures
            r@ == self@,
            r@.len() > 0,
    {
        proof {
            use_type_invariant(self);
        }
        self.text.as_str()
    }

    /// The number as `serde_json` holds it.
    fn value(&self) -> (r: Value)
        ensures
            value_tree(r) == JsonTree::Float(self@),
    {
        proof {
            use_type_invariant(self);
        }
        clone_value(&self.value)
    }
}

impl View for Float {
    type V = Seq<char>;

    closed spec fn view(&self) -> Seq<char> {
        self.text@
    }
}

/// A number out of a `serde_json::Value`.
fn read_number(value: &Value) -> (r: Json)
    requires
        is_number(value_tree(*value)),
    ensures
        r@ == value_tree(*value),
{
    if let Some(n) = value_as_u64(value) {
        return Json::Unsigned(n);
    }
    if let Some(n) = value_as_i64(value) {
        return Json::Signed(n);
    }
    let text = print_value(value).unwrap();
    Json::Float(Float { text, value: clone_value(value) })
}

/// Reads a `serde_json::Value` into a JSON value that says the same.
fn read_value(value: &Value) -> (r: Json)
    ensures
        r@ == value_tree(*value),
    decreases value_tree(*value),
{
    match level(value) {
        Level::Null => Json::Null,
        Level::Bool(b) => Json::Bool(b),
        Level::Number => read_number(value),
        Level::Text(s) => Json::Text(s.clone()),
        Level::Array(items) => {
            let ghost trees = value_trees(items@);
            let mut out: Vec<Json> = Vec::new();
            let mut i: usize = 0;
            while i < items.len()
                invariant
                    i <= items@.len(),
                    out@.len() == i,
                    value_tree(*value) == JsonTree::Array(trees),
                    trees == value_trees(items@),
                    forall|k: int| 0 <= k < i ==> (#[trigger] out@[k])@ == trees[k],
                decreases items.len() - i,
            {
                assert(trees[i as int] == value_tree(items@[i as int]));
                assert(decreases_to!(value_tree(*value) => value_tree(*value)->Array_0));
                assert(decreases_to!(trees => trees[i as int]));
                out.push(read_value(&items[i]));
                i += 1;
            }
            proof {
                json::lemma_trees_of(out@);
                assert(json::trees_of(out@) =~= trees);
            }
            Json::Array(out)
        },
        Level::Object(entries) => {
            let ghost names = level_names(entries@);
            let ghost trees = level_trees(entries@);
            let ghost members = value_tree(*value)->Object_0;
            let mut out: Vec<(String, Json)> = Vec::new();
            let mut i: usize = 0;
            while i < entries.len()
                invariant
                    i <= entries@.len(),
                    out@.len() == i,
                    value_tree(*value) == JsonTree::Object(members),
                    names == level_names(entries@),
                    trees == level_trees(entries@),
                    lists(names, trees, members),
                    forall|k: int|
                        0 <= k < i ==> (#[trigger] out@[k]).0@ == names[k] && out@[k].1@
                            == trees[k],
                decreases entries.len() - i,
            {
                assert(members[names[i as int]] == trees[i as int]);
                assert(decreases_to!(value_tree(*value) => value_tree(*value)->Object_0));
                assert(members.dom().finite()) by {
                    vstd::seq_lib::seq_to_set_is_finite(names);
                    assert(members.dom() =~= names.to_set());
                }
                assert(decreases_to!(members => members[names[i as int]]));
                out.push((entries[i].0.clone(), read_value(entries[i].1)));
                i += 1;
            }
            proof {
                lemma_listed(out@, names, trees, members);
            }
            Json::Object(out)
        },
    }
}

/// Entries that list the members of an object say what the object says.
proof fn lemma_listed(
    entries: Seq<(String, Json)>,
    names: Seq<Seq<char>>,
    trees: Seq<JsonTree>,
    members: Map<Seq<char>, JsonTree>,
)
    requires
        lists(names, trees, members),
        entries.len() == names.len(),
        forall|k: int|
            0 <= k < entries.len() ==> (#[trigger] entries[k]).0@ == names[k] && entries[k].1@
                == trees[k],
    ensures
        json::map_of(entries) == members,
{
    let m = json::map_of(entries);
    json::lemma_map_of(entries);
    assert forall|name: Seq<char>| m.contains_key(name) <==> members.contains_key(name) by {
        if m.contains_key(name) {
            let p = choose|p: int| 0 <= p < entries.len() && (#[trigger] entries[p]).0@ == name;
            assert(names[p] == name);
        }
        if members.contains_key(name) {
            let k = names.index_of(name);
            assert(names[k] == name);
            assert(entries[k].0@ == name);
        }
    }
    assert forall|name: Seq<char>| m.contains_key(name) implies #[trigger] m[name]
        == members[name] by {
        let p = choose|p: int| 0 <= p < entries.len() && (#[trigger] entries[p]).0@ == name;
        assert(names[p] == name);
        assert(order::last_of_name(entries, p, entries.len() as int)) by {
            assert forall|q: int| p < q < entries.len() implies (#[trigger] entries[q]).0@
                != entries[p].0@ by {
                assert(names[q] != names[p]);
            }
        }
        assert(m[entries[p].0@] == json::tree_of(entries[p].1));
    }
    assert(m =~= members);
}

/// Makes the `serde_json::Value` that holds what a JSON value says.
fn value_of(json: &Json) -> (r: Value)
    ensures
        value_tree(r) == json@,
    decreases json,
{
    match json {
        Json::Null => assemble(Parts::Null),
        Json::Bool(b) => assemble(Parts::Bool(*b)),
        Json::Unsigned(n) => assemble(Parts::Unsigned(*n)),
        Json::Signed(n) => assemble(Parts::Signed(*n)),
        Json::Float(x) => x.value(),
        Json::Text(s) => assemble(Parts::Text(s.clone())),
        Json::Array(items) => {
            let mut out: Vec<Value> = Vec::new();
            let mut i: usize = 0;
            while i < items.len()
                invariant
                    i <= items@.len(),
                    out@.len() == i,
                    *json == Json::Array(*items),
                    forall|k: int| 0 <= k < i ==> value_tree(#[trigger] out@[k]) == items@[k]@,
                decreases items.len() - i,
            {
                assert(decreases_to!(*json => json->Array_0));
                assert(decreases_to!(*items => items@));
                assert(decreases_to!(items@ => items@[i as int]));
                out.push(value_of(&items[i]));
                i += 1;
            }
            proof {
                json::lemma_trees_of(items@);
                assert(value_trees(out@) =~= json::trees_of(items@));
            }
            assemble(Parts::Array(out))
        },
        Json::Object(entries) => {
            let positions = ordered_positions(entries);
            let ghost names = order::names_at(entries@, positions@);
            let mut out: Vec<(String, Value)> = Vec::new();
            let mut i: usize = 0;
            while i < positions.len()
                invariant
                    i <= positions@.len(),
                    out@.len() == i,
                    *json == Json::Object(*entries),
                    names == order::names_at(entries@, positions@),
                    order::ordered_within(entries@, 0, entries@.len() as int, positions@),
                    forall|k: int|
                        0 <= k < i ==> (#[trigger] out@[k]).0@ == names[k] && value_tree(out@[k].1)
                            == entries@[positions@[k] as int].1@,
                decreases positions.len() - i,
            {
                let p: usize = positions[i];
                assert(decreases_to!(*json => json->Object_0));
                assert(decreases_to!(*entries => entries@));
                assert(decreases_to!(entries@ => entries@[p as int]));
                assert(decreases_to!(entries@[p as int] => entries@[p as int].1));
                out.push((entries[p].0.clone(), value_of(&entries[p].1)));
                i += 1;
            }
            proof {
                assert(part_names(out@) =~= names);
                order::lemma_increasing_distinct(names);
            }
            let ghost sent = out@;
            let r = assemble(Parts::Object(out));
            proof {
                let members = value_tree(r)->Object_0;
                let m = json::map_of(entries@);
                json::lemma_map_of(entries@);
                json::lemma_ordered_names(entries@, positions@);
                order::lemma_in_order(names);
                assert forall|name: Seq<char>|
                    members.contains_key(name) <==> m.contains_key(name) by {
                    if members.contains_key(name) {
                        let k = names.index_of(name);
                        assert(names[k] == name);
                        assert(entries@[positions@[k] as int].0@ == name);
                    }
                    if m.contains_key(name) {
                        let p = choose|p: int|
                            0 <= p < entries@.len() && (#[trigger] entries@[p]).0@ == name;
                        assert(names.contains(entries@[p].0@));
                        let k = names.index_of(name);
                        assert(part_names(sent)[k] == name);
                    }
                }
                assert forall|name: Seq<char>| members.contains_key(name) implies #[trigger] m[name]
                    == members[name] by {
                    let k = names.index_of(name);
                    assert(part_names(sent)[k] == name);
                    assert(part_trees(sent)[k] == value_tree(sent[k].1));
                    let p = positions@[k] as int;
                    assert(entries@[p].0@ == name);
                    assert(m[entries@[p].0@] == json::tree_of(entries@[p].1));
                }
                assert(members =~= m);
            }
            r
        },
    }
}

/// Reads a text as one JSON document; says why, where it is none.
pub fn parse_document(text: &str) -> (r: Result<Json, String>)
    ensures
        match r {
            Ok(document) => parsed_json(text@) is Ok && parsed_json(text@)->Ok_0 == document@,
            Err(reason) => parsed_json(text@) is Err && parsed_json(text@)->Err_0 == reason@,
        },
{
    match parse_value(text) {
        Ok(value) => Ok(read_value(&value)),
        Err(reason) => Err(reason),
    }
}

/// Prints a JSON value without spaces, the members of objects in the order of their names. The
/// text reads back as the value where the value is restorable: where it holds no `Float` and is
/// nested at most 127 levels deep.
pub fn print_document(json: &Json) -> (r: Result<String, serde_json::Error>)
    ensures
        r is Ok,
        r->Ok_0@ == compact_json(json@),
        leaf_text(json@) is Some ==> leaf_text(json@) == Some(r->Ok_0@),
        restorable(json@) ==> parsed_json(r->Ok_0@) is Ok && parsed_json(r->Ok_0@)->Ok_0 == json@,
{
    print_value(&value_of(json))
}

} // verus!

//! What is read from the values of a Rustdoc JSON document.

use crate::document;
use crate::document::print_document;
use crate::json;
use crate::json::{Json, JsonTree};
use crate::order;
use crate::order::{find_ordered, ordered_positions};
use crate::text;
use crate::text::{push_decimal, push_decimal_int};
use vstd::prelude::*;

verus! {

/// A string, a number or a truth value as text; nothing for any other value.
pub open spec fn scalar_text(value: JsonTree) -> Seq<char> {
    match value {
        JsonTree::Text(s) => s,
        JsonTree::Int(i) => text::decimal_int(i),
        JsonTree::Float(s) => s,
        JsonTree::Bool(true) => "true"@,
        JsonTree::Bool(false) => "false"@,
        _ => seq![],
    }
}

/// The value has a text: it is a number, a truth value or a string that is not empty.
pub open spec fn has_text(value: JsonTree) -> bool {
    match value {
        JsonTree::Text(s) => s.len() > 0,
        JsonTree::Int(_) => true,
        JsonTree::Float(_) => true,
        JsonTree::Bool(_) => true,
        _ => false,
    }
}

/// A string as it is, any other value as compact JSON.
pub open spec fn canonical_text(value: JsonTree) -> Seq<char> {
    match value {
        JsonTree::Text(s) => s,
        _ => document::compact_json(value),
    }
}

/// The number at a position of an array, or zero.
pub open spec fn number_at(items: Seq<JsonTree>, i: int) -> u64 {
    if i < items.len() && items[i].unsigned() is Some {
        items[i].unsigned()->0
    } else {
        0
    }
}

/// The line and the column of a source position; zero where one is missing.
pub open spec fn position(value: Option<JsonTree>) -> (u64, u64) {
    match value {
        Some(JsonTree::Array(items)) => (number_at(items, 0), number_at(items, 1)),
        _ => (0, 0),
    }
}

/// The kind of an item: the first name, in order, of what its `inner` object holds.
pub open spec fn kind_text(item: JsonTree) -> Seq<char> {
    match item.member("inner"@) {
        Some(JsonTree::Object(inner)) if order::in_order(inner.dom()).len() > 0 => order::in_order(
            inner.dom(),
        )[0],
        _ => "unknown"@,
    }
}

/// The visibility of an item.
pub open spec fn visibility_text(item: JsonTree) -> Seq<char> {
    match item.member("visibility"@) {
        Some(value) => canonical_text(value),
        None => "unknown"@,
    }
}

/// The strings of an array, in their order.
pub open spec fn strings_of(items: Seq<JsonTree>) -> Seq<Seq<char>>
    decreases items.len(),
{
    if items.len() == 0 {
        seq![]
    } else {
        match items.last() {
            JsonTree::Text(s) => strings_of(items.drop_last()).push(s),
            _ => strings_of(items.drop_last()),
        }
    }
}

/// Strings with a separator between them.
pub open spec fn joined(parts: Seq<Seq<char>>, separator: Seq<char>) -> Seq<char>
    decreases parts.len(),
{
    if parts.len() == 0 {
        seq![]
    } else if parts.len() == 1 {
        parts[0]
    } else {
        joined(parts.drop_last(), separator) + separator + parts.last()
    }
}

/// The qualified path that the document gives for an item, where it is not empty.
pub open spec fn path_text(document: JsonTree, id: Seq<char>) -> Option<Seq<char>> {
    match document.member("paths"@) {
        Some(JsonTree::Object(paths)) if paths.contains_key(id) => match paths[id].member(
            "path"@,
        ) {
            Some(JsonTree::Array(items)) if joined(strings_of(items), "::"@).len() > 0 => Some(
                joined(strings_of(items), "::"@),
            ),
            _ => None,
        },
        _ => None,
    }
}

/// A string, a number or a truth value as text; nothing for any other value.
pub fn scalar_string(value: &Json) -> (r: String)
    ensures
        r@ == scalar_text(value@),
        r@.len() > 0 <==> has_text(value@),
{
    proof {
        reveal_strlit("true");
        reveal_strlit("false");
    }
    match value {
        Json::Text(s) => s.clone(),
        Json::Unsigned(n) => {
            let mut out = String::new();
            push_decimal(&mut out, *n);
            assert(out@ =~= text::decimal_int(*n as int));
            out
        },
        Json::Signed(n) => {
            let mut out = String::new();
            push_decimal_int(&mut out, *n);
            assert(out@ =~= text::decimal_int(*n as int));
            out
        },
        Json::Float(x) => x.text().to_owned(),
        Json::Bool(b) => if *b {
            "true".to_owned()
        } else {
            "false".to_owned()
        },
        _ => String::new(),
    }
}

/// A string as it is, any other value as compact JSON. The JSON reads back as the value where
/// the value is restorable: where it holds no `Float` and is nested at most 127 levels deep.
pub fn canonical_value(value: &Json) -> (r: String)
    ensures
        r@ == canonical_text(value@),
        document::leaf_text(value@) is Some ==> document::leaf_text(value@) == Some(r@),
        !(value@ is Text) && document::restorable(value@) ==> document::parsed_json(r@) is Ok
            && document::parsed_json(r@)->Ok_0 == value@,
{
    match value {
        Json::Text(s) => s.clone(),
        other => match print_document(other) {
            Ok(text) => text,
            Err(_) => "unknown".to_owned(),
        },
    }
}

/// Two different values, both read back from their canonical texts, have different ones.
pub proof fn law_canonical_texts_differ(a: JsonTree, b: JsonTree)
    ensures
        ({
            &&& document::parsed_json(canonical_text(a)) == Ok::<JsonTree, Seq<char>>(a)
            &&& document::parsed_json(canonical_text(b)) == Ok::<JsonTree, Seq<char>>(b)
            &&& a != b
        }) ==> canonical_text(a) != canonical_text(b),
{
}

/// The line and the column of a source position; zero where one is missing.
pub fn coordinate(value: Option<&Json>) -> (r: (u64, u64))
    ensures
        r == position(
            match value {
                Some(v) => Some(v@),
                None => None,
            },
        ),
{
    match value {
        Some(Json::Array(items)) => {
            proof {
                json::lemma_trees_of(items@);
            }
            (unsigned_at(items, 0), unsigned_at(items, 1))
        },
        _ => (0, 0),
    }
}

/// The number at a position of an array, or zero.
fn unsigned_at(items: &Vec<Json>, i: usize) -> (r: u64)
    ensures
        r == number_at(json::trees_of(items@), i as int),
{
    proof {
        json::lemma_trees_of(items@);
    }
    if i < items.len() {
        match items[i].as_u64() {
            Some(n) => n,
            None => 0,
        }
    } else {
        0
    }
}

/// The kind of an item.
pub fn item_kind(item: &Json) -> (r: &str)
    ensures
        r@ == kind_text(item@),
{
    match item.get("inner") {
        Some(Json::Object(entries)) => {
            let positions = ordered_positions(entries);
            proof {
                json::lemma_ordered_names(entries@, positions@);
            }
            if positions.len() > 0 {
                entries[positions[0]].0.as_str()
            } else {
                "unknown"
            }
        },
        _ => "unknown",
    }
}

/// The visibility of an item.
pub fn item_visibility(item: &Json) -> (r: String)
    ensures
        r@ == visibility_text(item@),
{
    match item.get("visibility") {
        Some(value) => canonical_value(value),
        None => "unknown".to_owned(),
    }
}

/// Joins the strings of an array with `::`.
fn join_strings(items: &Vec<Json>) -> (r: String)
    ensures
        r@ == joined(strings_of(json::trees_of(items@)), "::"@),
{
    let ghost trees = json::trees_of(items@);
    proof {
        json::lemma_trees_of(items@);
    }
    let mut out = String::new();
    let mut first = true;
    let mut i: usize = 0;
    assert(trees.take(0) =~= seq![]);
    while i < items.len()
        invariant
            i <= items@.len(),
            trees == json::trees_of(items@),
            trees.len() == items@.len(),
            out@ == joined(strings_of(trees.take(i as int)), "::"@),
            first <==> strings_of(trees.take(i as int)).len() == 0,
        decreases items.len() - i,
    {
        proof {
            json::lemma_trees_of(items@);
            assert(trees.take(i + 1).drop_last() =~= trees.take(i as int));
            assert(trees.take(i + 1).last() == items@[i as int]@);
        }
        let ghost parts = strings_of(trees.take(i as int));
        if let Some(s) = items[i].as_str() {
            assert(parts.push(s@).drop_last() =~= parts);
            if !first {
                out.push_str("::");
            }
            out.push_str(s);
            assert(first ==> out@ =~= s@);
            first = false;
        }
        i += 1;
    }
    assert(trees.take(i as int) =~= trees);
    out
}

/// The qualified path that is given for an item, where it is not empty.
pub(crate) fn qualified_path(
    Ghost(document): Ghost<JsonTree>,
    paths: Option<(&Vec<(String, Json)>, &Vec<usize>)>,
    id: &str,
) -> (r: Option<String>)
    requires
        match paths {
            Some((entries, positions)) => {
                &&& document.member("paths"@) == Some(JsonTree::Object(json::map_of(entries@)))
                &&& order::ordered_within(entries@, 0, entries@.len() as int, positions@)
            },
            None => !(document.member("paths"@) matches Some(JsonTree::Object(_))),
        },
    ensures
        match r {
            Some(path) => path_text(document, id@) == Some(path@),
            None => path_text(document, id@) is None,
        },
{
    match paths {
        Some((entries, positions)) => {
            proof {
                json::lemma_map_of(entries@);
            }
            match find_ordered(entries, positions, id) {
                Some(p) => {
                    assert(json::map_of(entries@)[entries@[p as int].0@] == entries@[p as int].1@);
                    match entries[p].1.get("path") {
                        Some(Json::Array(items)) => {
                            let path = join_strings(items);
                            if path.as_str().is_empty() {
                                None
                            } else {
                                Some(path)
                            }
                        },
                        _ => None,
                    }
                },
                None => None,
            }
        },
        None => None,
    }
}

// What the values that are read say.

/// The text of a scalar: a string is itself, an integer its decimal digits, a truth value its
/// word; every other value but a float has none.
pub proof fn law_scalar_text(value: JsonTree)
    ensures
        value matches JsonTree::Text(s) ==> scalar_text(value) == s,
        value matches JsonTree::Float(s) ==> scalar_text(value) == s,
        value matches JsonTree::Int(i) ==> i >= 0 ==> text::digits_value(scalar_text(value)) == i
            && scalar_text(value)[0] != '-',
        value matches JsonTree::Int(i) ==> i < 0 ==> scalar_text(value)[0] == '-'
            && text::digits_value(scalar_text(value).skip(1)) == -i,
        value == JsonTree::Bool(true) ==> scalar_text(value) == "true"@,
        value == JsonTree::Bool(false) ==> scalar_text(value) == "false"@,
        value is Null || value is Array || value is Object ==> scalar_text(value).len() == 0,
        has_text(value) <==> value is Int || value is Bool || value is Float || (value is Text
            && value->Text_0.len() > 0),
{
    if let JsonTree::Int(i) = value {
        text::law_decimal_int_reads_back(i);
    }
}

/// A position is its first two numbers, each zero where it is missing or not an unsigned number
/// of 64 bits.
pub proof fn law_position(items: Seq<JsonTree>, line: u64, column: u64)
    ensures
        items.len() > 0 && items[0] == JsonTree::Int(line as int) ==> position(
            Some(JsonTree::Array(items)),
        ).0 == line,
        items.len() > 1 && items[1] == JsonTree::Int(column as int) ==> position(
            Some(JsonTree::Array(items)),
        ).1 == column,
        (items.len() == 0 || !(items[0] is Int) || !(0 <= items[0]->Int_0 <= u64::MAX))
            ==> position(Some(JsonTree::Array(items))).0 == 0,
        (items.len() < 2 || !(items[1] is Int) || !(0 <= items[1]->Int_0 <= u64::MAX))
            ==> position(Some(JsonTree::Array(items))).1 == 0,
{
}

/// What is no array is no position.
pub proof fn law_no_position(value: Option<JsonTree>)
    requires
        !(value matches Some(JsonTree::Array(_))),
    ensures
        position(value) == (0u64, 0u64),
{
}

/// An item's kind is a name of what it holds inside, and no other name there comes before it; an
/// item that holds nothing inside is of unknown kind.
pub proof fn law_kind_comes_first(item: Json)
    ensures
        match item@.member("inner"@) {
            Some(JsonTree::Object(inner)) => {
                &&& inner.dom() == Set::<Seq<char>>::empty() ==> kind_text(item@) == "unknown"@
                &&& inner.dom() != Set::<Seq<char>>::empty() ==> {
                    &&& inner.contains_key(kind_text(item@))
                    &&& forall|other: Seq<char>| #[trigger]
                        inner.contains_key(other) && other != kind_text(item@)
                            ==> text::text_before(kind_text(item@), other)
                }
            },
            _ => kind_text(item@) == "unknown"@,
        },
{
    if let Some(JsonTree::Object(inner)) = item@.member("inner"@) {
        let names = order::in_order(inner.dom());
        json::lemma_member_finite(item, "inner"@);
        order::lemma_in_order_lists(inner.dom());
        if names.len() > 0 {
            assert(names.to_set().contains(names[0]));
            assert forall|other: Seq<char>| #[trigger]
                inner.contains_key(other) && other != kind_text(item@) implies text::text_before(
                kind_text(item@),
                other,
            ) by {
                assert(names.to_set().contains(other));
                let k = names.index_of(other);
                assert(names[k] == other);
                assert(text::text_before(names[0], names[k]));
            }
        } else {
            assert(inner.dom() =~= Set::empty());
        }
    }
}

/// An item's visibility is the string that it gives, the JSON of any other value, and unknown
/// where it gives none.
pub proof fn law_visibility(item: JsonTree, value: JsonTree)
    ensures
        item.member("visibility"@) is None ==> visibility_text(item) == "unknown"@,
        item.member("visibility"@) == Some(value) && value is Text ==> visibility_text(item)
            == value->Text_0,
        item.member("visibility"@) == Some(value) && !(value is Text) ==> visibility_text(item)
            == document::compact_json(value),
{
}

/// The strings of two arrays joined are the strings of the one and then of the other; of a single
/// value they are the string, where it is one.
pub proof fn law_strings_by_parts(a: Seq<JsonTree>, b: Seq<JsonTree>, value: JsonTree)
    ensures
        strings_of(a + b) == strings_of(a) + strings_of(b),
        value is Text ==> strings_of(seq![value]) == seq![value->Text_0],
        !(value is Text) ==> strings_of(seq![value]).len() == 0,
    decreases b.len(),
{
    assert(seq![value].drop_last() =~= seq![]);
    reveal_with_fuel(strings_of, 2);
    assert(value is Text ==> strings_of(seq![value]) =~= seq![value->Text_0]);
    if b.len() == 0 {
        assert(a + b =~= a);
        assert(strings_of(a) + strings_of(b) =~= strings_of(a));
    } else {
        law_strings_by_parts(a, b.drop_last(), value);
        assert((a + b).drop_last() =~= a + b.drop_last());
        assert((a + b).last() == b.last());
        assert(strings_of(a + b) =~= strings_of(a) + strings_of(b));
    }
}

/// One more string makes a joined text longer by the separator and the string; a single string is
/// joined to itself, and none to nothing.
pub proof fn law_join_appends(parts: Seq<Seq<char>>, part: Seq<char>, separator: Seq<char>)
    ensures
        parts.len() > 0 ==> joined(parts.push(part), separator) == joined(parts, separator)
            + separator + part,
        joined(seq![part], separator) == part,
        joined(seq![], separator).len() == 0,
{
    assert(parts.push(part).drop_last() =~= parts);
}

/// Splits a text at each `::`, from its `n`-th character on.
pub open spec fn split_from(text: Seq<char>, n: int) -> Seq<Seq<char>>
    decreases text.len(), text.len() - n,
{
    if n < 0 || n + 1 >= text.len() {
        seq![text]
    } else if text[n] == ':' && text[n + 1] == ':' {
        seq![text.take(n)] + split_from(text.skip(n + 2), 0)
    } else {
        split_from(text, n + 1)
    }
}

/// Splits a path at each `::`.
pub open spec fn split_path(path: Seq<char>) -> Seq<Seq<char>> {
    split_from(path, 0)
}

/// The text holds two colons in a row.
pub open spec fn holds_colons(text: Seq<char>) -> bool {
    exists|i: int| 0 <= i < text.len() - 1 && #[trigger] text[i] == ':' && text[i + 1] == ':'
}

/// The strings can be told apart when they are joined by `::`: none holds `::`, and none that
/// another follows ends in a colon.
pub open spec fn separable(parts: Seq<Seq<char>>) -> bool {
    &&& forall|k: int| 0 <= k < parts.len() ==> !holds_colons(#[trigger] parts[k])
    &&& forall|k: int|
        0 <= k < parts.len() - 1 && (#[trigger] parts[k]).len() > 0 ==> parts[k].last() != ':'
}

proof fn lemma_split_last(part: Seq<char>, n: int)
    requires
        0 <= n,
        !holds_colons(part),
    ensures
        split_from(part, n) == seq![part],
    decreases part.len() - n,
{
    if n + 1 < part.len() {
        lemma_split_last(part, n + 1);
    }
}

proof fn lemma_split_first(part: Seq<char>, rest: Seq<char>, n: int)
    requires
        0 <= n <= part.len(),
        !holds_colons(part),
        part.len() > 0 ==> part.last() != ':',
    ensures
        split_from(part + "::"@ + rest, n) == seq![part] + split_path(rest),
    decreases part.len() - n,
{
    reveal_strlit("::");
    let text = part + "::"@ + rest;
    if n == part.len() {
        assert(text[n] == ':' && text[n + 1] == ':');
        assert(text.take(n) =~= part);
        assert(text.skip(n + 2) =~= rest);
    } else {
        assert(text[n] == part[n]);
        if n + 1 < part.len() {
            assert(text[n + 1] == part[n + 1]);
        }
        lemma_split_first(part, rest, n + 1);
    }
}

proof fn lemma_joined_first(parts: Seq<Seq<char>>, separator: Seq<char>)
    requires
        parts.len() > 1,
    ensures
        joined(parts, separator) == parts[0] + separator + joined(parts.drop_first(), separator),
    decreases parts.len(),
{
    let rest = parts.drop_first();
    if parts.len() == 2 {
        assert(parts.drop_last() =~= seq![parts[0]]);
        assert(rest =~= seq![parts.last()]);
        assert(joined(parts.drop_last(), separator) == parts[0]);
        assert(joined(rest, separator) == parts.last());
    } else {
        lemma_joined_first(parts.drop_last(), separator);
        assert(parts.drop_last().drop_first() =~= rest.drop_last());
        assert(rest.last() == parts.last());
        assert(parts.drop_last()[0] == parts[0]);
        assert(joined(rest, separator) == joined(rest.drop_last(), separator) + separator
            + rest.last());
        let inner = joined(rest.drop_last(), separator);
        assert(parts[0] + separator + inner + separator + parts.last() =~= parts[0] + separator + (
        inner + separator + parts.last()));
    }
}

/// Splitting joined strings at `::` gives all of them back, in their order, where they can be
/// told apart.
pub proof fn law_path_splits_back(parts: Seq<Seq<char>>)
    requires
        parts.len() > 0,
        separable(parts),
    ensures
        split_path(joined(parts, "::"@)) == parts,
    decreases parts.len(),
{
    if parts.len() == 1 {
        lemma_split_last(parts[0], 0);
        assert(seq![parts[0]] =~= parts);
    } else {
        let rest = parts.drop_first();
        assert forall|k: int| 0 <= k < rest.len() implies !holds_colons(#[trigger] rest[k]) by {
            assert(rest[k] == parts[k + 1]);
        }
        assert forall|k: int|
            0 <= k < rest.len() - 1 && (#[trigger] rest[k]).len() > 0 implies rest[k].last()
            != ':' by {
            assert(rest[k] == parts[k + 1]);
        }
        law_path_splits_back(rest);
        lemma_joined_first(parts, "::"@);
        lemma_split_first(parts[0], joined(rest, "::"@), 0);
        assert(seq![parts[0]] + rest =~= parts);
    }
}

proof fn lemma_joined_length(parts: Seq<Seq<char>>)
    ensures
        joined(parts, "::"@).len() > 0 <==> parts.len() > 1 || (parts.len() == 1 && parts[0].len()
            > 0),
    decreases parts.len(),
{
    reveal_strlit("::");
}

/// An item has a qualified path exactly where the document's paths list strings for it, not just
/// one that is empty; and splitting the path gives all of these strings back, in their order,
/// where they can be told apart.
pub proof fn law_qualified_path(
    document: JsonTree,
    id: Seq<char>,
    paths: Map<Seq<char>, JsonTree>,
    items: Seq<JsonTree>,
)
    requires
        document.member("paths"@) == Some(JsonTree::Object(paths)),
        paths.contains_key(id),
        paths[id].member("path"@) == Some(JsonTree::Array(items)),
    ensures
        path_text(document, id) is Some <==> strings_of(items).len() > 1 || (strings_of(items).len()
            == 1 && strings_of(items)[0].len() > 0),
        path_text(document, id) is Some ==> path_text(document, id)->0 == joined(
            strings_of(items),
            "::"@,
        ),
        path_text(document, id) is Some && separable(strings_of(items)) ==> split_path(
            path_text(document, id)->0,
        ) == strings_of(items),
{
    lemma_joined_length(strings_of(items));
    if path_text(document, id) is Some && separable(strings_of(items)) {
        law_path_splits_back(strings_of(items));
    }
}

/// Where the document lists no path for an item, the item has none.
pub proof fn law_no_qualified_path(document: JsonTree, id: Seq<char>)
    requires
        !(document.member("paths"@) matches Some(JsonTree::Object(paths)) && paths.contains_key(id)
            && paths[id].member("path"@) matches Some(JsonTree::Array(_))),
    ensures
        path_text(document, id) is None,
{
}

} // verus!

//! JSON values: the documents that the graph is compiled from.

use crate::document::Float;
use crate::order;
use crate::text::{precedence, Precedence};
use vstd::prelude::*;

verus! {

/// What a JSON value says. An object is a map from names to values: the order in which its
/// members are listed says nothing, and of members with one name the last one counts.
pub enum JsonTree {
    Null,
    Bool(bool),
    /// A number without fraction and exponent, of at most 64 bits.
    Int(int),
    /// Any other number, as it is printed.
    Float(Seq<char>),
    Text(Seq<char>),
    Array(Seq<JsonTree>),
    Object(Map<Seq<char>, JsonTree>),
}

impl JsonTree {
    /// The member of an object with the given name.
    pub open spec fn member(self, name: Seq<char>) -> Option<JsonTree> {
        match self {
            JsonTree::Object(m) if m.contains_key(name) => Some(m[name]),
            _ => None,
        }
    }

    /// The number, where the value is one that 64 bits hold without a sign.
    pub open spec fn unsigned(self) -> Option<u64> {
        match self {
            JsonTree::Int(i) if 0 <= i <= u64::MAX => Some(i as u64),
            _ => None,
        }
    }

    /// The string, where the value is one.
    pub open spec fn text(self) -> Option<Seq<char>> {
        match self {
            JsonTree::Text(s) => Some(s),
            _ => None,
        }
    }

    /// The members, where the value is an object.
    pub open spec fn members(self) -> Option<Map<Seq<char>, JsonTree>> {
        match self {
            JsonTree::Object(m) => Some(m),
            _ => None,
        }
    }
}

/// A JSON value. The members of an object stand in the order in which they were written.
pub enum Json {
    Null,
    Bool(bool),
    Unsigned(u64),
    Signed(i64),
    Float(Float),
    Text(String),
    Array(Vec<Json>),
    Object(Vec<(String, Json)>),
}

impl View for Json {
    type V = JsonTree;

    open spec fn view(&self) -> JsonTree {
        tree_of(*self)
    }
}

/// What a value says.
pub open spec fn tree_of(value: Json) -> JsonTree
    decreases value,
{
    match value {
        Json::Null => JsonTree::Null,
        Json::Bool(b) => JsonTree::Bool(b),
        Json::Unsigned(n) => JsonTree::Int(n as int),
        Json::Signed(n) => JsonTree::Int(n as int),
        Json::Float(x) => JsonTree::Float(x@),
        Json::Text(s) => JsonTree::Text(s@),
        Json::Array(items) => JsonTree::Array(trees_of(items@)),
        Json::Object(entries) => JsonTree::Object(map_of(entries@)),
    }
}

/// What the elements of an array say, one by one.
pub open spec fn trees_of(items: Seq<Json>) -> Seq<JsonTree>
    decreases items,
{
    if items.len() == 0 {
        seq![]
    } else {
        trees_of(items.drop_last()).push(tree_of(items.last()))
    }
}

/// What the members of an object say: each name with the value that was written for it last.
pub open spec fn map_of(entries: Seq<(String, Json)>) -> Map<Seq<char>, JsonTree>
    decreases entries,
{
    if entries.len() == 0 {
        Map::empty()
    } else {
        map_of(entries.drop_last()).insert(entries.last().0@, tree_of(entries.last().1))
    }
}

/// The elements of an array, one by one.
pub proof fn lemma_trees_of(items: Seq<Json>)
    ensures
        trees_of(items).len() == items.len(),
        forall|i: int| 0 <= i < items.len() ==> #[trigger] trees_of(items)[i] == tree_of(items[i]),
    decreases items.len(),
{
    if items.len() > 0 {
        lemma_trees_of(items.drop_last());
        assert forall|i: int| 0 <= i < items.len() implies #[trigger] trees_of(items)[i] == tree_of(
            items[i],
        ) by {
            if i < items.len() - 1 {
                assert(trees_of(items)[i] == trees_of(items.drop_last())[i]);
            }
        }
    }
}

/// An object has the names of its entries, and for each the value of the last such entry.
pub proof fn lemma_map_of(entries: Seq<(String, Json)>)
    ensures
        forall|p: int|
            0 <= p < entries.len() ==> map_of(entries).contains_key((#[trigger] entries[p]).0@),
        forall|p: int|
            0 <= p < entries.len() && order::last_of_name(entries, p, entries.len() as int)
                ==> #[trigger] map_of(entries)[entries[p].0@] == tree_of(entries[p].1),
        forall|name: Seq<char>| #[trigger]
            map_of(entries).contains_key(name) ==> exists|p: int|
                0 <= p < entries.len() && (#[trigger] entries[p]).0@ == name,
    decreases entries.len(),
{
    if entries.len() > 0 {
        let rest = entries.drop_last();
        let last = entries.len() - 1;
        lemma_map_of(rest);
        assert forall|p: int| 0 <= p < entries.len() implies map_of(entries).contains_key(
            (#[trigger] entries[p]).0@,
        ) by {
            if p < last {
                assert(rest[p] == entries[p]);
            }
        }
        assert forall|p: int|
            0 <= p < entries.len() && order::last_of_name(
                entries,
                p,
                entries.len() as int,
            ) implies #[trigger] map_of(entries)[entries[p].0@] == tree_of(entries[p].1) by {
            if p < last {
                assert(entries[last].0@ != entries[p].0@);
                assert(rest[p] == entries[p]);
                assert forall|q: int| p < q < rest.len() implies (#[trigger] rest[q]).0@
                    != rest[p].0@ by {
                    assert(rest[q] == entries[q]);
                }
                assert(map_of(rest)[rest[p].0@] == tree_of(rest[p].1));
            }
        }
        assert forall|name: Seq<char>| #[trigger]
            map_of(entries).contains_key(name) implies exists|p: int|
            0 <= p < entries.len() && (#[trigger] entries[p]).0@ == name by {
            if name == entries[last].0@ {
            } else {
                assert(map_of(rest).contains_key(name));
                let p = choose|p: int| 0 <= p < rest.len() && (#[trigger] rest[p]).0@ == name;
                assert(entries[p].0@ == name);
            }
        }
    }
}

/// The ordered positions of an object's entries give its names in order.
pub proof fn lemma_ordered_names(entries: Seq<(String, Json)>, positions: Seq<usize>)
    requires
        order::ordered_within(entries, 0, entries.len() as int, positions),
    ensures
        order::names_at(entries, positions) == order::in_order(map_of(entries).dom()),
{
    let names = order::names_at(entries, positions);
    lemma_map_of(entries);
    assert forall|x: Seq<char>| names.to_set().contains(x) <==> map_of(entries).dom().contains(
        x,
    ) by {
        if names.to_set().contains(x) {
            let k = names.index_of(x);
            assert(names[k] == x);
            assert(entries[positions[k] as int].0@ == x);
        }
        if map_of(entries).contains_key(x) {
            let p = choose|p: int| 0 <= p < entries.len() && (#[trigger] entries[p]).0@ == x;
            assert(names.contains(entries[p].0@));
        }
    }
    assert(names.to_set() =~= map_of(entries).dom());
    order::lemma_in_order(names);
}

/// An object has finitely many members, and each is the value of one of its entries.
pub proof fn lemma_map_of_entries(entries: Seq<(String, Json)>)
    ensures
        map_of(entries).dom().finite(),
        forall|name: Seq<char>| #[trigger]
            map_of(entries).contains_key(name) ==> exists|p: int|
                0 <= p < entries.len() && (#[trigger] entries[p]).0@ == name && map_of(
                    entries,
                )[name] == tree_of(entries[p].1),
    decreases entries.len(),
{
    if entries.len() > 0 {
        let rest = entries.drop_last();
        let last = entries.len() - 1;
        lemma_map_of_entries(rest);
        assert forall|name: Seq<char>| #[trigger]
            map_of(entries).contains_key(name) implies exists|p: int|
            0 <= p < entries.len() && (#[trigger] entries[p]).0@ == name && map_of(entries)[name]
                == tree_of(entries[p].1) by {
            if name == entries[last].0@ {
                assert(map_of(entries)[name] == tree_of(entries[last].1));
            } else {
                assert(map_of(rest).contains_key(name));
                let p = choose|p: int|
                    0 <= p < rest.len() && (#[trigger] rest[p]).0@ == name && map_of(rest)[name]
                        == tree_of(rest[p].1);
                assert(entries[p].0@ == name && map_of(entries)[name] == tree_of(entries[p].1));
            }
        }
    }
}

/// A member of an object is what some value says.
pub proof fn lemma_member_value(value: Json, name: Seq<char>) -> (member: Json)
    requires
        value@.member(name) is Some,
    ensures
        value@.member(name) == Some(member@),
{
    let entries = value->Object_0@;
    lemma_map_of_entries(entries);
    let p = choose|p: int|
        0 <= p < entries.len() && (#[trigger] entries[p]).0@ == name && map_of(entries)[name]
            == tree_of(entries[p].1);
    entries[p].1
}

/// An object inside an object has finitely many members too.
pub proof fn lemma_member_finite(value: Json, name: Seq<char>)
    ensures
        value@.member(name) matches Some(JsonTree::Object(m)) ==> m.dom().finite(),
{
    if let Json::Object(entries) = value {
        lemma_map_of_entries(entries@);
        if map_of(entries@).contains_key(name) {
            let p = choose|p: int|
                0 <= p < entries@.len() && (#[trigger] entries@[p]).0@ == name && map_of(
                    entries@,
                )[name] == tree_of(entries@[p].1);
            if let Json::Object(inner) = entries@[p].1 {
                lemma_map_of_entries(inner@);
            }
        }
    }
}

/// The order in which an object lists its members says nothing: listed in another order, they
/// make the same object, provided that no name occurs twice.
pub proof fn law_member_order_says_nothing(
    entries: Seq<(String, Json)>,
    reordered: Seq<(String, Json)>,
)
    requires
        entries.to_multiset() == reordered.to_multiset(),
        forall|p: int, q: int|
            0 <= p < q < entries.len() ==> (#[trigger] entries[p]).0@ != (#[trigger] entries[q]).0@,
    ensures
        map_of(entries) == map_of(reordered),
{
    entries.to_multiset_ensures();
    reordered.to_multiset_ensures();
    let a = map_of(entries);
    let b = map_of(reordered);
    lemma_map_of(entries);
    lemma_map_of(reordered);
    lemma_map_of_entries(reordered);
    assert forall|x: (String, Json)| entries.contains(x) <==> reordered.contains(x) by {
        assert(entries.contains(x) <==> entries.to_multiset().count(x) > 0);
        assert(reordered.contains(x) <==> reordered.to_multiset().count(x) > 0);
    }
    assert forall|p: int| 0 <= p < entries.len() implies order::last_of_name(
        entries,
        p,
        entries.len() as int,
    ) by {}
    assert forall|name: Seq<char>| a.contains_key(name) <==> b.contains_key(name) by {
        if a.contains_key(name) {
            let p = choose|p: int| 0 <= p < entries.len() && (#[trigger] entries[p]).0@ == name;
            assert(reordered.contains(entries[p]));
            assert(reordered[reordered.index_of(entries[p])].0@ == name);
        }
        if b.contains_key(name) {
            let p = choose|p: int| 0 <= p < reordered.len() && (#[trigger] reordered[p]).0@ == name;
            assert(entries.contains(reordered[p]));
            assert(entries[entries.index_of(reordered[p])].0@ == name);
        }
    }
    assert forall|name: Seq<char>| a.contains_key(name) implies #[trigger] a[name] == b[name] by {
        let q = choose|q: int|
            0 <= q < reordered.len() && (#[trigger] reordered[q]).0@ == name && b[name] == tree_of(
                reordered[q].1,
            );
        assert(entries.contains(reordered[q]));
        let p = entries.index_of(reordered[q]);
        assert(entries[p].0@ == name);
        assert(order::last_of_name(entries, p, entries.len() as int));
        assert(a[entries[p].0@] == tree_of(entries[p].1));
    }
    assert(a =~= b);
}

impl Json {
    /// The member of an object with the given name.
    pub fn get(&self, name: &str) -> (r: Option<&Json>)
        ensures
            match r {
                Some(value) => self@.member(name@) == Some(value@),
                None => self@.member(name@) is None,
            },
    {
        match self {
            Json::Object(entries) => lookup(entries, name),
            _ => None,
        }
    }

    /// The number, where the value is one that 64 bits hold without a sign.
    pub fn as_u64(&self) -> (r: Option<u64>)
        ensures
            r == self@.unsigned(),
    {
        match self {
            Json::Unsigned(n) => Some(*n),
            Json::Signed(n) => if *n >= 0 {
                Some(*n as u64)
            } else {
                None
            },
            _ => None,
        }
    }

    /// The string, where the value is one.
    pub fn as_str(&self) -> (r: Option<&str>)
        ensures
            match r {
                Some(s) => self@.text() == Some(s@),
                None => self@.text() is None,
            },
    {
        match self {
            Json::Text(s) => Some(s.as_str()),
            _ => None,
        }
    }
}

/// The value that counts for a name among the entries of an object.
pub fn lookup<'a>(entries: &'a Vec<(String, Json)>, name: &str) -> (r: Option<&'a Json>)
    ensures
        match r {
            Some(value) => map_of(entries@).contains_key(name@) && map_of(entries@)[name@]
                == value@,
            None => !map_of(entries@).contains_key(name@),
        },
{
    proof {
        lemma_map_of(entries@);
    }
    let mut i: usize = entries.len();
    while i > 0
        invariant
            i <= entries@.len(),
            forall|q: int| i <= q < entries@.len() ==> (#[trigger] entries@[q]).0@ != name@,
        decreases i,
    {
        i -= 1;
        match precedence(entries[i].0.as_str(), name) {
            Precedence::Same => {
                proof {
                    lemma_map_of(entries@);
                    assert(order::last_of_name(entries@, i as int, entries@.len() as int));
                }
                return Some(&entries[i].1);
            },
            _ => {},
        }
    }
    None
}

/// A value says what it holds: a truth value, a number, a string, its elements in their order.
pub proof fn law_values_say_what_they_hold(
    b: bool,
    n: u64,
    i: i64,
    s: String,
    items: Vec<Json>,
    entries: Vec<(String, Json)>,
)
    ensures
        Json::Null@ == JsonTree::Null,
        Json::Bool(b)@ == JsonTree::Bool(b),
        Json::Unsigned(n)@ == JsonTree::Int(n as int),
        Json::Signed(i)@ == JsonTree::Int(i as int),
        Json::Text(s)@ == JsonTree::Text(s@),
        Json::Array(items)@ matches JsonTree::Array(trees) && trees.len() == items@.len() && (
        forall|k: int| 0 <= k < items@.len() ==> #[trigger] trees[k] == items@[k]@),
        Json::Object(entries)@ is Object,
{
    lemma_trees_of(items@);
}

/// An object has a member of a name exactly where one of its entries has the name, and the member
/// is what the last such entry says.
pub proof fn law_last_entry_counts(entries: Vec<(String, Json)>, name: Seq<char>, p: int)
    ensures
        Json::Object(entries)@.member(name) is Some <==> exists|q: int|
            0 <= q < entries@.len() && (#[trigger] entries@[q]).0@ == name,
        0 <= p < entries@.len() && entries@[p].0@ == name && (forall|q: int|
            p < q < entries@.len() ==> (#[trigger] entries@[q]).0@ != name) ==> Json::Object(
            entries,
        )@.member(name) == Some(entries@[p].1@),
{
    lemma_map_of(entries@);
    if 0 <= p < entries@.len() && entries@[p].0@ == name && (forall|q: int|
        p < q < entries@.len() ==> (#[trigger] entries@[q]).0@ != name) {
        assert(order::last_of_name(entries@, p, entries@.len() as int));
        assert(map_of(entries@)[entries@[p].0@] == tree_of(entries@[p].1));
    }
}

/// Only an object has members, only a string is a text, and only an integer from zero to the
/// largest of 64 bits is an unsigned number.
pub proof fn law_what_values_are(
    tree: JsonTree,
    members: Map<Seq<char>, JsonTree>,
    name: Seq<char>,
    n: u64,
)
    ensures
        !(tree is Object) ==> tree.member(name) is None && tree.members() is None,
        JsonTree::Object(members).members() == Some(members),
        members.contains_key(name) ==> JsonTree::Object(members).member(name) == Some(
            members[name],
        ),
        !members.contains_key(name) ==> JsonTree::Object(members).member(name) is None,
        tree.unsigned() == Some(n) <==> tree == JsonTree::Int(n as int),
        tree.text() == Some(name) <==> tree == JsonTree::Text(name),
{
}

} // verus!

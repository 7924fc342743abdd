//! The names of an object in increasing order.

use crate::text;
use crate::text::{precedence, Precedence};
use vstd::prelude::*;

verus! {

/// Each string comes before those that follow it.
pub open spec fn increasing(names: Seq<Seq<char>>) -> bool {
    forall|i: int, j: int|
        0 <= i < j < names.len() ==> text::text_before(#[trigger] names[i], #[trigger] names[j])
}

/// The strings of a finite set in increasing order, each once.
pub open spec fn in_order(names: Set<Seq<char>>) -> Seq<Seq<char>> {
    choose|s: Seq<Seq<char>>| increasing(s) && s.to_set() == names
}

/// There is only one way to list a set of strings in increasing order.
pub proof fn lemma_increasing_unique(s: Seq<Seq<char>>, t: Seq<Seq<char>>)
    requires
        increasing(s),
        increasing(t),
        s.to_set() == t.to_set(),
    ensures
        s == t,
    decreases s.len(),
{
    if s.len() == 0 {
        if t.len() > 0 {
            assert(t.to_set().contains(t[0]));
            assert(s.to_set().contains(t[0]));
        }
        assert(s =~= t);
    } else {
        let a = s.last();
        assert(s.to_set().contains(a));
        assert(t.to_set().contains(a));
        let k = t.index_of(a);
        assert(t[k] == a && 0 <= k < t.len());
        let b = t.last();
        assert(t.to_set().contains(b));
        assert(s.to_set().contains(b));
        let l = s.index_of(b);
        assert(s[l] == b && 0 <= l < s.len());
        text::law_text_order(a, b, a);
        assert(a == b);
        let s1 = s.drop_last();
        let t1 = t.drop_last();
        assert forall|x: Seq<char>| s1.to_set().contains(x) <==> t1.to_set().contains(x) by {
            text::law_text_order(a, a, a);
            if s1.to_set().contains(x) {
                let i = s1.index_of(x);
                assert(s[i] == x);
                assert(s.to_set().contains(x));
                assert(t.to_set().contains(x));
                let j = t.index_of(x);
                assert(t[j] == x);
                assert(text::text_before(s[i], s[s.len() - 1]));
                assert(j < t1.len());
                assert(t1[j] == x);
            }
            if t1.to_set().contains(x) {
                let i = t1.index_of(x);
                assert(t[i] == x);
                assert(t.to_set().contains(x));
                assert(s.to_set().contains(x));
                let j = s.index_of(x);
                assert(s[j] == x);
                assert(text::text_before(t[i], t[t.len() - 1]));
                assert(j < s1.len());
                assert(s1[j] == x);
            }
        }
        assert(s1.to_set() =~= t1.to_set());
        lemma_increasing_unique(s1, t1);
        assert(s =~= s1.push(a));
        assert(t =~= t1.push(b));
    }
}

/// An increasing list of a set's strings is the list of them in order.
pub proof fn lemma_in_order(s: Seq<Seq<char>>)
    requires
        increasing(s),
    ensures
        in_order(s.to_set()) == s,
{
    let t = in_order(s.to_set());
    assert(increasing(t) && t.to_set() == s.to_set());
    lemma_increasing_unique(s, t);
}

/// An increasing list names nothing twice.
pub proof fn lemma_increasing_distinct(names: Seq<Seq<char>>)
    requires
        increasing(names),
    ensures
        names.no_duplicates(),
{
    assert forall|i: int, j: int| 0 <= i < names.len() && 0 <= j < names.len() && i
        != j implies names[i] != names[j] by {
        text::law_text_order(names[i], names[j], names[i]);
        if i < j {
            assert(text::text_before(names[i], names[j]));
        } else {
            assert(text::text_before(names[j], names[i]));
        }
    }
}

/// Puts a string into an increasing list.
spec fn inserted(s: Seq<Seq<char>>, x: Seq<char>) -> Seq<Seq<char>>
    decreases s.len(),
{
    if s.len() == 0 || text::text_before(s.last(), x) {
        s.push(x)
    } else {
        inserted(s.drop_last(), x).push(s.last())
    }
}

proof fn lemma_inserted(s: Seq<Seq<char>>, x: Seq<char>)
    requires
        increasing(s),
        !s.contains(x),
    ensures
        increasing(inserted(s, x)),
        forall|y: Seq<char>| #[trigger]
            inserted(s, x).contains(y) <==> s.contains(y) || y == x,
    decreases s.len(),
{
    let t = inserted(s, x);
    if s.len() == 0 || text::text_before(s.last(), x) {
        assert forall|i: int, j: int| 0 <= i < j < t.len() implies text::text_before(
            #[trigger] t[i],
            #[trigger] t[j],
        ) by {
            if j == s.len() && i < s.len() - 1 {
                text::law_text_order(s[i], s.last(), x);
            }
        }
        assert forall|y: Seq<char>| #[trigger] t.contains(y) <==> s.contains(y) || y == x by {
            if s.contains(y) {
                assert(t[s.index_of(y)] == y);
            }
            assert(t[s.len() as int] == x);
        }
    } else {
        let r = s.drop_last();
        let last = s.last();
        assert(!r.contains(x)) by {
            if r.contains(x) {
                assert(s[r.index_of(x)] == x);
            }
        }
        lemma_inserted(r, x);
        let u = inserted(r, x);
        assert(s[s.len() - 1] == last);
        assert(x != last);
        text::law_text_order(x, last, x);
        assert forall|i: int, j: int| 0 <= i < j < t.len() implies text::text_before(
            #[trigger] t[i],
            #[trigger] t[j],
        ) by {
            if j == u.len() {
                assert(u.contains(u[i]));
                if u[i] != x {
                    let k = r.index_of(u[i]);
                    assert(s[k] == u[i]);
                    assert(text::text_before(s[k], s[s.len() - 1]));
                }
            } else {
                assert(t[i] == u[i] && t[j] == u[j]);
            }
        }
        assert forall|y: Seq<char>| #[trigger] t.contains(y) <==> s.contains(y) || y == x by {
            if s.contains(y) {
                let k = s.index_of(y);
                if k < r.len() {
                    assert(r[k] == y);
                    assert(r.contains(y));
                    assert(u.contains(y));
                    assert(t[u.index_of(y)] == y);
                } else {
                    assert(t[u.len() as int] == y);
                }
            }
            if y == x {
                assert(u.contains(x));
                assert(t[u.index_of(x)] == x);
            }
            if t.contains(y) {
                let k = t.index_of(y);
                if k < u.len() {
                    assert(u[k] == y);
                    assert(u.contains(y));
                    if r.contains(y) {
                        assert(s[r.index_of(y)] == y);
                    }
                } else {
                    assert(y == last);
                }
            }
        }
    }
}

/// Every finite set of strings can be listed in increasing order.
pub proof fn lemma_in_order_lists(names: Set<Seq<char>>)
    requires
        names.finite(),
    ensures
        increasing(in_order(names)),
        in_order(names).to_set() == names,
    decreases names.len(),
{
    if names.len() == 0 {
        let none = Seq::<Seq<char>>::empty();
        assert(names =~= Set::empty());
        assert(none.to_set() =~= names);
        lemma_in_order(none);
    } else {
        let x = names.choose();
        let rest = names.remove(x);
        lemma_in_order_lists(rest);
        let s = in_order(rest);
        assert(!s.contains(x)) by {
            if s.contains(x) {
                assert(s.to_set().contains(x));
            }
        }
        lemma_inserted(s, x);
        let t = inserted(s, x);
        assert forall|y: Seq<char>| t.to_set().contains(y) <==> names.contains(y) by {
            assert(t.to_set().contains(y) <==> t.contains(y));
            assert(s.to_set().contains(y) <==> s.contains(y));
        }
        assert(t.to_set() =~= names);
        lemma_in_order(t);
    }
}

/// No entry from `p` up to `hi` has the name of the one at `p`.
pub open spec fn last_of_name<V>(entries: Seq<(String, V)>, p: int, hi: int) -> bool {
    forall|q: int| p < q < hi ==> (#[trigger] entries[q]).0@ != entries[p].0@
}

/// The names at the given positions.
pub open spec fn names_at<V>(entries: Seq<(String, V)>, positions: Seq<usize>) -> Seq<Seq<char>> {
    positions.map_values(|p: usize| entries[p as int].0@)
}

/// `positions` lists, in increasing order of the names, the last entry of each name that
/// occurs from `lo` up to `hi`.
pub open spec fn ordered_within<V>(
    entries: Seq<(String, V)>,
    lo: int,
    hi: int,
    positions: Seq<usize>,
) -> bool {
    &&& increasing(names_at(entries, positions))
    &&& forall|k: int| 0 <= k < positions.len() ==> lo <= #[trigger] positions[k] < hi
    &&& forall|k: int|
        0 <= k < positions.len() ==> last_of_name(entries, #[trigger] positions[k] as int, hi)
    &&& forall|q: int|
        lo <= q < hi ==> names_at(entries, positions).contains((#[trigger] entries[q]).0@)
}

/// Merges the ordered positions of two adjacent ranges; where both have a name, the later
/// range has it.
fn merge<V>(
    entries: &Vec<(String, V)>,
    Ghost(lo): Ghost<int>,
    Ghost(mid): Ghost<int>,
    Ghost(hi): Ghost<int>,
    a: &Vec<usize>,
    b: &Vec<usize>,
) -> (out: Vec<usize>)
    requires
        0 <= lo <= mid <= hi <= entries@.len(),
        ordered_within(entries@, lo, mid, a@),
        ordered_within(entries@, mid, hi, b@),
    ensures
        ordered_within(entries@, lo, hi, out@),
{
    let ghost e = entries@;
    let ghost na = names_at(e, a@);
    let ghost nb = names_at(e, b@);
    let mut out: Vec<usize> = Vec::new();
    let mut i: usize = 0;
    let mut j: usize = 0;
    while i < a.len() || j < b.len()
        invariant
            0 <= lo <= mid <= hi <= e.len(),
            e == entries@,
            na == names_at(e, a@),
            nb == names_at(e, b@),
            ordered_within(e, lo, mid, a@),
            ordered_within(e, mid, hi, b@),
            i <= a@.len(),
            j <= b@.len(),
            increasing(names_at(e, out@)),
            forall|k: int| 0 <= k < out@.len() ==> lo <= #[trigger] out@[k] < hi,
            forall|k: int|
                0 <= k < out@.len() ==> last_of_name(e, #[trigger] out@[k] as int, hi),
            forall|k: int| 0 <= k < i ==> names_at(e, out@).contains(#[trigger] na[k]),
            forall|k: int| 0 <= k < j ==> names_at(e, out@).contains(#[trigger] nb[k]),
            forall|k: int, l: int|
                0 <= k < out@.len() && i <= l < a@.len() ==> text::text_before(
                    #[trigger] names_at(e, out@)[k],
                    #[trigger] na[l],
                ),
            forall|k: int, l: int|
                0 <= k < out@.len() && j <= l < b@.len() ==> text::text_before(
                    #[trigger] names_at(e, out@)[k],
                    #[trigger] nb[l],
                ),
        decreases a.len() - i + b.len() - j,
    {
        let turn = if i >= a.len() {
            Precedence::After
        } else if j >= b.len() {
            Precedence::Before
        } else {
            precedence(entries[a[i]].0.as_str(), entries[b[j]].0.as_str())
        };
        let ghost before = out@;
        let ghost no = names_at(e, before);
        let ghost i0 = i as int;
        let ghost j0 = j as int;
        match turn {
            Precedence::Before => {
                out.push(a[i]);
                i += 1;
            },
            Precedence::Same => {
                out.push(b[j]);
                i += 1;
                j += 1;
            },
            Precedence::After => {
                out.push(b[j]);
                j += 1;
            },
        }
        proof {
            let p = out@.last() as int;
            let x = e[p].0@;
            let names = names_at(e, out@);
            assert(names =~= no.push(x));
            assert(turn is Before ==> x == na[i0]);
            assert(!(turn is Before) ==> x == nb[j0]);
            assert(turn is Same ==> x == na[i0]);
            assert forall|y: Seq<char>| no.contains(y) implies names.contains(y) by {
                assert(names[no.index_of(y)] == y);
            }
            assert(names[no.len() as int] == x);
            assert(names.contains(x));
            assert forall|k: int| 0 <= k < i implies names.contains(#[trigger] na[k]) by {
                if k < i0 {
                    assert(no.contains(na[k]));
                }
            }
            assert forall|k: int| 0 <= k < j implies names.contains(#[trigger] nb[k]) by {
                if k < j0 {
                    assert(no.contains(nb[k]));
                }
            }
            assert forall|l: int| i <= l < a@.len() implies text::text_before(x, #[trigger] na[l]) by {
                text::law_text_order(x, na[i0], na[l]);
            }
            assert forall|l: int| j <= l < b@.len() implies text::text_before(x, #[trigger] nb[l]) by {
                text::law_text_order(x, nb[j0], nb[l]);
            }
            assert forall|k: int| 0 <= k < no.len() implies text::text_before(#[trigger] no[k], x) by {}
            assert forall|k: int, l: int| 0 <= k < l < names.len() implies text::text_before(
                #[trigger] names[k],
                #[trigger] names[l],
            ) by {
                assert(names[k] == no[k]);
                if l < no.len() {
                    assert(names[l] == no[l]);
                }
            }
            assert forall|k: int, l: int| 0 <= k < names.len() && i <= l < a@.len() implies text::text_before(
                #[trigger] names[k],
                #[trigger] na[l],
            ) by {
                if k < no.len() {
                    assert(names[k] == no[k]);
                }
            }
            assert forall|k: int, l: int| 0 <= k < names.len() && j <= l < b@.len() implies text::text_before(
                #[trigger] names[k],
                #[trigger] nb[l],
            ) by {
                if k < no.len() {
                    assert(names[k] == no[k]);
                }
            }
            assert forall|q: int| p < q < hi implies (#[trigger] e[q]).0@ != x by {
                if turn is Before && q >= mid {
                    let m = nb.index_of(e[q].0@);
                    assert(nb.contains(e[q].0@));
                    assert(nb[m] == e[q].0@);
                    text::law_text_order(x, x, x);
                    if m < j0 {
                        assert(no.contains(nb[m]));
                        let n = no.index_of(nb[m]);
                        assert(text::text_before(no[n], x));
                    } else {
                        assert(text::text_before(x, nb[m]));
                    }
                }
            }
            assert(last_of_name(e, p, hi));
            assert forall|k: int| 0 <= k < out@.len() implies last_of_name(
                e,
                #[trigger] out@[k] as int,
                hi,
            ) by {
                if k < before.len() {
                    assert(out@[k] == before[k]);
                }
            }
        }
    }
    proof {
        assert forall|q: int| lo <= q < hi implies names_at(e, out@).contains((#[trigger] e[q]).0@) by {
            if q < mid {
                let k = na.index_of(e[q].0@);
                assert(na[k] == e[q].0@);
            } else {
                let k = nb.index_of(e[q].0@);
                assert(nb[k] == e[q].0@);
            }
        }
    }
    out
}

/// Orders the entries from `lo` up to `hi`.
fn order_range<V>(entries: &Vec<(String, V)>, lo: usize, hi: usize) -> (positions: Vec<usize>)
    requires
        lo <= hi <= entries@.len(),
    ensures
        ordered_within(entries@, lo as int, hi as int, positions@),
    decreases hi - lo,
{
    if hi - lo == 0 {
        Vec::new()
    } else if hi - lo == 1 {
        let mut positions: Vec<usize> = Vec::new();
        positions.push(lo);
        assert(names_at(entries@, positions@)[0] == entries@[lo as int].0@);
        positions
    } else {
        let mid: usize = lo + (hi - lo) / 2;
        let a = order_range(entries, lo, mid);
        let b = order_range(entries, mid, hi);
        merge(entries, Ghost(lo as int), Ghost(mid as int), Ghost(hi as int), &a, &b)
    }
}

/// The positions of the entries that count, in increasing order of their names: of entries
/// with one name, the last.
pub fn ordered_positions<V>(entries: &Vec<(String, V)>) -> (positions: Vec<usize>)
    ensures
        ordered_within(entries@, 0, entries@.len() as int, positions@),
{
    order_range(entries, 0, entries.len())
}

/// The position of the entry that counts for a name, among the ordered positions.
pub fn find_ordered<V>(entries: &Vec<(String, V)>, positions: &Vec<usize>, name: &str) -> (r:
    Option<usize>)
    requires
        ordered_within(entries@, 0, entries@.len() as int, positions@),
    ensures
        match r {
            Some(p) => {
                &&& p < entries@.len()
                &&& entries@[p as int].0@ == name@
                &&& last_of_name(entries@, p as int, entries@.len() as int)
            },
            None => forall|q: int|
                0 <= q < entries@.len() ==> (#[trigger] entries@[q]).0@ != name@,
        },
{
    let ghost e = entries@;
    let ghost names = names_at(e, positions@);
    let mut lo: usize = 0;
    let mut hi: usize = positions.len();
    while lo < hi
        invariant
            e == entries@,
            names == names_at(e, positions@),
            ordered_within(e, 0, e.len() as int, positions@),
            lo <= hi <= positions@.len(),
            forall|k: int| 0 <= k < lo ==> text::text_before(#[trigger] names[k], name@),
            forall|k: int| hi <= k < names.len() ==> text::text_before(name@, #[trigger] names[k]),
        decreases hi - lo,
    {
        let mid: usize = lo + (hi - lo) / 2;
        let p: usize = positions[mid];
        assert(names[mid as int] == e[p as int].0@);
        match precedence(entries[p].0.as_str(), name) {
            Precedence::Before => {
                assert forall|k: int| 0 <= k < mid + 1 implies text::text_before(
                    #[trigger] names[k],
                    name@,
                ) by {
                    text::law_text_order(names[k], names[mid as int], name@);
                }
                lo = mid + 1;
            },
            Precedence::Same => {
                return Some(p);
            },
            Precedence::After => {
                assert forall|k: int| mid <= k < names.len() implies text::text_before(
                    name@,
                    #[trigger] names[k],
                ) by {
                    text::law_text_order(name@, names[mid as int], names[k]);
                }
                hi = mid;
            },
        }
    }
    proof {
        assert forall|q: int| 0 <= q < e.len() implies (#[trigger] e[q]).0@ != name@ by {
            assert(names.contains(e[q].0@));
            let k = names.index_of(e[q].0@);
            assert(names[k] == e[q].0@);
            text::law_text_order(name@, name@, name@);
        }
    }
    None
}

/// Ordered positions name every name of the entries once, by the last entry that has it, and in
/// increasing order.
pub proof fn law_ordered_positions<V>(
    entries: Seq<(String, V)>,
    positions: Seq<usize>,
    p: int,
    i: int,
    j: int,
)
    requires
        ordered_within(entries, 0, entries.len() as int, positions),
        0 <= p < entries.len(),
    ensures
        (forall|q: int| p < q < entries.len() ==> (#[trigger] entries[q]).0@ != entries[p].0@)
            <==> exists|k: int| 0 <= k < positions.len() && #[trigger] positions[k] == p,
        0 <= i < j < positions.len() ==> text::text_before(
            entries[positions[i] as int].0@,
            entries[positions[j] as int].0@,
        ),
        0 <= i < positions.len() ==> positions[i] < entries.len(),
{
    let names = names_at(entries, positions);
    if forall|q: int| p < q < entries.len() ==> (#[trigger] entries[q]).0@ != entries[p].0@ {
        assert(names.contains(entries[p].0@));
        let k = names.index_of(entries[p].0@);
        assert(names[k] == entries[p].0@);
        let r = positions[k] as int;
        assert(last_of_name(entries, positions[k] as int, entries.len() as int));
        assert(entries[r].0@ == entries[p].0@);
        if r < p {
            assert(entries[p].0@ != entries[r].0@);
        }
        assert(r == p);
    }
    if exists|k: int| 0 <= k < positions.len() && #[trigger] positions[k] == p {
        let k = choose|k: int| 0 <= k < positions.len() && #[trigger] positions[k] == p;
        assert(last_of_name(entries, positions[k] as int, entries.len() as int));
    }
    if 0 <= i < j < positions.len() {
        assert(text::text_before(names[i], names[j]));
    }
}

} // verus!

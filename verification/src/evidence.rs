//! What holds of every graph: it keeps the evidence of its document, whatever the order in
//! which the document lists it.

use crate::graph;
use crate::json;
use crate::json::{Json, JsonTree};
use crate::order;
use crate::rustdoc;
use crate::text;
use vstd::prelude::*;

verus! {

/// One text stands somewhere in another.
pub open spec fn occurs(part: Seq<char>, whole: Seq<char>) -> bool {
    exists|before: Seq<char>, after: Seq<char>| whole == #[trigger] (before + part + after)
}

proof fn lemma_occurs(before: Seq<char>, part: Seq<char>, after: Seq<char>)
    ensures
        occurs(part, before + part + after),
{
}

/// What stands in a text stands in a longer one.
proof fn lemma_occurs_within(
    part: Seq<char>,
    whole: Seq<char>,
    before: Seq<char>,
    after: Seq<char>,
)
    requires
        occurs(part, whole),
    ensures
        occurs(part, before + whole + after),
{
    let (b, a) = choose|b: Seq<char>, a: Seq<char>| whole == #[trigger] (b + part + a);
    assert(before + whole + after =~= (before + b) + part + (a + after));
}

proof fn lemma_item_occurs(
    document: JsonTree,
    revision: Seq<char>,
    index: Map<Seq<char>, JsonTree>,
    ids: Seq<Seq<char>>,
    k: int,
)
    requires
        0 <= k < ids.len(),
        index[ids[k]] is Object,
    ensures
        occurs(
            graph::item_statements(document, revision, ids[k], index[ids[k]]),
            graph::items_statements(document, revision, index, ids),
        ),
        occurs(
            graph::docs_statements(revision, ids[k], index[ids[k]]),
            graph::items_docs(revision, index, ids),
        ),
    decreases ids.len(),
{
    let statements = graph::item_statements(document, revision, ids[k], index[ids[k]]);
    let docs = graph::docs_statements(revision, ids[k], index[ids[k]]);
    let rest = ids.drop_last();
    let before = graph::items_statements(document, revision, index, rest);
    let docs_before = graph::items_docs(revision, index, rest);
    let nothing = Seq::<char>::empty();
    if k == ids.len() - 1 {
        lemma_occurs(before, statements, nothing);
        lemma_occurs(docs_before, docs, nothing);
        text::lemma_join_nothing(before + statements);
        text::lemma_join_nothing(docs_before + docs);
    } else {
        lemma_item_occurs(document, revision, index, rest, k);
        let last = index[ids.last()];
        let added = if last is Object {
            graph::item_statements(document, revision, ids.last(), last)
        } else {
            nothing
        };
        let docs_added = if last is Object {
            graph::docs_statements(revision, ids.last(), last)
        } else {
            nothing
        };
        lemma_occurs_within(statements, before, nothing, added);
        lemma_occurs_within(docs, docs_before, nothing, docs_added);
        lemma_nothing_before(before, added);
        lemma_nothing_before(docs_before, docs_added);
        text::lemma_join_nothing(before);
        text::lemma_join_nothing(docs_before);
    }
}

proof fn lemma_nothing_before(a: Seq<char>, b: Seq<char>)
    ensures
        Seq::<char>::empty() + a + b == a + b,
{
    assert(Seq::<char>::empty() + a + b =~= a + b);
}

/// The statements of both graphs stand in the text of the whole.
proof fn lemma_graphs_occur(document: JsonTree, repository: Seq<char>, revision: Seq<char>)
    ensures
        occurs(
            graph::source_statements(document, repository, revision),
            graph::graph_text(document, repository, revision),
        ),
        occurs(
            graph::documentation_statements(document, revision),
            graph::graph_text(document, repository, revision),
        ),
{
    let source = graph::source_statements(document, repository, revision);
    let docs = graph::documentation_statements(document, revision);
    let head = "@prefix sdoc: <"@ + graph::SDOC@
        + "> .\n@prefix prov: <http://www.w3.org/ns/prov#> .\n@prefix dct: <http://purl.org/dc/terms/> .\n@prefix rdf: <http://www.w3.org/1999/02/22-rdf-syntax-ns#> .\n@prefix xsd: <http://www.w3.org/2001/XMLSchema#> .\n\n<"@
        + graph::source_graph_iri(revision) + "> {\n"@;
    let middle = head + source + "}\n\n<"@ + graph::docs_graph_iri(revision) + "> {\n"@;
    lemma_occurs(middle, docs, "}\n"@);
    lemma_regroup(
        head,
        source,
        "}\n\n<"@,
        graph::docs_graph_iri(revision),
        "> {\n"@,
        docs,
        "}\n"@,
    );
    lemma_occurs(
        head,
        source,
        "}\n\n<"@ + graph::docs_graph_iri(revision) + "> {\n"@ + docs + "}\n"@,
    );
}

proof fn lemma_regroup(
    a: Seq<char>,
    b: Seq<char>,
    c: Seq<char>,
    d: Seq<char>,
    e: Seq<char>,
    f: Seq<char>,
    g: Seq<char>,
)
    ensures
        a + b + c + d + e + f + g == a + b + (c + d + e + f + g),
{
    assert(a + b + c + d + e + f + g =~= a + b + (c + d + e + f + g));
}

proof fn lemma_occurs_transitive(part: Seq<char>, inner: Seq<char>, whole: Seq<char>)
    requires
        occurs(part, inner),
        occurs(inner, whole),
    ensures
        occurs(part, whole),
{
    let (b, a) = choose|b: Seq<char>, a: Seq<char>| whole == #[trigger] (b + inner + a);
    lemma_occurs_within(part, inner, b, a);
}

/// Every item of a document is in its graph: all that is to be said of the item, and its
/// documentation, where it has any.
pub proof fn law_every_item_is_kept(
    document: Json,
    repository: Seq<char>,
    revision: Seq<char>,
    id: Seq<char>,
)
    requires
        graph::index_of(document@) is Some,
        graph::index_of(document@)->0.contains_key(id),
        graph::index_of(document@)->0[id] is Object,
    ensures
        occurs(
            graph::item_statements(document@, revision, id, graph::index_of(document@)->0[id]),
            graph::graph_text(document@, repository, revision),
        ),
        occurs(
            graph::docs_statements(revision, id, graph::index_of(document@)->0[id]),
            graph::graph_text(document@, repository, revision),
        ),
{
    let tree = document@;
    let index = graph::index_of(tree)->0;
    let ids = order::in_order(index.dom());
    json::lemma_member_finite(document, "index"@);
    order::lemma_in_order_lists(index.dom());
    assert(ids.to_set().contains(id));
    let k = ids.index_of(id);
    assert(ids[k] == id);
    lemma_item_occurs(tree, revision, index, ids, k);
    let nothing = Seq::<char>::empty();
    let statements = graph::item_statements(tree, revision, id, index[id]);
    let items = graph::items_statements(tree, revision, index, ids);
    let head = graph::revision_statements(repository, revision) + graph::dataset_statements(
        repository,
        revision,
        graph::format_version_of(tree)->0,
    ) + graph::root_statements(tree, revision);
    lemma_occurs_within(statements, items, head, nothing);
    text::lemma_join_nothing(head + items);
    let docs = graph::docs_statements(revision, id, index[id]);
    let all_docs = graph::items_docs(revision, index, ids);
    let docs_head =
        "  sdoc:RustdocMarkdown a sdoc:DocumentationKind ; sdoc:grantsDoAuthority false .\n"@;
    lemma_occurs_within(docs, all_docs, docs_head, nothing);
    text::lemma_join_nothing(docs_head + all_docs);
    lemma_graphs_occur(tree, repository, revision);
    lemma_occurs_transitive(
        statements,
        graph::source_statements(tree, repository, revision),
        graph::graph_text(tree, repository, revision),
    );
    lemma_occurs_transitive(
        docs,
        graph::documentation_statements(tree, revision),
        graph::graph_text(tree, repository, revision),
    );
}

proof fn lemma_link_occurs(
    revision: Seq<char>,
    id: Seq<char>,
    links: Map<Seq<char>, JsonTree>,
    labels: Seq<Seq<char>>,
    k: int,
)
    requires
        0 <= k < labels.len(),
    ensures
        occurs(
            graph::link_statements(revision, id, labels[k], links[labels[k]]),
            graph::links_statements(revision, id, links, labels),
        ),
    decreases labels.len(),
{
    let part = graph::link_statements(revision, id, labels[k], links[labels[k]]);
    let before = graph::links_statements(revision, id, links, labels.drop_last());
    let added = graph::link_statements(revision, id, labels.last(), links[labels.last()]);
    let nothing = Seq::<char>::empty();
    if k == labels.len() - 1 {
        lemma_occurs(before, part, nothing);
        text::lemma_join_nothing(before + part);
    } else {
        lemma_link_occurs(revision, id, links, labels.drop_last(), k);
        lemma_occurs_within(part, before, nothing, added);
        lemma_nothing_before(before, added);
    }
}

/// The item with the given id is what some value says.
proof fn lemma_item_value(document: Json, id: Seq<char>) -> (item: Json)
    requires
        graph::index_of(document@) is Some,
        graph::index_of(document@)->0.contains_key(id),
    ensures
        graph::index_of(document@)->0[id] == item@,
{
    let index = json::lemma_member_value(document, "index"@);
    json::lemma_member_value(index, id)
}

/// Every link of every item's documentation is in the graph; what is to be said of it is nothing
/// only where it has no target.
pub proof fn law_every_link_is_kept(
    document: Json,
    repository: Seq<char>,
    revision: Seq<char>,
    id: Seq<char>,
    label: Seq<char>,
)
    requires
        graph::index_of(document@) is Some,
        graph::index_of(document@)->0.contains_key(id),
        graph::index_of(document@)->0[id] is Object,
        graph::item_links(graph::index_of(document@)->0[id]).contains_key(label),
    ensures
        ({
            let links = graph::item_links(graph::index_of(document@)->0[id]);
            occurs(
                graph::link_statements(revision, id, label, links[label]),
                graph::graph_text(document@, repository, revision),
            )
        }),
{
    let tree = document@;
    let item = graph::index_of(tree)->0[id];
    let links = graph::item_links(item);
    let labels = order::in_order(links.dom());
    let value = lemma_item_value(document, id);
    json::lemma_member_finite(value, "links"@);
    order::lemma_in_order_lists(links.dom());
    assert(labels.to_set().contains(label));
    let k = labels.index_of(label);
    assert(labels[k] == label);
    lemma_link_occurs(revision, id, links, labels, k);
    let part = graph::link_statements(revision, id, label, links[label]);
    let all = graph::links_statements(revision, id, links, labels);
    let head = graph::item_properties(tree, revision, id, item) + graph::span_statements(
        revision,
        id,
        item,
    );
    lemma_occurs_within(part, all, head, Seq::empty());
    text::lemma_join_nothing(head + all);
    law_every_item_is_kept(document, repository, revision, id);
    lemma_occurs_transitive(
        part,
        graph::item_statements(tree, revision, id, item),
        graph::graph_text(tree, repository, revision),
    );
}

/// What the graph says of every subject: that it grants no authority.
pub open spec fn denial() -> Seq<char> {
    "sdoc:grantsDoAuthority false"@
}

/// The word stands at a position, from its `j`-th character on.
spec fn stands(word: Seq<char>, text: Seq<char>, k: int, j: int) -> bool
    decreases word.len() - j,
{
    j >= word.len() || k + j < text.len() && text[k + j] == word[j] && stands(word, text, k, j + 1)
}

proof fn lemma_stands(word: Seq<char>, text: Seq<char>, k: int, j: int)
    requires
        0 <= j,
        stands(word, text, k, j),
    ensures
        j < word.len() ==> k + word.len() <= text.len(),
        forall|i: int| j <= i < word.len() ==> text[k + i] == #[trigger] word[i],
    decreases word.len() - j,
{
    if j < word.len() {
        lemma_stands(word, text, k, j + 1);
    }
}

proof fn lemma_stands_occurs(word: Seq<char>, text: Seq<char>, k: int)
    requires
        0 <= k,
        word.len() > 0,
        stands(word, text, k, 0),
    ensures
        occurs(word, text),
{
    lemma_stands(word, text, k, 0);
    let n = word.len() as int;
    assert(text =~= text.take(k) + word + text.skip(k + n));
}

#[verifier::opaque]
spec fn denies(text: Seq<char>) -> bool {
    occurs(denial(), text)
}

broadcast proof fn lemma_denies_join(a: Seq<char>, b: Seq<char>)
    requires
        denies(a) || denies(b),
    ensures
        denies(#[trigger] (a + b)),
{
    reveal(denies);
    let nothing = Seq::<char>::empty();
    if denies(a) {
        lemma_occurs_within(denial(), a, nothing, b);
        lemma_nothing_before(a, b);
    } else {
        lemma_occurs_within(denial(), b, a, nothing);
        text::lemma_join_nothing(a + b);
    }
}

proof fn lemma_words_deny()
    ensures
        denies(" ;\n    sdoc:grantsDoAuthority false .\n\n"@),
        denies("> ;\n    sdoc:grantsDoAuthority false .\n"@),
        denies("    sdoc:grantsDoAuthority false .\n"@),
        denies(" ;\n    sdoc:grantsDoAuthority false .\n  <"@),
        denies(" ; sdoc:grantsDoAuthority false .\n"@),
        denies("> ;\n    sdoc:grantsDoAuthority false .\n  <"@),
{
    assert(denies(" ;\n    sdoc:grantsDoAuthority false .\n\n"@)) by {
        reveal(denies);
        reveal_strlit("sdoc:grantsDoAuthority false");
        reveal_strlit(" ;\n    sdoc:grantsDoAuthority false .\n\n");
        reveal_with_fuel(stands, 29);
        lemma_stands_occurs(denial(), " ;\n    sdoc:grantsDoAuthority false .\n\n"@, 7);
    }
    assert(denies("> ;\n    sdoc:grantsDoAuthority false .\n"@)) by {
        reveal(denies);
        reveal_strlit("sdoc:grantsDoAuthority false");
        reveal_strlit("> ;\n    sdoc:grantsDoAuthority false .\n");
        reveal_with_fuel(stands, 29);
        lemma_stands_occurs(denial(), "> ;\n    sdoc:grantsDoAuthority false .\n"@, 8);
    }
    assert(denies("    sdoc:grantsDoAuthority false .\n"@)) by {
        reveal(denies);
        reveal_strlit("sdoc:grantsDoAuthority false");
        reveal_strlit("    sdoc:grantsDoAuthority false .\n");
        reveal_with_fuel(stands, 29);
        lemma_stands_occurs(denial(), "    sdoc:grantsDoAuthority false .\n"@, 4);
    }
    assert(denies(" ;\n    sdoc:grantsDoAuthority false .\n  <"@)) by {
        reveal(denies);
        reveal_strlit("sdoc:grantsDoAuthority false");
        reveal_strlit(" ;\n    sdoc:grantsDoAuthority false .\n  <");
        reveal_with_fuel(stands, 29);
        lemma_stands_occurs(denial(), " ;\n    sdoc:grantsDoAuthority false .\n  <"@, 7);
    }
    assert(denies(" ; sdoc:grantsDoAuthority false .\n"@)) by {
        reveal(denies);
        reveal_strlit("sdoc:grantsDoAuthority false");
        reveal_strlit(" ; sdoc:grantsDoAuthority false .\n");
        reveal_with_fuel(stands, 29);
        lemma_stands_occurs(denial(), " ; sdoc:grantsDoAuthority false .\n"@, 3);
    }
    assert(denies("> ;\n    sdoc:grantsDoAuthority false .\n  <"@)) by {
        reveal(denies);
        reveal_strlit("sdoc:grantsDoAuthority false");
        reveal_strlit("> ;\n    sdoc:grantsDoAuthority false .\n  <");
        reveal_with_fuel(stands, 29);
        lemma_stands_occurs(denial(), "> ;\n    sdoc:grantsDoAuthority false .\n  <"@, 8);
    }
}

/// Whatever a graph says of the revision, the dataset, an item, a place in the source, a link or
/// a documentation fragment, it says with it that no authority is granted.
pub proof fn law_every_subject_is_denied_authority(
    document: JsonTree,
    repository: Seq<char>,
    revision: Seq<char>,
    version: u64,
    id: Seq<char>,
    item: JsonTree,
    label: Seq<char>,
    target: JsonTree,
)
    ensures
        occurs(denial(), graph::revision_statements(repository, revision)),
        occurs(denial(), graph::dataset_statements(repository, revision, version)),
        occurs(denial(), graph::item_properties(document, revision, id, item)),
        graph::has_span(item) ==> occurs(denial(), graph::span_statements(revision, id, item)),
        rustdoc::has_text(target) ==> occurs(
            denial(),
            graph::link_statements(revision, id, label, target),
        ),
        graph::is_documented(item) ==> occurs(
            denial(),
            graph::docs_statements(revision, id, item),
        ),
{
    broadcast use lemma_denies_join;

    lemma_words_deny();
    assert(denies(graph::revision_statements(repository, revision)));
    assert(denies(graph::dataset_statements(repository, revision, version)));
    assert(denies(graph::item_properties(document, revision, id, item)));
    assert(graph::has_span(item) ==> denies(graph::span_statements(revision, id, item)));
    assert(rustdoc::has_text(target) ==> denies(
        graph::link_statements(revision, id, label, target),
    ));
    assert(graph::is_documented(item) ==> denies(graph::docs_statements(revision, id, item)));
    reveal(denies);
}

/// The two items say the same, their documentation aside.
pub open spec fn same_but_for_docs(item: JsonTree, other: JsonTree) -> bool {
    &&& item is Object <==> other is Object
    &&& forall|name: Seq<char>|
        name != "docs"@ ==> #[trigger] item.member(name) == other.member(name)
}

proof fn lemma_item_without_docs(
    document: JsonTree,
    other: JsonTree,
    revision: Seq<char>,
    id: Seq<char>,
    item: JsonTree,
    other_item: JsonTree,
)
    requires
        document.member("paths"@) == other.member("paths"@),
        same_but_for_docs(item, other_item),
    ensures
        graph::item_statements(document, revision, id, item) == graph::item_statements(
            other,
            revision,
            id,
            other_item,
        ),
{
    reveal_strlit("docs");
    reveal_strlit("name");
    reveal_strlit("inner");
    reveal_strlit("visibility");
    reveal_strlit("span");
    reveal_strlit("links");
    assert("name"@[0] == 'n' && "docs"@[0] == 'd' && "span"@[0] == 's');
    assert(item.member("name"@) == other_item.member("name"@));
    assert(item.member("inner"@) == other_item.member("inner"@));
    assert(item.member("visibility"@) == other_item.member("visibility"@));
    assert(item.member("span"@) == other_item.member("span"@));
    assert(item.member("links"@) == other_item.member("links"@));
}

proof fn lemma_items_without_docs(
    document: JsonTree,
    other: JsonTree,
    revision: Seq<char>,
    index: Map<Seq<char>, JsonTree>,
    other_index: Map<Seq<char>, JsonTree>,
    ids: Seq<Seq<char>>,
)
    requires
        document.member("paths"@) == other.member("paths"@),
        forall|k: int|
            0 <= k < ids.len() ==> same_but_for_docs(
                index[#[trigger] ids[k]],
                other_index[ids[k]],
            ),
    ensures
        graph::items_statements(document, revision, index, ids) == graph::items_statements(
            other,
            revision,
            other_index,
            ids,
        ),
    decreases ids.len(),
{
    if ids.len() > 0 {
        let last = ids[ids.len() - 1];
        assert forall|k: int| 0 <= k < ids.drop_last().len() implies same_but_for_docs(
            index[#[trigger] ids.drop_last()[k]],
            other_index[ids.drop_last()[k]],
        ) by {
            assert(ids.drop_last()[k] == ids[k]);
        }
        lemma_items_without_docs(document, other, revision, index, other_index, ids.drop_last());
        lemma_item_without_docs(
            document,
            other,
            revision,
            last,
            index[last],
            other_index[last],
        );
    }
}

/// Documentation reaches only the graph of its own: two documents whose items differ in their
/// documentation alone have the same source graph.
pub proof fn law_documentation_stays_in_its_graph(
    document: Json,
    other: Json,
    repository: Seq<char>,
    revision: Seq<char>,
)
    requires
        graph::index_of(document@) is Some,
        graph::index_of(other@) is Some,
        graph::index_of(document@)->0.dom() == graph::index_of(other@)->0.dom(),
        forall|id: Seq<char>| #[trigger]
            graph::index_of(document@)->0.contains_key(id) ==> same_but_for_docs(
                graph::index_of(document@)->0[id],
                graph::index_of(other@)->0[id],
            ),
        forall|name: Seq<char>|
            name != "index"@ ==> #[trigger] document@.member(name) == other@.member(name),
    ensures
        graph::source_statements(document@, repository, revision) == graph::source_statements(
            other@,
            repository,
            revision,
        ),
{
    let index = graph::index_of(document@)->0;
    let other_index = graph::index_of(other@)->0;
    let ids = order::in_order(index.dom());
    json::lemma_member_finite(document, "index"@);
    order::lemma_in_order_lists(index.dom());
    reveal_strlit("index");
    reveal_strlit("format_version");
    reveal_strlit("root");
    reveal_strlit("paths");
    assert("index"@[0] == 'i' && "paths"@[0] == 'p' && "root"@[0] == 'r');
    assert("format_version"@[0] == 'f');
    assert(document@.member("format_version"@) == other@.member("format_version"@));
    assert(document@.member("root"@) == other@.member("root"@));
    assert(document@.member("paths"@) == other@.member("paths"@));
    assert forall|k: int| 0 <= k < ids.len() implies same_but_for_docs(
        index[#[trigger] ids[k]],
        other_index[ids[k]],
    ) by {
        assert(ids.to_set().contains(ids[k]));
        assert(index.contains_key(ids[k]));
    }
    lemma_items_without_docs(document@, other@, revision, index, other_index, ids);
}

/// Two documents that say the same have the same graph under the same revision and repository.
pub proof fn law_same_document_same_graph(
    document: Json,
    other: Json,
    repository: Seq<char>,
    revision: Seq<char>,
)
    requires
        document@ == other@,
    ensures
        graph::compiled(document@, repository, revision) == graph::compiled(
            other@,
            repository,
            revision,
        ),
{
}

/// The graph does not depend on the order in which the document lists its members.
pub proof fn law_member_order_does_not_matter(
    entries: Vec<(String, Json)>,
    reordered: Vec<(String, Json)>,
    repository: Seq<char>,
    revision: Seq<char>,
)
    requires
        entries@.to_multiset() == reordered@.to_multiset(),
        forall|p: int, q: int|
            0 <= p < q < entries@.len() ==> (#[trigger] entries@[p]).0@ != (
            #[trigger] entries@[q]).0@,
    ensures
        graph::compiled(Json::Object(entries)@, repository, revision) == graph::compiled(
            Json::Object(reordered)@,
            repository,
            revision,
        ),
{
    json::law_member_order_says_nothing(entries@, reordered@);
}

/// Two values are the same object where they have the same members.
proof fn lemma_same_members(a: JsonTree, b: JsonTree)
    requires
        a is Object,
        b is Object,
        forall|name: Seq<char>| #[trigger] a.member(name) == b.member(name),
    ensures
        a == b,
{
    let m = a->Object_0;
    let n = b->Object_0;
    assert forall|name: Seq<char>| m.contains_key(name) <==> n.contains_key(name) by {
        assert(a.member(name) == b.member(name));
    }
    assert forall|name: Seq<char>| m.contains_key(name) implies m[name] == n[name] by {
        assert(a.member(name) == b.member(name));
    }
    assert(m =~= n);
}

/// The two values have the same members, but for the order in which the object under one name
/// lists its own, none of them twice.
pub open spec fn differ_in_order(
    a: JsonTree,
    b: JsonTree,
    name: Seq<char>,
    entries: Seq<(String, Json)>,
    reordered: Seq<(String, Json)>,
) -> bool {
    &&& a.member(name) == Some(JsonTree::Object(json::map_of(entries)))
    &&& b.member(name) == Some(JsonTree::Object(json::map_of(reordered)))
    &&& entries.to_multiset() == reordered.to_multiset()
    &&& forall|p: int, q: int|
        0 <= p < q < entries.len() ==> (#[trigger] entries[p]).0@ != (#[trigger] entries[q]).0@
    &&& forall|other: Seq<char>| other != name ==> #[trigger] a.member(other) == b.member(other)
}

proof fn lemma_order_says_nothing(
    a: JsonTree,
    b: JsonTree,
    name: Seq<char>,
    entries: Seq<(String, Json)>,
    reordered: Seq<(String, Json)>,
)
    requires
        differ_in_order(a, b, name, entries, reordered),
    ensures
        a == b,
{
    json::law_member_order_says_nothing(entries, reordered);
    assert forall|other: Seq<char>| #[trigger] a.member(other) == b.member(other) by {}
    lemma_same_members(a, b);
}

/// Nor does it depend on the order in which an object inside the document, such as its index or
/// its paths, lists what it holds.
pub proof fn law_nested_order_does_not_matter(
    document: Json,
    other: Json,
    name: Seq<char>,
    entries: Seq<(String, Json)>,
    reordered: Seq<(String, Json)>,
    repository: Seq<char>,
    revision: Seq<char>,
)
    requires
        differ_in_order(document@, other@, name, entries, reordered),
    ensures
        graph::compiled(document@, repository, revision) == graph::compiled(
            other@,
            repository,
            revision,
        ),
{
    lemma_order_says_nothing(document@, other@, name, entries, reordered);
}

/// Nor on the order in which an item lists its links: two documents that differ in that alone
/// have the same graph.
pub proof fn law_link_order_does_not_matter(
    document: Json,
    other: Json,
    id: Seq<char>,
    links: Seq<(String, Json)>,
    reordered: Seq<(String, Json)>,
    repository: Seq<char>,
    revision: Seq<char>,
)
    requires
        graph::index_of(document@) is Some,
        graph::index_of(other@) is Some,
        graph::index_of(document@)->0.contains_key(id),
        graph::index_of(other@)->0.contains_key(id),
        differ_in_order(
            graph::index_of(document@)->0[id],
            graph::index_of(other@)->0[id],
            "links"@,
            links,
            reordered,
        ),
        graph::index_of(document@)->0.remove(id) == graph::index_of(other@)->0.remove(id),
        forall|name: Seq<char>|
            name != "index"@ ==> #[trigger] document@.member(name) == other@.member(name),
    ensures
        graph::compiled(document@, repository, revision) == graph::compiled(
            other@,
            repository,
            revision,
        ),
{
    let a = graph::index_of(document@)->0;
    let b = graph::index_of(other@)->0;
    lemma_order_says_nothing(a[id], b[id], "links"@, links, reordered);
    assert(a =~= a.remove(id).insert(id, a[id]));
    assert(b =~= b.remove(id).insert(id, b[id]));
    assert forall|name: Seq<char>| #[trigger] document@.member(name) == other@.member(name) by {}
    lemma_same_members(document@, other@);
}

/// A list that names nothing twice has its last element only there.
proof fn lemma_last_of_distinct(list: Seq<Seq<char>>)
    requires
        list.len() > 0,
        list.no_duplicates(),
    ensures
        list.drop_last().no_duplicates(),
        !list.drop_last().to_set().contains(list.last()),
        forall|x: Seq<char>| #[trigger]
            list.to_set().contains(x) <==> list.drop_last().to_set().contains(x) || x
                == list.last(),
{
    let rest = list.drop_last();
    let last = list.last();
    assert(!rest.contains(last)) by {
        if rest.contains(last) {
            assert(list[rest.index_of(last)] == list[list.len() - 1]);
        }
    }
    assert forall|x: Seq<char>| #[trigger] list.to_set().contains(x) <==> rest.to_set().contains(x)
        || x == last by {
        if list.contains(x) && x != last {
            assert(rest[list.index_of(x)] == x);
        }
        if rest.contains(x) {
            assert(list[rest.index_of(x)] == x);
        }
        assert(list[list.len() - 1] == last);
    }
}

proof fn lemma_total_counts(
    index: Map<Seq<char>, JsonTree>,
    ids: Seq<Seq<char>>,
    count: spec_fn(JsonTree) -> nat,
    counted: spec_fn(Seq<char>) -> bool,
)
    requires
        ids.no_duplicates(),
        forall|id: Seq<char>| #[trigger]
            counted(id) <==> index[id] is Object && count(index[id]) == 1,
        forall|id: Seq<char>| count(#[trigger] index[id]) == 0 || count(index[id]) == 1,
    ensures
        graph::total(index, ids, count) == ids.to_set().filter(counted).len(),
    decreases ids.len(),
{
    broadcast use vstd::seq_lib::seq_to_set_is_finite;

    if ids.len() == 0 {
        assert(ids.to_set().filter(counted) =~= Set::empty());
    } else {
        let rest = ids.drop_last();
        let last = ids.last();
        lemma_total_counts(index, rest, count, counted);
        let before = rest.to_set().filter(counted);
        let after = ids.to_set().filter(counted);
        lemma_last_of_distinct(ids);
        if counted(last) {
            assert(after =~= before.insert(last));
        } else {
            assert(after =~= before);
        }
    }
}

proof fn lemma_references_count(
    links: Map<Seq<char>, JsonTree>,
    labels: Seq<Seq<char>>,
    counted: spec_fn(Seq<char>) -> bool,
)
    requires
        labels.no_duplicates(),
        forall|label: Seq<char>| #[trigger]
            counted(label) <==> rustdoc::has_text(links[label]),
    ensures
        graph::reference_total(links, labels) == labels.to_set().filter(counted).len(),
    decreases labels.len(),
{
    broadcast use vstd::seq_lib::seq_to_set_is_finite;

    if labels.len() == 0 {
        assert(labels.to_set().filter(counted) =~= Set::empty());
    } else {
        let rest = labels.drop_last();
        let last = labels.last();
        lemma_references_count(links, rest, counted);
        lemma_last_of_distinct(labels);
        let before = rest.to_set().filter(counted);
        let after = labels.to_set().filter(counted);
        if counted(last) {
            assert(after =~= before.insert(last));
        } else {
            assert(after =~= before);
        }
    }
}

/// The references that are counted for an item are those of its links that have a target.
pub proof fn law_references_are_exact(document: Json, id: Seq<char>)
    requires
        graph::index_of(document@) is Some,
        graph::index_of(document@)->0.contains_key(id),
    ensures
        ({
            let item = graph::index_of(document@)->0[id];
            let links = graph::item_links(item);
            graph::item_references(item) == links.dom().filter(
                |label: Seq<char>| rustdoc::has_text(links[label]),
            ).len()
        }),
{
    let item = graph::index_of(document@)->0[id];
    let links = graph::item_links(item);
    let labels = order::in_order(links.dom());
    let value = lemma_item_value(document, id);
    json::lemma_member_finite(value, "links"@);
    order::lemma_in_order_lists(links.dom());
    order::lemma_increasing_distinct(labels);
    lemma_references_count(
        links,
        labels,
        |label: Seq<char>| rustdoc::has_text(links[label]),
    );
}

/// The link of an item counts as a reference: the item is an object that lists it, and its target
/// is a number, a truth value or a string that is not empty.
pub open spec fn refers(
    index: Map<Seq<char>, JsonTree>,
    id: Seq<char>,
    label: Seq<char>,
) -> bool {
    &&& index.contains_key(id)
    &&& index[id] is Object
    &&& index[id].member("links"@) matches Some(JsonTree::Object(links)) && links.contains_key(
        label,
    ) && match links[label] {
        JsonTree::Text(target) => target.len() > 0,
        JsonTree::Int(_) => true,
        JsonTree::Float(_) => true,
        JsonTree::Bool(_) => true,
        _ => false,
    }
}

proof fn lemma_reference_pairs(
    document: Json,
    index: Map<Seq<char>, JsonTree>,
    ids: Seq<Seq<char>>,
)
    requires
        graph::index_of(document@) == Some(index),
        ids.no_duplicates(),
        forall|k: int| 0 <= k < ids.len() ==> index.contains_key(#[trigger] ids[k]),
    ensures
        ({
            let pairs = Set::new(
                |p: (Seq<char>, Seq<char>)| ids.contains(p.0) && refers(index, p.0, p.1),
            );
            &&& pairs.finite()
            &&& graph::total(index, ids, |item: JsonTree| graph::item_references(item))
                == pairs.len()
        }),
    decreases ids.len(),
{
    let pairs = Set::new(
        |p: (Seq<char>, Seq<char>)| ids.contains(p.0) && refers(index, p.0, p.1),
    );
    if ids.len() == 0 {
        assert(pairs =~= Set::empty());
    } else {
        let rest = ids.drop_last();
        let last = ids[ids.len() - 1];
        let before = Set::new(
            |p: (Seq<char>, Seq<char>)| rest.contains(p.0) && refers(index, p.0, p.1),
        );
        lemma_last_of_distinct(ids);
        assert forall|k: int| 0 <= k < rest.len() implies index.contains_key(#[trigger] rest[k]) by {
            assert(rest[k] == ids[k]);
        }
        lemma_reference_pairs(document, index, rest);
        assert forall|id: Seq<char>| ids.contains(id) <==> rest.contains(id) || id == last by {
            assert(ids.to_set().contains(id) <==> rest.to_set().contains(id) || id == last);
        }
        assert(!rest.contains(last)) by {
            assert(!rest.to_set().contains(last));
        }
        if index[last] is Object {
            let links = graph::item_links(index[last]);
            let value = lemma_item_value(document, last);
            json::lemma_member_finite(value, "links"@);
            law_references_are_exact(document, last);
            let counted = links.dom().filter(
                |label: Seq<char>| rustdoc::has_text(links[label]),
            );
            let f = |label: Seq<char>| (last, label);
            let added = counted.map(f);
            vstd::set_lib::lemma_map_size(counted, added, f);
            assert forall|p: (Seq<char>, Seq<char>)| pairs.contains(p) <==> (before + added).contains(
                p,
            ) by {
                if added.contains(p) {
                    let label = choose|label: Seq<char>| counted.contains(label) && f(label) == p;
                    assert(p == (last, label));
                }
                if p.0 == last && refers(index, last, p.1) {
                    assert(counted.contains(p.1));
                    assert(f(p.1) == p);
                }
            }
            assert(pairs =~= before + added);
            assert(before.disjoint(added)) by {
                assert forall|p: (Seq<char>, Seq<char>)| before.contains(p) implies !added.contains(
                    p,
                ) by {
                    if added.contains(p) {
                        let label = choose|label: Seq<char>|
                            counted.contains(label) && f(label) == p;
                        assert(p == (last, label));
                    }
                }
            }
            vstd::set_lib::lemma_set_disjoint_lens(before, added);
        } else {
            assert(pairs =~= before);
        }
    }
}

/// The counts are what they are called: the members of the index that are objects, those of them
/// with a string for documentation, those with an object for their place in the source, and the
/// links of them that have a target.
pub proof fn law_counts_are_exact(document: Json, index: Map<Seq<char>, JsonTree>)
    requires
        document@.member("index"@) == Some(JsonTree::Object(index)),
    ensures
        ({
            let tally = graph::document_tally(document@);
            &&& tally.items == index.dom().filter(|id: Seq<char>| index[id] is Object).len()
            &&& tally.documented == index.dom().filter(
                |id: Seq<char>|
                    index[id] is Object && (index[id].member("docs"@) matches Some(
                        JsonTree::Text(_),
                    )),
            ).len()
            &&& tally.spans == index.dom().filter(
                |id: Seq<char>|
                    index[id] is Object && (index[id].member("span"@) matches Some(
                        JsonTree::Object(_),
                    )),
            ).len()
            &&& tally.references == Set::new(
                |p: (Seq<char>, Seq<char>)| refers(index, p.0, p.1),
            ).len()
            &&& tally.documented <= tally.items
            &&& tally.spans <= tally.items
        }),
{
    let ids = order::in_order(index.dom());
    json::lemma_member_finite(document, "index"@);
    order::lemma_in_order_lists(index.dom());
    order::lemma_increasing_distinct(ids);
    let items = |id: Seq<char>| index[id] is Object;
    let documented = |id: Seq<char>|
        index[id] is Object && (index[id].member("docs"@) matches Some(JsonTree::Text(_)));
    let located = |id: Seq<char>|
        index[id] is Object && (index[id].member("span"@) matches Some(JsonTree::Object(_)));
    lemma_total_counts(index, ids, |item: JsonTree| 1, items);
    lemma_total_counts(
        index,
        ids,
        |item: JsonTree|
            if graph::is_documented(item) {
                1
            } else {
                0
            },
        documented,
    );
    lemma_total_counts(
        index,
        ids,
        |item: JsonTree|
            if graph::has_span(item) {
                1
            } else {
                0
            },
        located,
    );
    vstd::set_lib::lemma_len_subset(
        index.dom().filter(documented),
        index.dom().filter(items),
    );
    vstd::set_lib::lemma_len_subset(index.dom().filter(located), index.dom().filter(items));
    assert forall|k: int| 0 <= k < ids.len() implies index.contains_key(#[trigger] ids[k]) by {
        assert(ids.to_set().contains(ids[k]));
    }
    lemma_reference_pairs(document, index, ids);
    assert forall|id: Seq<char>| ids.contains(id) <==> index.contains_key(id) by {
        assert(ids.to_set().contains(id) <==> index.dom().contains(id));
    }
    assert(Set::new(|p: (Seq<char>, Seq<char>)| ids.contains(p.0) && refers(index, p.0, p.1))
        =~= Set::new(|p: (Seq<char>, Seq<char>)| refers(index, p.0, p.1)));
}

// The order of statements.

/// The one text stands before the other in a third.
pub open spec fn precedes(first: Seq<char>, second: Seq<char>, whole: Seq<char>) -> bool {
    exists|a: Seq<char>, b: Seq<char>, c: Seq<char>|
        whole == #[trigger] (a + first + b + second + c)
}

proof fn lemma_precedes(first: Seq<char>, second: Seq<char>, whole: Seq<char>, added: Seq<char>)
    requires
        precedes(first, second, whole),
    ensures
        precedes(first, second, whole + added),
        precedes(first, second, added + whole),
{
    let (a, b, c) = choose|a: Seq<char>, b: Seq<char>, c: Seq<char>|
        whole == #[trigger] (a + first + b + second + c);
    assert(whole + added =~= a + first + b + second + (c + added));
    assert(added + whole =~= (added + a) + first + b + second + c);
}

proof fn lemma_precedes_last(first: Seq<char>, before: Seq<char>, second: Seq<char>)
    requires
        occurs(first, before),
    ensures
        precedes(first, second, before + second),
{
    let (a, b) = choose|a: Seq<char>, b: Seq<char>| before == #[trigger] (a + first + b);
    assert(before + second =~= a + first + b + second + Seq::<char>::empty());
}

proof fn lemma_items_precede(
    document: JsonTree,
    revision: Seq<char>,
    index: Map<Seq<char>, JsonTree>,
    ids: Seq<Seq<char>>,
    i: int,
    j: int,
)
    requires
        0 <= i < j < ids.len(),
        index[ids[i]] is Object,
        index[ids[j]] is Object,
    ensures
        precedes(
            graph::item_statements(document, revision, ids[i], index[ids[i]]),
            graph::item_statements(document, revision, ids[j], index[ids[j]]),
            graph::items_statements(document, revision, index, ids),
        ),
        precedes(
            graph::docs_statements(revision, ids[i], index[ids[i]]),
            graph::docs_statements(revision, ids[j], index[ids[j]]),
            graph::items_docs(revision, index, ids),
        ),
    decreases ids.len(),
{
    let rest = ids.drop_last();
    let last = ids.last();
    let x = graph::item_statements(document, revision, ids[i], index[ids[i]]);
    let y = graph::item_statements(document, revision, ids[j], index[ids[j]]);
    let u = graph::docs_statements(revision, ids[i], index[ids[i]]);
    let v = graph::docs_statements(revision, ids[j], index[ids[j]]);
    if j == ids.len() - 1 {
        lemma_item_occurs(document, revision, index, rest, i);
        lemma_precedes_last(x, graph::items_statements(document, revision, index, rest), y);
        lemma_precedes_last(u, graph::items_docs(revision, index, rest), v);
    } else {
        lemma_items_precede(document, revision, index, rest, i, j);
        lemma_precedes(
            x,
            y,
            graph::items_statements(document, revision, index, rest),
            graph::item_statements(document, revision, last, index[last]),
        );
        lemma_precedes(
            u,
            v,
            graph::items_docs(revision, index, rest),
            graph::docs_statements(revision, last, index[last]),
        );
    }
}

/// Items come in the order of their ids, in both graphs.
pub proof fn law_items_come_in_order(
    document: Json,
    repository: Seq<char>,
    revision: Seq<char>,
    index: Map<Seq<char>, JsonTree>,
    a: Seq<char>,
    b: Seq<char>,
)
    requires
        document@.member("index"@) == Some(JsonTree::Object(index)),
        index.contains_key(a),
        index.contains_key(b),
        index[a] is Object,
        index[b] is Object,
        text::text_before(a, b),
    ensures
        precedes(
            graph::item_statements(document@, revision, a, index[a]),
            graph::item_statements(document@, revision, b, index[b]),
            graph::source_statements(document@, repository, revision),
        ),
        precedes(
            graph::docs_statements(revision, a, index[a]),
            graph::docs_statements(revision, b, index[b]),
            graph::documentation_statements(document@, revision),
        ),
{
    let ids = order::in_order(index.dom());
    json::lemma_member_finite(document, "index"@);
    order::lemma_in_order_lists(index.dom());
    assert(ids.to_set().contains(a) && ids.to_set().contains(b));
    let i = ids.index_of(a);
    let j = ids.index_of(b);
    assert(ids[i] == a && ids[j] == b);
    text::law_text_order(a, b, a);
    if j < i {
        assert(text::text_before(ids[j], ids[i]));
    }
    assert(i < j);
    lemma_items_precede(document@, revision, index, ids, i, j);
    lemma_precedes(
        graph::item_statements(document@, revision, a, index[a]),
        graph::item_statements(document@, revision, b, index[b]),
        graph::items_statements(document@, revision, index, ids),
        graph::revision_statements(repository, revision) + graph::dataset_statements(
            repository,
            revision,
            graph::format_version_of(document@)->0,
        ) + graph::root_statements(document@, revision),
    );
    lemma_precedes(
        graph::docs_statements(revision, a, index[a]),
        graph::docs_statements(revision, b, index[b]),
        graph::items_docs(revision, index, ids),
        "  sdoc:RustdocMarkdown a sdoc:DocumentationKind ; sdoc:grantsDoAuthority false .\n"@,
    );
}

proof fn lemma_links_precede(
    revision: Seq<char>,
    id: Seq<char>,
    links: Map<Seq<char>, JsonTree>,
    labels: Seq<Seq<char>>,
    i: int,
    j: int,
)
    requires
        0 <= i < j < labels.len(),
    ensures
        precedes(
            graph::link_statements(revision, id, labels[i], links[labels[i]]),
            graph::link_statements(revision, id, labels[j], links[labels[j]]),
            graph::links_statements(revision, id, links, labels),
        ),
    decreases labels.len(),
{
    let rest = labels.drop_last();
    let last = labels.last();
    let x = graph::link_statements(revision, id, labels[i], links[labels[i]]);
    let y = graph::link_statements(revision, id, labels[j], links[labels[j]]);
    if j == labels.len() - 1 {
        lemma_link_occurs(revision, id, links, rest, i);
        lemma_precedes_last(x, graph::links_statements(revision, id, links, rest), y);
    } else {
        lemma_links_precede(revision, id, links, rest, i, j);
        lemma_precedes(
            x,
            y,
            graph::links_statements(revision, id, links, rest),
            graph::link_statements(revision, id, last, links[last]),
        );
    }
}

/// The links of an item come in the order of their labels.
pub proof fn law_links_come_in_order(
    document: JsonTree,
    revision: Seq<char>,
    id: Seq<char>,
    item: Json,
    links: Map<Seq<char>, JsonTree>,
    a: Seq<char>,
    b: Seq<char>,
)
    requires
        item@.member("links"@) == Some(JsonTree::Object(links)),
        links.contains_key(a),
        links.contains_key(b),
        text::text_before(a, b),
    ensures
        precedes(
            graph::link_statements(revision, id, a, links[a]),
            graph::link_statements(revision, id, b, links[b]),
            graph::item_statements(document, revision, id, item@),
        ),
{
    let labels = order::in_order(links.dom());
    json::lemma_member_finite(item, "links"@);
    order::lemma_in_order_lists(links.dom());
    assert(labels.to_set().contains(a) && labels.to_set().contains(b));
    let i = labels.index_of(a);
    let j = labels.index_of(b);
    assert(labels[i] == a && labels[j] == b);
    text::law_text_order(a, b, a);
    if j < i {
        assert(text::text_before(labels[j], labels[i]));
    }
    assert(i < j);
    lemma_links_precede(revision, id, links, labels, i, j);
    lemma_precedes(
        graph::link_statements(revision, id, a, links[a]),
        graph::link_statements(revision, id, b, links[b]),
        graph::links_statements(revision, id, links, labels),
        graph::item_properties(document, revision, id, item@) + graph::span_statements(
            revision,
            id,
            item@,
        ),
    );
}

} // verus!

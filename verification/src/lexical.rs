//! Where the characters of a graph stand: inside an IRI, inside a literal, or outside of both.
//! What a document says stays inside, so what the graph claims is its own.

use crate::graph;
use crate::iri;
use crate::json::JsonTree;
use crate::literal;
use crate::order;
use crate::rustdoc;
use crate::text;
use vstd::prelude::*;

verus! {

/// Where a character of a TriG text stands.
pub enum Place {
    Outside,
    Iri,
    Literal,
    /// Behind a backslash in a literal.
    Escape,
}

/// Where the next character stands.
pub open spec fn place_after(place: Place, c: char) -> Place {
    match place {
        Place::Outside => if c == '<' {
            Place::Iri
        } else if c == '"' {
            Place::Literal
        } else {
            Place::Outside
        },
        Place::Iri => if c == '>' {
            Place::Outside
        } else {
            Place::Iri
        },
        Place::Literal => if c == '"' {
            Place::Outside
        } else if c == '\\' {
            Place::Escape
        } else {
            Place::Literal
        },
        Place::Escape => Place::Literal,
    }
}

/// Where the character at a position stands.
pub open spec fn place_at(text: Seq<char>, n: int) -> Place
    decreases n,
{
    if n <= 0 {
        Place::Outside
    } else {
        place_after(place_at(text, n - 1), text[n - 1])
    }
}

/// TriG accepts the character where it stands.
pub open spec fn acceptable(place: Place, c: char) -> bool {
    match place {
        Place::Outside => true,
        Place::Iri => c as u32 > 0x20 && c != '<' && c != '"' && c != '{' && c != '}' && c != '|'
            && c != '^' && c != '`' && c != '\\',
        Place::Literal => c != '\n' && c != '\r',
        Place::Escape => literal::unescape(c) is Some,
    }
}

/// The word begins at a position and stands outside of IRIs and literals.
pub open spec fn stands_outside(word: Seq<char>, text: Seq<char>, i: int) -> bool {
    &&& 0 <= i
    &&& i + word.len() <= text.len()
    &&& text.subrange(i, i + word.len()) == word
    &&& forall|k: int| i <= k < i + word.len() ==> #[trigger] place_at(text, k) is Outside
}

// What a text says outside is told from the last characters that were read there.

/// How much of `tr`, or of `G`, has just been read.
enum Trail {
    Nothing,
    T,
    Tr,
    G,
}

spec fn trail_after(place: Place, trail: Trail, c: char) -> Trail {
    if !(place is Outside) {
        Trail::Nothing
    } else if c == 't' {
        Trail::T
    } else if c == 'r' && trail is T {
        Trail::Tr
    } else if c == 'G' {
        Trail::G
    } else {
        Trail::Nothing
    }
}

/// The character completes `tru` or `Ge` outside.
spec fn telling(place: Place, trail: Trail, c: char) -> bool {
    place is Outside && (trail is Tr && c == 'u' || trail is G && c == 'e')
}

/// From a position on, the text is sound, says neither `tru` nor `Ge` outside, and leads to
/// the given place.
spec fn sound(place: Place, trail: Trail, text: Seq<char>, k: int, to: Place) -> bool
    decreases text.len() - k,
{
    if k >= text.len() {
        place == to && trail is Nothing
    } else {
        acceptable(place, text[k]) && !telling(place, trail, text[k]) && sound(
            place_after(place, text[k]),
            trail_after(place, trail, text[k]),
            text,
            k + 1,
            to,
        )
    }
}

/// The text leads soundly from one place to another.
#[verifier::opaque]
spec fn leads(from: Place, text: Seq<char>, to: Place) -> bool {
    sound(from, Trail::Nothing, text, 0, to)
}

proof fn lemma_sound_tail(
    place: Place,
    trail: Trail,
    a: Seq<char>,
    b: Seq<char>,
    k: int,
    to: Place,
)
    requires
        0 <= k,
    ensures
        sound(place, trail, a + b, a.len() + k, to) == sound(place, trail, b, k, to),
    decreases b.len() - k,
{
    if k < b.len() {
        assert((a + b)[a.len() + k] == b[k]);
        lemma_sound_tail(
            place_after(place, b[k]),
            trail_after(place, trail, b[k]),
            a,
            b,
            k + 1,
            to,
        );
    }
}

proof fn lemma_sound_join(
    place: Place,
    trail: Trail,
    a: Seq<char>,
    k: int,
    mid: Place,
    b: Seq<char>,
    to: Place,
)
    requires
        0 <= k <= a.len(),
        sound(place, trail, a, k, mid),
        sound(mid, Trail::Nothing, b, 0, to),
    ensures
        sound(place, trail, a + b, k, to),
    decreases a.len() - k,
{
    if k < a.len() {
        assert((a + b)[k] == a[k]);
        lemma_sound_join(
            place_after(place, a[k]),
            trail_after(place, trail, a[k]),
            a,
            k + 1,
            mid,
            b,
            to,
        );
    } else {
        lemma_sound_tail(mid, Trail::Nothing, a, b, 0, to);
    }
}

broadcast proof fn lemma_leads_join(from: Place, a: Seq<char>, mid: Place, b: Seq<char>, to: Place)
    requires
        #[trigger] leads(from, a, mid),
        #[trigger] leads(mid, b, to),
    ensures
        leads(from, #[trigger] (a + b), to),
{
    reveal(leads);
    lemma_sound_join(from, Trail::Nothing, a, 0, mid, b, to);
}

proof fn lemma_nothing_leads(place: Place)
    ensures
        leads(place, seq![], place),
{
    reveal(leads);
}

// Values.

/// Characters that are plain in an IRI lead on inside it.
proof fn lemma_iri_sound(text: Seq<char>, k: int)
    requires
        0 <= k,
        forall|i: int| 0 <= i < text.len() ==> iri::is_segment_char(#[trigger] text[i]),
    ensures
        sound(Place::Iri, Trail::Nothing, text, k, Place::Iri),
    decreases text.len() - k,
{
    if k < text.len() {
        assert(iri::is_segment_char(text[k]));
        lemma_iri_sound(text, k + 1);
    }
}

proof fn lemma_segment_leads(value: Seq<char>)
    ensures
        leads(Place::Iri, iri::segment_text(value), Place::Iri),
{
    iri::law_segment_safe(value);
    reveal(leads);
    lemma_iri_sound(iri::segment_text(value), 0);
}

proof fn lemma_escape_leads(c: char)
    ensures
        leads(Place::Literal, literal::escape(c), Place::Literal),
{
    reveal(leads);
    reveal_with_fuel(sound, 3);
}

proof fn lemma_escaped_leads(value: Seq<char>)
    ensures
        leads(Place::Literal, literal::escaped(value), Place::Literal),
    decreases value.len(),
{
    broadcast use lemma_leads_join;

    if value.len() == 0 {
        lemma_nothing_leads(Place::Literal);
    } else {
        lemma_escape_leads(value[0]);
        lemma_escaped_leads(value.drop_first());
    }
}

proof fn lemma_literal_leads(value: Seq<char>)
    ensures
        leads(Place::Outside, literal::literal_text(value), Place::Outside),
{
    broadcast use lemma_leads_join;

    assert(leads(Place::Outside, seq!['"'], Place::Literal) && leads(
        Place::Literal,
        seq!['"'],
        Place::Outside,
    )) by {
        reveal(leads);
        reveal_with_fuel(sound, 2);
    }
    lemma_escaped_leads(value);
}

proof fn lemma_decimal_leads(n: nat)
    ensures
        leads(Place::Outside, text::decimal(n), Place::Outside),
    decreases n,
{
    let last = seq![text::digit(n % 10)];
    assert(leads(Place::Outside, last, Place::Outside)) by {
        reveal(leads);
        reveal_with_fuel(sound, 2);
    }
    if n >= 10 {
        lemma_decimal_leads(n / 10);
        lemma_leads_join(
            Place::Outside,
            text::decimal(n / 10),
            Place::Outside,
            last,
            Place::Outside,
        );
        assert(text::decimal(n / 10) + last =~= text::decimal(n));
    }
}

// Resources. The words of the graph are read character by character; long ones in stretches, the
// last one first.

proof fn lemma_names_lead()
    ensures
        leads(Place::Iri, "urn:litho:revision:"@, Place::Iri),
        leads(Place::Iri, "urn:litho:semantic-documentation:"@, Place::Iri),
        leads(Place::Iri, "urn:litho:graph:source:"@, Place::Iri),
        leads(Place::Iri, "urn:litho:graph:documentation:"@, Place::Iri),
        leads(Place::Iri, "urn:litho:item:"@, Place::Iri),
        leads(Place::Iri, ":"@, Place::Iri),
        leads(Place::Iri, "/span"@, Place::Iri),
        leads(Place::Iri, "/link/"@, Place::Iri),
        leads(Place::Iri, "/doc"@, Place::Iri),
{
    assert(leads(Place::Iri, "urn:litho:revision:"@, Place::Iri)) by {
        reveal(leads);
        reveal_strlit("urn:litho:revision:");
        reveal_with_fuel(sound, 20);
    }
    assert(leads(Place::Iri, "urn:litho:semantic-documentation:"@, Place::Iri)) by {
        reveal(leads);
        reveal_strlit("urn:litho:semantic-documentation:");
        reveal_with_fuel(sound, 21);
        let words = "urn:litho:semantic-documentation:"@;
        assert(sound(Place::Iri, Trail::Nothing, words, 13, Place::Iri));
    }
    assert(leads(Place::Iri, "urn:litho:graph:source:"@, Place::Iri)) by {
        reveal(leads);
        reveal_strlit("urn:litho:graph:source:");
        reveal_with_fuel(sound, 24);
    }
    assert(leads(Place::Iri, "urn:litho:graph:documentation:"@, Place::Iri)) by {
        reveal(leads);
        reveal_strlit("urn:litho:graph:documentation:");
        reveal_with_fuel(sound, 21);
        let words = "urn:litho:graph:documentation:"@;
        assert(sound(Place::Iri, Trail::Nothing, words, 10, Place::Iri));
    }
    assert(leads(Place::Iri, "urn:litho:item:"@, Place::Iri)) by {
        reveal(leads);
        reveal_strlit("urn:litho:item:");
        reveal_with_fuel(sound, 16);
    }
    assert(leads(Place::Iri, ":"@, Place::Iri)) by {
        reveal(leads);
        reveal_strlit(":");
        reveal_with_fuel(sound, 2);
    }
    assert(leads(Place::Iri, "/span"@, Place::Iri)) by {
        reveal(leads);
        reveal_strlit("/span");
        reveal_with_fuel(sound, 6);
    }
    assert(leads(Place::Iri, "/link/"@, Place::Iri)) by {
        reveal(leads);
        reveal_strlit("/link/");
        reveal_with_fuel(sound, 7);
    }
    assert(leads(Place::Iri, "/doc"@, Place::Iri)) by {
        reveal(leads);
        reveal_strlit("/doc");
        reveal_with_fuel(sound, 5);
    }
}

proof fn lemma_resources_lead(revision: Seq<char>)
    ensures
        leads(Place::Iri, graph::revision_iri(revision), Place::Iri),
        leads(Place::Iri, graph::dataset_iri(revision), Place::Iri),
        leads(Place::Iri, graph::source_graph_iri(revision), Place::Iri),
        leads(Place::Iri, graph::docs_graph_iri(revision), Place::Iri),
{
    broadcast use lemma_leads_join;

    lemma_names_lead();
    lemma_segment_leads(revision);
}

proof fn lemma_item_leads(revision: Seq<char>, id: Seq<char>)
    ensures
        leads(Place::Iri, iri::item_iri_text(revision, id), Place::Iri),
{
    broadcast use lemma_leads_join;

    lemma_names_lead();
    lemma_segment_leads(revision);
    lemma_segment_leads(id);
}

// Statements.

/// What begins and ends statements, and what several of them have in common.
proof fn lemma_marks_lead()
    ensures
        leads(Place::Outside, "  <"@, Place::Iri),
        leads(Place::Iri, "> .\n"@, Place::Outside),
        leads(Place::Iri, "> ;\n"@, Place::Outside),
        leads(Place::Outside, " ;\n"@, Place::Outside),
        leads(Place::Outside, " ;\n    sdoc:revision "@, Place::Outside),
        leads(Place::Outside, " ;\n    prov:wasDerivedFrom <"@, Place::Iri),
        leads(Place::Iri, "> sdoc:hasEvidence <"@, Place::Iri),
{
    assert(leads(Place::Outside, "  <"@, Place::Iri)) by {
        reveal(leads);
        reveal_strlit("  <");
        reveal_with_fuel(sound, 4);
    }
    assert(leads(Place::Iri, "> .\n"@, Place::Outside)) by {
        reveal(leads);
        reveal_strlit("> .\n");
        reveal_with_fuel(sound, 5);
    }
    assert(leads(Place::Iri, "> ;\n"@, Place::Outside)) by {
        reveal(leads);
        reveal_strlit("> ;\n");
        reveal_with_fuel(sound, 5);
    }
    assert(leads(Place::Outside, " ;\n"@, Place::Outside)) by {
        reveal(leads);
        reveal_strlit(" ;\n");
        reveal_with_fuel(sound, 4);
    }
    assert(leads(Place::Outside, " ;\n    sdoc:revision "@, Place::Outside)) by {
        reveal(leads);
        reveal_strlit(" ;\n    sdoc:revision ");
        reveal_with_fuel(sound, 22);
    }
    assert(leads(Place::Outside, " ;\n    prov:wasDerivedFrom <"@, Place::Iri)) by {
        reveal(leads);
        reveal_strlit(" ;\n    prov:wasDerivedFrom <");
        reveal_with_fuel(sound, 21);
        let words = " ;\n    prov:wasDerivedFrom <"@;
        assert(sound(Place::Outside, Trail::Nothing, words, 8, Place::Iri));
    }
    assert(leads(Place::Iri, "> sdoc:hasEvidence <"@, Place::Iri)) by {
        reveal(leads);
        reveal_strlit("> sdoc:hasEvidence <");
        reveal_with_fuel(sound, 21);
    }
}

proof fn lemma_revision_words_lead()
    ensures
        leads(Place::Iri, "> a sdoc:RevisionBoundSubject, prov:Entity ;\n    sdoc:repository "@, Place::Outside),
        leads(Place::Outside, " ;\n    sdoc:grantsDoAuthority false .\n\n"@, Place::Outside),
{
    assert(leads(Place::Iri, "> a sdoc:RevisionBoundSubject, prov:Entity ;\n    sdoc:repository "@, Place::Outside)) by {
        reveal(leads);
        reveal_strlit("> a sdoc:RevisionBoundSubject, prov:Entity ;\n    sdoc:repository ");
        reveal_with_fuel(sound, 26);
        let words = "> a sdoc:RevisionBoundSubject, prov:Entity ;\n    sdoc:repository "@;
        assert(sound(Place::Outside, Trail::Nothing, words, 45, Place::Outside));
        assert(sound(Place::Outside, Trail::Nothing, words, 25, Place::Outside));
    }
    assert(leads(Place::Outside, " ;\n    sdoc:grantsDoAuthority false .\n\n"@, Place::Outside)) by {
        reveal(leads);
        reveal_strlit(" ;\n    sdoc:grantsDoAuthority false .\n\n");
        reveal_with_fuel(sound, 21);
        let words = " ;\n    sdoc:grantsDoAuthority false .\n\n"@;
        assert(sound(Place::Outside, Trail::Nothing, words, 19, Place::Outside));
    }
}

proof fn lemma_revision_leads(repository: Seq<char>, revision: Seq<char>)
    ensures
        leads(Place::Outside, graph::revision_statements(repository, revision), Place::Outside),
{
    broadcast use lemma_leads_join;

    lemma_marks_lead();
    lemma_revision_words_lead();
    lemma_resources_lead(revision);
    lemma_literal_leads(repository);
    lemma_literal_leads(revision);
}

proof fn lemma_dataset_words_lead()
    ensures
        leads(Place::Iri, "> a sdoc:SemanticDocumentationDataset, prov:Entity ;\n    sdoc:repository "@, Place::Outside),
        leads(Place::Outside, " ;\n    sdoc:sourceGraph "@, Place::Outside),
        leads(Place::Outside, " ;\n    sdoc:documentationGraph "@, Place::Outside),
        leads(Place::Outside, " ;\n    sdoc:extractor \"rustdoc-json\" ;\n    sdoc:rustdocFormatVersion "@, Place::Outside),
        leads(Place::Outside, " ;\n    sdoc:standing \"PARTIAL_ALIVE\" ;\n    prov:wasDerivedFrom <"@, Place::Iri),
        leads(Place::Iri, "> ;\n    sdoc:grantsDoAuthority false .\n"@, Place::Outside),
{
    assert(leads(Place::Iri, "> a sdoc:SemanticDocumentationDataset, prov:Entity ;\n    sdoc:repository "@, Place::Outside)) by {
        reveal(leads);
        reveal_strlit("> a sdoc:SemanticDocumentationDataset, prov:Entity ;\n    sdoc:repository ");
        reveal_with_fuel(sound, 22);
        let words = "> a sdoc:SemanticDocumentationDataset, prov:Entity ;\n    sdoc:repository "@;
        assert(sound(Place::Outside, Trail::Nothing, words, 53, Place::Outside));
        assert(sound(Place::Outside, Trail::Nothing, words, 32, Place::Outside));
        assert(sound(Place::Outside, Trail::Nothing, words, 12, Place::Outside));
    }
    assert(leads(Place::Outside, " ;\n    sdoc:sourceGraph "@, Place::Outside)) by {
        reveal(leads);
        reveal_strlit(" ;\n    sdoc:sourceGraph ");
        reveal_with_fuel(sound, 25);
    }
    assert(leads(Place::Outside, " ;\n    sdoc:documentationGraph "@, Place::Outside)) by {
        reveal(leads);
        reveal_strlit(" ;\n    sdoc:documentationGraph ");
        reveal_with_fuel(sound, 21);
        let words = " ;\n    sdoc:documentationGraph "@;
        assert(sound(Place::Outside, Trail::Nothing, words, 11, Place::Outside));
    }
    assert(leads(Place::Outside, " ;\n    sdoc:extractor \"rustdoc-json\" ;\n    sdoc:rustdocFormatVersion "@, Place::Outside)) by {
        reveal(leads);
        reveal_strlit(" ;\n    sdoc:extractor \"rustdoc-json\" ;\n    sdoc:rustdocFormatVersion ");
        reveal_with_fuel(sound, 21);
        let words = " ;\n    sdoc:extractor \"rustdoc-json\" ;\n    sdoc:rustdocFormatVersion "@;
        assert(sound(Place::Outside, Trail::Nothing, words, 49, Place::Outside));
        assert(sound(Place::Literal, Trail::Nothing, words, 29, Place::Outside));
        assert(sound(Place::Outside, Trail::Nothing, words, 9, Place::Outside));
    }
    assert(leads(Place::Outside, " ;\n    sdoc:standing \"PARTIAL_ALIVE\" ;\n    prov:wasDerivedFrom <"@, Place::Iri)) by {
        reveal(leads);
        reveal_strlit(" ;\n    sdoc:standing \"PARTIAL_ALIVE\" ;\n    prov:wasDerivedFrom <");
        reveal_with_fuel(sound, 25);
        let words = " ;\n    sdoc:standing \"PARTIAL_ALIVE\" ;\n    prov:wasDerivedFrom <"@;
        assert(sound(Place::Outside, Trail::Nothing, words, 44, Place::Iri));
        assert(sound(Place::Literal, Trail::Nothing, words, 24, Place::Iri));
    }
    assert(leads(Place::Iri, "> ;\n    sdoc:grantsDoAuthority false .\n"@, Place::Outside)) by {
        reveal(leads);
        reveal_strlit("> ;\n    sdoc:grantsDoAuthority false .\n");
        reveal_with_fuel(sound, 21);
        let words = "> ;\n    sdoc:grantsDoAuthority false .\n"@;
        assert(sound(Place::Outside, Trail::Nothing, words, 19, Place::Outside));
    }
}

proof fn lemma_dataset_leads(repository: Seq<char>, revision: Seq<char>, version: u64)
    ensures
        leads(Place::Outside, graph::dataset_statements(repository, revision, version), Place::Outside),
{
    broadcast use lemma_leads_join;

    lemma_marks_lead();
    lemma_dataset_words_lead();
    lemma_resources_lead(revision);
    lemma_literal_leads(repository);
    lemma_literal_leads(revision);
    lemma_literal_leads(graph::source_graph_iri(revision));
    lemma_literal_leads(graph::docs_graph_iri(revision));
    lemma_decimal_leads(version as nat);
}

proof fn lemma_root_words_lead()
    ensures
        leads(Place::Iri, "> sdoc:rootItem <"@, Place::Iri),
{
    assert(leads(Place::Iri, "> sdoc:rootItem <"@, Place::Iri)) by {
        reveal(leads);
        reveal_strlit("> sdoc:rootItem <");
        reveal_with_fuel(sound, 18);
    }
}

proof fn lemma_root_leads(document: JsonTree, revision: Seq<char>)
    ensures
        leads(Place::Outside, graph::root_statements(document, revision), Place::Outside),
{
    broadcast use lemma_leads_join;

    lemma_marks_lead();
    lemma_root_words_lead();
    lemma_resources_lead(revision);
    lemma_nothing_leads(Place::Outside);
    if let Some(root) = document.member("root"@) {
        lemma_item_leads(revision, rustdoc::scalar_text(root));
    }
}

proof fn lemma_name_words_lead()
    ensures
        leads(Place::Outside, "    sdoc:name "@, Place::Outside),
{
    assert(leads(Place::Outside, "    sdoc:name "@, Place::Outside)) by {
        reveal(leads);
        reveal_strlit("    sdoc:name ");
        reveal_with_fuel(sound, 15);
    }
}

proof fn lemma_name_leads(item: JsonTree)
    ensures
        leads(Place::Outside, graph::name_property(item), Place::Outside),
{
    broadcast use lemma_leads_join;

    lemma_marks_lead();
    lemma_name_words_lead();
    lemma_nothing_leads(Place::Outside);
    if let Some(JsonTree::Text(name)) = item.member("name"@) {
        lemma_literal_leads(name);
    }
}

proof fn lemma_path_words_lead()
    ensures
        leads(Place::Outside, "    sdoc:fullyQualifiedPath "@, Place::Outside),
{
    assert(leads(Place::Outside, "    sdoc:fullyQualifiedPath "@, Place::Outside)) by {
        reveal(leads);
        reveal_strlit("    sdoc:fullyQualifiedPath ");
        reveal_with_fuel(sound, 21);
        let words = "    sdoc:fullyQualifiedPath "@;
        assert(sound(Place::Outside, Trail::Nothing, words, 8, Place::Outside));
    }
}

proof fn lemma_path_leads(document: JsonTree, id: Seq<char>)
    ensures
        leads(Place::Outside, graph::path_property(document, id), Place::Outside),
{
    broadcast use lemma_leads_join;

    lemma_marks_lead();
    lemma_path_words_lead();
    lemma_nothing_leads(Place::Outside);
    if let Some(path) = rustdoc::path_text(document, id) {
        lemma_literal_leads(path);
    }
}

proof fn lemma_properties_words_lead()
    ensures
        leads(Place::Iri, "> a sdoc:RustItem, sdoc:SourceEvidence, prov:Entity ;\n    sdoc:localId "@, Place::Outside),
        leads(Place::Outside, " ;\n    sdoc:itemKind "@, Place::Outside),
        leads(Place::Outside, " ;\n    sdoc:visibility "@, Place::Outside),
        leads(Place::Outside, " ;\n    dct:source "@, Place::Outside),
        leads(Place::Outside, "    sdoc:grantsDoAuthority false .\n"@, Place::Outside),
{
    assert(leads(Place::Iri, "> a sdoc:RustItem, sdoc:SourceEvidence, prov:Entity ;\n    sdoc:localId "@, Place::Outside)) by {
        reveal(leads);
        reveal_strlit("> a sdoc:RustItem, sdoc:SourceEvidence, prov:Entity ;\n    sdoc:localId ");
        reveal_with_fuel(sound, 21);
        let words = "> a sdoc:RustItem, sdoc:SourceEvidence, prov:Entity ;\n    sdoc:localId "@;
        assert(sound(Place::Outside, Trail::Nothing, words, 51, Place::Outside));
        assert(sound(Place::Outside, Trail::Nothing, words, 31, Place::Outside));
        assert(sound(Place::Outside, Trail::Nothing, words, 11, Place::Outside));
    }
    assert(leads(Place::Outside, " ;\n    sdoc:itemKind "@, Place::Outside)) by {
        reveal(leads);
        reveal_strlit(" ;\n    sdoc:itemKind ");
        reveal_with_fuel(sound, 22);
    }
    assert(leads(Place::Outside, " ;\n    sdoc:visibility "@, Place::Outside)) by {
        reveal(leads);
        reveal_strlit(" ;\n    sdoc:visibility ");
        reveal_with_fuel(sound, 24);
    }
    assert(leads(Place::Outside, " ;\n    dct:source "@, Place::Outside)) by {
        reveal(leads);
        reveal_strlit(" ;\n    dct:source ");
        reveal_with_fuel(sound, 19);
    }
    assert(leads(Place::Outside, "    sdoc:grantsDoAuthority false .\n"@, Place::Outside)) by {
        reveal(leads);
        reveal_strlit("    sdoc:grantsDoAuthority false .\n");
        reveal_with_fuel(sound, 21);
        let words = "    sdoc:grantsDoAuthority false .\n"@;
        assert(sound(Place::Outside, Trail::Nothing, words, 15, Place::Outside));
    }
}

proof fn lemma_properties_leads(document: JsonTree, revision: Seq<char>, id: Seq<char>, item: JsonTree)
    ensures
        leads(Place::Outside, graph::item_properties(document, revision, id, item), Place::Outside),
{
    broadcast use lemma_leads_join;

    lemma_marks_lead();
    lemma_properties_words_lead();
    lemma_resources_lead(revision);
    lemma_item_leads(revision, id);
    lemma_literal_leads(id);
    lemma_literal_leads(rustdoc::kind_text(item));
    lemma_literal_leads(rustdoc::visibility_text(item));
    lemma_literal_leads("rustdoc-json:item:"@ + id);
    lemma_name_leads(item);
    lemma_path_leads(document, id);
}

proof fn lemma_span_words_lead()
    ensures
        leads(Place::Iri, "> a sdoc:SourceSpan, prov:Entity ;\n    sdoc:sourceFile "@, Place::Outside),
        leads(Place::Outside, " ;\n    sdoc:startLine "@, Place::Outside),
        leads(Place::Outside, " ;\n    sdoc:startColumn "@, Place::Outside),
        leads(Place::Outside, " ;\n    sdoc:endLine "@, Place::Outside),
        leads(Place::Outside, " ;\n    sdoc:endColumn "@, Place::Outside),
        leads(Place::Outside, " ;\n    sdoc:grantsDoAuthority false .\n  <"@, Place::Iri),
        leads(Place::Iri, "> sdoc:definedAt <"@, Place::Iri),
{
    assert(leads(Place::Iri, "> a sdoc:SourceSpan, prov:Entity ;\n    sdoc:sourceFile "@, Place::Outside)) by {
        reveal(leads);
        reveal_strlit("> a sdoc:SourceSpan, prov:Entity ;\n    sdoc:sourceFile ");
        reveal_with_fuel(sound, 21);
        let words = "> a sdoc:SourceSpan, prov:Entity ;\n    sdoc:sourceFile "@;
        assert(sound(Place::Outside, Trail::Nothing, words, 35, Place::Outside));
        assert(sound(Place::Outside, Trail::Nothing, words, 15, Place::Outside));
    }
    assert(leads(Place::Outside, " ;\n    sdoc:startLine "@, Place::Outside)) by {
        reveal(leads);
        reveal_strlit(" ;\n    sdoc:startLine ");
        reveal_with_fuel(sound, 23);
    }
    assert(leads(Place::Outside, " ;\n    sdoc:startColumn "@, Place::Outside)) by {
        reveal(leads);
        reveal_strlit(" ;\n    sdoc:startColumn ");
        reveal_with_fuel(sound, 25);
    }
    assert(leads(Place::Outside, " ;\n    sdoc:endLine "@, Place::Outside)) by {
        reveal(leads);
        reveal_strlit(" ;\n    sdoc:endLine ");
        reveal_with_fuel(sound, 21);
    }
    assert(leads(Place::Outside, " ;\n    sdoc:endColumn "@, Place::Outside)) by {
        reveal(leads);
        reveal_strlit(" ;\n    sdoc:endColumn ");
        reveal_with_fuel(sound, 23);
    }
    assert(leads(Place::Outside, " ;\n    sdoc:grantsDoAuthority false .\n  <"@, Place::Iri)) by {
        reveal(leads);
        reveal_strlit(" ;\n    sdoc:grantsDoAuthority false .\n  <");
        reveal_with_fuel(sound, 22);
        let words = " ;\n    sdoc:grantsDoAuthority false .\n  <"@;
        assert(sound(Place::Outside, Trail::Nothing, words, 21, Place::Iri));
    }
    assert(leads(Place::Iri, "> sdoc:definedAt <"@, Place::Iri)) by {
        reveal(leads);
        reveal_strlit("> sdoc:definedAt <");
        reveal_with_fuel(sound, 19);
    }
}

proof fn lemma_span_leads(revision: Seq<char>, id: Seq<char>, item: JsonTree)
    ensures
        leads(Place::Outside, graph::span_statements(revision, id, item), Place::Outside),
{
    broadcast use lemma_leads_join;

    lemma_marks_lead();
    lemma_span_words_lead();
    lemma_names_lead();
    lemma_nothing_leads(Place::Outside);
    lemma_item_leads(revision, id);
    if let Some(JsonTree::Object(members)) = item.member("span"@) {
        let span = JsonTree::Object(members);
        let begin = rustdoc::position(span.member("begin"@));
        let end = rustdoc::position(span.member("end"@));
        lemma_literal_leads(graph::span_file(span));
        lemma_decimal_leads(begin.0 as nat);
        lemma_decimal_leads(begin.1 as nat);
        lemma_decimal_leads(end.0 as nat);
        lemma_decimal_leads(end.1 as nat);
    }
}

proof fn lemma_link_words_lead()
    ensures
        leads(Place::Iri, "> sdoc:references <"@, Place::Iri),
        leads(Place::Iri, "> a sdoc:DocumentationReference, prov:Entity ; sdoc:from <"@, Place::Iri),
        leads(Place::Iri, "> ; sdoc:to <"@, Place::Iri),
        leads(Place::Iri, "> ; sdoc:linkLabel "@, Place::Outside),
        leads(Place::Outside, " ; sdoc:grantsDoAuthority false .\n"@, Place::Outside),
{
    assert(leads(Place::Iri, "> sdoc:references <"@, Place::Iri)) by {
        reveal(leads);
        reveal_strlit("> sdoc:references <");
        reveal_with_fuel(sound, 20);
    }
    assert(leads(Place::Iri, "> a sdoc:DocumentationReference, prov:Entity ; sdoc:from <"@, Place::Iri)) by {
        reveal(leads);
        reveal_strlit("> a sdoc:DocumentationReference, prov:Entity ; sdoc:from <");
        reveal_with_fuel(sound, 21);
        let words = "> a sdoc:DocumentationReference, prov:Entity ; sdoc:from <"@;
        assert(sound(Place::Outside, Trail::Nothing, words, 38, Place::Iri));
        assert(sound(Place::Outside, Trail::Nothing, words, 18, Place::Iri));
    }
    assert(leads(Place::Iri, "> ; sdoc:to <"@, Place::Iri)) by {
        reveal(leads);
        reveal_strlit("> ; sdoc:to <");
        reveal_with_fuel(sound, 14);
    }
    assert(leads(Place::Iri, "> ; sdoc:linkLabel "@, Place::Outside)) by {
        reveal(leads);
        reveal_strlit("> ; sdoc:linkLabel ");
        reveal_with_fuel(sound, 20);
    }
    assert(leads(Place::Outside, " ; sdoc:grantsDoAuthority false .\n"@, Place::Outside)) by {
        reveal(leads);
        reveal_strlit(" ; sdoc:grantsDoAuthority false .\n");
        reveal_with_fuel(sound, 21);
        let words = " ; sdoc:grantsDoAuthority false .\n"@;
        assert(sound(Place::Outside, Trail::Nothing, words, 14, Place::Outside));
    }
}

proof fn lemma_link_leads(revision: Seq<char>, id: Seq<char>, label: Seq<char>, value: JsonTree)
    ensures
        leads(Place::Outside, graph::link_statements(revision, id, label, value), Place::Outside),
{
    broadcast use lemma_leads_join;

    lemma_marks_lead();
    lemma_link_words_lead();
    lemma_names_lead();
    lemma_nothing_leads(Place::Outside);
    lemma_item_leads(revision, id);
    lemma_item_leads(revision, rustdoc::scalar_text(value));
    lemma_segment_leads(label);
    lemma_literal_leads(label);
}

proof fn lemma_docs_words_lead()
    ensures
        leads(Place::Iri, "> a sdoc:DocFragment, sdoc:DocumentationEvidence, prov:Entity ;\n    sdoc:documents <"@, Place::Iri),
        leads(Place::Iri, "> ;\n    sdoc:documentationKind sdoc:RustdocMarkdown ;\n    rdf:value "@, Place::Outside),
        leads(Place::Iri, "> ;\n    sdoc:grantsDoAuthority false .\n  <"@, Place::Iri),
{
    assert(leads(Place::Iri, "> a sdoc:DocFragment, sdoc:DocumentationEvidence, prov:Entity ;\n    sdoc:documents <"@, Place::Iri)) by {
        reveal(leads);
        reveal_strlit("> a sdoc:DocFragment, sdoc:DocumentationEvidence, prov:Entity ;\n    sdoc:documents <");
        reveal_with_fuel(sound, 25);
        let words = "> a sdoc:DocFragment, sdoc:DocumentationEvidence, prov:Entity ;\n    sdoc:documents <"@;
        assert(sound(Place::Outside, Trail::Nothing, words, 64, Place::Iri));
        assert(sound(Place::Outside, Trail::Nothing, words, 44, Place::Iri));
        assert(sound(Place::Outside, Trail::Nothing, words, 24, Place::Iri));
    }
    assert(leads(Place::Iri, "> ;\n    sdoc:documentationKind sdoc:RustdocMarkdown ;\n    rdf:value "@, Place::Outside)) by {
        reveal(leads);
        reveal_strlit("> ;\n    sdoc:documentationKind sdoc:RustdocMarkdown ;\n    rdf:value ");
        reveal_with_fuel(sound, 21);
        let words = "> ;\n    sdoc:documentationKind sdoc:RustdocMarkdown ;\n    rdf:value "@;
        assert(sound(Place::Outside, Trail::Nothing, words, 48, Place::Outside));
        assert(sound(Place::Outside, Trail::Nothing, words, 28, Place::Outside));
        assert(sound(Place::Outside, Trail::Nothing, words, 8, Place::Outside));
    }
    assert(leads(Place::Iri, "> ;\n    sdoc:grantsDoAuthority false .\n  <"@, Place::Iri)) by {
        reveal(leads);
        reveal_strlit("> ;\n    sdoc:grantsDoAuthority false .\n  <");
        reveal_with_fuel(sound, 23);
        let words = "> ;\n    sdoc:grantsDoAuthority false .\n  <"@;
        assert(sound(Place::Outside, Trail::Nothing, words, 22, Place::Iri));
    }
}

proof fn lemma_docs_leads(revision: Seq<char>, id: Seq<char>, item: JsonTree)
    ensures
        leads(Place::Outside, graph::docs_statements(revision, id, item), Place::Outside),
{
    broadcast use lemma_leads_join;

    lemma_marks_lead();
    lemma_docs_words_lead();
    lemma_names_lead();
    lemma_nothing_leads(Place::Outside);
    lemma_resources_lead(revision);
    lemma_item_leads(revision, id);
    if let Some(JsonTree::Text(docs)) = item.member("docs"@) {
        lemma_literal_leads(docs);
    }
}

proof fn lemma_links_lead(
    revision: Seq<char>,
    id: Seq<char>,
    links: Map<Seq<char>, JsonTree>,
    labels: Seq<Seq<char>>,
)
    ensures
        leads(
            Place::Outside,
            graph::links_statements(revision, id, links, labels),
            Place::Outside,
        ),
    decreases labels.len(),
{
    broadcast use lemma_leads_join;

    lemma_nothing_leads(Place::Outside);
    if labels.len() > 0 {
        lemma_links_lead(revision, id, links, labels.drop_last());
        lemma_link_leads(revision, id, labels.last(), links[labels.last()]);
    }
}

proof fn lemma_items_lead(
    document: JsonTree,
    revision: Seq<char>,
    index: Map<Seq<char>, JsonTree>,
    ids: Seq<Seq<char>>,
)
    ensures
        leads(
            Place::Outside,
            graph::items_statements(document, revision, index, ids),
            Place::Outside,
        ),
        leads(Place::Outside, graph::items_docs(revision, index, ids), Place::Outside),
    decreases ids.len(),
{
    broadcast use lemma_leads_join;

    lemma_nothing_leads(Place::Outside);
    if ids.len() > 0 {
        let id = ids.last();
        let item = index[id];
        let links = graph::item_links(item);
        lemma_items_lead(document, revision, index, ids.drop_last());
        lemma_properties_leads(document, revision, id, item);
        lemma_span_leads(revision, id, item);
        lemma_links_lead(revision, id, links, order::in_order(links.dom()));
        lemma_docs_leads(revision, id, item);
    }
}

// The whole graph.

proof fn lemma_graph_words_lead()
    ensures
        leads(Place::Outside, "@prefix sdoc: <"@, Place::Iri),
        leads(Place::Iri, "https://ggen.dev/ontology/semantic-documentation#"@, Place::Iri),
        leads(Place::Iri, "> {\n"@, Place::Outside),
        leads(Place::Outside, "}\n\n<"@, Place::Iri),
        leads(Place::Outside, "}\n"@, Place::Outside),
        leads(Place::Outside, "  sdoc:RustdocMarkdown a sdoc:DocumentationKind ; sdoc:grantsDoAuthority false .\n"@, Place::Outside),
{
    assert(leads(Place::Outside, "@prefix sdoc: <"@, Place::Iri)) by {
        reveal(leads);
        reveal_strlit("@prefix sdoc: <");
        reveal_with_fuel(sound, 16);
    }
    assert(leads(Place::Iri, "https://ggen.dev/ontology/semantic-documentation#"@, Place::Iri)) by {
        reveal(leads);
        reveal_strlit("https://ggen.dev/ontology/semantic-documentation#");
        reveal_with_fuel(sound, 21);
        let words = "https://ggen.dev/ontology/semantic-documentation#"@;
        assert(sound(Place::Iri, Trail::Nothing, words, 29, Place::Iri));
        assert(sound(Place::Iri, Trail::Nothing, words, 9, Place::Iri));
    }
    assert(leads(Place::Iri, "> {\n"@, Place::Outside)) by {
        reveal(leads);
        reveal_strlit("> {\n");
        reveal_with_fuel(sound, 5);
    }
    assert(leads(Place::Outside, "}\n\n<"@, Place::Iri)) by {
        reveal(leads);
        reveal_strlit("}\n\n<");
        reveal_with_fuel(sound, 5);
    }
    assert(leads(Place::Outside, "}\n"@, Place::Outside)) by {
        reveal(leads);
        reveal_strlit("}\n");
        reveal_with_fuel(sound, 3);
    }
    assert(leads(Place::Outside, "  sdoc:RustdocMarkdown a sdoc:DocumentationKind ; sdoc:grantsDoAuthority false .\n"@, Place::Outside)) by {
        reveal(leads);
        reveal_strlit("  sdoc:RustdocMarkdown a sdoc:DocumentationKind ; sdoc:grantsDoAuthority false .\n");
        reveal_with_fuel(sound, 22);
        let words = "  sdoc:RustdocMarkdown a sdoc:DocumentationKind ; sdoc:grantsDoAuthority false .\n"@;
        assert(sound(Place::Outside, Trail::Nothing, words, 61, Place::Outside));
        assert(sound(Place::Outside, Trail::Nothing, words, 41, Place::Outside));
        assert(sound(Place::Outside, Trail::Nothing, words, 21, Place::Outside));
    }
}

proof fn lemma_prefixes_lead()
    ensures
        leads(Place::Iri, "> .\n@prefix prov: <http://www.w3.org/ns/prov#> .\n@prefix dct: <http://purl.org/dc/terms/> .\n@prefix rdf: <http://www.w3.org/1999/02/22-rdf-syntax-ns#> .\n@prefix xsd: <http://www.w3.org/2001/XMLSchema#> .\n\n<"@, Place::Iri),
{
    assert(leads(Place::Iri, "> .\n@prefix prov: <http://www.w3.org/ns/prov#> .\n@prefix dct: <http://purl.org/dc/terms/> .\n@prefix rdf: <http://www.w3.org/1999/02/22-rdf-syntax-ns#> .\n@prefix xsd: <http://www.w3.org/2001/XMLSchema#> .\n\n<"@, Place::Iri)) by {
        reveal(leads);
        reveal_strlit("> .\n@prefix prov: <http://www.w3.org/ns/prov#> .\n@prefix dct: <http://purl.org/dc/terms/> .\n@prefix rdf: <http://www.w3.org/1999/02/22-rdf-syntax-ns#> .\n@prefix xsd: <http://www.w3.org/2001/XMLSchema#> .\n\n<");
        reveal_with_fuel(sound, 27);
        let words = "> .\n@prefix prov: <http://www.w3.org/ns/prov#> .\n@prefix dct: <http://purl.org/dc/terms/> .\n@prefix rdf: <http://www.w3.org/1999/02/22-rdf-syntax-ns#> .\n@prefix xsd: <http://www.w3.org/2001/XMLSchema#> .\n\n<"@;
        assert(sound(Place::Iri, Trail::Nothing, words, 186, Place::Iri));
        assert(sound(Place::Outside, Trail::Nothing, words, 166, Place::Iri));
        assert(sound(Place::Iri, Trail::Nothing, words, 146, Place::Iri));
        assert(sound(Place::Iri, Trail::Nothing, words, 126, Place::Iri));
        assert(sound(Place::Iri, Trail::Nothing, words, 106, Place::Iri));
        assert(sound(Place::Iri, Trail::Nothing, words, 86, Place::Iri));
        assert(sound(Place::Iri, Trail::Nothing, words, 66, Place::Iri));
        assert(sound(Place::Outside, Trail::Nothing, words, 46, Place::Iri));
        assert(sound(Place::Iri, Trail::Nothing, words, 26, Place::Iri));
    }
}

proof fn lemma_graph_leads(document: JsonTree, repository: Seq<char>, revision: Seq<char>)
    ensures
        leads(
            Place::Outside,
            graph::graph_text(document, repository, revision),
            Place::Outside,
        ),
{
    broadcast use lemma_leads_join;

    let index = graph::index_of(document)->0;
    lemma_graph_words_lead();
    lemma_prefixes_lead();
    lemma_resources_lead(revision);
    lemma_revision_leads(repository, revision);
    lemma_dataset_leads(repository, revision, graph::format_version_of(document)->0);
    lemma_root_leads(document, revision);
    lemma_items_lead(document, revision, index, order::in_order(index.dom()));
}

// What a sound text tells.

spec fn trail_at(text: Seq<char>, n: int) -> Trail
    decreases n,
{
    if n <= 0 {
        Trail::Nothing
    } else {
        trail_after(place_at(text, n - 1), trail_at(text, n - 1), text[n - 1])
    }
}

/// What a sound text says of every position from a given one on.
proof fn lemma_sound_tells(text: Seq<char>, k: int, to: Place)
    requires
        0 <= k <= text.len(),
        sound(place_at(text, k), trail_at(text, k), text, k, to),
    ensures
        place_at(text, text.len() as int) == to,
        forall|i: int|
            k <= i < text.len() ==> acceptable(#[trigger] place_at(text, i), text[i]) && !telling(
                place_at(text, i),
                trail_at(text, i),
                text[i],
            ),
    decreases text.len() - k,
{
    if k < text.len() {
        lemma_sound_tells(text, k + 1, to);
    }
}

proof fn lemma_graph_tells(document: JsonTree, repository: Seq<char>, revision: Seq<char>)
    ensures
        ({
            let trig = graph::graph_text(document, repository, revision);
            &&& place_at(trig, trig.len() as int) is Outside
            &&& forall|i: int|
                0 <= i < trig.len() ==> acceptable(#[trigger] place_at(trig, i), trig[i])
                    && !telling(place_at(trig, i), trail_at(trig, i), trig[i])
        }),
{
    reveal(leads);
    lemma_graph_leads(document, repository, revision);
    lemma_sound_tells(graph::graph_text(document, repository, revision), 0, Place::Outside);
}

/// A word that stands outside has each of its characters there.
proof fn lemma_character_of_word(word: Seq<char>, text: Seq<char>, i: int, k: int)
    requires
        stands_outside(word, text, i),
        0 <= k < word.len(),
    ensures
        text[i + k] == word[k],
        place_at(text, i + k) is Outside,
{
    assert(text.subrange(i, i + word.len())[k] == text[i + k]);
}

proof fn lemma_true_tells(text: Seq<char>, i: int)
    requires
        stands_outside("true"@, text, i),
    ensures
        0 <= i + 2 < text.len(),
        telling(place_at(text, i + 2), trail_at(text, i + 2), text[i + 2]),
{
    reveal_strlit("true");
    lemma_character_of_word("true"@, text, i, 0);
    lemma_character_of_word("true"@, text, i, 1);
    lemma_character_of_word("true"@, text, i, 2);
    assert(trail_at(text, i + 1) is T);
    assert(trail_at(text, i + 2) is Tr);
}

proof fn lemma_generation_tells(text: Seq<char>, i: int)
    requires
        stands_outside("wasGeneratedBy"@, text, i),
    ensures
        0 <= i + 4 < text.len(),
        telling(place_at(text, i + 4), trail_at(text, i + 4), text[i + 4]),
{
    reveal_strlit("wasGeneratedBy");
    lemma_character_of_word("wasGeneratedBy"@, text, i, 3);
    lemma_character_of_word("wasGeneratedBy"@, text, i, 4);
    assert(trail_at(text, i + 4) is G);
}

/// A graph is sound to its end, whatever its document says: every IRI and every literal is
/// closed, and holds no character that TriG does not accept there.
pub proof fn law_graph_is_sound(document: JsonTree, repository: Seq<char>, revision: Seq<char>)
    ensures
        ({
            let trig = graph::graph_text(document, repository, revision);
            &&& place_at(trig, trig.len() as int) is Outside
            &&& forall|i: int|
                0 <= i < trig.len() ==> acceptable(#[trigger] place_at(trig, i), trig[i])
        }),
{
    lemma_graph_tells(document, repository, revision);
}

/// A graph grants nothing, whatever its document says: `true` stands in it only where an IRI or
/// a literal quotes it.
pub proof fn law_graph_grants_nothing(
    document: JsonTree,
    repository: Seq<char>,
    revision: Seq<char>,
    i: int,
)
    ensures
        !stands_outside("true"@, graph::graph_text(document, repository, revision), i),
{
    let trig = graph::graph_text(document, repository, revision);
    lemma_graph_tells(document, repository, revision);
    if stands_outside("true"@, trig, i) {
        lemma_true_tells(trig, i);
    }
}

/// A graph claims no generating activity, whatever its document says: `wasGeneratedBy` stands in
/// it only where an IRI or a literal quotes it.
pub proof fn law_graph_claims_no_generation(
    document: JsonTree,
    repository: Seq<char>,
    revision: Seq<char>,
    i: int,
)
    ensures
        !stands_outside("wasGeneratedBy"@, graph::graph_text(document, repository, revision), i),
{
    let trig = graph::graph_text(document, repository, revision);
    lemma_graph_tells(document, repository, revision);
    if stands_outside("wasGeneratedBy"@, trig, i) {
        lemma_generation_tells(trig, i);
    }
}

} // verus!

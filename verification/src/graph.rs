//! The semantic documentation graph of a crate, compiled from its Rustdoc JSON.

use crate::iri;
use crate::iri::{iri_segment, item_iri};
use crate::json;
use crate::json::{Json, JsonTree};
use crate::literal;
use crate::literal::literal;
use crate::order;
use crate::order::ordered_positions;
use crate::rustdoc;
use crate::rustdoc::{coordinate, item_kind, item_visibility, qualified_path, scalar_string};
use crate::text;
use crate::text::{fits_usize, push_decimal};
use vstd::prelude::*;

verus! {

/// The vocabulary of the graph.
pub const SDOC: &'static str = "https://ggen.dev/ontology/semantic-documentation#";

// The named resources.

/// The IRI of a revision.
pub open spec fn revision_iri(revision: Seq<char>) -> Seq<char> {
    "urn:litho:revision:"@ + iri::segment_text(revision)
}

/// The IRI of the dataset of a revision.
pub open spec fn dataset_iri(revision: Seq<char>) -> Seq<char> {
    "urn:litho:semantic-documentation:"@ + iri::segment_text(revision)
}

/// The IRI of the graph that holds the source evidence of a revision.
pub open spec fn source_graph_iri(revision: Seq<char>) -> Seq<char> {
    "urn:litho:graph:source:"@ + iri::segment_text(revision)
}

/// The IRI of the graph that holds the documentation evidence of a revision.
pub open spec fn docs_graph_iri(revision: Seq<char>) -> Seq<char> {
    "urn:litho:graph:documentation:"@ + iri::segment_text(revision)
}

// The statements about the revision and the dataset.

/// What the graph says of the revision.
pub open spec fn revision_statements(repository: Seq<char>, revision: Seq<char>) -> Seq<char> {
    "  <"@ + revision_iri(revision)
        + "> a sdoc:RevisionBoundSubject, prov:Entity ;\n    sdoc:repository "@
        + literal::literal_text(repository) + " ;\n    sdoc:revision "@ + literal::literal_text(
        revision,
    ) + " ;\n    sdoc:grantsDoAuthority false .\n\n"@
}

/// What the graph says of the dataset.
pub open spec fn dataset_statements(
    repository: Seq<char>,
    revision: Seq<char>,
    format_version: u64,
) -> Seq<char> {
    "  <"@ + dataset_iri(revision)
        + "> a sdoc:SemanticDocumentationDataset, prov:Entity ;\n    sdoc:repository "@
        + literal::literal_text(repository) + " ;\n    sdoc:revision "@ + literal::literal_text(
        revision,
    ) + " ;\n    sdoc:sourceGraph "@ + literal::literal_text(source_graph_iri(revision))
        + " ;\n    sdoc:documentationGraph "@ + literal::literal_text(docs_graph_iri(revision))
        + " ;\n    sdoc:extractor \"rustdoc-json\" ;\n    sdoc:rustdocFormatVersion "@
        + text::decimal(format_version as nat)
        + " ;\n    sdoc:standing \"PARTIAL_ALIVE\" ;\n    prov:wasDerivedFrom <"@ + revision_iri(
        revision,
    ) + "> ;\n    sdoc:grantsDoAuthority false .\n"@
}

/// What the graph says of the root item, where the document names one.
pub open spec fn root_statements(document: JsonTree, revision: Seq<char>) -> Seq<char> {
    match document.member("root"@) {
        Some(root) if rustdoc::has_text(root) => "  <"@ + dataset_iri(revision)
            + "> sdoc:rootItem <"@ + iri::item_iri_text(revision, rustdoc::scalar_text(root))
            + "> .\n"@,
        _ => seq![],
    }
}

// The statements about an item.

/// The name of an item.
pub open spec fn name_property(item: JsonTree) -> Seq<char> {
    match item.member("name"@) {
        Some(JsonTree::Text(name)) => "    sdoc:name "@ + literal::literal_text(name) + " ;\n"@,
        _ => seq![],
    }
}

/// The qualified path of an item.
pub open spec fn path_property(document: JsonTree, id: Seq<char>) -> Seq<char> {
    match rustdoc::path_text(document, id) {
        Some(path) => "    sdoc:fullyQualifiedPath "@ + literal::literal_text(path) + " ;\n"@,
        None => seq![],
    }
}

/// What the graph says of an item itself.
pub open spec fn item_properties(
    document: JsonTree,
    revision: Seq<char>,
    id: Seq<char>,
    item: JsonTree,
) -> Seq<char> {
    "  <"@ + iri::item_iri_text(revision, id)
        + "> a sdoc:RustItem, sdoc:SourceEvidence, prov:Entity ;\n    sdoc:localId "@
        + literal::literal_text(id) + " ;\n    sdoc:itemKind "@ + literal::literal_text(
        rustdoc::kind_text(item),
    ) + " ;\n    sdoc:visibility "@ + literal::literal_text(rustdoc::visibility_text(item))
        + " ;\n    dct:source "@ + literal::literal_text("rustdoc-json:item:"@ + id)
        + " ;\n    prov:wasDerivedFrom <"@ + revision_iri(revision) + "> ;\n"@ + name_property(item)
        + path_property(document, id) + "    sdoc:grantsDoAuthority false .\n"@ + "  <"@
        + dataset_iri(revision) + "> sdoc:hasEvidence <"@ + iri::item_iri_text(revision, id)
        + "> .\n"@
}

/// The file that a span names.
pub open spec fn span_file(span: JsonTree) -> Seq<char> {
    match span.member("filename"@) {
        Some(JsonTree::Text(name)) => name,
        _ => ""@,
    }
}

/// What the graph says of an item's place in the source, where the item has one.
pub open spec fn span_statements(revision: Seq<char>, id: Seq<char>, item: JsonTree) -> Seq<char> {
    match item.member("span"@) {
        Some(JsonTree::Object(members)) => {
            let span = JsonTree::Object(members);
            let begin = rustdoc::position(span.member("begin"@));
            let end = rustdoc::position(span.member("end"@));
            let iri = iri::item_iri_text(revision, id);
            "  <"@ + (iri + "/span"@)
                + "> a sdoc:SourceSpan, prov:Entity ;\n    sdoc:sourceFile "@
                + literal::literal_text(span_file(span)) + " ;\n    sdoc:startLine "@
                + text::decimal(begin.0 as nat) + " ;\n    sdoc:startColumn "@ + text::decimal(
                begin.1 as nat,
            ) + " ;\n    sdoc:endLine "@ + text::decimal(end.0 as nat) + " ;\n    sdoc:endColumn "@
                + text::decimal(end.1 as nat) + " ;\n    sdoc:grantsDoAuthority false .\n  <"@ + iri
                + "> sdoc:definedAt <"@ + (iri + "/span"@) + "> .\n"@
        },
        _ => seq![],
    }
}

/// What the graph says of one link from an item's documentation; nothing where the link has no
/// target.
pub open spec fn link_statements(
    revision: Seq<char>,
    id: Seq<char>,
    label: Seq<char>,
    value: JsonTree,
) -> Seq<char> {
    let target = rustdoc::scalar_text(value);
    let iri = iri::item_iri_text(revision, id);
    if !rustdoc::has_text(value) {
        seq![]
    } else {
        "  <"@ + iri + "> sdoc:references <"@ + iri::item_iri_text(revision, target) + "> .\n"@
            + "  <"@ + (iri + "/link/"@ + iri::segment_text(label))
            + "> a sdoc:DocumentationReference, prov:Entity ; sdoc:from <"@ + iri
            + "> ; sdoc:to <"@ + iri::item_iri_text(revision, target) + "> ; sdoc:linkLabel "@
            + literal::literal_text(label) + " ; sdoc:grantsDoAuthority false .\n"@
    }
}

/// What the graph says of the links with the given labels, one after the other.
pub open spec fn links_statements(
    revision: Seq<char>,
    id: Seq<char>,
    links: Map<Seq<char>, JsonTree>,
    labels: Seq<Seq<char>>,
) -> Seq<char>
    decreases labels.len(),
{
    if labels.len() == 0 {
        seq![]
    } else {
        links_statements(revision, id, links, labels.drop_last()) + link_statements(
            revision,
            id,
            labels.last(),
            links[labels.last()],
        )
    }
}

/// The links of an item's documentation.
pub open spec fn item_links(item: JsonTree) -> Map<Seq<char>, JsonTree> {
    match item.member("links"@) {
        Some(JsonTree::Object(links)) => links,
        _ => Map::empty(),
    }
}

/// Everything that the source graph says of an item.
pub open spec fn item_statements(
    document: JsonTree,
    revision: Seq<char>,
    id: Seq<char>,
    item: JsonTree,
) -> Seq<char> {
    item_properties(document, revision, id, item) + span_statements(revision, id, item)
        + links_statements(revision, id, item_links(item), order::in_order(item_links(item).dom()))
}

/// Everything that the documentation graph says of an item.
pub open spec fn docs_statements(revision: Seq<char>, id: Seq<char>, item: JsonTree) -> Seq<char> {
    match item.member("docs"@) {
        Some(JsonTree::Text(docs)) => {
            let iri = iri::item_iri_text(revision, id);
            "  <"@ + (iri + "/doc"@)
                + "> a sdoc:DocFragment, sdoc:DocumentationEvidence, prov:Entity ;\n    sdoc:documents <"@
                + iri
                + "> ;\n    sdoc:documentationKind sdoc:RustdocMarkdown ;\n    rdf:value "@
                + literal::literal_text(docs) + " ;\n    prov:wasDerivedFrom <"@ + iri
                + "> ;\n    sdoc:grantsDoAuthority false .\n  <"@ + dataset_iri(revision)
                + "> sdoc:hasEvidence <"@ + (iri + "/doc"@) + "> .\n"@
        },
        _ => seq![],
    }
}

// The whole graph.

/// Everything that the source graph says of the items with the given ids.
pub open spec fn items_statements(
    document: JsonTree,
    revision: Seq<char>,
    index: Map<Seq<char>, JsonTree>,
    ids: Seq<Seq<char>>,
) -> Seq<char>
    decreases ids.len(),
{
    if ids.len() == 0 {
        seq![]
    } else {
        let before = items_statements(document, revision, index, ids.drop_last());
        if index[ids.last()] is Object {
            before + item_statements(document, revision, ids.last(), index[ids.last()])
        } else {
            before
        }
    }
}

/// Everything that the documentation graph says of the items with the given ids.
pub open spec fn items_docs(
    revision: Seq<char>,
    index: Map<Seq<char>, JsonTree>,
    ids: Seq<Seq<char>>,
) -> Seq<char>
    decreases ids.len(),
{
    if ids.len() == 0 {
        seq![]
    } else {
        let before = items_docs(revision, index, ids.drop_last());
        if index[ids.last()] is Object {
            before + docs_statements(revision, ids.last(), index[ids.last()])
        } else {
            before
        }
    }
}

/// The format version of a document.
pub open spec fn format_version_of(document: JsonTree) -> Option<u64> {
    match document.member("format_version"@) {
        Some(value) => value.unsigned(),
        None => None,
    }
}

/// The items of a document by their ids.
pub open spec fn index_of(document: JsonTree) -> Option<Map<Seq<char>, JsonTree>> {
    match document.member("index"@) {
        Some(value) => value.members(),
        None => None,
    }
}

/// The statements of the source graph.
pub open spec fn source_statements(
    document: JsonTree,
    repository: Seq<char>,
    revision: Seq<char>,
) -> Seq<char> {
    let index = index_of(document)->0;
    revision_statements(repository, revision) + dataset_statements(
        repository,
        revision,
        format_version_of(document)->0,
    ) + root_statements(document, revision) + items_statements(
        document,
        revision,
        index,
        order::in_order(index.dom()),
    )
}

/// The statements of the documentation graph.
pub open spec fn documentation_statements(document: JsonTree, revision: Seq<char>) -> Seq<char> {
    let index = index_of(document)->0;
    "  sdoc:RustdocMarkdown a sdoc:DocumentationKind ; sdoc:grantsDoAuthority false .\n"@ + items_docs(
        revision,
        index,
        order::in_order(index.dom()),
    )
}

/// The graph of a document, in TriG: the prefixes, the source graph, the documentation graph.
pub open spec fn graph_text(
    document: JsonTree,
    repository: Seq<char>,
    revision: Seq<char>,
) -> Seq<char> {
    "@prefix sdoc: <"@ + SDOC@
        + "> .\n@prefix prov: <http://www.w3.org/ns/prov#> .\n@prefix dct: <http://purl.org/dc/terms/> .\n@prefix rdf: <http://www.w3.org/1999/02/22-rdf-syntax-ns#> .\n@prefix xsd: <http://www.w3.org/2001/XMLSchema#> .\n\n<"@
        + source_graph_iri(revision) + "> {\n"@ + source_statements(document, repository, revision)
        + "}\n\n<"@ + docs_graph_iri(revision) + "> {\n"@ + documentation_statements(
        document,
        revision,
    ) + "}\n"@
}

// What is counted.

/// The number of labels whose link has a target.
pub open spec fn reference_total(links: Map<Seq<char>, JsonTree>, labels: Seq<Seq<char>>) -> nat
    decreases labels.len(),
{
    if labels.len() == 0 {
        0
    } else {
        reference_total(links, labels.drop_last()) + if rustdoc::has_text(
            links[labels.last()],
        ) {
            1nat
        } else {
            0nat
        }
    }
}

/// The number of references from an item.
pub open spec fn item_references(item: JsonTree) -> nat {
    reference_total(item_links(item), order::in_order(item_links(item).dom()))
}

/// The item has documentation.
pub open spec fn is_documented(item: JsonTree) -> bool {
    item.member("docs"@) matches Some(JsonTree::Text(_))
}

/// The item has a place in the source.
pub open spec fn has_span(item: JsonTree) -> bool {
    item.member("span"@) matches Some(JsonTree::Object(_))
}

/// The sum of what is counted for each of the items with the given ids.
pub open spec fn total(
    index: Map<Seq<char>, JsonTree>,
    ids: Seq<Seq<char>>,
    count: spec_fn(JsonTree) -> nat,
) -> nat
    decreases ids.len(),
{
    if ids.len() == 0 {
        0
    } else {
        total(index, ids.drop_last(), count) + if index[ids.last()] is Object {
            count(index[ids.last()])
        } else {
            0
        }
    }
}

/// How much a graph holds, as numbers.
pub struct Tally {
    pub items: nat,
    pub documented: nat,
    pub references: nat,
    pub spans: nat,
}

/// How much a graph holds.
#[derive(Debug, Clone, Copy, PartialEq, Eq, Structural)]
pub struct GraphCounts {
    pub item_count: usize,
    pub documented_item_count: usize,
    pub reference_count: usize,
    pub source_span_count: usize,
}

impl View for GraphCounts {
    type V = Tally;

    open spec fn view(&self) -> Tally {
        Tally {
            items: self.item_count as nat,
            documented: self.documented_item_count as nat,
            references: self.reference_count as nat,
            spans: self.source_span_count as nat,
        }
    }
}

impl Default for GraphCounts {
    fn default() -> (r: GraphCounts)
        ensures
            r@ == (Tally { items: 0, documented: 0, references: 0, spans: 0 }),
    {
        GraphCounts {
            item_count: 0,
            documented_item_count: 0,
            reference_count: 0,
            source_span_count: 0,
        }
    }
}

/// The tally of the items with the given ids: the items, those with documentation, the
/// references from them, those with a place in the source.
pub open spec fn items_tally(index: Map<Seq<char>, JsonTree>, ids: Seq<Seq<char>>) -> Tally {
    Tally {
        items: total(index, ids, |item: JsonTree| 1),
        documented: total(
            index,
            ids,
            |item: JsonTree|
                if is_documented(item) {
                    1
                } else {
                    0
                },
        ),
        references: total(index, ids, |item: JsonTree| item_references(item)),
        spans: total(
            index,
            ids,
            |item: JsonTree|
                if has_span(item) {
                    1
                } else {
                    0
                },
        ),
    }
}

/// The tally of a document.
pub open spec fn document_tally(document: JsonTree) -> Tally {
    let index = index_of(document)->0;
    items_tally(index, order::in_order(index.dom()))
}

/// Why a document has no graph.
#[derive(Debug, Clone, Copy, PartialEq, Eq, Structural)]
pub enum CompileError {
    MissingFormatVersion,
    MissingIndex,
}

/// The graph of a document, its format version and its tally, or what the document lacks.
#[verifier::opaque]
pub open spec fn compiled(
    document: JsonTree,
    repository: Seq<char>,
    revision: Seq<char>,
) -> Result<(Seq<char>, u64, Tally), CompileError> {
    match (format_version_of(document), index_of(document)) {
        (None, _) => Err(CompileError::MissingFormatVersion),
        (Some(_), None) => Err(CompileError::MissingIndex),
        (Some(format_version), Some(_)) => Ok(
            (
                graph_text(document, repository, revision),
                format_version,
                document_tally(document),
            ),
        ),
    }
}

impl CompileError {
    /// The error in words.
    pub fn message(&self) -> (r: &'static str)
        ensures
            r@ == match self {
                CompileError::MissingFormatVersion => "Rustdoc JSON missing numeric format_version"@,
                CompileError::MissingIndex => "Rustdoc JSON missing index object"@,
            },
    {
        match self {
            CompileError::MissingFormatVersion => "Rustdoc JSON missing numeric format_version",
            CompileError::MissingIndex => "Rustdoc JSON missing index object",
        }
    }
}

// Writing the statements.

/// Writes a resource of a revision.
fn resource(prefix: &str, segment: &str) -> (r: String)
    ensures
        r@ == prefix@ + segment@,
{
    let mut out = prefix.to_owned();
    out.push_str(segment);
    out
}

fn write_revision(repository: &str, revision: &str) -> (r: String)
    ensures
        r@ == revision_statements(repository@, revision@),
{
    let iri = resource("urn:litho:revision:", iri_segment(revision).as_str());
    let mut out = "  <".to_owned();
    out.push_str(iri.as_str());
    out.push_str("> a sdoc:RevisionBoundSubject, prov:Entity ;\n    sdoc:repository ");
    out.push_str(literal(repository).as_str());
    out.push_str(" ;\n    sdoc:revision ");
    out.push_str(literal(revision).as_str());
    out.push_str(" ;\n    sdoc:grantsDoAuthority false .\n\n");
    out
}

fn write_dataset(repository: &str, revision: &str, format_version: u64) -> (r: String)
    ensures
        r@ == dataset_statements(repository@, revision@, format_version),
{
    let segment = iri_segment(revision);
    let iri = resource("urn:litho:semantic-documentation:", segment.as_str());
    let source_graph = resource("urn:litho:graph:source:", segment.as_str());
    let docs_graph = resource("urn:litho:graph:documentation:", segment.as_str());
    let revision_iri = resource("urn:litho:revision:", segment.as_str());
    let mut out = "  <".to_owned();
    out.push_str(iri.as_str());
    out.push_str("> a sdoc:SemanticDocumentationDataset, prov:Entity ;\n    sdoc:repository ");
    out.push_str(literal(repository).as_str());
    out.push_str(" ;\n    sdoc:revision ");
    out.push_str(literal(revision).as_str());
    out.push_str(" ;\n    sdoc:sourceGraph ");
    out.push_str(literal(source_graph.as_str()).as_str());
    out.push_str(" ;\n    sdoc:documentationGraph ");
    out.push_str(literal(docs_graph.as_str()).as_str());
    out.push_str(
        " ;\n    sdoc:extractor \"rustdoc-json\" ;\n    sdoc:rustdocFormatVersion ",
    );
    push_decimal(&mut out, format_version);
    out.push_str(" ;\n    sdoc:standing \"PARTIAL_ALIVE\" ;\n    prov:wasDerivedFrom <");
    out.push_str(revision_iri.as_str());
    out.push_str("> ;\n    sdoc:grantsDoAuthority false .\n");
    out
}

fn write_root(document: &Json, revision: &str) -> (r: String)
    ensures
        r@ == root_statements(document@, revision@),
{
    let root_id = match document.get("root") {
        Some(root) => scalar_string(root),
        None => String::new(),
    };
    if root_id.as_str().is_empty() {
        String::new()
    } else {
        let segment = iri_segment(revision);
        let mut out = "  <".to_owned();
        out.push_str(resource("urn:litho:semantic-documentation:", segment.as_str()).as_str());
        out.push_str("> sdoc:rootItem <");
        out.push_str(item_iri(revision, root_id.as_str()).as_str());
        out.push_str("> .\n");
        out
    }
}

fn write_name(item: &Json) -> (r: String)
    ensures
        r@ == name_property(item@),
{
    match item.get("name") {
        Some(Json::Text(name)) => {
            let mut out = "    sdoc:name ".to_owned();
            out.push_str(literal(name.as_str()).as_str());
            out.push_str(" ;\n");
            out
        },
        _ => String::new(),
    }
}

fn write_path(path: Option<String>, Ghost(document): Ghost<JsonTree>, Ghost(id): Ghost<Seq<char>>) -> (r: String)
    requires
        match path {
            Some(path) => rustdoc::path_text(document, id) == Some(path@),
            None => rustdoc::path_text(document, id) is None,
        },
    ensures
        r@ == path_property(document, id),
{
    match path {
        Some(path) => {
            let mut out = "    sdoc:fullyQualifiedPath ".to_owned();
            out.push_str(literal(path.as_str()).as_str());
            out.push_str(" ;\n");
            out
        },
        None => String::new(),
    }
}

fn write_properties(
    Ghost(document): Ghost<JsonTree>,
    revision: &str,
    id: &str,
    item: &Json,
    path: Option<String>,
) -> (r: String)
    requires
        match path {
            Some(path) => rustdoc::path_text(document, id@) == Some(path@),
            None => rustdoc::path_text(document, id@) is None,
        },
    ensures
        r@ == item_properties(document, revision@, id@, item@),
{
    let segment = iri_segment(revision);
    let iri = item_iri(revision, id);
    let dataset = resource("urn:litho:semantic-documentation:", segment.as_str());
    let revision_iri = resource("urn:litho:revision:", segment.as_str());
    let source = resource("rustdoc-json:item:", id);
    let mut out = "  <".to_owned();
    out.push_str(iri.as_str());
    out.push_str("> a sdoc:RustItem, sdoc:SourceEvidence, prov:Entity ;\n    sdoc:localId ");
    out.push_str(literal(id).as_str());
    out.push_str(" ;\n    sdoc:itemKind ");
    out.push_str(literal(item_kind(item)).as_str());
    out.push_str(" ;\n    sdoc:visibility ");
    out.push_str(literal(item_visibility(item).as_str()).as_str());
    out.push_str(" ;\n    dct:source ");
    out.push_str(literal(source.as_str()).as_str());
    out.push_str(" ;\n    prov:wasDerivedFrom <");
    out.push_str(revision_iri.as_str());
    out.push_str("> ;\n");
    out.push_str(write_name(item).as_str());
    out.push_str(write_path(path, Ghost(document), Ghost(id@)).as_str());
    out.push_str("    sdoc:grantsDoAuthority false .\n");
    out.push_str("  <");
    out.push_str(dataset.as_str());
    out.push_str("> sdoc:hasEvidence <");
    out.push_str(iri.as_str());
    out.push_str("> .\n");
    out
}

fn write_span(revision: &str, id: &str, item: &Json) -> (r: Option<String>)
    ensures
        match r {
            Some(text) => has_span(item@) && text@ == span_statements(revision@, id@, item@),
            None => !has_span(item@),
        },
{
    match item.get("span") {
        Some(span) => match span {
            Json::Object(_) => {
                let iri = item_iri(revision, id);
                let span_iri = resource(iri.as_str(), "/span");
                let filename = match span.get("filename") {
                    Some(Json::Text(name)) => name.as_str(),
                    _ => "",
                };
                let begin: (u64, u64) = coordinate(span.get("begin"));
                let end: (u64, u64) = coordinate(span.get("end"));
                let mut out = "  <".to_owned();
                out.push_str(span_iri.as_str());
                out.push_str("> a sdoc:SourceSpan, prov:Entity ;\n    sdoc:sourceFile ");
                out.push_str(literal(filename).as_str());
                out.push_str(" ;\n    sdoc:startLine ");
                push_decimal(&mut out, begin.0);
                out.push_str(" ;\n    sdoc:startColumn ");
                push_decimal(&mut out, begin.1);
                out.push_str(" ;\n    sdoc:endLine ");
                push_decimal(&mut out, end.0);
                out.push_str(" ;\n    sdoc:endColumn ");
                push_decimal(&mut out, end.1);
                out.push_str(" ;\n    sdoc:grantsDoAuthority false .\n  <");
                out.push_str(iri.as_str());
                out.push_str("> sdoc:definedAt <");
                out.push_str(span_iri.as_str());
                out.push_str("> .\n");
                Some(out)
            },
            _ => None,
        },
        None => None,
    }
}

fn write_link(revision: &str, id: &str, label: &str, target: &str) -> (r: String)
    requires
        target@.len() > 0,
    ensures
        r@ == link_statements(revision@, id@, label@, JsonTree::Text(target@)),
{
    let iri = item_iri(revision, id);
    let target_iri = item_iri(revision, target);
    let edge = resource(resource(iri.as_str(), "/link/").as_str(), iri_segment(label).as_str());
    let mut out = "  <".to_owned();
    out.push_str(iri.as_str());
    out.push_str("> sdoc:references <");
    out.push_str(target_iri.as_str());
    out.push_str("> .\n");
    out.push_str("  <");
    out.push_str(edge.as_str());
    out.push_str("> a sdoc:DocumentationReference, prov:Entity ; sdoc:from <");
    out.push_str(iri.as_str());
    out.push_str("> ; sdoc:to <");
    out.push_str(target_iri.as_str());
    out.push_str("> ; sdoc:linkLabel ");
    out.push_str(literal(label).as_str());
    out.push_str(" ; sdoc:grantsDoAuthority false .\n");
    out
}

fn write_docs(revision: &str, id: &str, item: &Json) -> (r: Option<String>)
    ensures
        match r {
            Some(text) => is_documented(item@) && text@ == docs_statements(revision@, id@, item@),
            None => !is_documented(item@),
        },
{
    match item.get("docs") {
        Some(Json::Text(docs)) => {
            let iri = item_iri(revision, id);
            let doc_iri = resource(iri.as_str(), "/doc");
            let segment = iri_segment(revision);
            let dataset = resource("urn:litho:semantic-documentation:", segment.as_str());
            let mut out = "  <".to_owned();
            out.push_str(doc_iri.as_str());
            out.push_str(
                "> a sdoc:DocFragment, sdoc:DocumentationEvidence, prov:Entity ;\n    sdoc:documents <",
            );
            out.push_str(iri.as_str());
            out.push_str(
                "> ;\n    sdoc:documentationKind sdoc:RustdocMarkdown ;\n    rdf:value ",
            );
            out.push_str(literal(docs.as_str()).as_str());
            out.push_str(" ;\n    prov:wasDerivedFrom <");
            out.push_str(iri.as_str());
            out.push_str("> ;\n    sdoc:grantsDoAuthority false .\n  <");
            out.push_str(dataset.as_str());
            out.push_str("> sdoc:hasEvidence <");
            out.push_str(doc_iri.as_str());
            out.push_str("> .\n");
            Some(out)
        },
        _ => None,
    }
}

fn write_links(revision: &str, id: &str, item: &Json) -> (r: (String, usize))
    ensures
        r.0@ == links_statements(
            revision@,
            id@,
            item_links(item@),
            order::in_order(item_links(item@).dom()),
        ),
        r.1 == item_references(item@),
        r.1 <= r.0@.len(),
{
    let mut out = String::new();
    let mut count: usize = 0;
    let ghost links = item_links(item@);
    match item.get("links") {
        Some(Json::Object(entries)) => {
            let positions = ordered_positions(entries);
            let ghost labels = order::names_at(entries@, positions@);
            proof {
                json::lemma_ordered_names(entries@, positions@);
                assert(labels.take(0) =~= seq![]);
            }
            let mut i: usize = 0;
            while i < positions.len()
                invariant
                    i <= positions@.len(),
                    labels == order::names_at(entries@, positions@),
                    links == json::map_of(entries@),
                    order::ordered_within(entries@, 0, entries@.len() as int, positions@),
                    out@ == links_statements(revision@, id@, links, labels.take(i as int)),
                    count == reference_total(links, labels.take(i as int)),
                    count <= out@.len(),
                decreases positions.len() - i,
            {
                let p: usize = positions[i];
                proof {
                    json::lemma_map_of(entries@);
                    assert(labels.take(i + 1).drop_last() =~= labels.take(i as int));
                    assert(labels[i as int] == entries@[p as int].0@);
                    assert(order::last_of_name(entries@, p as int, entries@.len() as int));
                    assert(links[entries@[p as int].0@] == entries@[p as int].1@);
                }
                let target = scalar_string(&entries[p].1);
                if target.as_str().is_empty() {
                    assert(out@ + Seq::<char>::empty() =~= out@);
                } else {
                    let statements = write_link(
                        revision,
                        id,
                        entries[p].0.as_str(),
                        target.as_str(),
                    );
                    proof {
                        reveal_strlit("  <");
                    }
                    out.push_str(statements.as_str());
                    fits_usize(&out);
                    count += 1;
                }
                i += 1;
            }
            assert(labels.take(i as int) =~= labels);
        },
        _ => {
            proof {
                let none = Seq::<Seq<char>>::empty();
                assert(none.to_set() =~= links.dom());
                order::lemma_in_order(none);
            }
        },
    }
    (out, count)
}

/// Writes what the source graph says of an item; gives also the number of its references and
/// whether it has a place in the source.
fn write_item(
    Ghost(document): Ghost<JsonTree>,
    revision: &str,
    id: &str,
    item: &Json,
    path: Option<String>,
) -> (r: (String, usize, bool))
    requires
        match path {
            Some(path) => rustdoc::path_text(document, id@) == Some(path@),
            None => rustdoc::path_text(document, id@) is None,
        },
    ensures
        r.0@ == item_statements(document, revision@, id@, item@),
        r.1 == item_references(item@),
        r.1 <= r.0@.len(),
        r.2 == has_span(item@),
{
    let mut out = write_properties(Ghost(document), revision, id, item, path);
    let located = match write_span(revision, id, item) {
        Some(text) => {
            out.push_str(text.as_str());
            true
        },
        None => {
            assert(out@ + Seq::<char>::empty() =~= out@);
            false
        },
    };
    let (links, references) = write_links(revision, id, item);
    out.push_str(links.as_str());
    (out, references, located)
}

/// Counts one more item.
fn count_item(
    counts: GraphCounts,
    references: usize,
    located: bool,
    documented: bool,
    Ghost(index): Ghost<Map<Seq<char>, JsonTree>>,
    Ghost(ids): Ghost<Seq<Seq<char>>>,
) -> (r: GraphCounts)
    requires
        ids.len() > 0,
        counts@ == items_tally(index, ids.drop_last()),
        index[ids.last()] is Object,
        references == item_references(index[ids.last()]),
        located == has_span(index[ids.last()]),
        documented == is_documented(index[ids.last()]),
        counts.item_count < usize::MAX,
        counts.documented_item_count < usize::MAX,
        counts.source_span_count < usize::MAX,
        counts.reference_count + references <= usize::MAX,
    ensures
        r@ == items_tally(index, ids),
        r.item_count == counts.item_count + 1,
        r.documented_item_count <= counts.documented_item_count + 1,
        r.source_span_count <= counts.source_span_count + 1,
        r.reference_count == counts.reference_count + references,
{
    GraphCounts {
        item_count: counts.item_count + 1,
        documented_item_count: if documented {
            counts.documented_item_count + 1
        } else {
            counts.documented_item_count
        },
        reference_count: counts.reference_count + references,
        source_span_count: if located {
            counts.source_span_count + 1
        } else {
            counts.source_span_count
        },
    }
}

/// Puts the two graphs together behind the prefixes.
fn write_graph(revision: &str, source: &str, docs: &str) -> (r: String)
    ensures
        r@ == "@prefix sdoc: <"@ + SDOC@
            + "> .\n@prefix prov: <http://www.w3.org/ns/prov#> .\n@prefix dct: <http://purl.org/dc/terms/> .\n@prefix rdf: <http://www.w3.org/1999/02/22-rdf-syntax-ns#> .\n@prefix xsd: <http://www.w3.org/2001/XMLSchema#> .\n\n<"@
            + source_graph_iri(revision@) + "> {\n"@ + source@ + "}\n\n<"@ + docs_graph_iri(
            revision@,
        ) + "> {\n"@ + docs@ + "}\n"@,
{
    let segment = iri_segment(revision);
    let source_graph = resource("urn:litho:graph:source:", segment.as_str());
    let docs_graph = resource("urn:litho:graph:documentation:", segment.as_str());
    let mut out = "@prefix sdoc: <".to_owned();
    out.push_str(SDOC);
    out.push_str(
        "> .\n@prefix prov: <http://www.w3.org/ns/prov#> .\n@prefix dct: <http://purl.org/dc/terms/> .\n@prefix rdf: <http://www.w3.org/1999/02/22-rdf-syntax-ns#> .\n@prefix xsd: <http://www.w3.org/2001/XMLSchema#> .\n\n<",
    );
    out.push_str(source_graph.as_str());
    out.push_str("> {\n");
    out.push_str(source);
    out.push_str("}\n\n<");
    out.push_str(docs_graph.as_str());
    out.push_str("> {\n");
    out.push_str(docs);
    out.push_str("}\n");
    out
}

/// What is written when the items with the given ids are done.
spec fn written(
    source: Seq<char>,
    docs: Seq<char>,
    source_head: Seq<char>,
    docs_head: Seq<char>,
    document: JsonTree,
    revision: Seq<char>,
    index: Map<Seq<char>, JsonTree>,
    ids: Seq<Seq<char>>,
) -> bool {
    &&& source == source_head + items_statements(document, revision, index, ids)
    &&& docs == docs_head + items_docs(revision, index, ids)
}

/// What is no item is not counted.
proof fn lemma_not_counted(index: Map<Seq<char>, JsonTree>, ids: Seq<Seq<char>>)
    requires
        ids.len() > 0,
        !(index[ids.last()] is Object),
    ensures
        items_tally(index, ids) == items_tally(index, ids.drop_last()),
{
}

/// One more item is done once its statements are appended.
proof fn lemma_written(
    source: Seq<char>,
    docs: Seq<char>,
    source_head: Seq<char>,
    docs_head: Seq<char>,
    document: JsonTree,
    revision: Seq<char>,
    index: Map<Seq<char>, JsonTree>,
    ids: Seq<Seq<char>>,
)
    requires
        ids.len() > 0,
        written(
            source,
            docs,
            source_head,
            docs_head,
            document,
            revision,
            index,
            ids.drop_last(),
        ),
    ensures
        index[ids.last()] is Object ==> written(
            source + item_statements(document, revision, ids.last(), index[ids.last()]),
            docs + docs_statements(revision, ids.last(), index[ids.last()]),
            source_head,
            docs_head,
            document,
            revision,
            index,
            ids,
        ),
        !(index[ids.last()] is Object) ==> written(
            source,
            docs,
            source_head,
            docs_head,
            document,
            revision,
            index,
            ids,
        ),
{
    text::lemma_join_associative(
        source_head,
        items_statements(document, revision, index, ids.drop_last()),
        item_statements(document, revision, ids.last(), index[ids.last()]),
    );
    text::lemma_join_associative(
        docs_head,
        items_docs(revision, index, ids.drop_last()),
        docs_statements(revision, ids.last(), index[ids.last()]),
    );
}

/// Compiles a Rustdoc JSON document into the graph of a revision. Gives the graph in TriG, the
/// format version of the document and the counts, or says what the document lacks.
#[verifier::rlimit(50)]
pub fn compile_rustdoc_value(root: &Json, repository: &str, revision: &str) -> (r: Result<
    (String, u64, GraphCounts),
    CompileError,
>)
    ensures
        match r {
            Ok((trig, format_version, counts)) => {
                &&& format_version_of(root@) == Some(format_version)
                &&& index_of(root@) is Some
                &&& trig@ == graph_text(root@, repository@, revision@)
                &&& counts@ == document_tally(root@)
            },
            Err(CompileError::MissingFormatVersion) => format_version_of(root@) is None,
            Err(CompileError::MissingIndex) => format_version_of(root@) is Some && index_of(
                root@,
            ) is None,
        },
{
    let format_version: u64 = match root.get("format_version") {
        Some(value) => match value.as_u64() {
            Some(n) => n,
            None => return Err(CompileError::MissingFormatVersion),
        },
        None => return Err(CompileError::MissingFormatVersion),
    };
    let entries = match root.get("index") {
        Some(Json::Object(entries)) => entries,
        _ => return Err(CompileError::MissingIndex),
    };
    let path_entries = match root.get("paths") {
        Some(Json::Object(entries)) => Some(entries),
        _ => None,
    };
    let path_positions = match path_entries {
        Some(entries) => ordered_positions(entries),
        None => Vec::new(),
    };

    let mut source = write_revision(repository, revision);
    source.push_str(write_dataset(repository, revision, format_version).as_str());
    source.push_str(write_root(root, revision).as_str());
    let ghost source_head = source@;
    let mut docs =
        "  sdoc:RustdocMarkdown a sdoc:DocumentationKind ; sdoc:grantsDoAuthority false .\n".to_owned();
    let ghost docs_head = docs@;
    let mut counts = GraphCounts::default();

    let positions = ordered_positions(entries);
    let ghost index = json::map_of(entries@);
    let ghost ids = order::names_at(entries@, positions@);
    proof {
        json::lemma_ordered_names(entries@, positions@);
        assert(ids.take(0) =~= seq![]);
        assert(source_head + Seq::<char>::empty() =~= source_head);
        assert(docs_head + Seq::<char>::empty() =~= docs_head);
    }
    let mut i: usize = 0;
    while i < positions.len()
        invariant
            i <= positions@.len(),
            order::ordered_within(entries@, 0, entries@.len() as int, positions@),
            index == json::map_of(entries@),
            ids == order::names_at(entries@, positions@),
            match path_entries {
                Some(entries) => {
                    &&& root@.member("paths"@) == Some(JsonTree::Object(json::map_of(entries@)))
                    &&& order::ordered_within(
                        entries@,
                        0,
                        entries@.len() as int,
                        path_positions@,
                    )
                },
                None => !(root@.member("paths"@) matches Some(JsonTree::Object(_))),
            },
            written(
                source@,
                docs@,
                source_head,
                docs_head,
                root@,
                revision@,
                index,
                ids.take(i as int),
            ),
            counts@ == items_tally(index, ids.take(i as int)),
            counts.item_count <= i,
            counts.documented_item_count <= i,
            counts.source_span_count <= i,
            counts.reference_count <= source@.len(),
        decreases positions.len() - i,
    {
        let p: usize = positions[i];
        let id = entries[p].0.as_str();
        let item = &entries[p].1;
        proof {
            json::lemma_map_of(entries@);
            assert(ids.take(i + 1).drop_last() =~= ids.take(i as int));
            assert(ids[i as int] == entries@[p as int].0@);
            assert(order::last_of_name(entries@, p as int, entries@.len() as int));
            assert(index[entries@[p as int].0@] == entries@[p as int].1@);
            lemma_written(
                source@,
                docs@,
                source_head,
                docs_head,
                root@,
                revision@,
                index,
                ids.take(i + 1),
            );
        }
        if let Json::Object(_) = item {
            let paths = match path_entries {
                Some(entries) => Some((entries, &path_positions)),
                None => None,
            };
            let path = qualified_path(Ghost(root@), paths, id);
            let (statements, references, located) = write_item(
                Ghost(root@),
                revision,
                id,
                item,
                path,
            );
            source.push_str(statements.as_str());
            fits_usize(&source);
            let documented = match write_docs(revision, id, item) {
                Some(text) => {
                    docs.push_str(text.as_str());
                    true
                },
                None => {
                    proof {
                        text::lemma_join_nothing(docs@);
                    }
                    false
                },
            };
            counts = count_item(
                counts,
                references,
                located,
                documented,
                Ghost(index),
                Ghost(ids.take(i + 1)),
            );
        } else {
            proof {
                lemma_not_counted(index, ids.take(i + 1));
            }
        }
        i += 1;
    }
    assert(ids.take(i as int) =~= ids);
    let trig = write_graph(revision, source.as_str(), docs.as_str());
    Ok((trig, format_version, counts))
}

/// A document has a graph exactly where its format version is an unsigned number of 64 bits and
/// its index an object; the version is looked at first.
pub proof fn law_what_has_a_graph(document: JsonTree, repository: Seq<char>, revision: Seq<char>)
    ensures
        ({
            let version = document.member("format_version"@);
            let index = document.member("index"@);
            let versioned = version is Some && version->0 is Int && 0 <= version->0->Int_0
                <= u64::MAX;
            let indexed = index is Some && index->0 is Object;
            match compiled(document, repository, revision) {
                Err(CompileError::MissingFormatVersion) => !versioned,
                Err(CompileError::MissingIndex) => versioned && !indexed,
                Ok((trig, number, tally)) => {
                    &&& versioned
                    &&& indexed
                    &&& number == version->0->Int_0
                    &&& trig == graph_text(document, repository, revision)
                    &&& tally == document_tally(document)
                },
            }
        }),
{
    reveal(compiled);
}

/// The revision, the dataset and the two graphs are named by the revision, each behind a prefix of
/// its own.
pub proof fn law_resources_name_the_revision(revision: Seq<char>)
    requires
        revision.len() > 0,
    ensures
        iri::names(revision_iri(revision), "urn:litho:revision:"@, revision),
        iri::names(dataset_iri(revision), "urn:litho:semantic-documentation:"@, revision),
        iri::names(source_graph_iri(revision), "urn:litho:graph:source:"@, revision),
        iri::names(docs_graph_iri(revision), "urn:litho:graph:documentation:"@, revision),
{
    iri::lemma_names("urn:litho:revision:"@, revision);
    iri::lemma_names("urn:litho:semantic-documentation:"@, revision);
    iri::lemma_names("urn:litho:graph:source:"@, revision);
    iri::lemma_names("urn:litho:graph:documentation:"@, revision);
}

/// Counts say what their fields hold, each under its own name.
pub proof fn law_counts_say_their_fields(counts: GraphCounts)
    ensures
        counts@.items == counts.item_count,
        counts@.documented == counts.documented_item_count,
        counts@.references == counts.reference_count,
        counts@.spans == counts.source_span_count,
{
}

/// The file of a span is the string that it names; one that names none has an empty file.
pub proof fn law_span_file(span: JsonTree, file: Seq<char>)
    ensures
        span.member("filename"@) == Some(JsonTree::Text(file)) ==> span_file(span) == file,
        !(span.member("filename"@) matches Some(JsonTree::Text(_))) ==> span_file(span).len() == 0,
{
    reveal_strlit("");
}

} // verus!

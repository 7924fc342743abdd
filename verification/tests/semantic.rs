use litho::graph::{compile_rustdoc_value, CompileError, GraphCounts};
use litho::iri::{iri_segment, item_iri};
use litho::json::Json;
use litho::literal::literal;

fn text(s: &str) -> Json {
    Json::Text(s.to_string())
}

fn numbers(items: &[u64]) -> Json {
    Json::Array(items.iter().map(|n| Json::Unsigned(*n)).collect())
}

fn object(entries: Vec<(&str, Json)>) -> Json {
    Json::Object(
        entries
            .into_iter()
            .map(|(name, value)| (name.to_string(), value))
            .collect(),
    )
}

fn fixture() -> Json {
    object(vec![
        ("root", Json::Unsigned(1)),
        ("format_version", Json::Unsigned(61)),
        ("includes_private", Json::Bool(false)),
        (
            "index",
            object(vec![
                (
                    "2",
                    object(vec![
                        ("name", text("run")),
                        ("visibility", text("public")),
                        ("docs", text("Run \"semantic\" docs.\nNo DO authority.")),
                        (
                            "span",
                            object(vec![
                                ("filename", text("src/lib.rs")),
                                ("begin", numbers(&[8, 1])),
                                ("end", numbers(&[11, 2])),
                            ]),
                        ),
                        ("inner", object(vec![("function", object(vec![]))])),
                        ("links", object(vec![])),
                    ]),
                ),
                (
                    "1",
                    object(vec![
                        ("name", text("demo")),
                        ("visibility", text("public")),
                        ("docs", text("Crate docs")),
                        (
                            "span",
                            object(vec![
                                ("filename", text("src/lib.rs")),
                                ("begin", numbers(&[1, 1])),
                                ("end", numbers(&[3, 1])),
                            ]),
                        ),
                        ("inner", object(vec![("module", object(vec![]))])),
                        ("links", object(vec![("run", Json::Unsigned(2))])),
                    ]),
                ),
            ]),
        ),
        (
            "paths",
            object(vec![
                (
                    "1",
                    object(vec![
                        ("path", Json::Array(vec![text("demo")])),
                        ("kind", text("module")),
                        ("crate_id", Json::Unsigned(0)),
                    ]),
                ),
                (
                    "2",
                    object(vec![
                        ("path", Json::Array(vec![text("demo"), text("run")])),
                        ("kind", text("function")),
                        ("crate_id", Json::Unsigned(0)),
                    ]),
                ),
            ]),
        ),
    ])
}

#[test]
fn semantic_graph_is_deterministic_and_preserves_evidence() {
    let (a, version_a, counts_a) = compile_rustdoc_value(&fixture(), "acme/demo", "abc123")
        .expect("fixture should compile");
    let (b, version_b, counts_b) = compile_rustdoc_value(&fixture(), "acme/demo", "abc123")
        .expect("fixture should compile twice");

    assert_eq!(a, b);
    assert_eq!(version_a, 61);
    assert_eq!(version_a, version_b);
    assert_eq!(counts_a, counts_b);
    assert_eq!(counts_a.item_count, 2);
    assert_eq!(counts_a.documented_item_count, 2);
    assert_eq!(counts_a.reference_count, 1);
    assert_eq!(counts_a.source_span_count, 2);
    assert!(a.contains("@prefix sdoc: <https://ggen.dev/ontology/semantic-documentation#>"));
    assert!(a.contains("sdoc:SemanticDocumentationDataset"));
    assert!(a.contains("sdoc:SourceEvidence"));
    assert!(a.contains("sdoc:DocumentationEvidence"));
    assert!(a.contains("demo::run"));
    assert!(a.contains("Run \\\"semantic\\\" docs.\\nNo DO authority."));
    assert!(a.contains("sdoc:startLine 8"));
    assert!(a.contains("sdoc:references <urn:litho:item:abc123:2>"));
    assert!(a.contains("sdoc:grantsDoAuthority false"));
    assert!(!a.contains("prov:wasGeneratedBy"));
}

#[test]
fn malformed_rustdoc_json_is_refused() {
    let err = compile_rustdoc_value(
        &object(vec![("index", object(vec![]))]),
        "acme/demo",
        "abc123",
    )
    .expect_err("missing format version must refuse");
    assert!(err.message().contains("format_version"));
    assert_eq!(err, CompileError::MissingFormatVersion);
}

#[test]
fn iri_segments_are_safe_and_stable() {
    assert_eq!(iri_segment("a/b c"), "a%2Fb%20c");
    assert_eq!(iri_segment(""), "UNKNOWN");
}

#[test]
fn segments_keep_unreserved_bytes_and_escape_the_others() {
    assert_eq!(iri_segment("Az09-_."), "Az09-_.");
    assert_eq!(iri_segment("%"), "%25");
    assert_eq!(iri_segment("é<>\u{7f}\n"), "%C3%A9%3C%3E%7F%0A");
    assert_eq!(iri_segment("UNKNOWN"), "UNKNOWN");
    assert_eq!(iri_segment("a/é"), iri_segment("a/") + &iri_segment("é"));
    for c in ('\u{0}'..='\u{7f}').filter(|c| !c.is_ascii_alphanumeric()) {
        let s = c.to_string();
        let expected = if matches!(c, '-' | '_' | '.') {
            s.clone()
        } else {
            format!("%{:02X}", s.as_bytes()[0])
        };
        assert_eq!(iri_segment(&s), expected);
    }
}

#[test]
fn different_items_have_different_iris() {
    assert_eq!(item_iri("abc123", "2"), "urn:litho:item:abc123:2");
    assert_eq!(item_iri("a:b", "c"), "urn:litho:item:a%3Ab:c");
    assert_eq!(item_iri("a", "b:c"), "urn:litho:item:a:b%3Ac");
    assert_eq!(item_iri("", ""), "urn:litho:item:UNKNOWN:UNKNOWN");
}

#[test]
fn literals_escape_what_would_end_them() {
    assert_eq!(literal(""), "\"\"");
    assert_eq!(literal("plain"), "\"plain\"");
    assert_eq!(
        literal("a\\b\"c\nd\re\tf"),
        "\"a\\\\b\\\"c\\nd\\re\\tf\""
    );
    assert_eq!(literal("x\u{0}y\u{7f}z\u{9f}"), "\"x y z \"");
    assert_eq!(literal("ünïcode \u{1F980}"), "\"ünïcode \u{1F980}\"");
}

#[test]
fn literals_blank_exactly_the_control_characters() {
    for c in '\u{0}'..=char::MAX {
        let s = c.to_string();
        let expected = match c {
            '\\' => "\"\\\\\"".to_string(),
            '"' => "\"\\\"\"".to_string(),
            '\n' => "\"\\n\"".to_string(),
            '\r' => "\"\\r\"".to_string(),
            '\t' => "\"\\t\"".to_string(),
            c if c.is_control() => "\" \"".to_string(),
            c => format!("\"{}\"", c),
        };
        assert_eq!(literal(&s), expected);
    }
}

#[test]
fn a_document_without_index_is_refused() {
    let err = compile_rustdoc_value(
        &object(vec![("format_version", Json::Unsigned(61)), ("index", Json::Null)]),
        "acme/demo",
        "abc123",
    )
    .expect_err("missing index must refuse");
    assert_eq!(err, CompileError::MissingIndex);
    assert_eq!(err.message(), "Rustdoc JSON missing index object");
}

#[test]
fn a_format_version_is_an_unsigned_number() {
    for version in [Json::Signed(-1), text("61"), Json::Null, Json::Bool(true)] {
        let err = compile_rustdoc_value(
            &object(vec![("format_version", version), ("index", object(vec![]))]),
            "r",
            "v",
        )
        .expect_err("must refuse");
        assert_eq!(err, CompileError::MissingFormatVersion);
    }
    assert!(compile_rustdoc_value(&text("no object"), "r", "v").is_err());
}

#[test]
fn the_graph_of_an_empty_document_is_exact() {
    let (trig, version, counts) = compile_rustdoc_value(
        &object(vec![
            ("format_version", Json::Unsigned(7)),
            ("index", object(vec![])),
        ]),
        "acme/\"demo\"",
        "v 1",
    )
    .expect("should compile");
    assert_eq!(version, 7);
    assert_eq!(counts, GraphCounts::default());
    assert_eq!(
        trig,
        concat_lines(&[
            "@prefix sdoc: <https://ggen.dev/ontology/semantic-documentation#> .",
            "@prefix prov: <http://www.w3.org/ns/prov#> .",
            "@prefix dct: <http://purl.org/dc/terms/> .",
            "@prefix rdf: <http://www.w3.org/1999/02/22-rdf-syntax-ns#> .",
            "@prefix xsd: <http://www.w3.org/2001/XMLSchema#> .",
            "",
            "<urn:litho:graph:source:v%201> {",
            "  <urn:litho:revision:v%201> a sdoc:RevisionBoundSubject, prov:Entity ;",
            "    sdoc:repository \"acme/\\\"demo\\\"\" ;",
            "    sdoc:revision \"v 1\" ;",
            "    sdoc:grantsDoAuthority false .",
            "",
            "  <urn:litho:semantic-documentation:v%201> a sdoc:SemanticDocumentationDataset, prov:Entity ;",
            "    sdoc:repository \"acme/\\\"demo\\\"\" ;",
            "    sdoc:revision \"v 1\" ;",
            "    sdoc:sourceGraph \"urn:litho:graph:source:v%201\" ;",
            "    sdoc:documentationGraph \"urn:litho:graph:documentation:v%201\" ;",
            "    sdoc:extractor \"rustdoc-json\" ;",
            "    sdoc:rustdocFormatVersion 7 ;",
            "    sdoc:standing \"PARTIAL_ALIVE\" ;",
            "    prov:wasDerivedFrom <urn:litho:revision:v%201> ;",
            "    sdoc:grantsDoAuthority false .",
            "}",
            "",
            "<urn:litho:graph:documentation:v%201> {",
            "  sdoc:RustdocMarkdown a sdoc:DocumentationKind ; sdoc:grantsDoAuthority false .",
            "}",
        ])
    );
}

fn concat_lines(lines: &[&str]) -> String {
    lines.iter().map(|line| format!("{}\n", line)).collect()
}

#[test]
fn the_statements_of_an_item_are_exact() {
    let (trig, _, counts) =
        compile_rustdoc_value(&fixture(), "acme/demo", "abc123").expect("should compile");
    let item = concat_lines(&[
        "  <urn:litho:semantic-documentation:abc123> sdoc:rootItem <urn:litho:item:abc123:1> .",
        "  <urn:litho:item:abc123:1> a sdoc:RustItem, sdoc:SourceEvidence, prov:Entity ;",
        "    sdoc:localId \"1\" ;",
        "    sdoc:itemKind \"module\" ;",
        "    sdoc:visibility \"public\" ;",
        "    dct:source \"rustdoc-json:item:1\" ;",
        "    prov:wasDerivedFrom <urn:litho:revision:abc123> ;",
        "    sdoc:name \"demo\" ;",
        "    sdoc:fullyQualifiedPath \"demo\" ;",
        "    sdoc:grantsDoAuthority false .",
        "  <urn:litho:semantic-documentation:abc123> sdoc:hasEvidence <urn:litho:item:abc123:1> .",
        "  <urn:litho:item:abc123:1/span> a sdoc:SourceSpan, prov:Entity ;",
        "    sdoc:sourceFile \"src/lib.rs\" ;",
        "    sdoc:startLine 1 ;",
        "    sdoc:startColumn 1 ;",
        "    sdoc:endLine 3 ;",
        "    sdoc:endColumn 1 ;",
        "    sdoc:grantsDoAuthority false .",
        "  <urn:litho:item:abc123:1> sdoc:definedAt <urn:litho:item:abc123:1/span> .",
        "  <urn:litho:item:abc123:1> sdoc:references <urn:litho:item:abc123:2> .",
        "  <urn:litho:item:abc123:1/link/run> a sdoc:DocumentationReference, prov:Entity ; sdoc:from <urn:litho:item:abc123:1> ; sdoc:to <urn:litho:item:abc123:2> ; sdoc:linkLabel \"run\" ; sdoc:grantsDoAuthority false .",
        "  <urn:litho:item:abc123:2> a sdoc:RustItem, sdoc:SourceEvidence, prov:Entity ;",
    ]);
    assert!(trig.contains(&item));
    let docs = concat_lines(&[
        "  <urn:litho:item:abc123:1/doc> a sdoc:DocFragment, sdoc:DocumentationEvidence, prov:Entity ;",
        "    sdoc:documents <urn:litho:item:abc123:1> ;",
        "    sdoc:documentationKind sdoc:RustdocMarkdown ;",
        "    rdf:value \"Crate docs\" ;",
        "    prov:wasDerivedFrom <urn:litho:item:abc123:1> ;",
        "    sdoc:grantsDoAuthority false .",
        "  <urn:litho:semantic-documentation:abc123> sdoc:hasEvidence <urn:litho:item:abc123:1/doc> .",
        "  <urn:litho:item:abc123:2/doc> a sdoc:DocFragment, sdoc:DocumentationEvidence, prov:Entity ;",
    ]);
    assert!(trig.contains(&docs));
    assert_eq!(
        counts,
        GraphCounts {
            item_count: 2,
            documented_item_count: 2,
            reference_count: 1,
            source_span_count: 2,
        }
    );
}

#[test]
fn an_item_without_properties_has_defaults() {
    let (trig, _, counts) = compile_rustdoc_value(
        &object(vec![
            ("format_version", Json::Unsigned(1)),
            ("root", Json::Null),
            (
                "index",
                object(vec![
                    ("x", object(vec![("span", object(vec![]))])),
                    ("skipped", text("no item")),
                ]),
            ),
        ]),
        "r",
        "v",
    )
    .expect("should compile");
    assert!(trig.contains("    sdoc:itemKind \"unknown\" ;\n    sdoc:visibility \"unknown\" ;\n"));
    assert!(trig.contains(
        "    sdoc:sourceFile \"\" ;\n    sdoc:startLine 0 ;\n    sdoc:startColumn 0 ;\n    sdoc:endLine 0 ;\n    sdoc:endColumn 0 ;\n"
    ));
    assert!(!trig.contains("sdoc:rootItem"));
    assert!(!trig.contains("sdoc:name "));
    assert!(!trig.contains("sdoc:fullyQualifiedPath"));
    assert!(!trig.contains("skipped"));
    assert_eq!(counts.item_count, 1);
    assert_eq!(counts.documented_item_count, 0);
    assert_eq!(counts.reference_count, 0);
    assert_eq!(counts.source_span_count, 1);
}

#[test]
fn links_come_in_the_order_of_their_labels_and_need_a_target() {
    let (trig, _, counts) = compile_rustdoc_value(
        &object(vec![
            ("format_version", Json::Unsigned(1)),
            (
                "index",
                object(vec![(
                    "x",
                    object(vec![(
                        "links",
                        object(vec![
                            ("b", text("y")),
                            ("a", Json::Signed(-3)),
                            ("c", Json::Null),
                            ("d", Json::Bool(true)),
                            ("e", text("")),
                        ]),
                    )]),
                )]),
            ),
        ]),
        "r",
        "v",
    )
    .expect("should compile");
    let targets: Vec<&str> = trig
        .lines()
        .filter_map(|line| line.strip_prefix("  <urn:litho:item:v:x> sdoc:references <"))
        .collect();
    assert_eq!(
        targets,
        vec![
            "urn:litho:item:v:-3> .",
            "urn:litho:item:v:y> .",
            "urn:litho:item:v:true> ."
        ]
    );
    assert_eq!(counts.reference_count, 3);
}

#[test]
fn the_order_of_members_does_not_matter_and_the_last_of_a_name_counts() {
    let item = |name: &str| object(vec![("name", text(name))]);
    let document = |index: Json| {
        object(vec![("index", index), ("format_version", Json::Unsigned(1))])
    };
    let (a, _, _) = compile_rustdoc_value(
        &document(object(vec![("10", item("p")), ("2", item("q")), ("é", item("r"))])),
        "r",
        "v",
    )
    .expect("should compile");
    let (b, _, _) = compile_rustdoc_value(
        &document(object(vec![("é", item("r")), ("2", item("q")), ("10", item("p"))])),
        "r",
        "v",
    )
    .expect("should compile");
    let (c, _, counts) = compile_rustdoc_value(
        &document(object(vec![
            ("2", item("other")),
            ("é", item("r")),
            ("2", item("q")),
            ("10", item("p")),
        ])),
        "r",
        "v",
    )
    .expect("should compile");
    assert_eq!(a, b);
    assert_eq!(a, c);
    assert_eq!(counts.item_count, 3);
    let first = a.find("sdoc:localId \"10\"").expect("10");
    let second = a.find("sdoc:localId \"2\"").expect("2");
    let third = a.find("sdoc:localId \"é\"").expect("é");
    assert!(first < second && second < third);
}

#[test]
fn the_order_of_links_and_paths_does_not_matter() {
    let document = |links: Vec<(&str, Json)>, paths: Vec<(&str, Json)>| {
        object(vec![
            ("format_version", Json::Unsigned(1)),
            ("index", object(vec![("x", object(vec![("links", object(links))]))])),
            ("paths", object(paths)),
        ])
    };
    let path = |name: &str| object(vec![("path", Json::Array(vec![text(name)]))]);
    let (a, _, _) = compile_rustdoc_value(
        &document(
            vec![("m", text("1")), ("n", text("2"))],
            vec![("x", path("p")), ("y", path("q"))],
        ),
        "r",
        "v",
    )
    .expect("should compile");
    let (b, _, _) = compile_rustdoc_value(
        &document(
            vec![("n", text("2")), ("m", text("1"))],
            vec![("y", path("q")), ("x", path("p"))],
        ),
        "r",
        "v",
    )
    .expect("should compile");
    assert_eq!(a, b);
    assert!(a.contains("sdoc:fullyQualifiedPath \"p\" ;"));
}

#[test]
fn documentation_stays_in_its_graph() {
    let document = |docs: Json| {
        object(vec![
            ("format_version", Json::Unsigned(1)),
            ("index", object(vec![("x", object(vec![("name", text("n")), ("docs", docs)]))])),
        ])
    };
    let source = |docs: Json| {
        let (trig, _, _) =
            compile_rustdoc_value(&document(docs), "r", "v").expect("should compile");
        let end = trig.find("<urn:litho:graph:documentation:v> {").expect("second graph");
        trig[..end].to_string()
    };
    assert_eq!(source(text("one")), source(text("another")));
    assert_eq!(source(text("one")), source(Json::Null));
    assert!(!source(text("secret")).contains("secret"));
}

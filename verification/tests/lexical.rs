use litho::graph::compile_rustdoc_value;
use litho::json::Json;

fn text(s: &str) -> Json {
    Json::Text(s.to_string())
}

fn object(entries: Vec<(&str, Json)>) -> Json {
    Json::Object(
        entries
            .into_iter()
            .map(|(name, value)| (name.to_string(), value))
            .collect(),
    )
}

const HOSTILE: &str = "\" . <urn:x> sdoc:grantsDoAuthority true ; prov:wasGeneratedBy <urn:y> .\n\\";

fn hostile_graph() -> String {
    let item = object(vec![
        ("name", text(HOSTILE)),
        ("visibility", text(HOSTILE)),
        ("docs", text(HOSTILE)),
        ("inner", object(vec![(HOSTILE, Json::Null)])),
        (
            "span",
            object(vec![
                ("filename", text(HOSTILE)),
                ("begin", Json::Array(vec![Json::Unsigned(u64::MAX), Json::Unsigned(0)])),
            ]),
        ),
        (
            "links",
            object(vec![(HOSTILE, text(HOSTILE)), ("other", Json::Bool(true))]),
        ),
    ]);
    let path = object(vec![("path", Json::Array(vec![text(HOSTILE), text("b")]))]);
    let document = object(vec![
        ("format_version", Json::Unsigned(1)),
        ("root", text(HOSTILE)),
        ("index", object(vec![(HOSTILE, item)])),
        ("paths", object(vec![(HOSTILE, path)])),
    ]);
    let (trig, _, counts) =
        compile_rustdoc_value(&document, HOSTILE, HOSTILE).expect("should compile");
    assert_eq!(counts.item_count, 1);
    assert_eq!(counts.reference_count, 2);
    trig
}

#[derive(Debug, Clone, Copy, PartialEq)]
enum Where {
    Outside,
    Iri,
    Literal,
    Escape,
}

/// What stands outside of IRIs and literals, and where the text ends.
fn outside(trig: &str) -> (String, Where) {
    let mut place = Where::Outside;
    let mut out = String::new();
    for c in trig.chars() {
        if place == Where::Outside {
            out.push(c);
        }
        place = match (place, c) {
            (Where::Outside, '<') => Where::Iri,
            (Where::Outside, '"') => Where::Literal,
            (Where::Iri, '>') => Where::Outside,
            (Where::Iri, c) => {
                assert!(c > ' ' && !"<\"{}|^`\\".contains(c));
                Where::Iri
            }
            (Where::Literal, '"') => Where::Outside,
            (Where::Literal, '\\') => Where::Escape,
            (Where::Literal, c) => {
                assert!(c != '\n' && c != '\r');
                Where::Literal
            }
            (Where::Escape, c) => {
                assert!("\\\"nrt".contains(c));
                Where::Literal
            }
            (place, _) => place,
        };
    }
    (out, place)
}

#[test]
fn hostile_values_stay_inside() {
    let (claims, end) = outside(&hostile_graph());
    assert_eq!(end, Where::Outside);
    assert!(!claims.contains("true"));
    assert!(!claims.contains("wasGeneratedBy"));
    assert!(!claims.contains("urn:"));
}

#[test]
fn every_subject_is_denied_authority() {
    let (claims, _) = outside(&hostile_graph());
    // The revision, the dataset, the item, its place, two links, the documentation kind and the
    // documentation fragment.
    assert_eq!(claims.matches("sdoc:grantsDoAuthority false").count(), 8);
    assert_eq!(claims.matches("sdoc:grantsDoAuthority").count(), 8);
}

#[test]
fn links_are_kept_with_their_labels() {
    let trig = hostile_graph();
    assert!(trig.contains("sdoc:linkLabel \"other\" ;"));
    assert!(trig.contains(":true> .\n"));
    assert!(trig.contains("sdoc:startLine 18446744073709551615 ;\n    sdoc:startColumn 0 ;\n"));
}

use litho::document::{parse_document, print_document};
use litho::graph::compile_rustdoc_value;
use litho::json::Json;
use litho::order::{find_ordered, ordered_positions};
use litho::rustdoc::{canonical_value, coordinate, item_kind, item_visibility, scalar_string};
use litho::text::{is_blank, precedence, push_decimal, push_decimal_int, Precedence};

fn parsed(text: &str) -> Json {
    parse_document(text).expect("should parse")
}

#[test]
fn documents_are_parsed_and_printed_compactly() {
    let text = " { \"b\" : [ 1 , -2 , 3.50 , 1e3 , true , null ] , \"a\" : { } , \"c\" : \"q\\\"\\n\" } ";
    assert_eq!(
        print_document(&parsed(text)).expect("should print"),
        "{\"a\":{},\"b\":[1,-2,3.5,1000.0,true,null],\"c\":\"q\\\"\\n\"}"
    );
    assert_eq!(
        print_document(&parsed("18446744073709551615")).expect("should print"),
        "18446744073709551615"
    );
    assert_eq!(
        print_document(&parsed("-9223372036854775808")).expect("should print"),
        "-9223372036854775808"
    );
}

#[test]
fn what_is_no_json_is_refused() {
    let reason = |text: &str| match parse_document(text) {
        Ok(_) => panic!("should not parse"),
        Err(reason) => reason,
    };
    assert_eq!(reason(""), "EOF while parsing a value at line 1 column 0");
    assert_eq!(reason("{\"a\":1,}"), "trailing comma at line 1 column 8");
    assert_eq!(reason("{}\n x"), "trailing characters at line 2 column 2");
}

#[test]
fn the_last_member_of_a_name_counts() {
    let value = parsed("{\"a\":1,\"b\":2,\"a\":3}");
    assert_eq!(value.get("a").and_then(|v| v.as_u64()), Some(3));
    let written = Json::Object(vec![
        ("b".to_string(), Json::Unsigned(2)),
        ("a".to_string(), Json::Unsigned(1)),
        ("b".to_string(), Json::Text("x".to_string())),
    ]);
    assert_eq!(
        print_document(&written).expect("should print"),
        "{\"a\":1,\"b\":\"x\"}"
    );
}

#[test]
fn members_are_read_by_kind() {
    let value = parsed("{\"n\":5,\"neg\":-5,\"f\":5.0,\"s\":\"t\",\"l\":[1],\"o\":{\"k\":null}}");
    assert_eq!(value.get("n").and_then(|v| v.as_u64()), Some(5));
    assert_eq!(value.get("neg").and_then(|v| v.as_u64()), None);
    assert_eq!(value.get("f").and_then(|v| v.as_u64()), None);
    assert_eq!(value.get("s").and_then(|v| v.as_str()), Some("t"));
    assert!(matches!(value.get("l"), Some(Json::Array(items)) if items.len() == 1));
    assert!(matches!(value.get("o"), Some(Json::Object(entries)) if entries.len() == 1));
    assert!(value.get("o").and_then(|v| v.get("k")).is_some());
    assert!(value.get("missing").is_none());
    assert!(value.get("s").and_then(|v| v.get("n")).is_none());
    assert!(value.get("n").and_then(|v| v.as_str()).is_none());
    assert_eq!(Json::Signed(7).as_u64(), Some(7));
    assert_eq!(Json::Signed(-7).as_u64(), None);
}

#[test]
fn scalars_become_text() {
    assert_eq!(scalar_string(&parsed("\"s\"")), "s");
    assert_eq!(scalar_string(&parsed("0")), "0");
    assert_eq!(scalar_string(&parsed("-12")), "-12");
    assert_eq!(scalar_string(&parsed("2.50")), "2.5");
    assert_eq!(scalar_string(&parsed("true")), "true");
    assert_eq!(scalar_string(&parsed("false")), "false");
    assert_eq!(scalar_string(&parsed("null")), "");
    assert_eq!(scalar_string(&parsed("[1]")), "");
    assert_eq!(scalar_string(&parsed("{}")), "");
}

#[test]
fn values_have_a_canonical_text() {
    assert_eq!(canonical_value(&parsed("\"public\"")), "public");
    assert_eq!(
        canonical_value(&parsed("{\"restricted\": {\"path\": \"::a\", \"parent\": 7}}")),
        "{\"restricted\":{\"parent\":7,\"path\":\"::a\"}}"
    );
    assert_eq!(canonical_value(&parsed("null")), "null");
    assert_eq!(canonical_value(&parsed("0.1")), "0.1");
}

#[test]
fn source_positions_are_read_leniently() {
    assert_eq!(coordinate(None), (0, 0));
    assert_eq!(coordinate(Some(&parsed("7"))), (0, 0));
    assert_eq!(coordinate(Some(&parsed("[8,1]"))), (8, 1));
    assert_eq!(coordinate(Some(&parsed("[8]"))), (8, 0));
    assert_eq!(coordinate(Some(&parsed("[\"x\",3,9]"))), (0, 3));
    assert_eq!(coordinate(Some(&parsed("[]"))), (0, 0));
}

#[test]
fn the_kind_is_the_first_name_inside() {
    assert_eq!(item_kind(&parsed("{\"inner\":{\"struct\":1,\"enum\":2}}")), "enum");
    assert_eq!(item_kind(&parsed("{\"inner\":{}}")), "unknown");
    assert_eq!(item_kind(&parsed("{\"inner\":\"function\"}")), "unknown");
    assert_eq!(item_kind(&parsed("{}")), "unknown");
    assert_eq!(item_visibility(&parsed("{}")), "unknown");
    assert_eq!(item_visibility(&parsed("{\"visibility\":\"crate\"}")), "crate");
}

#[test]
fn a_parsed_document_compiles() {
    let value = parsed(
        "{\"format_version\":45,\"root\":\"0:1\",\"index\":{\"0:1\":{\"links\":{\"f\":0.0,\"g\":-0,\"h\":[]},\"visibility\":{\"restricted\":{\"parent\":1.5}}}},\"paths\":{\"0:1\":{\"path\":[\"a\",3,\"b\"]},\"x\":{\"path\":[]}}}",
    );
    let (trig, version, counts) =
        compile_rustdoc_value(&value, "r", "v").expect("should compile");
    assert_eq!(version, 45);
    assert_eq!(counts.item_count, 1);
    assert_eq!(counts.reference_count, 2);
    assert!(trig.contains("sdoc:references <urn:litho:item:v:0.0> ."));
    assert!(trig.contains("sdoc:references <urn:litho:item:v:-0.0> ."));
    assert!(trig.contains("sdoc:rootItem <urn:litho:item:v:0%3A1> .\n"));
    assert!(trig.contains("sdoc:visibility \"{\\\"restricted\\\":{\\\"parent\\\":1.5}}\" ;\n"));
    assert!(trig.contains("sdoc:fullyQualifiedPath \"a::b\" ;\n"));
}

#[test]
fn numbers_are_printed_in_decimal() {
    for n in [0, 7, 9, 10, 11, 99, 100, 1234567890, u64::MAX] {
        let mut out = String::from("n=");
        push_decimal(&mut out, n);
        assert_eq!(out, format!("n={}", n));
    }
    for n in [i64::MIN, -10, -1, 0, 1, i64::MAX] {
        let mut out = String::new();
        push_decimal_int(&mut out, n);
        assert_eq!(out, format!("{}", n));
    }
}

#[test]
fn blank_is_what_trims_to_nothing() {
    assert!(is_blank(""));
    assert!(is_blank(" \t\n\u{3000}"));
    assert!(!is_blank(" a "));
    for c in '\u{0}'..=char::MAX {
        let s = c.to_string();
        assert_eq!(is_blank(&s), s.trim().is_empty());
    }
}

#[test]
fn strings_are_ordered_as_their_bytes() {
    let words = ["", "a", "aa", "ab", "b", "10", "2", "é", "z", "\u{ffff}", "\u{10000}", "A"];
    for a in words {
        for b in words {
            let expected = if a < b {
                Precedence::Before
            } else if a == b {
                Precedence::Same
            } else {
                Precedence::After
            };
            assert_eq!(precedence(a, b), expected);
        }
    }
}

#[test]
fn entries_are_ordered_by_name() {
    let entries: Vec<(String, u8)> = ["c", "a", "b", "a", "d", "c"]
        .iter()
        .map(|s| (s.to_string(), 0))
        .collect();
    let positions = ordered_positions(&entries);
    assert_eq!(positions, vec![3, 2, 5, 4]);
    assert_eq!(find_ordered(&entries, &positions, "a"), Some(3));
    assert_eq!(find_ordered(&entries, &positions, "c"), Some(5));
    assert_eq!(find_ordered(&entries, &positions, "bb"), None);
    let none: Vec<(String, u8)> = Vec::new();
    assert_eq!(ordered_positions(&none), Vec::<usize>::new());
}

fn nested(depth: usize) -> Json {
    let mut value = Json::Null;
    for level in 0..depth {
        value = if level % 2 == 0 {
            Json::Array(vec![value])
        } else {
            Json::Object(vec![("k".to_string(), value)])
        };
    }
    value
}

#[test]
fn canonical_texts_read_back() {
    let texts = [
        "null",
        "true",
        "false",
        "0",
        "-1",
        "18446744073709551615",
        "-9223372036854775808",
        "[]",
        "[null,[\"\"],{}]",
        "{\"\":{\"a\":[1,\"\\u0001\\b\\f\\n\\r\\t\\\"\\\\/\"]},\"é\u{1F980}\":\"\u{7f}\"}",
    ];
    for (i, text) in texts.iter().enumerate() {
        let canonical = canonical_value(&parsed(text));
        assert_eq!(canonical, *text);
        assert_eq!(canonical_value(&parsed(&canonical)), canonical);
        assert!(!texts[i + 1..].contains(text));
    }
    assert_eq!(canonical_value(&Json::Signed(5)), "5");
    assert_eq!(canonical_value(&Json::Text("null".to_string())), "null");
}

#[test]
fn texts_read_back_down_to_the_depth_that_is_parsed() {
    let deep = canonical_value(&nested(127));
    assert_eq!(canonical_value(&parsed(&deep)), deep);
    let deeper = canonical_value(&nested(128));
    assert!(parse_document(&deeper).is_err());
}

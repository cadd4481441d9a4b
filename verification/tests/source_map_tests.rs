use prettify_js::source_map_generator::{
    assemble_source_map, encode_digit, encode_mappings, write_vlq,
};
use prettify_js::{generate_source_map, SourceCoord, SourceMapColumn, SourceMapLine, SourceMapping};

fn coord(line: u32, column: u32) -> SourceCoord {
    SourceCoord {
        line: SourceMapLine(line),
        column: SourceMapColumn(column),
    }
}

fn pair(fl: u32, fc: u32, tl: u32, tc: u32) -> SourceMapping {
    SourceMapping {
        from: coord(fl, fc),
        to: coord(tl, tc),
    }
}

fn vlq(value: i64) -> String {
    let mut out = String::new();
    write_vlq(value, &mut out);
    out
}

#[test]
fn digits_follow_the_base64_alphabet() {
    let alphabet = "ABCDEFGHIJKLMNOPQRSTUVWXYZabcdefghijklmnopqrstuvwxyz0123456789+/";
    let encoded: String = (0u8..64).map(encode_digit).collect();
    assert_eq!(encoded, alphabet);
}

#[test]
fn small_quantities() {
    assert_eq!(vlq(0), "A");
    assert_eq!(vlq(1), "C");
    assert_eq!(vlq(-1), "D");
    assert_eq!(vlq(15), "e");
    assert_eq!(vlq(-15), "f");
}

#[test]
fn quantities_of_several_digits() {
    assert_eq!(vlq(16), "gB");
    assert_eq!(vlq(-16), "hB");
    assert_eq!(vlq(31), "+B");
    assert_eq!(vlq(32), "gC");
    assert_eq!(vlq(511), "+f");
    assert_eq!(vlq(512), "ggB");
    assert_eq!(vlq(1000), "w+B");
    assert_eq!(vlq(-1000), "x+B");
    assert_eq!(vlq(123456), "gkxH");
    assert_eq!(vlq(-123456), "hkxH");
    assert_eq!(vlq(4294967295), "+/////H");
    assert_eq!(vlq(-4294967295), "//////H");
}

#[test]
fn extreme_quantities() {
    assert_eq!(vlq(i64::MAX), "+///////////P");
    assert_eq!(vlq(-i64::MAX), "////////////P");
    assert_eq!(vlq(i64::MIN), "hgggggggggggQ");
}

#[test]
fn quantity_is_appended() {
    let mut out = "AA".to_string();
    write_vlq(16, &mut out);
    write_vlq(-1, &mut out);
    assert_eq!(out, "AAgBD");
}

#[test]
fn no_mappings_give_empty_text() {
    assert_eq!(encode_mappings(&vec![]), "");
}

#[test]
fn segments_on_one_line_are_separated_by_commas() {
    let text = encode_mappings(&vec![pair(0, 0, 0, 0), pair(0, 4, 0, 4), pair(0, 6, 0, 9)]);
    assert_eq!(text, "AAAA,IAAI,KAAE");
}

#[test]
fn each_line_down_is_one_semicolon() {
    let text = encode_mappings(&vec![pair(0, 0, 0, 0), pair(1, 0, 3, 2), pair(1, 5, 3, 4)]);
    assert_eq!(text, "AAAA;;;EACA,EAAK");
    let text = encode_mappings(&vec![pair(2, 1, 2, 1)]);
    assert_eq!(text, ";;CAEC");
}

#[test]
fn differences_may_be_negative() {
    let text = encode_mappings(&vec![pair(5, 20, 0, 10), pair(3, 1, 0, 4)]);
    assert_eq!(text, "UAKoB,NAFnB");
}

#[test]
fn an_earlier_line_counts_as_the_same_line() {
    let text = encode_mappings(&vec![pair(0, 0, 1, 5), pair(0, 1, 0, 7), pair(0, 2, 1, 9)]);
    assert_eq!(text, ";KAAA,EAAC,EAAC");
}

#[test]
fn document_has_its_members_in_order() {
    let json = assemble_source_map("\"n\"", "\"c\"", "AAAA;AACA");
    assert_eq!(
        json,
        "{\"version\":3,\"sources\":[\"n\"],\"sourcesContent\":[\"c\"],\"names\":[],\"mappings\":\"AAAA;AACA\"}"
    );
}

#[test]
fn map_without_mappings_holds_the_content() {
    let content = "line \"one\"\n\ttab \\ back\u{1}slash é𝒳\r\n";
    let json = generate_source_map("a \"name\"".to_string(), content.to_string(), vec![]);
    let v: serde_json::Value = serde_json::from_str(&json).unwrap();
    assert_eq!(v["sourcesContent"][0].as_str(), Some(content));
    assert_eq!(v["sourcesContent"].as_array().map(|a| a.len()), Some(1));
    assert_eq!(v["sources"][0].as_str(), Some("a \"name\""));
    assert_eq!(v["sources"].as_array().map(|a| a.len()), Some(1));
    assert_eq!(v["mappings"].as_str(), Some(""));
    assert!(json.ends_with("\"names\":[],\"mappings\":\"\"}"));
}

#[test]
fn names_and_content_are_escaped() {
    let json = generate_source_map("a\"b".to_string(), "c\nd".to_string(), vec![pair(0, 0, 0, 0)]);
    assert_eq!(
        json,
        "{\"version\":3,\"sources\":[\"a\\\"b\"],\"sourcesContent\":[\"c\\nd\"],\"names\":[],\"mappings\":\"AAAA\"}"
    );
}

#[test]
fn coordinates_are_ordered_by_line_then_column() {
    assert!(coord(0, 9) < coord(1, 0));
    assert!(coord(1, 0) < coord(1, 1));
    assert!(coord(2, 2) == coord(2, 2));
    assert!(SourceMapLine(1) < SourceMapLine(2));
    assert!(SourceMapColumn(3) > SourceMapColumn(2));
}

#[test]
fn every_character_is_written_as_json_writes_it() {
    let written = [
        "\\u0000", "\\u0001", "\\u0002", "\\u0003", "\\u0004", "\\u0005", "\\u0006",
        "\\u0007", "\\b", "\\t", "\\n", "\\u000b", "\\f", "\\r", "\\u000e", "\\u000f",
        "\\u0010", "\\u0011", "\\u0012", "\\u0013", "\\u0014", "\\u0015", "\\u0016",
        "\\u0017", "\\u0018", "\\u0019", "\\u001a", "\\u001b", "\\u001c", "\\u001d",
        "\\u001e", "\\u001f", " ", "!", "\\\"", "#",
    ];
    for (code, expected) in written.iter().enumerate() {
        let c = char::from_u32(code as u32).unwrap();
        let json = generate_source_map(String::new(), c.to_string(), vec![]);
        assert_eq!(
            json,
            format!(
                "{{\"version\":3,\"sources\":[\"\"],\"sourcesContent\":[\"{}\"],\"names\":[],\"mappings\":\"\"}}",
                expected
            ),
            "character {}",
            code
        );
    }
}

#[test]
fn plain_content_stands_letter_for_letter() {
    let content = "a/b 'c' \u{7f} \u{80} é \u{2028} 𝒳 <>&";
    let json = generate_source_map("n".to_string(), content.to_string(), vec![]);
    assert_eq!(
        json,
        format!(
            "{{\"version\":3,\"sources\":[\"n\"],\"sourcesContent\":[\"{}\"],\"names\":[],\"mappings\":\"\"}}",
            content
        )
    );
    let back = generate_source_map("n".to_string(), "a\\b".to_string(), vec![]);
    assert!(back.contains("\"sourcesContent\":[\"a\\\\b\"]"));
}

use prettify_js::{
    generate_source_map, prettyprint, SourceCoord, SourceMapColumn, SourceMapLine, SourceMapping,
};

fn m(fl: u32, fc: u32, tl: u32, tc: u32) -> SourceMapping {
    SourceMapping {
        from: SourceCoord {
            line: SourceMapLine(fl),
            column: SourceMapColumn(fc),
        },
        to: SourceCoord {
            line: SourceMapLine(tl),
            column: SourceMapColumn(tc),
        },
    }
}

#[test]
fn let_token() {
    let (pretty, mappings) = prettyprint("let a = 1;");
    assert_eq!(pretty, "let a = 1;\n");
    assert_eq!(
        mappings,
        vec![
            m(0, 0, 0, 0),
            m(0, 3, 0, 0),
            m(0, 4, 0, 4),
            m(0, 5, 0, 4),
            m(0, 6, 0, 6),
            m(0, 7, 0, 6),
            m(0, 8, 0, 8),
            m(0, 9, 0, 9),
            m(0, 10, 0, 9)
        ]
    );
}

#[test]
fn indent() {
    let (pretty, mappings) = prettyprint("function non_simple_params(...rest) {\n  {\n    let kitty = 99;\n    console.log(rest[0] + kitty);\n  }\n}");
    assert_eq!(pretty, "function non_simple_params(...rest) {\n  {\n    let kitty = 99;\n    console.log(rest[0] + kitty);\n  }\n}\n");
    assert_eq!(
        mappings
            .iter()
            .filter(|v| v.from.line.0 == 3)
            .cloned()
            .collect::<Vec<_>>(),
        vec![
            m(3, 0, 3, 4),
            m(3, 4, 3, 4),
            m(3, 11, 3, 11),
            m(3, 12, 3, 12),
            m(3, 15, 3, 15),
            m(3, 16, 3, 16),
            m(3, 20, 3, 20),
            m(3, 21, 3, 21),
            m(3, 22, 3, 22),
            m(3, 23, 3, 22),
            m(3, 24, 3, 24),
            m(3, 25, 3, 24),
            m(3, 26, 3, 26),
            m(3, 31, 3, 31),
            m(3, 32, 3, 32),
            m(3, 33, 3, 32)
        ]
    );
}

#[test]
fn print() {
    let (pretty, mappings) = prettyprint("/* ABC */\nfunction f(x) { return x; }");
    assert_eq!(pretty, "/* ABC */\nfunction f(x) {\n  return x;\n}\n");
    let map = generate_source_map("orig.name".to_string(), "<original>".to_string(), mappings);
    let v: serde_json::Value = serde_json::from_str(&map).unwrap();
    let mappings = v
        .as_object()
        .unwrap()
        .get("mappings")
        .unwrap()
        .as_str()
        .unwrap();
    assert_eq!(
        mappings,
        "AAAA;AACA,AAAQ,SAAC,CAAC,CAAC,CAAC,AAAC,EAAC,AAAC,EACf,AAAE,AAAM,OAAC,CAAC,AAAC,EACX"
    );
}

#[test]
fn function_body_is_broken_and_indented() {
    let (pretty, _) = prettyprint("function x(a){return a;}");
    assert_eq!(pretty, "function x(a) {\n  return a;\n}\n");
}

#[test]
fn while_of_do_stays_on_the_line_of_the_brace() {
    let (pretty, _) = prettyprint("do { x++ } while (x);");
    assert_eq!(pretty, "do {\n  x++\n} while (x);\n");
    let (pretty, _) = prettyprint("if (a) { b } while (x) { c }");
    assert_eq!(pretty, "if (a) {\n  b\n}\nwhile (x) {\n  c\n}\n");
}

#[test]
fn subscript_is_no_array_literal() {
    let (pretty, _) = prettyprint("a[0]");
    assert_eq!(pretty, "a[0]\n");
    let (pretty, _) = prettyprint("f(a, [1,2])");
    assert_eq!(pretty, "f(a, [\n  1,\n  2\n])\n");
    let (pretty, _) = prettyprint("x=[1,2]");
    assert_eq!(pretty, "x = [\n  1,\n  2\n]\n");
}

#[test]
fn switch_labels_stand_one_level_above_their_statements() {
    let (pretty, _) = prettyprint("switch (x) { case 1: a(); break; default: b(); }");
    assert_eq!(
        pretty,
        "switch (x) {\n  case 1:\n    a();\n    break;\n  default:\n    b();\n}\n"
    );
    let (pretty, _) = prettyprint("{switch (x) { case 1: a(); }b}");
    assert_eq!(
        pretty,
        "{\n  switch (x) {\n    case 1:\n      a();\n  }\n  b\n}\n"
    );
}

#[test]
fn empty_text_gives_one_line_feed() {
    let (pretty, mappings) = prettyprint("");
    assert_eq!(pretty, "\n");
    assert_eq!(mappings, vec![m(0, 0, 0, 0)]);
}

#[test]
fn same_text_gives_same_result() {
    let source = "function f(a){if(a){return x=[1,2]}else{return a?b:c}} // done";
    let first = prettyprint(source);
    let second = prettyprint(source);
    assert_eq!(first, second);
    assert_eq!(
        first.0,
        "function f(a) {\n  if (a) {\n    return x = [\n      1,\n      2\n    ]\n  } else {\n    return a ? b : c\n  }\n} // done\n"
    );
}

#[test]
fn text_ends_with_exactly_one_line_feed() {
    for source in [
        "",
        "a",
        "a;",
        "{",
        "}",
        "{}",
        "// c",
        "/* c */",
        "a // c",
        "a /* c */",
        "x = [1,",
        "a;\n\n\n",
    ] {
        let (pretty, _) = prettyprint(source);
        assert!(pretty.ends_with('\n'), "{:?}", source);
        assert!(!pretty.ends_with("\n\n"), "{:?}", source);
    }
}

#[test]
fn places_in_the_formatted_text_never_go_back() {
    let (_, mappings) = prettyprint(
        "/* c */ function f(a){\n  var x = [1,2];\n  switch(a){case 1: break}\n}\n// end\n",
    );
    assert!(mappings.len() > 10);
    for pair in mappings.windows(2) {
        assert!(pair[0].from <= pair[1].from, "{:?}", pair);
    }
}

#[test]
fn braces_nest_by_two_spaces() {
    let (pretty, mappings) = prettyprint("{{}}");
    assert_eq!(pretty, "{\n  {\n  }\n}\n");
    assert_eq!(
        mappings,
        vec![
            m(0, 0, 0, 0),
            m(0, 1, 0, 0),
            m(1, 0, 0, 1),
            m(1, 2, 0, 1),
            m(1, 3, 0, 1),
            m(2, 0, 0, 2),
            m(2, 2, 0, 2),
            m(2, 3, 0, 2),
            m(3, 0, 0, 3)
        ]
    );
    let (pretty, _) = prettyprint("{a;{b;}}");
    assert_eq!(pretty, "{\n  a;\n  {\n    b;\n  }\n}\n");
}

#[test]
fn statements_on_two_lines_stay_apart() {
    assert_eq!(prettyprint("a\nb").0, "a\nb\n");
    assert_eq!(prettyprint("a +\nb").0, "a + b\n");
    assert_eq!(prettyprint("a\n+ b").0, "a + b\n");
    assert_eq!(prettyprint("return\nx").0, "return\nx\n");
    assert_eq!(prettyprint("a.b()\n.c()").0, "a.b().c()\n");
    assert_eq!(prettyprint("x\n++y").0, "x\n++y\n");
    assert_eq!(prettyprint("a ==\nb").0, "a ==\nb\n");
}

#[test]
fn words_after_a_closing_brace() {
    assert_eq!(
        prettyprint("if(a){b}else{c}").0,
        "if (a) {\n  b\n} else {\n  c\n}\n"
    );
    assert_eq!(
        prettyprint("try{a}catch(e){b}finally{c}").0,
        "try {\n  a\n} catch (e) {\n  b\n} finally {\n  c\n}\n"
    );
    assert_eq!(prettyprint("f(function(){a}, b)").0, "f(function () {\n  a\n}, b)\n");
    assert_eq!(prettyprint("if (a) b; else c").0, "if (a) b;\n else c\n");
    assert_eq!(prettyprint("if (a) b\nelse c").0, "if (a) b \nelse c\n");
}

#[test]
fn spaces_between_tokens() {
    assert_eq!(prettyprint("a?b:c").0, "a ? b : c\n");
    assert_eq!(
        prettyprint("for(var i=0;i<n;i++){f(i)}").0,
        "for (var i = 0; i < n; i++) {\n  f(i)\n}\n"
    );
    assert_eq!(prettyprint("x=typeof y").0, "x = typeof y\n");
    assert_eq!(prettyprint("return;").0, "return;\n");
    assert_eq!(prettyprint("this.a").0, "this.a\n");
    assert_eq!(prettyprint("a=b").0, "a = b\n");
    assert_eq!(prettyprint("!a").0, "!a\n");
    assert_eq!(prettyprint("a/b").0, "a/ b\n");
    assert_eq!(prettyprint("a*b").0, "a * b\n");
    assert_eq!(prettyprint("a===b").0, "a=== b\n");
    assert_eq!(prettyprint("a==b").0, "a == b\n");
    assert_eq!(prettyprint("1 .x").0, "1 .x\n");
}

#[test]
fn comments_keep_their_line() {
    assert_eq!(prettyprint("a; // c\nb").0, "a; // c\nb\n");
    assert_eq!(prettyprint("x /* c */ y").0, "x /* c */ y\n");
    assert_eq!(prettyprint("{ // c\nx }").0, "{ // c\n  x\n}\n");
    assert_eq!(prettyprint("#!/usr/bin/env node\nx").0, "#!/usr/bin/env node\nx\n");
    assert_eq!(prettyprint("a\n// c\nb").0, "a// c\nb\n");
    assert_eq!(prettyprint("a;\n// c\nb").0, "a;\n// c\nb\n");
    assert_eq!(prettyprint("{\n// c\nb}").0, "{\n  // c\n  b\n}\n");
}

#[test]
fn block_comments_keep_their_line_breaks() {
    assert_eq!(prettyprint("/* a\n   b */ x").0, "/* a\n     b */\nx\n");
    assert_eq!(prettyprint("/* a\r\nb\n*/\nx").0, "/* a\n  b*/\nx\n");
    assert_eq!(prettyprint("/*\na\n\nb\n */\nx").0, "/*\n  a\n  \n  b\n   */\nx\n");
    assert_eq!(
        prettyprint("{\n/* a\nb */\nx }").0,
        "{\n  /* a\n    b   */\n  x\n}\n"
    );
    assert_eq!(prettyprint("{ /* a\nb */ x }").0, "{ /* a\n  b */\n  x\n}\n");
}

#[test]
fn white_space_is_recorded_and_comment_text_is_not() {
    let (pretty, mappings) = prettyprint("// c\n{ a /* d */ }");
    assert_eq!(pretty, "// c\n{\n  a /* d */ \n}\n");
    assert_eq!(
        mappings,
        vec![
            m(0, 0, 0, 0),
            m(1, 0, 1, 0),
            m(1, 1, 1, 0),
            m(2, 0, 1, 2),
            m(2, 2, 1, 2),
            m(2, 12, 1, 2),
            m(3, 0, 1, 12)
        ]
    );
}

#[test]
fn columns_count_utf16_units() {
    let (pretty, mappings) = prettyprint("var s = 'é𝒳'; t");
    assert_eq!(pretty, "var s = 'é𝒳';\nt\n");
    assert_eq!(mappings[6], m(0, 8, 0, 8));
    assert_eq!(mappings[7].from, m(0, 13, 0, 0).from);
    assert_eq!(mappings[8].from, m(0, 14, 0, 0).from);
    assert_eq!(mappings[9].from, m(1, 0, 0, 0).from);
    assert_eq!(mappings.len(), 10);
}

#[test]
fn what_cannot_be_read_is_left_out() {
    assert_eq!(prettyprint("}").0, "\n");
    assert_eq!(prettyprint("a }").0, "a\n");
    assert_eq!(prettyprint("a ) b").0, "a\n");
}

#[test]
fn source_map_of_formatted_text_parses_back() {
    let source = "function f(x) { return \"a\\\"b\"; }";
    let (pretty, mappings) = prettyprint(source);
    let map = generate_source_map("f.js.pretty".to_string(), pretty.clone(), mappings);
    let v: serde_json::Value = serde_json::from_str(&map).unwrap();
    assert_eq!(v["version"].as_i64(), Some(3));
    assert_eq!(v["sources"][0].as_str(), Some("f.js.pretty"));
    assert_eq!(v["sourcesContent"][0].as_str(), Some(pretty.as_str()));
    assert_eq!(v["names"].as_array().map(|a| a.len()), Some(0));
}

#[test]
fn odd_texts_are_formatted_too() {
    let pieces = [
        "a", "1", " ", "\n", "\r", "{", "}", "(", ")", "[", "]", ";", ",", ".", ":", "?", "+", "-",
        "*", "/", "=", "<", ">", "!", "&", "|", "'", "\"", "`", "\\", "$", "#", "//", "/*", "*/",
        "<!--", "-->", "if", "else", "do", "while", "case", "switch", "return", "function", "é",
        "𝒳", "\t", "0x", "in", "=>", "default", "\\u{41}", "\\u{", "${",
    ];
    let mut seed: u64 = 0x2545F4914F6CDD1D;
    let mut formatted = 0;
    for _ in 0..5000 {
        let mut text = String::new();
        seed ^= seed << 13;
        seed ^= seed >> 7;
        seed ^= seed << 17;
        let len = 1 + (seed % 12) as usize;
        for _ in 0..len {
            seed ^= seed << 13;
            seed ^= seed >> 7;
            seed ^= seed << 17;
            text.push_str(pieces[(seed % pieces.len() as u64) as usize]);
        }
        assert_eq!(prettify_js::try_prettyprint(&text).is_some(), prettify_js::is_scannable(&text));
        if let Some((pretty, mappings)) = prettify_js::try_prettyprint(&text) {
            formatted += 1;
            assert!(pretty.ends_with('\n'), "{:?}", text);
            assert!(!pretty.ends_with("\n\n"), "{:?}", text);
            for pair in mappings.windows(2) {
                assert!(pair[0].from <= pair[1].from, "{:?}", text);
            }
            assert_eq!(prettyprint(&text), (pretty, mappings));
        }
    }
    assert!(formatted > 4000);
}

#[test]
fn texts_that_the_scanner_does_not_take() {
    for text in [
        "<!-->",
        "a <!-->b",
        "x\n<!--->y",
        "`\\u{",
        "'\\u{41",
        "'\\u{123456789}'",
        "'\\u{000000041}'",
        "\\u{41}\\u{",
        "/\\\u{a0}\u{f05c}u{FFFFFFFFF}",
        "/\\\u{a0}\u{281}\u{85c}u{x",
        "'\\é'",
    ] {
        assert!(!prettify_js::is_scannable(text), "{:?}", text);
        assert_eq!(prettify_js::try_prettyprint(text), None, "{:?}", text);
        assert_eq!(prettyprint(text), ("\n".to_string(), vec![m(0, 0, 0, 0)]), "{:?}", text);
    }
}

#[test]
fn texts_that_the_scanner_takes() {
    for text in [
        "",
        "a",
        "<!-- x -->",
        "<!-- >",
        "<!- ->",
        "< !-->",
        "'\\u{41}'",
        "'\\u{00000041}'",
        "'\\u{}'",
        "`\\u{1F600}`",
        "// \\u{ is open\nx = {}",
        "'\\u{zz}'",
        "\\u0041",
        "\\u {",
        "\\U{",
        "u{",
        "é\\n",
        "'\\\\' + 'é'",
    ] {
        assert!(prettify_js::is_scannable(text), "{:?}", text);
        assert_eq!(prettify_js::try_prettyprint(text), Some(prettyprint(text)), "{:?}", text);
    }
    assert_eq!(prettyprint("// \\u{ is open\nx = {}").0, "// \\u{ is open\nx = {\n}\n");
}

fn formatted_among(pieces: &[&str], mut seed: u64, rounds: usize, longest: u64) -> usize {
    let mut formatted = 0;
    for _ in 0..rounds {
        let mut text = String::new();
        seed ^= seed << 13;
        seed ^= seed >> 7;
        seed ^= seed << 17;
        let len = 1 + (seed % longest) as usize;
        for _ in 0..len {
            seed ^= seed << 13;
            seed ^= seed >> 7;
            seed ^= seed << 17;
            text.push_str(pieces[(seed % pieces.len() as u64) as usize]);
        }
        let (pretty, mappings) = prettyprint(&text);
        assert!(pretty.ends_with('\n'), "{:?}", text);
        assert!(!pretty.ends_with("\n\n"), "{:?}", text);
        for pair in mappings.windows(2) {
            assert!(pair[0].from <= pair[1].from, "{:?}", text);
        }
        match prettify_js::try_prettyprint(&text) {
            Some(result) => {
                formatted += 1;
                assert!(prettify_js::is_scannable(&text), "{:?}", text);
                assert_eq!(result, (pretty, mappings), "{:?}", text);
            }
            None => {
                assert!(!prettify_js::is_scannable(&text), "{:?}", text);
                assert_eq!((pretty, mappings), ("\n".to_string(), vec![m(0, 0, 0, 0)]));
            }
        }
    }
    formatted
}

#[test]
fn escapes_and_regular_expressions_are_formatted_too() {
    let pieces = [
        "/", "\\", "\u{a0}", "\u{2028}", "\u{feff}", "u", "{", "}", "F", "0", "x", "`", "'",
        "\n", " ", "\u{f05c}", "\u{85c}", "\u{281}", "=", "[", "]", "(", ")", "a", "g", "\\u",
        "\\u{", "41", "$", "${", "\"", ";", "\\/", "\u{3000}", "\r",
    ];
    let formatted = formatted_among(&pieces, 0x9E3779B97F4A7C15, 20000, 10);
    assert!(formatted > 10000);
}

#[test]
fn comments_and_numbers_are_formatted_too() {
    let pieces = [
        "<!--", "-->", "<!-", "->", "-", ">", "<", "!", "/*", "*/", "//", "*", "/", "\n", "\r",
        " ", "\u{2029}", "é", "0", "1", "9", ".", "e", "E", "_", "n", "x", "o", "b", "+", "#",
        "#!", "a", "\u{1F600}", "\t", "\u{a0}", "{", "}",
    ];
    let formatted = formatted_among(&pieces, 0xD1B54A32D192ED03, 20000, 10);
    assert!(formatted > 15000);
}

#[test]
fn words_and_escaped_words_are_formatted_too() {
    let pieces = [
        "c", "a", "s", "e", "d", "o", "i", "f", "n", "w", "h", "l", "t", "r", "u", "y", "\\",
        "\\u", "\\u0065", "\\u{65}", "\\u{", "}", "{", " ", "\n", "in", "do", "\u{200c}",
        "\u{200d}", "0", "006", "'", "`", "é", "(", ")", "/", "x",
    ];
    let formatted = formatted_among(&pieces, 0x94D049BB133111EB, 20000, 8);
    assert!(formatted > 10000);
}

fn formatted_of_all(pieces: &[&str], longest: usize) -> usize {
    let mut formatted = 0;
    let mut choice = vec![0usize; longest];
    for len in 0..=longest {
        for slot in choice.iter_mut() {
            *slot = 0;
        }
        loop {
            let text: String = choice[..len].iter().map(|&i| pieces[i]).collect();
            let (pretty, mappings) = prettyprint(&text);
            assert!(pretty.ends_with('\n') && !pretty.ends_with("\n\n"), "{:?}", text);
            for pair in mappings.windows(2) {
                assert!(pair[0].from <= pair[1].from, "{:?}", text);
            }
            if prettify_js::is_scannable(&text) {
                formatted += 1;
                assert_eq!(prettify_js::try_prettyprint(&text), Some((pretty, mappings)));
            } else {
                assert_eq!(prettify_js::try_prettyprint(&text), None, "{:?}", text);
            }
            let mut at = 0;
            while at < len && choice[at] + 1 == pieces.len() {
                choice[at] = 0;
                at += 1;
            }
            if at == len {
                break;
            }
            choice[at] += 1;
        }
    }
    formatted
}

#[test]
fn every_short_text_of_escapes_is_formatted() {
    let pieces = ["/", "\\", "u", "{", "}", "`", "é", "\n", "F", "'", " ", "$", "=", "a"];
    let formatted = formatted_of_all(&pieces, 5);
    assert!(formatted > 400000);
}

#[test]
fn every_short_text_of_comment_marks_is_formatted() {
    let pieces = ["<", "!", "-", ">", "/", "*", "\n", "é", " ", "#", "a"];
    let formatted = formatted_of_all(&pieces, 5);
    assert!(formatted > 150000);
}

use prettify_js::prettyprint::{
    add_comment, add_token, append_newline, format_tokens, is_asi, prepend_white_space, Layout,
};
use prettify_js::rules::Context;
use prettify_js::token::{CommentKind, Keyword, Punct, Token, TokenKind};
use prettify_js::writer::Writer;
use prettify_js::{SourceCoord, SourceMapColumn, SourceMapLine, SourceMapping};

fn coord(line: u32, column: u32) -> SourceCoord {
    SourceCoord {
        line: SourceMapLine(line),
        column: SourceMapColumn(column),
    }
}

fn pair(fl: u32, fc: u32, tl: u32, tc: u32) -> SourceMapping {
    SourceMapping {
        from: coord(fl, fc),
        to: coord(tl, tc),
    }
}

fn token(kind: TokenKind, text: &str, line: u32, column: u32) -> Token {
    Token {
        kind,
        text: text.to_string(),
        content: String::new(),
        start: coord(line, column),
        end: coord(line, column + text.chars().count() as u32),
    }
}

fn comment(kind: CommentKind, text: &str, content: &str, line: u32, column: u32) -> Token {
    Token {
        kind: TokenKind::Comment(kind),
        text: text.to_string(),
        content: content.to_string(),
        start: coord(line, column),
        end: coord(line, column + text.chars().count() as u32),
    }
}

fn ident(text: &str, line: u32, column: u32) -> Token {
    token(TokenKind::Ident, text, line, column)
}

fn punct(p: Punct, text: &str, line: u32, column: u32) -> Token {
    token(TokenKind::Punct(p), text, line, column)
}

fn keyword(k: Keyword, text: &str, line: u32, column: u32) -> Token {
    token(TokenKind::Keyword(k), text, line, column)
}

fn written(w: &Writer) -> &str {
    w.buffer.as_str()
}

#[test]
fn no_tokens_give_one_line_feed() {
    let (text, mappings) = format_tokens(&vec![]);
    assert_eq!(text, "\n");
    assert_eq!(mappings, vec![pair(0, 0, 0, 0)]);
}

#[test]
fn one_token_gives_one_line() {
    let (text, mappings) = format_tokens(&vec![ident("abc", 4, 7)]);
    assert_eq!(text, "abc\n");
    assert_eq!(mappings, vec![pair(0, 0, 4, 7)]);
}

#[test]
fn closing_brace_may_come_first() {
    let (text, mappings) = format_tokens(&vec![punct(Punct::CloseBrace, "}", 0, 0)]);
    assert_eq!(text, "\n}\n");
    assert_eq!(mappings, vec![pair(0, 0, 0, 0), pair(1, 0, 0, 0)]);
}

#[test]
fn array_closing_bracket_may_lack_its_opening() {
    let tokens = vec![
        punct(Punct::CloseBracket, "]", 0, 0),
        punct(Punct::CloseParen, ")", 0, 1),
        punct(Punct::Colon, ":", 0, 2),
        keyword(Keyword::While, "while", 0, 3),
    ];
    let (text, mappings) = format_tokens(&tokens);
    assert_eq!(text, "]) : while\n");
    assert_eq!(
        mappings,
        vec![
            pair(0, 0, 0, 0),
            pair(0, 1, 0, 1),
            pair(0, 2, 0, 1),
            pair(0, 3, 0, 2),
            pair(0, 4, 0, 2),
            pair(0, 5, 0, 3)
        ]
    );
}

#[test]
fn nothing_is_laid_out_after_the_end() {
    let tokens = vec![
        ident("a", 0, 0),
        token(TokenKind::EoF, "", 0, 1),
        ident("b", 1, 0),
        token(TokenKind::EoF, "", 1, 1),
    ];
    let (text, mappings) = format_tokens(&tokens);
    assert_eq!(text, "a\n");
    assert_eq!(mappings, vec![pair(0, 0, 0, 0)]);
}

#[test]
fn end_of_input_may_be_missing() {
    let tokens = vec![
        ident("a", 0, 0),
        punct(Punct::SemiColon, ";", 0, 1),
        ident("b", 0, 2),
    ];
    let (text, mappings) = format_tokens(&tokens);
    assert_eq!(text, "a;\nb\n");
    assert_eq!(
        mappings,
        vec![pair(0, 0, 0, 0), pair(0, 1, 0, 1), pair(0, 2, 0, 1), pair(1, 0, 0, 2)]
    );
}

#[test]
fn token_that_ends_with_a_line_feed_leaves_a_blank_line() {
    let (text, _) = format_tokens(&vec![ident("a\n", 0, 0)]);
    assert_eq!(text, "a\n\n");
    let tokens = vec![punct(Punct::SemiColon, ";", 0, 0), ident("", 0, 1)];
    let (text, _) = format_tokens(&tokens);
    assert_eq!(text, ";\n\n");
}

#[test]
fn block_comment_is_indented_anew() {
    let tokens = vec![
        punct(Punct::OpenBrace, "{", 0, 0),
        comment(CommentKind::Multi, "/* a\n b */", " a\n b ", 1, 2),
        ident("x", 3, 2),
        punct(Punct::CloseBrace, "}", 4, 0),
        token(TokenKind::EoF, "", 4, 1),
    ];
    let (text, mappings) = format_tokens(&tokens);
    assert_eq!(text, "{\n  /* a\n     b   */\n  x\n}\n");
    assert_eq!(
        mappings,
        vec![
            pair(0, 0, 0, 0),
            pair(0, 1, 0, 0),
            pair(1, 0, 1, 2),
            pair(2, 0, 1, 2),
            pair(2, 7, 1, 2),
            pair(3, 0, 3, 2),
            pair(3, 2, 3, 2),
            pair(3, 3, 3, 2),
            pair(4, 0, 4, 0)
        ]
    );
}

#[test]
fn html_comment_is_written_as_a_block_comment() {
    let tokens = vec![
        comment(CommentKind::Html, "<!-- a -->", " a ", 0, 0),
        ident("x", 1, 0),
    ];
    let (text, mappings) = format_tokens(&tokens);
    assert_eq!(text, "/* a */\nx\n");
    assert_eq!(mappings, vec![pair(0, 0, 0, 0), pair(1, 0, 1, 0)]);
}

#[test]
fn line_comment_and_hashbang_are_written_as_they_stood() {
    let tokens = vec![
        comment(CommentKind::Hashbang, "#!/bin/node", "/bin/node", 0, 0),
        comment(CommentKind::Single, "// c", " c", 1, 0),
        ident("x", 1, 5),
    ];
    let (text, mappings) = format_tokens(&tokens);
    assert_eq!(text, "#!/bin/node\n// c\nx\n");
    assert_eq!(mappings, vec![pair(0, 0, 0, 0), pair(2, 0, 1, 5)]);
}

#[test]
fn comment_on_the_line_of_a_token_follows_after_a_space() {
    let tokens = vec![
        punct(Punct::OpenBrace, "{", 0, 0),
        ident("x", 1, 0),
        punct(Punct::SemiColon, ";", 1, 1),
        comment(CommentKind::Single, "// c", " c", 1, 3),
        ident("y", 2, 0),
    ];
    let (text, _) = format_tokens(&tokens);
    assert_eq!(text, "{\n  x; // c\n  y\n");
}

#[test]
fn block_comment_before_a_token_on_its_line_is_followed_by_a_space() {
    let tokens = vec![
        comment(CommentKind::Multi, "/* c */", " c ", 0, 0),
        ident("x", 0, 8),
    ];
    assert_eq!(format_tokens(&tokens).0, "/* c */ x\n");
    let tokens = vec![comment(CommentKind::Multi, "/* c */", " c ", 0, 0)];
    assert_eq!(format_tokens(&tokens).0, "/* c */ \n");
}

#[test]
fn statement_break_needs_another_line() {
    let a = ident("a", 0, 0);
    let b = ident("b", 1, 0);
    let same = ident("b", 0, 2);
    assert!(is_asi(&b, Some(&a)));
    assert!(!is_asi(&same, Some(&a)));
    assert!(!is_asi(&b, None));
}

#[test]
fn statement_break_after_return_and_yield() {
    let plus = punct(Punct::Plus, "+", 1, 0);
    let open = punct(Punct::OpenParen, "(", 1, 0);
    for last in [
        keyword(Keyword::Return, "return", 0, 0),
        keyword(Keyword::Yield, "yield", 0, 0),
    ] {
        assert!(is_asi(&plus, Some(&last)));
        assert!(is_asi(&open, Some(&last)));
        assert!(is_asi(&ident("x", 1, 0), Some(&last)));
        assert!(!is_asi(&ident("x", 0, 7), Some(&last)));
    }
}

#[test]
fn no_statement_break_inside_an_expression() {
    let x = ident("x", 1, 0);
    assert!(!is_asi(&x, Some(&punct(Punct::Plus, "+", 0, 0))));
    assert!(!is_asi(&x, Some(&keyword(Keyword::New, "new", 0, 0))));
    assert!(!is_asi(&x, Some(&punct(Punct::OpenParen, "(", 0, 0))));
    assert!(is_asi(&x, Some(&punct(Punct::DoubleEqual, "==", 0, 0))));
    assert!(is_asi(&x, Some(&punct(Punct::CloseParen, ")", 0, 0))));
    let a = ident("a", 0, 0);
    assert!(!is_asi(&punct(Punct::Period, ".", 1, 0), Some(&a)));
    assert!(!is_asi(&keyword(Keyword::In, "in", 1, 0), Some(&a)));
    assert!(is_asi(&keyword(Keyword::New, "new", 1, 0), Some(&a)));
    assert!(is_asi(&punct(Punct::DoublePlus, "++", 1, 0), Some(&a)));
}

fn lead(
    token: &Token,
    last: Option<&Token>,
    stack: &Vec<Context>,
    added_newline: bool,
    added_space: bool,
    indent_level: usize,
) -> String {
    let mut out = Writer::new();
    out.write("", coord(0, 0));
    prepend_white_space(token, last, stack, added_newline, added_space, indent_level, &mut out);
    out.buffer
}

#[test]
fn white_space_after_a_closing_brace() {
    let brace = punct(Punct::CloseBrace, "}", 0, 0);
    let last = Some(&brace);
    let none: Vec<Context> = vec![];
    assert_eq!(lead(&ident("x", 0, 1), last, &none, false, false, 2), "\n    ");
    assert_eq!(lead(&keyword(Keyword::Else, "else", 0, 1), last, &none, false, false, 2), " ");
    assert_eq!(lead(&keyword(Keyword::Catch, "catch", 0, 1), last, &none, false, false, 2), " ");
    assert_eq!(lead(&keyword(Keyword::Finally, "finally", 0, 1), last, &none, false, false, 2), " ");
    assert_eq!(lead(&keyword(Keyword::While, "while", 0, 1), last, &none, false, false, 1), "\n  ");
    assert_eq!(
        lead(&keyword(Keyword::While, "while", 0, 1), last, &vec![Context::Do], false, false, 1),
        " "
    );
    for (p, text) in [
        (Punct::OpenParen, "("),
        (Punct::SemiColon, ";"),
        (Punct::Comma, ","),
        (Punct::CloseParen, ")"),
        (Punct::Period, "."),
    ] {
        assert_eq!(lead(&punct(p, text, 0, 1), last, &none, false, false, 2), "");
    }
    assert_eq!(lead(&token(TokenKind::Template, "`a`", 0, 1), last, &none, false, false, 2), "");
    assert_eq!(lead(&punct(Punct::CloseBrace, "}", 0, 1), last, &none, false, false, 1), "\n  ");
    assert_eq!(lead(&ident("x", 0, 1), last, &none, true, false, 1), "\n  ");
}

#[test]
fn white_space_before_colon_and_else() {
    let a = ident("a", 0, 0);
    let colon = punct(Punct::Colon, ":", 0, 1);
    assert_eq!(lead(&colon, Some(&a), &vec![Context::Ternary], false, false, 0), " ");
    assert_eq!(lead(&colon, Some(&a), &vec![Context::Case], false, false, 0), "");
    assert_eq!(lead(&colon, Some(&a), &vec![], false, false, 0), "");
    let other = keyword(Keyword::Else, "else", 0, 1);
    assert_eq!(lead(&other, Some(&a), &vec![], false, false, 0), " ");
    assert_eq!(lead(&other, Some(&punct(Punct::Period, ".", 0, 0)), &vec![], false, false, 0), "");
    assert_eq!(lead(&other, None, &vec![], false, false, 0), "");
    assert_eq!(
        lead(&other, Some(&punct(Punct::SemiColon, ";", 0, 0)), &vec![], true, false, 1),
        "   "
    );
}

#[test]
fn white_space_at_a_statement_break() {
    let a = ident("a", 0, 0);
    let b = ident("b", 1, 0);
    assert_eq!(lead(&b, Some(&a), &vec![], false, false, 1), "\n  ");
    assert_eq!(lead(&b, Some(&a), &vec![], true, false, 1), "  ");
    assert_eq!(lead(&b, Some(&a), &vec![], false, true, 1), "\n  ");
    let same = ident("b", 0, 2);
    assert_eq!(lead(&same, Some(&a), &vec![], false, false, 1), " ");
    assert_eq!(lead(&same, Some(&a), &vec![], false, true, 1), "");
    assert_eq!(lead(&same, None, &vec![], false, false, 1), "");
}

#[test]
fn white_space_before_a_token_that_closes_an_indentation() {
    let a = ident("a", 0, 0);
    let brace = punct(Punct::CloseBrace, "}", 0, 1);
    assert_eq!(lead(&brace, Some(&a), &vec![Context::Brace], false, false, 1), "\n  ");
    assert_eq!(lead(&brace, Some(&a), &vec![], true, false, 0), "");
    assert_eq!(lead(&brace, None, &vec![], false, false, 0), "\n");
    let bracket = punct(Punct::CloseBracket, "]", 0, 1);
    let array = vec![Context::Bracket { array_literal: true }];
    let subscript = vec![Context::Bracket { array_literal: false }];
    assert_eq!(lead(&bracket, Some(&a), &array, false, false, 1), "\n  ");
    assert_eq!(lead(&bracket, Some(&a), &subscript, false, false, 1), "");
}

#[test]
fn labels_are_indented_one_level_less() {
    let semi = punct(Punct::SemiColon, ";", 0, 0);
    let case = keyword(Keyword::Case, "case", 0, 1);
    let default = keyword(Keyword::Default, "default", 0, 1);
    assert_eq!(lead(&case, Some(&semi), &vec![], true, false, 2), "  ");
    assert_eq!(lead(&default, Some(&semi), &vec![], true, false, 2), "  ");
    assert_eq!(lead(&case, Some(&semi), &vec![], true, false, 0), "");
    assert_eq!(lead(&ident("x", 0, 1), Some(&semi), &vec![], true, false, 2), "    ");
}

#[test]
fn first_white_space_is_recorded() {
    let mut out = Writer::new();
    let brace = punct(Punct::CloseBrace, "}", 3, 4);
    prepend_white_space(&brace, None, &vec![], false, false, 0, &mut out);
    assert_eq!(written(&out), "\n");
    assert_eq!(out.mappings, vec![pair(0, 0, 0, 0)]);
    let mut out = Writer::new();
    prepend_white_space(&ident("a", 0, 0), None, &vec![], false, false, 0, &mut out);
    assert_eq!(written(&out), "");
    assert!(out.mappings.is_empty());
}

#[test]
fn token_text_is_recorded() {
    let mut out = Writer::new();
    out.write_new("  ");
    add_token(&ident("abc", 5, 6), &mut out);
    assert_eq!(written(&out), "  abc");
    assert_eq!(out.mappings, vec![pair(0, 0, 0, 0), pair(0, 2, 5, 6)]);
    assert_eq!(out.current, coord(0, 5));
    assert_eq!(out.last_from, coord(5, 6));
}

#[test]
fn white_space_is_recorded_piece_by_piece() {
    let brace = punct(Punct::CloseBrace, "}", 3, 4);
    let colon = punct(Punct::Colon, ":", 5, 6);
    let mut out = Writer::new();
    out.write("}", coord(3, 4));
    prepend_white_space(&colon, Some(&brace), &vec![Context::Ternary], false, false, 2, &mut out);
    assert_eq!(written(&out), "}\n     ");
    assert_eq!(
        out.mappings,
        vec![pair(0, 0, 3, 4), pair(0, 1, 3, 4), pair(1, 0, 3, 4), pair(1, 1, 5, 6)]
    );
    assert_eq!(out.last_from, coord(5, 6));

    let a = ident("a", 1, 2);
    let b = ident("b", 1, 4);
    let mut out = Writer::new();
    out.write("a", coord(1, 2));
    prepend_white_space(&b, Some(&a), &vec![], false, false, 3, &mut out);
    assert_eq!(written(&out), "a ");
    assert_eq!(out.mappings, vec![pair(0, 0, 1, 2), pair(0, 1, 1, 2)]);

    let mut out = Writer::new();
    out.write("a", coord(1, 2));
    prepend_white_space(&b, Some(&a), &vec![], true, false, 0, &mut out);
    assert_eq!(written(&out), "a");
    assert_eq!(out.mappings, vec![pair(0, 0, 1, 2)]);
}

#[test]
fn line_ends_where_the_rules_say() {
    let mut out = Writer::new();
    out.write("{", coord(0, 0));
    let none: Vec<Context> = vec![];
    let brace = punct(Punct::OpenBrace, "{", 7, 8);
    let name = ident("x", 9, 1);
    let semi = punct(Punct::SemiColon, ";", 9, 2);
    assert!(append_newline(&brace, false, &none, &mut out));
    assert_eq!(written(&out), "{\n");
    assert_eq!(out.mappings, vec![pair(0, 0, 0, 0), pair(0, 1, 7, 8)]);
    assert!(!append_newline(&name, false, &none, &mut out));
    assert_eq!(written(&out), "{\n");
    assert!(append_newline(&name, true, &none, &mut out));
    assert_eq!(written(&out), "{\n\n");
    let paren = vec![Context::Paren];
    assert!(!append_newline(&semi, false, &paren, &mut out));
    assert!(append_newline(&semi, false, &none, &mut out));
    assert_eq!(written(&out), "{\n\n\n");
    assert_eq!(
        out.mappings,
        vec![pair(0, 0, 0, 0), pair(0, 1, 7, 8), pair(1, 0, 9, 1), pair(2, 0, 9, 2)]
    );
}

#[test]
fn comment_with_what_follows_it() {
    let line = comment(CommentKind::Single, "// c", " c", 0, 0);
    let block = comment(CommentKind::Multi, "/* c */", " c ", 0, 0);
    let near = ident("x", 0, 9);
    let far = ident("x", 1, 0);

    let mut out = Writer::new();
    assert!(add_comment(&line, Some(&near), 1, &mut out));
    assert_eq!(written(&out), "  // c\n");
    assert_eq!(out.mappings, vec![pair(0, 0, 0, 0)]);

    let mut out = Writer::new();
    assert!(add_comment(&line, None, 0, &mut out));
    assert_eq!(written(&out), "// c\n");

    let mut out = Writer::new();
    assert!(!add_comment(&block, Some(&near), 0, &mut out));
    assert_eq!(written(&out), "/* c */ ");

    let mut out = Writer::new();
    assert!(add_comment(&block, Some(&far), 2, &mut out));
    assert_eq!(written(&out), "    /* c     */\n");
    assert_eq!(out.mappings, vec![pair(0, 0, 0, 0), pair(0, 9, 0, 0)]);

    let mut out = Writer::new();
    assert!(!add_comment(&block, None, 0, &mut out));
    assert_eq!(written(&out), "/* c */ ");
}

#[test]
fn empty_block_comment() {
    let block = comment(CommentKind::Multi, "/**/", "", 0, 0);
    let mut out = Writer::new();
    assert!(!add_comment(&block, None, 0, &mut out));
    assert_eq!(written(&out), "/**/ ");
    assert_eq!(out.mappings, vec![pair(0, 0, 0, 0)]);
}

#[test]
fn layout_step_by_step() {
    let tokens = vec![
        keyword(Keyword::Switch, "switch", 0, 0),
        punct(Punct::OpenParen, "(", 0, 6),
        ident("x", 0, 7),
        punct(Punct::CloseParen, ")", 0, 8),
        punct(Punct::OpenBrace, "{", 0, 9),
        keyword(Keyword::Case, "case", 0, 10),
        token(TokenKind::Number, "1", 0, 15),
        punct(Punct::Colon, ":", 0, 16),
        ident("a", 0, 17),
        punct(Punct::CloseBrace, "}", 0, 18),
    ];
    let end = token(TokenKind::EoF, "", 0, 19);
    let late = ident("b", 0, 20);
    let levels = [1, 1, 1, 1, 2, 2, 2, 2, 2, 0];
    let depths = [1, 2, 2, 1, 2, 3, 3, 2, 2, 0];
    let mut layout = Layout::new();
    for (i, token) in tokens.iter().enumerate() {
        layout.step(token, tokens.get(i + 1));
        assert_eq!(layout.indent_level, levels[i], "after {:?}", token.text);
        assert_eq!(layout.stack.len(), depths[i], "after {:?}", token.text);
        assert_eq!(layout.last_token, Some(token));
        assert!(!layout.finished);
    }
    assert_eq!(layout.out.buffer, "switch (x) {\n  case 1:\n    a\n}");
    layout.step(&end, None);
    assert!(layout.finished);
    layout.step(&late, None);
    assert_eq!(layout.out.buffer, "switch (x) {\n  case 1:\n    a\n}");
    let (text, mappings) = layout.finish();
    assert_eq!(text, "switch (x) {\n  case 1:\n    a\n}\n");
    assert_eq!(mappings.len(), 18);
}

#[test]
fn balanced_braces_end_at_level_zero() {
    for source in ["{}", "{{}}", "{}{}", "{{}{}}{}", "{{{{}}}}"] {
        let tokens: Vec<Token> = source
            .chars()
            .enumerate()
            .map(|(i, c)| match c {
                '{' => punct(Punct::OpenBrace, "{", 0, i as u32),
                _ => punct(Punct::CloseBrace, "}", 0, i as u32),
            })
            .collect();
        let mut layout = Layout::new();
        let mut depth = 0;
        for (i, token) in tokens.iter().enumerate() {
            layout.step(token, tokens.get(i + 1));
            depth += if token.text == "{" { 1 } else { -1 };
            assert_eq!(layout.indent_level as i32, depth);
        }
        assert_eq!(layout.indent_level, 0);
        assert!(layout.stack.is_empty());
    }
}

#[test]
fn braces_stand_at_two_spaces_a_level() {
    let tokens: Vec<Token> = "{{}{}}"
        .chars()
        .enumerate()
        .map(|(i, c)| match c {
            '{' => punct(Punct::OpenBrace, "{", 0, i as u32),
            _ => punct(Punct::CloseBrace, "}", 0, i as u32),
        })
        .collect();
    let (text, mappings) = format_tokens(&tokens);
    assert_eq!(text, "{\n  {\n  }\n  {\n  }\n}\n");
    let places: Vec<SourceCoord> = mappings.iter().map(|m| m.from).collect();
    assert_eq!(
        places,
        vec![
            coord(0, 0),
            coord(0, 1),
            coord(1, 0),
            coord(1, 2),
            coord(1, 3),
            coord(2, 0),
            coord(2, 2),
            coord(2, 3),
            coord(3, 0),
            coord(3, 2),
            coord(3, 3),
            coord(4, 0),
            coord(4, 2),
            coord(4, 3),
            coord(5, 0)
        ]
    );
}

//! What holds of every layout, proved from the definitions.

use crate::prettyprint::{
    anchor, block_text, block_written, closed, comment_at, comment_breaks, comment_follows,
    comment_written, formatted, gapped, layout_after, lead_of, leading, next_of,
    nothing_formatted, Gap, LayoutView, Lead,
};
use crate::rules::{ends_line, opened_context, top, Context};
use crate::scanner::source_tokens;
use crate::source_map_generator::{SourceCoord, SourceMapping};
use crate::token::{all_lexemes, Punct, TokenKind, TokenView};
use crate::writer::{ascending, lemma_write_wf, spaces, WriterView, INDENT_UNIT};
use vstd::prelude::*;

verus! {

/// Formatting is a function of the text alone: whatever two runs over the
/// same text return is the same text and the same correspondences.
pub proof fn lemma_same_text_same_result(
    source: Seq<char>,
    first: (Seq<char>, Seq<SourceMapping>),
    second: (Seq<char>, Seq<SourceMapping>),
)
    requires
        first == formatted(source_tokens(source)),
        second == formatted(source_tokens(source)),
    ensures
        first == second,
{
}

/// No tokens are laid out as one line feed, with the one correspondence
/// between the beginning of the text and the beginning of the input.
pub proof fn lemma_nothing_formatted()
    ensures
        formatted(Seq::empty()) == nothing_formatted(),
{
    let state = layout_after(Seq::empty(), 0);
    assert(state == LayoutView::new());
    let text = formatted(Seq::empty()).0;
    let pairs = formatted(Seq::empty()).1;
    assert(text =~= nothing_formatted().0);
    assert(pairs =~= nothing_formatted().1);
}

/// A gap adds its text to the text, and keeps the writer well formed.
pub proof fn lemma_gapped(out: WriterView, gap: Gap, from: SourceCoord)
    ensures
        gapped(out, gap, from).buffer == out.buffer + gap.text(),
        out.wf() ==> gapped(out, gap, from).wf(),
{
    if out.wf() {
        lemma_write_wf(out, gap.text(), from, 0);
    }
    assert(out.buffer + Seq::<char>::empty() =~= out.buffer);
}

/// The indentation adds its spaces to the text, and keeps the writer well
/// formed.
pub proof fn lemma_indented(out: WriterView, level: nat, from: SourceCoord)
    ensures
        out.write_indent(level, from).buffer == out.buffer + spaces(INDENT_UNIT as nat * level),
        out.wf() ==> out.write_indent(level, from).wf(),
{
    if out.wf() {
        lemma_write_wf(out, Seq::empty(), from, level);
    }
    if level == 0 {
        assert(out.buffer + spaces(0) =~= out.buffer);
    }
}

/// Writing without a coordinate adds the text, and keeps the writer well
/// formed.
pub proof fn lemma_written_new(out: WriterView, text: Seq<char>)
    ensures
        out.write_new(text).buffer == out.buffer + text,
        out.wf() ==> out.write_new(text).wf(),
{
    if out.wf() {
        lemma_write_wf(out, text, out.last_from, 0);
    }
}

/// The white space before a token adds its text to the text, and keeps the
/// writer well formed.
pub proof fn lemma_lead_written(
    lead: Lead,
    out: WriterView,
    last_start: SourceCoord,
    start: SourceCoord,
)
    ensures
        lead.written(out, last_start, start).buffer == out.buffer + lead.text(),
        out.wf() ==> lead.written(out, last_start, start).wf(),
{
    let a = gapped(out, lead.after_brace, last_start);
    let b = gapped(a, lead.before, last_start);
    let c = gapped(b, lead.forced, last_start);
    lemma_gapped(out, lead.after_brace, last_start);
    lemma_gapped(a, lead.before, last_start);
    lemma_gapped(b, lead.forced, last_start);
    let texts = lead.after_brace.text() + lead.before.text() + lead.forced.text();
    assert(c.buffer =~= out.buffer + texts);
    match lead.indent {
        Some(level) => {
            lemma_indented(c, level, start);
            assert(c.buffer + spaces(INDENT_UNIT as nat * level) =~= out.buffer + (texts + spaces(
                INDENT_UNIT as nat * level,
            )));
        },
        None => {
            if lead.space {
                lemma_gapped(c, Gap::Space, last_start);
                assert(c.buffer + seq![' '] =~= out.buffer + (texts + seq![' ']));
            } else {
                assert(c.buffer =~= out.buffer + (texts + Seq::<char>::empty()));
            }
        },
    }
}

/// The lines of a block comment add their text to the text, and keep the
/// writer well formed.
pub proof fn lemma_block_written(
    out: WriterView,
    lines: Seq<Seq<char>>,
    level: nat,
    from: SourceCoord,
)
    ensures
        block_written(out, lines, level, from).buffer == out.buffer + block_text(lines, level),
        out.wf() ==> block_written(out, lines, level, from).wf(),
    decreases lines.len(),
{
    if lines.len() == 0 {
        assert(out.buffer + Seq::<char>::empty() =~= out.buffer);
    } else if lines.len() == 1 {
        lemma_written_new(out, lines[0]);
    } else {
        lemma_block_written(out, lines.drop_last(), level, from);
        let a = block_written(out, lines.drop_last(), level, from);
        let b = a.write_new(seq!['\n']);
        let c = b.write_indent(level, from);
        let d = c.write_new(seq![' ', ' ']);
        lemma_written_new(a, seq!['\n']);
        lemma_indented(b, level, from);
        lemma_written_new(c, seq![' ', ' ']);
        lemma_written_new(d, lines.last());
        assert(d.write_new(lines.last()).buffer =~= out.buffer + block_text(lines, level));
    }
}

/// A comment adds its text to the text, with the line break or the space
/// behind it, and keeps the writer well formed.
pub proof fn lemma_comment_written(
    out: WriterView,
    token: TokenView,
    next: Option<TokenView>,
    level: nat,
)
    ensures
        comment_written(out, token, next, level).buffer == out.buffer + comment_at(
            token,
            next,
            level,
        ),
        out.wf() ==> comment_written(out, token, next, level).wf(),
{
    let indented = out.write_indent(level, token.start);
    lemma_indented(out, level, token.start);
    let end = if comment_breaks(token, next) {
        seq!['\n']
    } else {
        seq![' ']
    };
    match token.kind {
        TokenKind::Comment(crate::token::CommentKind::Single) | TokenKind::Comment(
            crate::token::CommentKind::Hashbang,
        ) => {
            let body = indented.write_new(token.text);
            lemma_written_new(indented, token.text);
            lemma_written_new(body, end);
            assert(body.write_new(end).buffer =~= out.buffer + comment_at(token, next, level));
        },
        _ => {
            let lines = crate::text::split_lines(token.content);
            let opened = indented.write_new(seq!['/', '*']);
            lemma_written_new(indented, seq!['/', '*']);
            let block = block_written(opened, lines, level, token.start);
            lemma_block_written(opened, lines, level, token.start);
            let again = block.write_indent(level, token.start);
            lemma_indented(block, level, token.start);
            let body = again.write_new(seq!['*', '/']);
            lemma_written_new(again, seq!['*', '/']);
            lemma_written_new(body, end);
            assert(body.write_new(end).buffer =~= out.buffer + comment_at(token, next, level));
        },
    }
}

/// What a token adds to the text: the white space before it, its text, and a
/// line feed if the line ends after it. It keeps the writer well formed.
pub proof fn lemma_token_written(state: LayoutView, token: TokenView, next: Option<TokenView>)
    ensures
        ({
            let entered = state.enter(token.kind, state.array_literal(token));
            let lead = leading(
                token,
                entered.last_token,
                top(entered.stack),
                entered.added_newline,
                entered.added_space,
                entered.indent_level,
            );
            let ends = !comment_follows(token, next) && ends_line(
                token.kind,
                state.array_literal(token),
                top(entered.stack),
            );
            &&& state.token(token, next).out.buffer == state.out.buffer + lead + token.text + if ends {
                seq!['\n']
            } else {
                Seq::<char>::empty()
            }
            &&& state.token(token, next).added_newline == if comment_follows(token, next) {
                state.added_newline
            } else {
                ends
            }
            &&& state.out.wf() ==> state.token(token, next).out.wf()
        }),
{
    let array_literal = state.array_literal(token);
    let entered = state.enter(token.kind, array_literal);
    let lead = lead_of(
        token,
        entered.last_token,
        top(entered.stack),
        entered.added_newline,
        entered.added_space,
        entered.indent_level,
    );
    let from = anchor(entered.last_token, entered.out);
    let led = lead.written(entered.out, from, token.start);
    lemma_lead_written(lead, entered.out, from, token.start);
    let written = led.write(token.text, token.start);
    lemma_gapped(written, Gap::Break, token.start);
    if state.out.wf() {
        lemma_write_wf(led, token.text, token.start, 0);
    }
    let emitted = entered.emit(token, next, array_literal);
    assert(state.token(token, next).out == emitted.out);
    assert(written.buffer + Seq::<char>::empty() =~= written.buffer);
}

/// What a comment adds to the text: a space if it stays on the line of the
/// token before, and the comment with what follows it. It keeps the writer
/// well formed.
pub proof fn lemma_comment_step_written(
    state: LayoutView,
    token: TokenView,
    next: Option<TokenView>,
)
    ensures
        state.comment(token, next).out.buffer == state.out.buffer + if state.comment_attached(
            token,
        ) {
            seq![' '] + comment_at(token, next, 0)
        } else {
            comment_at(token, next, state.indent_level)
        },
        state.out.wf() ==> state.comment(token, next).out.wf(),
{
    if state.comment_attached(token) {
        let spaced = state.out.write_new(seq![' ']);
        lemma_written_new(state.out, seq![' ']);
        lemma_comment_written(spaced, token, next, 0);
        assert(spaced.buffer + comment_at(token, next, 0) =~= state.out.buffer + (seq![' ']
            + comment_at(token, next, 0)));
    } else {
        lemma_comment_written(state.out, token, next, state.indent_level);
    }
}

/// Each step of the layout keeps the writer well formed.
pub proof fn lemma_step_wf(state: LayoutView, token: TokenView, next: Option<TokenView>)
    requires
        state.out.wf(),
    ensures
        state.step(token, next).out.wf(),
{
    if !state.finished {
        match token.kind {
            TokenKind::Comment(_) => {
                lemma_comment_step_written(state, token, next);
            },
            TokenKind::EoF => {},
            _ => {
                lemma_token_written(state, token, next);
            },
        }
    }
}

/// The writer is well formed after any number of tokens.
pub proof fn lemma_layout_wf(tokens: Seq<TokenView>, n: nat)
    ensures
        layout_after(tokens, n).out.wf(),
    decreases n,
{
    if n > 0 {
        lemma_layout_wf(tokens, (n - 1) as nat);
        lemma_step_wf(layout_after(tokens, (n - 1) as nat), tokens[n - 1], next_of(tokens, n - 1));
    }
}

/// The correspondences that formatting gives are in the order of the
/// formatted text: their places in that text never go backwards.
pub proof fn lemma_formatted_ascending(tokens: Seq<TokenView>)
    ensures
        ascending(formatted(tokens).1),
{
    lemma_layout_wf(tokens, tokens.len());
    let last = layout_after(tokens, tokens.len());
    lemma_write_wf(last.out, seq!['\n'], last.out.last_from, 0);
}

/// Whether `text` ends with a line feed.
pub open spec fn ends_with_line_feed(text: Seq<char>) -> bool {
    text.len() > 0 && text.last() == '\n'
}

/// Whether `text` ends with one line feed and not with two.
pub open spec fn ends_with_one_line_feed(text: Seq<char>) -> bool {
    ends_with_line_feed(text) && (text.len() >= 2 ==> text[text.len() - 2] != '\n')
}

/// Whether a comment follows the first `n` of `tokens` while the layout is
/// still going on. Only then may `added_newline` say something else than how
/// the text ends: the comment's own step sets it anew.
pub open spec fn comment_pending(tokens: Seq<TokenView>, n: nat) -> bool {
    n < tokens.len() && tokens[n as int].kind is Comment && !layout_after(tokens, n).finished
}

/// Whenever the layout notes that a line break was written last, the text
/// ends with one, unless a comment is about to be laid out.
pub proof fn lemma_added_newline(tokens: Seq<TokenView>, n: nat)
    requires
        n <= tokens.len(),
    ensures
        comment_pending(tokens, n) || (layout_after(tokens, n).added_newline
            ==> ends_with_line_feed(layout_after(tokens, n).out.buffer)),
    decreases n,
{
    if n > 0 {
        lemma_added_newline(tokens, (n - 1) as nat);
        let before = layout_after(tokens, (n - 1) as nat);
        let token = tokens[n - 1];
        let next = next_of(tokens, n - 1);
        if !before.finished && token.kind is Comment {
            lemma_comment_step_written(before, token, next);
        } else if !before.finished && !(token.kind is EoF) {
            lemma_token_written(before, token, next);
        }
    }
}

/// The formatted text ends with a line feed, whatever the tokens are.
pub proof fn lemma_formatted_ends_with_line_feed(tokens: Seq<TokenView>)
    ensures
        ends_with_line_feed(formatted(tokens).0),
{
    lemma_added_newline(tokens, tokens.len());
}

/// Whether `text` is empty or ends with something else than a line feed.
pub open spec fn line_is_open(text: Seq<char>) -> bool {
    text.len() == 0 || text.last() != '\n'
}

/// What the layout knows of the end of the text: if it notes a line break,
/// the text ends with exactly one; if it notes none, the text ends with none.
pub open spec fn end_is_known(state: LayoutView) -> bool {
    if state.added_newline {
        ends_with_one_line_feed(state.out.buffer)
    } else {
        line_is_open(state.out.buffer)
    }
}

/// A comment, with what follows it, ends with exactly one line feed or with a
/// space.
pub proof fn lemma_comment_end(token: TokenView, next: Option<TokenView>, level: nat)
    requires
        token.kind is Comment,
        token.is_lexeme(),
    ensures
        comment_at(token, next, level).len() >= 2,
        comment_breaks(token, next) ==> ends_with_one_line_feed(comment_at(token, next, level)),
        !comment_breaks(token, next) ==> comment_at(token, next, level).last() == ' ',
{
}

/// After a comment that is a lexeme, the layout knows how the text ends.
pub proof fn lemma_comment_step_end(state: LayoutView, token: TokenView, next: Option<TokenView>)
    requires
        token.kind is Comment,
        token.is_lexeme(),
    ensures
        end_is_known(state.comment(token, next)),
{
    lemma_comment_end(token, next, 0);
    lemma_comment_end(token, next, state.indent_level);
    lemma_comment_step_written(state, token, next);
}

/// After a token that is a lexeme, the text ends with that token or with the
/// line feed after it, and the layout knows which, unless a comment follows
/// on the same line.
pub proof fn lemma_token_step_end(state: LayoutView, token: TokenView, next: Option<TokenView>)
    requires
        !(token.kind is Comment),
        !(token.kind is EoF),
        token.is_lexeme(),
    ensures
        !comment_follows(token, next) ==> end_is_known(state.token(token, next)),
        comment_follows(token, next) ==> !ends_with_line_feed(
            state.token(token, next).out.buffer,
        ),
{
    lemma_token_written(state, token, next);
}

/// Among tokens that are lexemes, the layout always knows how the text ends,
/// unless a comment is about to be laid out: then the text ends with the
/// token before the comment.
pub proof fn lemma_end_is_known(tokens: Seq<TokenView>, n: nat)
    requires
        n <= tokens.len(),
        all_lexemes(tokens),
    ensures
        end_is_known(layout_after(tokens, n)) || (comment_pending(tokens, n)
            && !ends_with_line_feed(layout_after(tokens, n).out.buffer)),
    decreases n,
{
    if n > 0 {
        lemma_end_is_known(tokens, (n - 1) as nat);
        let before = layout_after(tokens, (n - 1) as nat);
        let token = tokens[n - 1];
        let next = next_of(tokens, n - 1);
        if !before.finished && token.kind is Comment {
            lemma_comment_step_end(before, token, next);
        } else if !before.finished && !(token.kind is EoF) {
            lemma_token_step_end(before, token, next);
        }
    }
}

/// If every token is a lexeme, the formatted text ends with exactly one line
/// feed.
pub proof fn lemma_formatted_ends_with_one_line_feed(tokens: Seq<TokenView>)
    requires
        all_lexemes(tokens),
    ensures
        ends_with_one_line_feed(formatted(tokens).0),
{
    lemma_end_is_known(tokens, tokens.len());
}

/// Whether `token` is a `{`.
pub open spec fn is_open_brace(token: TokenView) -> bool {
    token.kind == TokenKind::Punct(Punct::OpenBrace)
}

/// Whether `token` is a `}`.
pub open spec fn is_close_brace(token: TokenView) -> bool {
    token.kind == TokenKind::Punct(Punct::CloseBrace)
}

/// Whether `token` is a name.
pub open spec fn is_name(token: TokenView) -> bool {
    token.kind == TokenKind::Ident
}

/// Whether `token` is a `;`.
pub open spec fn is_semicolon(token: TokenView) -> bool {
    token.kind == TokenKind::Punct(Punct::SemiColon)
}

/// How many of the first `n` of `tokens` are `{`, less how many are `}`.
pub open spec fn brace_depth(tokens: Seq<TokenView>, n: nat) -> int
    decreases n,
{
    if n == 0 {
        0
    } else {
        brace_depth(tokens, (n - 1) as nat) + if is_open_brace(tokens[n - 1]) {
            1int
        } else if is_close_brace(tokens[n - 1]) {
            -1int
        } else {
            0int
        }
    }
}

/// How many of `tokens` stand before the end of the input: all of them, or
/// all but the last if that is the end of the input.
pub open spec fn body_len(tokens: Seq<TokenView>) -> nat {
    if tokens.len() > 0 && tokens.last().kind is EoF {
        (tokens.len() - 1) as nat
    } else {
        tokens.len()
    }
}

/// Whether `tokens` are nested blocks of the simplest statements, with or
/// without the end of the input behind them: each token is a `{`, a `}`, or
/// belongs to a statement that is a name and, on the same line, a `;`; and no
/// `}` comes before its `{`.
pub open spec fn blocks_nest(tokens: Seq<TokenView>) -> bool {
    &&& forall|i: int|
        0 <= i < body_len(tokens) ==> {
            let token = #[trigger] tokens[i];
            &&& is_block_token(token)
            &&& is_name(token) ==> i + 1 < body_len(tokens) && is_semicolon(tokens[i + 1])
                && tokens[i + 1].start.line == token.start.line
            &&& is_semicolon(token) ==> i >= 1 && is_name(tokens[i - 1])
        }
    &&& forall|n: nat| n <= body_len(tokens) ==> #[trigger] brace_depth(tokens, n) >= 0
}

/// Whether `tokens` are braces alone, with or without the end of the input
/// behind them, and no `}` comes before its `{`.
pub open spec fn braces_nest(tokens: Seq<TokenView>) -> bool {
    &&& forall|i: int|
        0 <= i < body_len(tokens) ==> is_open_brace(#[trigger] tokens[i]) || is_close_brace(
            tokens[i],
        )
    &&& forall|n: nat| n <= body_len(tokens) ==> #[trigger] brace_depth(tokens, n) >= 0
}

/// Whether all of `stack` are open braces.
pub open spec fn all_braces(stack: Seq<Context>) -> bool {
    forall|i: int| 0 <= i < stack.len() ==> #[trigger] stack[i] == Context::Brace
}

/// The level at which `tokens[k]` stands: a `}` stands at the level of its
/// `{`, everything else at the level of what surrounds it.
pub open spec fn block_level(tokens: Seq<TokenView>, k: int) -> nat {
    if is_close_brace(tokens[k]) {
        brace_depth(tokens, (k + 1) as nat) as nat
    } else {
        brace_depth(tokens, k as nat) as nat
    }
}

/// `token` as it stands in the text of nested blocks: a brace on a line of
/// its own, a name at the start of a line, and a `;` at its end; what begins
/// a line is indented by two spaces for each of `level` levels.
pub open spec fn block_piece(token: TokenView, level: nat) -> Seq<char> {
    let indent = if is_semicolon(token) {
        Seq::empty()
    } else {
        spaces(INDENT_UNIT as nat * level)
    };
    let end = if is_name(token) {
        Seq::empty()
    } else {
        seq!['\n']
    };
    indent + token.text + end
}

/// The first `n` of `tokens` as text: each brace and each statement on a line
/// of its own, indented by two spaces for each level.
pub open spec fn block_lines(tokens: Seq<TokenView>, n: nat) -> Seq<char>
    decreases n,
{
    if n == 0 {
        Seq::empty()
    } else {
        block_lines(tokens, (n - 1) as nat) + block_piece(
            tokens[n - 1],
            block_level(tokens, n - 1),
        )
    }
}

/// Whether `token` is one of the tokens that nested blocks are made of.
pub open spec fn is_block_token(token: TokenView) -> bool {
    is_open_brace(token) || is_close_brace(token) || is_name(token) || is_semicolon(token)
}

/// What holds of the layout within nested blocks, when `last` was the last
/// token, `depth` braces are open and `lines` are the lines of the tokens so
/// far: the level of indentation and the number of open constructs are
/// `depth`, and the text is `lines`, short of the line feed after a `}`,
/// which is not written yet.
pub open spec fn block_state(
    state: LayoutView,
    last: Option<TokenView>,
    depth: int,
    lines: Seq<char>,
) -> bool {
    &&& state.indent_level == depth
    &&& state.stack.len() == depth
    &&& all_braces(state.stack)
    &&& !state.finished
    &&& !state.added_space
    &&& state.last_token == last
    &&& match last {
        None => depth == 0 && !state.added_newline && state.out.buffer == lines,
        Some(l) => {
            &&& is_block_token(l)
            &&& state.added_newline == (is_open_brace(l) || is_semicolon(l))
            &&& lines == if is_close_brace(l) {
                state.out.buffer + seq!['\n']
            } else {
                state.out.buffer
            }
        },
    }
}

/// The white space before a token of nested blocks: nothing before a `;`
/// that follows its name on the same line, and nothing before the first
/// token; else the indentation of the token, after a line break if the token
/// before was a `}`.
pub proof fn lemma_block_lead(
    token: TokenView,
    last: Option<TokenView>,
    innermost: Option<Context>,
    added_newline: bool,
    level: nat,
)
    requires
        is_block_token(token),
        innermost is None || innermost == Some(Context::Brace),
        last matches Some(l) ==> is_block_token(l) && added_newline == (is_open_brace(l)
            || is_semicolon(l)) && is_name(l) == is_semicolon(token) && (is_semicolon(token)
            ==> token.start.line == l.start.line),
        last is None ==> !added_newline && !is_semicolon(token) && !is_close_brace(token),
    ensures
        leading(token, last, innermost, added_newline, false, level) == match last {
            None => Seq::<char>::empty(),
            Some(l) => if is_semicolon(token) {
                Seq::<char>::empty()
            } else if is_close_brace(l) {
                seq!['\n'] + spaces(INDENT_UNIT as nat * level)
            } else {
                spaces(INDENT_UNIT as nat * level)
            },
        },
{
}

/// How a token of nested blocks is taken note of: a `{` is no array literal
/// and opens a block, and every token stands at its level.
pub proof fn lemma_block_enter(
    before: LayoutView,
    last: Option<TokenView>,
    depth: int,
    lines: Seq<char>,
    token: TokenView,
)
    requires
        block_state(before, last, depth, lines),
        is_block_token(token),
        is_close_brace(token) ==> depth >= 1,
    ensures
        !before.array_literal(token),
        ({
            let entered = before.enter(token.kind, false);
            &&& entered.indent_level == if is_close_brace(token) {
                depth - 1
            } else {
                depth
            }
            &&& entered.stack == if is_open_brace(token) {
                before.stack.push(Context::Brace)
            } else {
                before.stack
            }
            &&& top(entered.stack) is None || top(entered.stack) == Some(Context::Brace)
            &&& entered.out == before.out
            &&& entered.last_token == last
            &&& entered.added_newline == before.added_newline
            &&& !entered.added_space
            &&& !entered.finished
        }),
{
}

/// What a token of nested blocks leaves open: a `{` leaves its block open, a
/// `}` closes one.
pub proof fn lemma_block_leave(stack: Seq<Context>, token: TokenView)
    requires
        is_block_token(token),
        all_braces(stack),
        is_close_brace(token) ==> stack.len() >= 1,
    ensures
        ({
            let entered = match opened_context(token.kind, false) {
                Some(context) => stack.push(context),
                None => stack,
            };
            let left = closed(token.kind, entered);
            &&& all_braces(left)
            &&& left.len() == stack.len() + if is_open_brace(token) {
                1int
            } else if is_close_brace(token) {
                -1int
            } else {
                0int
            }
        }),
{
}

/// The level at which a token of nested blocks stands when `depth` braces
/// are open before it.
pub open spec fn level_of(token: TokenView, depth: int) -> nat {
    if is_close_brace(token) {
        (depth - 1) as nat
    } else {
        depth as nat
    }
}

/// What one token of nested blocks adds to the text: the text is then the
/// lines so far, short of the line feed after a `}`.
#[verifier::rlimit(60)]
pub proof fn lemma_block_text(
    before: LayoutView,
    last: Option<TokenView>,
    depth: int,
    lines: Seq<char>,
    token: TokenView,
    next: Option<TokenView>,
)
    requires
        block_state(before, last, depth, lines),
        is_block_token(token),
        next matches Some(t) ==> !(t.kind is Comment),
        last matches Some(l) ==> is_name(l) == is_semicolon(token) && (is_semicolon(token)
            ==> token.start.line == l.start.line),
        last is None ==> !is_semicolon(token) && !is_close_brace(token),
        is_close_brace(token) ==> depth >= 1,
    ensures
        before.token(token, next).added_newline == (is_open_brace(token) || is_semicolon(token)),
        lines + block_piece(token, level_of(token, depth)) == if is_close_brace(token) {
            before.token(token, next).out.buffer + seq!['\n']
        } else {
            before.token(token, next).out.buffer
        },
{
    let level = level_of(token, depth);
    lemma_block_enter(before, last, depth, lines, token);
    let entered = before.enter(token.kind, false);
    lemma_block_lead(token, last, top(entered.stack), before.added_newline, level);
    let lead = leading(token, last, top(entered.stack), before.added_newline, false, level);
    lemma_token_written(before, token, next);
    let ends = is_open_brace(token) || is_semicolon(token);
    let state = before.token(token, next);
    assert(!comment_follows(token, next));
    assert(ends_line(token.kind, false, top(entered.stack)) == ends);
    assert(state.out.buffer == before.out.buffer + lead + token.text + if ends {
        seq!['\n']
    } else {
        Seq::<char>::empty()
    });
    let indent = spaces(INDENT_UNIT as nat * level);
    assert(before.out.buffer + lead + token.text =~= match last {
        None => lines + (indent + token.text),
        Some(l) => if is_semicolon(token) {
            lines + token.text
        } else {
            lines + (indent + token.text)
        },
    });
    let piece = block_piece(token, level);
    if is_close_brace(token) {
        assert(lines + piece =~= state.out.buffer + seq!['\n']);
    } else {
        assert(lines + piece =~= state.out.buffer);
    }
}

/// One token of nested blocks keeps the layout as [`block_state`] says: the
/// depth changes with a brace, and the token is written as [`block_piece`]
/// says.
#[verifier::rlimit(60)]
pub proof fn lemma_block_step(
    before: LayoutView,
    last: Option<TokenView>,
    depth: int,
    lines: Seq<char>,
    token: TokenView,
    next: Option<TokenView>,
)
    requires
        block_state(before, last, depth, lines),
        is_block_token(token),
        next matches Some(t) ==> !(t.kind is Comment),
        last matches Some(l) ==> is_name(l) == is_semicolon(token) && (is_semicolon(token)
            ==> token.start.line == l.start.line),
        last is None ==> !is_semicolon(token) && !is_close_brace(token),
        is_close_brace(token) ==> depth >= 1,
    ensures
        ({
            let after = if is_open_brace(token) {
                depth + 1
            } else if is_close_brace(token) {
                depth - 1
            } else {
                depth
            };
            block_state(
                before.step(token, next),
                Some(token),
                after,
                lines + block_piece(token, level_of(token, depth)),
            )
        }),
{
    lemma_block_text(before, last, depth, lines, token, next);
    lemma_block_enter(before, last, depth, lines, token);
    lemma_block_leave(before.stack, token);
    let entered = before.enter(token.kind, false);
    let state = before.token(token, next);
    assert(before.step(token, next) == state);
    assert(state.stack == closed(token.kind, entered.stack));
    assert(state.last_token == Some(token));
    assert(!state.added_space);
    assert(!state.finished);
}

/// The last of the first `n` of `tokens`, if `n` is not 0.
pub open spec fn last_of(tokens: Seq<TokenView>, n: nat) -> Option<TokenView> {
    if n == 0 {
        None
    } else {
        Some(tokens[n - 1])
    }
}

/// Among nested blocks, after any number of tokens, the level of indentation
/// is the number of braces that are open, and the text is the lines of the
/// tokens so far.
#[verifier::rlimit(30)]
pub proof fn lemma_blocks_written(tokens: Seq<TokenView>, n: nat)
    requires
        blocks_nest(tokens),
        n <= body_len(tokens),
    ensures
        block_state(
            layout_after(tokens, n),
            last_of(tokens, n),
            brace_depth(tokens, n),
            block_lines(tokens, n),
        ),
    decreases n,
{
    if n > 0 {
        lemma_blocks_written(tokens, (n - 1) as nat);
        let token = tokens[n - 1];
        assert(is_block_token(token));
        assert(brace_depth(tokens, n) >= 0);
        assert(brace_depth(tokens, (n - 1) as nat) >= 0);
        if n >= 2 {
            assert(is_block_token(tokens[n - 2]));
        }
        if n < body_len(tokens) {
            assert(is_block_token(tokens[n as int]));
        }
        lemma_block_step(
            layout_after(tokens, (n - 1) as nat),
            last_of(tokens, (n - 1) as nat),
            brace_depth(tokens, (n - 1) as nat),
            block_lines(tokens, (n - 1) as nat),
            token,
            next_of(tokens, n - 1),
        );
    }
}

/// The end of the input behind them changes nothing of what the tokens
/// before it were laid out as.
pub proof fn lemma_body_laid_out(tokens: Seq<TokenView>)
    requires
        !layout_after(tokens, body_len(tokens)).finished,
    ensures
        layout_after(tokens, tokens.len()).finish() == layout_after(
            tokens,
            body_len(tokens),
        ).finish(),
        layout_after(tokens, tokens.len()).indent_level == layout_after(
            tokens,
            body_len(tokens),
        ).indent_level,
        layout_after(tokens, tokens.len()).stack == layout_after(tokens, body_len(tokens)).stack,
{
}

/// Nested blocks are written with each brace and each statement on a line of
/// its own, indented by two spaces for each level: what stands directly
/// inside a pair of braces begins two columns further right than the pair.
#[verifier::rlimit(30)]
pub proof fn lemma_blocks_formatted(tokens: Seq<TokenView>)
    requires
        blocks_nest(tokens),
        body_len(tokens) > 0,
    ensures
        formatted(tokens).0 == block_lines(tokens, body_len(tokens)),
{
    lemma_blocks_written(tokens, body_len(tokens));
    lemma_body_laid_out(tokens);
    assert(is_block_token(tokens[body_len(tokens) - 1]));
}

/// Braces alone are nested blocks.
pub proof fn lemma_braces_are_blocks(tokens: Seq<TokenView>)
    requires
        braces_nest(tokens),
    ensures
        blocks_nest(tokens),
{
    assert forall|i: int| 0 <= i < body_len(tokens) implies !is_name(#[trigger] tokens[i])
        && !is_semicolon(tokens[i]) by {
    }
}

/// After braces that nest and are all closed again, the level of indentation
/// is 0 and no construct is open.
pub proof fn lemma_balanced_braces_level(tokens: Seq<TokenView>)
    requires
        braces_nest(tokens),
        brace_depth(tokens, body_len(tokens)) == 0,
    ensures
        layout_after(tokens, tokens.len()).indent_level == 0,
        layout_after(tokens, tokens.len()).stack.len() == 0,
{
    lemma_braces_are_blocks(tokens);
    lemma_blocks_written(tokens, body_len(tokens));
    lemma_body_laid_out(tokens);
}

/// Braces that nest are written each on a line of its own, indented by two
/// spaces for each level.
pub proof fn lemma_braces_formatted(tokens: Seq<TokenView>)
    requires
        braces_nest(tokens),
        body_len(tokens) > 0,
    ensures
        formatted(tokens).0 == block_lines(tokens, body_len(tokens)),
{
    lemma_braces_are_blocks(tokens);
    lemma_blocks_formatted(tokens);
}

} // verus!

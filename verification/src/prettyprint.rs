//! The layout engine: one pass over the tokens that decides, for each of them,
//! what white space goes before it and whether the line ends after it.

use crate::laws::{
    block_lines, blocks_nest, body_len, ends_with_line_feed, ends_with_one_line_feed,
    lemma_blocks_formatted, lemma_formatted_ascending, lemma_formatted_ends_with_line_feed,
    lemma_formatted_ends_with_one_line_feed, lemma_nothing_formatted,
};
use crate::rules::{
    closes_context, closes_indent, context_of, continues_after, continues_before, decrements_indent,
    ends_line, increments_indent, is_line_delimiter, need_space_after, opened_context,
    opens_array_literal, opens_indent, prevent_asi_after_token, prevent_asi_before_token,
    should_pop_stack, space_between, starts_array_literal, top, top_token, Context,
};
use crate::scanner::{is_read, source_tokens, tokenize, try_tokenize};
use crate::source_map_generator::{SourceCoord, SourceMapColumn, SourceMapLine, SourceMapping};
use crate::text::{line_views, lines, split_lines};
use crate::token::{all_lexemes, CommentKind, Keyword, Punct, Token, TokenKind, TokenView};
use crate::writer::{ascending, spaces, Writer, WriterView, INDENT_UNIT};
use vstd::prelude::*;

verus! {

/// What may be put between two tokens.
#[derive(Clone, Copy, Debug, PartialEq, Eq, Structural)]
pub enum Gap {
    Nothing,
    Space,
    Break,
}

impl Gap {
    /// The text of the gap: nothing, one space, or one line feed.
    pub open spec fn text(self) -> Seq<char> {
        match self {
            Gap::Nothing => Seq::empty(),
            Gap::Space => seq![' '],
            Gap::Break => seq!['\n'],
        }
    }
}

/// The value of a token that may be absent.
pub open spec fn view_of(token: Option<&Token>) -> Option<TokenView> {
    match token {
        Some(t) => Some(t@),
        None => None,
    }
}

/// The category of a token that may be absent.
pub open spec fn kind_of_last(last: Option<TokenView>) -> Option<TokenKind> {
    match last {
        Some(l) => Some(l.kind),
        None => None,
    }
}

/// One level less, but not below zero.
pub open spec fn shallower(level: nat) -> nat {
    if level == 0 {
        0
    } else {
        (level - 1) as nat
    }
}

/// Whether `token` must begin a line of its own so that no statement is joined
/// to the one before: it stood on another line than `last` in the input, and
/// either `last` is `return` or `yield`, or neither does `last` ask for more
/// nor does `token` attach to what came before.
pub open spec fn starts_statement(token: TokenView, last: Option<TokenView>) -> bool {
    match last {
        None => false,
        Some(l) => token.start.line != l.start.line && (l.kind == TokenKind::Keyword(
            Keyword::Return,
        ) || l.kind == TokenKind::Keyword(Keyword::Yield) || (!continues_after(l.kind)
            && !continues_before(token.kind))),
    }
}

/// What follows a `}` when a token of category `kind` comes next: a space
/// before the `while` of a `do` and before `else`, `catch` and `finally`;
/// nothing before `(`, `;`, `,`, `)`, `.` and a template; else a line break.
pub open spec fn gap_after_brace(kind: TokenKind, innermost: Option<Context>) -> Gap {
    match kind {
        TokenKind::Keyword(Keyword::While) => if innermost == Some(Context::Do) {
            Gap::Space
        } else {
            Gap::Break
        },
        TokenKind::Keyword(Keyword::Else) | TokenKind::Keyword(Keyword::Catch)
        | TokenKind::Keyword(Keyword::Finally) => Gap::Space,
        TokenKind::Punct(Punct::OpenParen) | TokenKind::Punct(Punct::SemiColon)
        | TokenKind::Punct(Punct::Comma) | TokenKind::Punct(Punct::CloseParen)
        | TokenKind::Punct(Punct::Period) | TokenKind::Template => Gap::Nothing,
        _ => Gap::Break,
    }
}

/// The space that two tokens ask for by themselves: before the `:` of a
/// ternary, and before an `else` that follows neither `}` nor `.`.
pub open spec fn gap_before(kind: TokenKind, last: Option<TokenKind>, innermost: Option<Context>) -> Gap {
    match kind {
        TokenKind::Punct(Punct::Colon) => if innermost == Some(Context::Ternary) {
            Gap::Space
        } else {
            Gap::Nothing
        },
        TokenKind::Keyword(Keyword::Else) => match last {
            Some(l) => if l == TokenKind::Punct(Punct::CloseBrace) || l == TokenKind::Punct(
                Punct::Period,
            ) {
                Gap::Nothing
            } else {
                Gap::Space
            },
            None => Gap::Nothing,
        },
        _ => Gap::Nothing,
    }
}

/// The level at which a token is indented when it begins a line: `case` and
/// `default` stand one level less deep than the statements under them.
pub open spec fn label_level(kind: TokenKind, indent_level: nat) -> nat {
    if kind == TokenKind::Keyword(Keyword::Case) || kind == TokenKind::Keyword(Keyword::Default) {
        shallower(indent_level)
    } else {
        indent_level
    }
}

/// The input coordinate that inserted spaces and line breaks are recorded
/// against: the start of the token before, or, where there is none, the last
/// coordinate that the writer knows.
pub open spec fn anchor(last: Option<TokenView>, out: WriterView) -> SourceCoord {
    match last {
        Some(l) => l.start,
        None => out.last_from,
    }
}

/// The writer after `gap` is written as text that stems from `from`. Nothing
/// is written, and nothing recorded, for no gap.
pub open spec fn gapped(out: WriterView, gap: Gap, from: SourceCoord) -> WriterView {
    if gap == Gap::Nothing {
        out
    } else {
        out.write(gap.text(), from)
    }
}

/// The white space that goes before a token, piece by piece, in the order in
/// which it is written.
pub struct Lead {
    /// What a `}` before the token asks for.
    pub after_brace: Gap,
    /// The space that the two tokens ask for by themselves.
    pub before: Gap,
    /// The line break that keeps statements apart or precedes a token that
    /// closes an indentation.
    pub forced: Gap,
    /// The level of the indentation, if the token begins a line.
    pub indent: Option<nat>,
    /// Whether a space follows, where the token begins no line.
    pub space: bool,
}

impl Lead {
    /// The white space as text.
    pub open spec fn text(self) -> Seq<char> {
        self.after_brace.text() + self.before.text() + self.forced.text() + match self.indent {
            Some(level) => spaces(INDENT_UNIT as nat * level),
            None => if self.space {
                seq![' ']
            } else {
                Seq::empty()
            },
        }
    }

    /// The writer after the white space is written. Each space and each line
    /// break is one write that stems from `last_start`, the start of the
    /// token before; the indentation is one write that stems from `start`,
    /// the start of the token itself.
    pub open spec fn written(
        self,
        out: WriterView,
        last_start: SourceCoord,
        start: SourceCoord,
    ) -> WriterView {
        let gaps = gapped(
            gapped(gapped(out, self.after_brace, last_start), self.before, last_start),
            self.forced,
            last_start,
        );
        match self.indent {
            Some(level) => gaps.write_indent(level, start),
            None => if self.space {
                gaps.write(seq![' '], last_start)
            } else {
                gaps
            },
        }
    }
}

/// The white space that goes before `token`.
///
/// `last` is the token before it, comments aside; `innermost` the innermost
/// open construct; `added_newline` and `added_space` say whether a line break
/// or a space has been written since `last`; `indent_level` is the level at
/// which `token` stands.
pub open spec fn lead_of(
    token: TokenView,
    last: Option<TokenView>,
    innermost: Option<Context>,
    added_newline: bool,
    added_space: bool,
    indent_level: nat,
) -> Lead {
    let last_kind = kind_of_last(last);
    let after_brace = if last_kind == Some(TokenKind::Punct(Punct::CloseBrace)) {
        gap_after_brace(token.kind, innermost)
    } else {
        Gap::Nothing
    };
    let before = gap_before(token.kind, last_kind, innermost);
    let broken = added_newline || after_brace == Gap::Break;
    let spaced = added_space || after_brace == Gap::Space || before == Gap::Space;
    let forced = if (starts_statement(token, last) || closes_indent(token.kind, innermost))
        && !broken {
        Gap::Break
    } else {
        Gap::Nothing
    };
    Lead {
        after_brace,
        before,
        forced,
        indent: if broken || forced == Gap::Break {
            Some(label_level(token.kind, indent_level))
        } else {
            None
        },
        space: !spaced && space_between(token.kind, last_kind),
    }
}

/// The white space that goes before `token`, as text.
pub open spec fn leading(
    token: TokenView,
    last: Option<TokenView>,
    innermost: Option<Context>,
    added_newline: bool,
    added_space: bool,
    indent_level: nat,
) -> Seq<char> {
    lead_of(token, last, innermost, added_newline, added_space, indent_level).text()
}

/// The lines of a block comment, each but the first on a line of its own,
/// indented by `level` levels and two more spaces.
pub open spec fn block_text(lines: Seq<Seq<char>>, level: nat) -> Seq<char>
    decreases lines.len(),
{
    if lines.len() == 0 {
        Seq::empty()
    } else if lines.len() == 1 {
        lines[0]
    } else {
        block_text(lines.drop_last(), level) + seq!['\n'] + spaces(INDENT_UNIT as nat * level)
            + seq![' ', ' '] + lines.last()
    }
}

/// A comment as it is written. A line comment or a hashbang is written as it
/// stood. A block comment or an HTML comment is written between `/*` and `*/`,
/// its lines indented anew, and `*/` preceded by the indentation.
pub open spec fn comment_text(token: TokenView, level: nat) -> Seq<char> {
    match token.kind {
        TokenKind::Comment(CommentKind::Single) | TokenKind::Comment(CommentKind::Hashbang) => {
            token.text
        },
        _ => seq!['/', '*'] + block_text(split_lines(token.content), level) + spaces(
            INDENT_UNIT as nat * level,
        ) + seq!['*', '/'],
    }
}

/// Whether the line ends after the comment `token`: always after a line
/// comment or a hashbang; after a block or HTML comment only if the next token
/// began on another line than the comment.
pub open spec fn comment_breaks(token: TokenView, next: Option<TokenView>) -> bool {
    match token.kind {
        TokenKind::Comment(CommentKind::Single) | TokenKind::Comment(CommentKind::Hashbang) => true,
        _ => match next {
            Some(n) => n.start.line != token.start.line,
            None => false,
        },
    }
}

/// A comment at `level`, with what follows it: a line break or a space.
pub open spec fn comment_at(token: TokenView, next: Option<TokenView>, level: nat) -> Seq<char> {
    spaces(INDENT_UNIT as nat * level) + comment_text(token, level) + if comment_breaks(
        token,
        next,
    ) {
        seq!['\n']
    } else {
        seq![' ']
    }
}

/// The writer after the lines of a block comment are written: each line but
/// the first on a line of its own, behind the indentation of `level` levels,
/// which is a write that stems from `from`, and two more spaces.
pub open spec fn block_written(
    out: WriterView,
    lines: Seq<Seq<char>>,
    level: nat,
    from: SourceCoord,
) -> WriterView
    decreases lines.len(),
{
    if lines.len() == 0 {
        out
    } else if lines.len() == 1 {
        out.write_new(lines[0])
    } else {
        block_written(out, lines.drop_last(), level, from).write_new(seq!['\n']).write_indent(
            level,
            from,
        ).write_new(seq![' ', ' ']).write_new(lines.last())
    }
}

/// The writer after the comment `token` is written at `level`, with the line
/// break or the space that follows it. The indentation, wherever it stands, is
/// a write that stems from the start of the comment; for the rest no
/// coordinate is given.
pub open spec fn comment_written(
    out: WriterView,
    token: TokenView,
    next: Option<TokenView>,
    level: nat,
) -> WriterView {
    let indented = out.write_indent(level, token.start);
    let body = match token.kind {
        TokenKind::Comment(CommentKind::Single) | TokenKind::Comment(CommentKind::Hashbang) => {
            indented.write_new(token.text)
        },
        _ => block_written(
            indented.write_new(seq!['/', '*']),
            split_lines(token.content),
            level,
            token.start,
        ).write_indent(level, token.start).write_new(seq!['*', '/']),
    };
    body.write_new(
        if comment_breaks(token, next) {
            seq!['\n']
        } else {
            seq![' ']
        },
    )
}

/// Whether `next` is a comment that began on the line on which `token` ended.
/// Such a comment stays on the line of `token`.
pub open spec fn comment_follows(token: TokenView, next: Option<TokenView>) -> bool {
    match next {
        Some(n) => n.kind is Comment && n.start.line == token.end.line,
        None => false,
    }
}

/// The stack without its innermost construct.
pub open spec fn pop(stack: Seq<Context>) -> Seq<Context> {
    if stack.len() == 0 {
        stack
    } else {
        stack.drop_last()
    }
}

/// The stack after a token of category `kind`: if the token closes the
/// innermost construct, that construct leaves, and after a `}` a `switch`
/// below it leaves too.
pub open spec fn closed(kind: TokenKind, stack: Seq<Context>) -> Seq<Context> {
    if closes_context(kind, top(stack)) {
        let popped = pop(stack);
        if kind == TokenKind::Punct(Punct::CloseBrace) && top(popped) == Some(Context::Switch) {
            pop(popped)
        } else {
            popped
        }
    } else {
        stack
    }
}

/// The level at which a token of category `kind` stands: one less than
/// before if it closes an indentation, and one less again if it is the `}` of
/// the body of a `switch`.
pub open spec fn level_at(kind: TokenKind, stack: Seq<Context>, indent_level: nat) -> nat {
    if closes_indent(kind, top(stack)) {
        if kind == TokenKind::Punct(Punct::CloseBrace) && stack.len() >= 2 && stack[stack.len()
            - 2] == Context::Switch {
            shallower(shallower(indent_level))
        } else {
            shallower(indent_level)
        }
    } else {
        indent_level
    }
}

/// The mathematical value of a [`Layout`].
pub struct LayoutView {
    /// What has been written.
    pub out: WriterView,
    /// How many levels deep the next line is indented.
    pub indent_level: nat,
    /// Whether the last thing written was a line break.
    pub added_newline: bool,
    /// Whether the last thing written was a space after a comment.
    pub added_space: bool,
    /// The constructs that are open, innermost last.
    pub stack: Seq<Context>,
    /// The last token laid out, comments aside.
    pub last_token: Option<TokenView>,
    /// Whether the end of the input has been seen.
    pub finished: bool,
}

impl LayoutView {
    /// The state before the first token.
    pub open spec fn new() -> LayoutView {
        LayoutView {
            out: WriterView::new(),
            indent_level: 0,
            added_newline: false,
            added_space: false,
            stack: Seq::empty(),
            last_token: None,
            finished: false,
        }
    }

    /// Whether `token` begins an array literal here.
    pub open spec fn array_literal(self, token: TokenView) -> bool {
        opens_array_literal(token.kind, kind_of_last(self.last_token))
    }

    /// The state once a token of category `kind` has been taken note of, before
    /// anything is written for it: the construct that it opens is open, and
    /// the level is the one at which the token stands.
    pub open spec fn enter(self, kind: TokenKind, array_literal: bool) -> LayoutView {
        let stack = match opened_context(kind, array_literal) {
            Some(context) => self.stack.push(context),
            None => self.stack,
        };
        LayoutView { stack, indent_level: level_at(kind, stack, self.indent_level), ..self }
    }

    /// The state once `token` has been written: the white space before it,
    /// its text, and a line break if the line ends after it. The text and the
    /// line break are writes that stem from the start of the token. A comment
    /// that follows on the same line keeps the line open.
    pub open spec fn emit(
        self,
        token: TokenView,
        next: Option<TokenView>,
        array_literal: bool,
    ) -> LayoutView {
        let ends = !comment_follows(token, next) && ends_line(
            token.kind,
            array_literal,
            top(self.stack),
        );
        let out = lead_of(
            token,
            self.last_token,
            top(self.stack),
            self.added_newline,
            self.added_space,
            self.indent_level,
        ).written(self.out, anchor(self.last_token, self.out), token.start).write(
            token.text,
            token.start,
        );
        LayoutView {
            out: if ends {
                out.write(seq!['\n'], token.start)
            } else {
                out
            },
            added_newline: if comment_follows(token, next) {
                self.added_newline
            } else {
                ends
            },
            added_space: false,
            ..self
        }
    }

    /// The state once `token` lies behind: the construct that it closes is
    /// closed, what follows is indented deeper if the token asks for it, and
    /// `token` is the last token.
    pub open spec fn leave(self, token: TokenView, array_literal: bool) -> LayoutView {
        LayoutView {
            stack: closed(token.kind, self.stack),
            indent_level: if opens_indent(token.kind, array_literal) {
                self.indent_level + 1
            } else {
                self.indent_level
            },
            last_token: Some(token),
            ..self
        }
    }

    /// The state after `token`, which is no comment and not the end of the
    /// input. `next` is the token after it, if there is one.
    pub open spec fn token(self, token: TokenView, next: Option<TokenView>) -> LayoutView {
        let array_literal = self.array_literal(token);
        self.enter(token.kind, array_literal).emit(token, next, array_literal).leave(
            token,
            array_literal,
        )
    }

    /// Whether the comment `token` stays on the line of the token before it.
    pub open spec fn comment_attached(self, token: TokenView) -> bool {
        match self.last_token {
            Some(l) => l.end.line == token.start.line,
            None => false,
        }
    }

    /// The state after the comment `token`. A comment that began on the line
    /// on which the token before it ended follows after one space; any other
    /// comment is indented like a statement.
    pub open spec fn comment(self, token: TokenView, next: Option<TokenView>) -> LayoutView {
        LayoutView {
            out: if self.comment_attached(token) {
                comment_written(self.out.write_new(seq![' ']), token, next, 0)
            } else {
                comment_written(self.out, token, next, self.indent_level)
            },
            added_newline: comment_breaks(token, next),
            added_space: !comment_breaks(token, next),
            ..self
        }
    }

    /// The state after `token`, whatever it is. The end of the input finishes
    /// the layout; nothing after it is looked at.
    pub open spec fn step(self, token: TokenView, next: Option<TokenView>) -> LayoutView {
        if self.finished {
            self
        } else {
            match token.kind {
                TokenKind::Comment(_) => self.comment(token, next),
                TokenKind::EoF => LayoutView { finished: true, ..self },
                _ => self.token(token, next),
            }
        }
    }

    /// The writer once all is laid out: the text ends with a line break.
    pub open spec fn finish(self) -> WriterView {
        if self.added_newline {
            self.out
        } else {
            self.out.write_new(seq!['\n'])
        }
    }
}

/// The token after the one at `i`, if there is one.
pub open spec fn next_of(tokens: Seq<TokenView>, i: int) -> Option<TokenView> {
    if 0 <= i + 1 < tokens.len() {
        Some(tokens[i + 1])
    } else {
        None
    }
}

/// The state of the layout after the first `n` of `tokens`.
pub open spec fn layout_after(tokens: Seq<TokenView>, n: nat) -> LayoutView
    decreases n,
{
    if n == 0 {
        LayoutView::new()
    } else {
        layout_after(tokens, (n - 1) as nat).step(tokens[n - 1], next_of(tokens, n - 1))
    }
}

/// What formatting `tokens` gives: the text, and the correspondences between
/// the places of the tokens in the text and in the input.
pub open spec fn formatted(tokens: Seq<TokenView>) -> (Seq<char>, Seq<SourceMapping>) {
    let out = layout_after(tokens, tokens.len()).finish();
    (out.buffer, out.mappings)
}

/// Once the end of the input has been seen, nothing changes any more.
pub proof fn lemma_finished_stays(tokens: Seq<TokenView>, n: nat, m: nat)
    requires
        n <= m,
        layout_after(tokens, n).finished,
    ensures
        layout_after(tokens, m) == layout_after(tokens, n),
    decreases m,
{
    if n < m {
        lemma_finished_stays(tokens, n, (m - 1) as nat);
    }
}

/// Whether `token` must begin a line of its own so that no statement is
/// joined to the one before.
pub fn is_asi(token: &Token, last_token: Option<&Token>) -> (r: bool)
    ensures
        r == starts_statement(token@, view_of(last_token)),
{
    let t = match last_token {
        Some(t) => t,
        None => {
            return false;
        },
    };
    if token.start.line.0 == t.start.line.0 {
        return false;
    }
    match t.kind {
        TokenKind::Keyword(Keyword::Return) | TokenKind::Keyword(Keyword::Yield) => {
            return true;
        },
        _ => (),
    }
    if prevent_asi_after_token(t.kind) || prevent_asi_before_token(token.kind) {
        return false;
    }
    true
}

/// Writes a gap as text that stems from `from`.
fn put_gap(gap: Gap, from: SourceCoord, out: &mut Writer)
    ensures
        final(out)@ == gapped(old(out)@, gap, from),
{
    match gap {
        Gap::Nothing => {},
        Gap::Space => {
            proof {
                reveal_strlit(" ");
                assert(" "@ =~= seq![' ']);
            }
            out.write(" ", from);
        },
        Gap::Break => {
            proof {
                reveal_strlit("\n");
                assert("\n"@ =~= seq!['\n']);
            }
            out.write("\n", from);
        },
    }
}

/// Writes text for which no input coordinate is given.
fn put_new(gap: Gap, out: &mut Writer)
    requires
        gap != Gap::Nothing,
    ensures
        final(out)@ == old(out)@.write_new(gap.text()),
{
    match gap {
        Gap::Space => {
            proof {
                reveal_strlit(" ");
                assert(" "@ =~= seq![' ']);
            }
            out.write_new(" ");
        },
        _ => {
            proof {
                reveal_strlit("\n");
                assert("\n"@ =~= seq!['\n']);
            }
            out.write_new("\n");
        },
    }
}

/// Writes the white space that goes before `token`. Spaces and line breaks
/// are recorded against the start of `last_token`, the indentation against
/// the start of `token`.
pub fn prepend_white_space(
    token: &Token,
    last_token: Option<&Token>,
    stack: &Vec<Context>,
    added_newline: bool,
    added_space: bool,
    indent_level: usize,
    out: &mut Writer,
)
    ensures
        final(out)@ == lead_of(
            token@,
            view_of(last_token),
            top(stack@),
            added_newline,
            added_space,
            indent_level as nat,
        ).written(old(out)@, anchor(view_of(last_token), old(out)@), token@.start),
{
    let last_kind = match last_token {
        Some(t) => Some(t.kind),
        None => None,
    };
    let from = match last_token {
        Some(t) => t.start,
        None => out.last_from,
    };
    let innermost = top_token(stack);
    let after_brace = match last_kind {
        Some(TokenKind::Punct(Punct::CloseBrace)) => match token.kind {
            TokenKind::Keyword(Keyword::While) => match innermost {
                Some(Context::Do) => Gap::Space,
                _ => Gap::Break,
            },
            TokenKind::Keyword(Keyword::Else)
            | TokenKind::Keyword(Keyword::Catch)
            | TokenKind::Keyword(Keyword::Finally) => Gap::Space,
            TokenKind::Punct(Punct::OpenParen)
            | TokenKind::Punct(Punct::SemiColon)
            | TokenKind::Punct(Punct::Comma)
            | TokenKind::Punct(Punct::CloseParen)
            | TokenKind::Punct(Punct::Period)
            | TokenKind::Template => Gap::Nothing,
            _ => Gap::Break,
        },
        _ => Gap::Nothing,
    };
    let before = match token.kind {
        TokenKind::Punct(Punct::Colon) => match innermost {
            Some(Context::Ternary) => Gap::Space,
            _ => Gap::Nothing,
        },
        TokenKind::Keyword(Keyword::Else) => match last_kind {
            Some(TokenKind::Punct(Punct::CloseBrace)) | Some(TokenKind::Punct(Punct::Period)) => {
                Gap::Nothing
            },
            Some(_) => Gap::Space,
            None => Gap::Nothing,
        },
        _ => Gap::Nothing,
    };
    let mut broken = added_newline;
    let mut spaced = added_space;
    match after_brace {
        Gap::Break => {
            broken = true;
        },
        Gap::Space => {
            spaced = true;
        },
        Gap::Nothing => {},
    }
    match before {
        Gap::Space => {
            spaced = true;
        },
        _ => {},
    }
    let forced = if (is_asi(token, last_token) || decrements_indent(token.kind, stack)) && !broken {
        broken = true;
        Gap::Break
    } else {
        Gap::Nothing
    };
    put_gap(after_brace, from, out);
    put_gap(before, from, out);
    put_gap(forced, from, out);
    if broken {
        let level = match token.kind {
            TokenKind::Keyword(Keyword::Case) | TokenKind::Keyword(Keyword::Default) => {
                if indent_level == 0 {
                    0
                } else {
                    indent_level - 1
                }
            },
            _ => indent_level,
        };
        out.write_indent(level, token.start);
    } else if !spaced && need_space_after(token.kind, last_kind) {
        put_gap(Gap::Space, from, out);
    }
}

/// Writes the text of `token` and records where it stood in the input.
pub fn add_token(token: &Token, out: &mut Writer)
    ensures
        final(out)@ == old(out)@.write(token@.text, token@.start),
{
    out.write(token.text.as_str(), token.start);
}

/// Ends the line if it ends after `token`, and says whether it did. The line
/// break is a write that stems from the start of `token`.
pub fn append_newline(
    token: &Token,
    starts_array_literal: bool,
    stack: &Vec<Context>,
    out: &mut Writer,
) -> (r: bool)
    ensures
        r == ends_line(token@.kind, starts_array_literal, top(stack@)),
        final(out)@ == if r {
            old(out)@.write(seq!['\n'], token@.start)
        } else {
            old(out)@
        },
{
    if is_line_delimiter(token.kind, starts_array_literal, stack) {
        put_gap(Gap::Break, token.start, out);
        return true;
    }
    false
}

/// Writes the lines of a block comment.
fn add_block_lines(content: &str, indent_level: usize, from: SourceCoord, out: &mut Writer)
    ensures
        final(out)@ == block_written(
            old(out)@,
            split_lines(content@),
            indent_level as nat,
            from,
        ),
{
    let all = lines(content);
    let mut i: usize = 0;
    proof {
        assert(line_views(all@).take(0).len() == 0);
    }
    while i < all.len()
        invariant
            i <= all@.len(),
            line_views(all@) == split_lines(content@),
            out@ == block_written(
                old(out)@,
                line_views(all@).take(i as int),
                indent_level as nat,
                from,
            ),
        decreases all@.len() - i,
    {
        let ghost upto = line_views(all@).take(i + 1);
        proof {
            assert(upto.drop_last() =~= line_views(all@).take(i as int));
            assert(upto.last() == all@[i as int]@);
        }
        if i > 0 {
            put_new(Gap::Break, out);
            out.write_indent(indent_level, from);
            proof {
                reveal_strlit("  ");
                assert("  "@ =~= seq![' ', ' ']);
            }
            out.write_new("  ");
        }
        out.write_new(all[i].as_str());
        i += 1;
    }
    proof {
        assert(line_views(all@).take(i as int) =~= line_views(all@));
    }
}

/// Writes the comment `token` at `indent_level`, and after it a line break
/// or a space. Says whether it was a line break.
pub fn add_comment(
    token: &Token,
    next_token: Option<&Token>,
    indent_level: usize,
    out: &mut Writer,
) -> (r: bool)
    requires
        token.kind is Comment,
    ensures
        r == comment_breaks(token@, view_of(next_token)),
        final(out)@ == comment_written(
            old(out)@,
            token@,
            view_of(next_token),
            indent_level as nat,
        ),
{
    out.write_indent(indent_level, token.start);
    let need_new_line = match token.kind {
        TokenKind::Comment(CommentKind::Single) | TokenKind::Comment(CommentKind::Hashbang) => {
            out.write_new(token.text.as_str());
            true
        },
        _ => {
            proof {
                reveal_strlit("/*");
                reveal_strlit("*/");
                assert("/*"@ =~= seq!['/', '*']);
                assert("*/"@ =~= seq!['*', '/']);
            }
            out.write_new("/*");
            add_block_lines(token.content.as_str(), indent_level, token.start, out);
            out.write_indent(indent_level, token.start);
            out.write_new("*/");
            match next_token {
                Some(t) => t.start.line.0 != token.start.line.0,
                None => false,
            }
        },
    };
    if need_new_line {
        put_new(Gap::Break, out);
    } else {
        put_new(Gap::Space, out);
    }
    need_new_line
}

/// The state of the layout between two tokens.
pub struct Layout<'a> {
    /// What has been written.
    pub out: Writer,
    /// How many levels deep the next line is indented.
    pub indent_level: usize,
    /// Whether the last thing written was a line break.
    pub added_newline: bool,
    /// Whether the last thing written was a space after a comment.
    pub added_space: bool,
    /// The constructs that are open, innermost last.
    pub stack: Vec<Context>,
    /// The last token laid out, comments aside.
    pub last_token: Option<&'a Token>,
    /// Whether the end of the input has been seen.
    pub finished: bool,
}

impl<'a> View for Layout<'a> {
    type V = LayoutView;

    open spec fn view(&self) -> LayoutView {
        LayoutView {
            out: self.out@,
            indent_level: self.indent_level as nat,
            added_newline: self.added_newline,
            added_space: self.added_space,
            stack: self.stack@,
            last_token: view_of(self.last_token),
            finished: self.finished,
        }
    }
}

impl<'a> Layout<'a> {
    /// The state before the first token.
    pub fn new() -> (layout: Layout<'a>)
        ensures
            layout@ == LayoutView::new(),
    {
        Layout {
            out: Writer::new(),
            indent_level: 0,
            added_newline: false,
            added_space: false,
            stack: Vec::new(),
            last_token: None,
            finished: false,
        }
    }

    /// Takes note of a token of category `token`: opens the construct that it
    /// opens, and moves to the level at which it stands.
    fn enter(&mut self, token: TokenKind, array_literal: bool)
        ensures
            final(self)@ == old(self)@.enter(token, array_literal),
            final(self).indent_level <= old(self).indent_level,
            final(self).last_token == old(self).last_token,
    {
        match context_of(token, array_literal) {
            Some(context) => {
                self.stack.push(context);
            },
            None => {},
        }
        if decrements_indent(token, &self.stack) {
            if self.indent_level > 0 {
                self.indent_level = self.indent_level - 1;
            }
            match token {
                TokenKind::Punct(Punct::CloseBrace) => {
                    if self.stack.len() >= 2 {
                        match self.stack[self.stack.len() - 2] {
                            Context::Switch => {
                                if self.indent_level > 0 {
                                    self.indent_level = self.indent_level - 1;
                                }
                            },
                            _ => {},
                        }
                    }
                },
                _ => {},
            }
        }
    }

    /// Writes `token`: the white space before it, its text, and a line break
    /// if the line ends after it.
    fn emit(&mut self, token: &Token, next: Option<&Token>, array_literal: bool)
        ensures
            final(self)@ == old(self)@.emit(token@, view_of(next), array_literal),
            final(self).indent_level == old(self).indent_level,
            final(self).last_token == old(self).last_token,
    {
        prepend_white_space(
            token,
            self.last_token,
            &self.stack,
            self.added_newline,
            self.added_space,
            self.indent_level,
            &mut self.out,
        );
        add_token(token, &mut self.out);
        self.added_space = false;
        let same_line_comment = match next {
            Some(n) => match n.kind {
                TokenKind::Comment(_) => n.start.line.0 == token.end.line.0,
                _ => false,
            },
            None => false,
        };
        if !same_line_comment {
            self.added_newline = append_newline(token, array_literal, &self.stack, &mut self.out);
        }
    }

    /// Leaves `token` behind: closes the construct that it closes, and indents
    /// what follows deeper if the token asks for it.
    fn leave(&mut self, token: &'a Token, array_literal: bool)
        requires
            old(self).indent_level < usize::MAX,
        ensures
            final(self)@ == old(self)@.leave(token@, array_literal),
            final(self).indent_level <= old(self).indent_level + 1,
    {
        if should_pop_stack(token.kind, &self.stack) {
            self.stack.pop();
            match token.kind {
                TokenKind::Punct(Punct::CloseBrace) => {
                    match top_token(&self.stack) {
                        Some(Context::Switch) => {
                            self.stack.pop();
                        },
                        _ => {},
                    }
                },
                _ => {},
            }
        }
        if increments_indent(token.kind, array_literal) {
            self.indent_level = self.indent_level + 1;
        }
        self.last_token = Some(token);
    }

    /// Lays out `token`, which is no comment. `next` is the token after it.
    pub fn token(&mut self, token: &'a Token, next: Option<&Token>)
        requires
            old(self).indent_level < usize::MAX,
        ensures
            final(self)@ == old(self)@.token(token@, view_of(next)),
            final(self).indent_level <= old(self).indent_level + 1,
    {
        let last_kind = match self.last_token {
            Some(t) => Some(t.kind),
            None => None,
        };
        let array_literal = starts_array_literal(token.kind, last_kind);
        self.enter(token.kind, array_literal);
        self.emit(token, next, array_literal);
        self.leave(token, array_literal);
    }

    /// Lays out the comment `token`. `next` is the token after it.
    pub fn comment(&mut self, token: &Token, next: Option<&Token>)
        requires
            token.kind is Comment,
        ensures
            final(self)@ == old(self)@.comment(token@, view_of(next)),
            final(self).indent_level == old(self).indent_level,
    {
        let attached = match self.last_token {
            Some(t) => t.end.line.0 == token.start.line.0,
            None => false,
        };
        let comment_indent_level = if attached {
            put_new(Gap::Space, &mut self.out);
            0
        } else {
            self.indent_level
        };
        self.added_newline = add_comment(token, next, comment_indent_level, &mut self.out);
        self.added_space = !self.added_newline;
    }

    /// Lays out `token`, whatever it is. `next` is the token after it.
    pub fn step(&mut self, token: &'a Token, next: Option<&Token>)
        requires
            old(self).indent_level < usize::MAX,
        ensures
            final(self)@ == old(self)@.step(token@, view_of(next)),
            final(self).indent_level <= old(self).indent_level + 1,
    {
        if self.finished {
            return ;
        }
        match token.kind {
            TokenKind::Comment(_) => {
                self.comment(token, next);
            },
            TokenKind::EoF => {
                self.finished = true;
            },
            _ => {
                self.token(token, next);
            },
        }
    }

    /// Ends the text with a line break, if it does not end with one, and hands
    /// out the text and the correspondences.
    pub fn finish(self) -> (r: (String, Vec<SourceMapping>))
        ensures
            r.0@ == self@.finish().buffer,
            r.1@ == self@.finish().mappings,
    {
        let mut out = self.out;
        if !self.added_newline {
            put_new(Gap::Break, &mut out);
        }
        (out.buffer, out.mappings)
    }
}

/// Formats `tokens`: returns the formatted text and the correspondences
/// between places in that text and places in the input, in the order in which
/// the text was written.
///
/// The text ends with a line feed, and with one only if the tokens are
/// lexemes. The places in the formatted text never go back.
pub fn format_tokens(tokens: &Vec<Token>) -> (r: (String, Vec<SourceMapping>))
    ensures
        (r.0@, r.1@) == formatted(tokens.deep_view()),
        ends_with_line_feed(r.0@),
        all_lexemes(tokens.deep_view()) ==> ends_with_one_line_feed(r.0@),
        ascending(r.1@),
        blocks_nest(tokens.deep_view()) && body_len(tokens.deep_view()) > 0 ==> r.0@
            == block_lines(tokens.deep_view(), body_len(tokens.deep_view())),
{
    let mut layout = Layout::new();
    let mut i: usize = 0;
    while i < tokens.len() && !layout.finished
        invariant
            i <= tokens@.len(),
            layout.indent_level <= i,
            layout@ == layout_after(tokens.deep_view(), i as nat),
        decreases tokens@.len() - i,
    {
        let next = if i + 1 < tokens.len() {
            Some(&tokens[i + 1])
        } else {
            None
        };
        layout.step(&tokens[i], next);
        i += 1;
    }
    proof {
        if i < tokens@.len() {
            lemma_finished_stays(tokens.deep_view(), i as nat, tokens@.len());
        }
        lemma_formatted_ends_with_line_feed(tokens.deep_view());
        lemma_formatted_ascending(tokens.deep_view());
        if all_lexemes(tokens.deep_view()) {
            lemma_formatted_ends_with_one_line_feed(tokens.deep_view());
        }
        if blocks_nest(tokens.deep_view()) && body_len(tokens.deep_view()) > 0 {
            lemma_blocks_formatted(tokens.deep_view());
        }
    }
    layout.finish()
}

/// What formatting gives for no tokens: one line feed, and the one
/// correspondence between the beginning of the text and the beginning of the
/// input.
pub open spec fn nothing_formatted() -> (Seq<char>, Seq<SourceMapping>) {
    (
        seq!['\n'],
        seq![
            SourceMapping {
                from: SourceCoord { line: SourceMapLine(0), column: SourceMapColumn(0) },
                to: SourceCoord { line: SourceMapLine(0), column: SourceMapColumn(0) },
            },
        ],
    )
}

/// Formats JavaScript source text: returns the formatted text, and the
/// correspondences between places in that text (`from`) and places in
/// `source` (`to`), in the order in which the text was written.
///
/// Every text gives a result. It is the layout of the tokens that the scanner
/// reads; the empty text, and a text that is not laid out token by token, is
/// laid out as no tokens are. The result depends on the text alone. It ends
/// with exactly one line feed, and the places in the formatted text never go
/// back. Where the tokens are nested blocks, each brace and each statement
/// stands on a line of its own, two spaces further right for each brace that
/// is open.
pub fn prettyprint(source: &str) -> (r: (String, Vec<SourceMapping>))
    ensures
        (r.0@, r.1@) == formatted(source_tokens(source@)),
        source@.len() == 0 || !is_read(source@) ==> (r.0@, r.1@) == nothing_formatted(),
        ends_with_one_line_feed(r.0@),
        ascending(r.1@),
        blocks_nest(source_tokens(source@)) && body_len(source_tokens(source@)) > 0 ==> r.0@
            == block_lines(source_tokens(source@), body_len(source_tokens(source@))),
{
    proof {
        lemma_nothing_formatted();
    }
    let tokens = tokenize(source);
    format_tokens(&tokens)
}

/// Formats JavaScript source text as [`prettyprint`] does, if the text is
/// laid out token by token; returns `None` if it is not.
pub fn try_prettyprint(source: &str) -> (r: Option<(String, Vec<SourceMapping>)>)
    ensures
        r is Some <==> is_read(source@),
        r matches Some(pretty) ==> {
            &&& (pretty.0@, pretty.1@) == formatted(source_tokens(source@))
            &&& ends_with_one_line_feed(pretty.0@)
            &&& ascending(pretty.1@)
        },
{
    match try_tokenize(source) {
        Some(tokens) => Some(format_tokens(&tokens)),
        None => None,
    }
}

} // verus!

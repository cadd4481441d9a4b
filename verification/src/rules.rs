//! The layout rules that look at token categories alone: one function for
//! each decision.

use crate::token::{Keyword, Punct, TokenKind};
use vstd::prelude::*;

verus! {

/// An operator that stands between two operands: arithmetic, shift, bitwise,
/// logical, relational and equality operators.
pub open spec fn is_binary_operator(p: Punct) -> bool {
    match p {
        Punct::Ampersand
        | Punct::Asterisk
        | Punct::BangDoubleEqual
        | Punct::BangEqual
        | Punct::Caret
        | Punct::Dash
        | Punct::DoubleAmpersand
        | Punct::DoubleAsterisk
        | Punct::DoubleEqual
        | Punct::DoubleGreaterThan
        | Punct::DoubleLessThan
        | Punct::DoublePipe
        | Punct::ForwardSlash
        | Punct::GreaterThan
        | Punct::GreaterThanEqual
        | Punct::LessThan
        | Punct::LessThanEqual
        | Punct::Percent
        | Punct::Pipe
        | Punct::Plus
        | Punct::TripleEqual
        | Punct::TripleGreaterThan => true,
        _ => false,
    }
}

/// `=` and the compound assignment operators.
pub open spec fn is_assignment_operator(p: Punct) -> bool {
    match p {
        Punct::AmpersandEqual
        | Punct::AsteriskEqual
        | Punct::CaretEqual
        | Punct::DashEqual
        | Punct::DoubleAsteriskEqual
        | Punct::DoubleGreaterThanEqual
        | Punct::DoubleLessThanEqual
        | Punct::Equal
        | Punct::ForwardSlashEqual
        | Punct::PercentEqual
        | Punct::PipeEqual
        | Punct::PlusEqual
        | Punct::TripleGreaterThanEqual => true,
        _ => false,
    }
}

/// Tokens after which no expression can have ended, so that a `[` that
/// follows begins an array literal rather than a subscript: the operators, the
/// keywords that ask for an operand or a statement, and `{`, `:`, `,` and `;`.
/// A `}` is not among them.
pub open spec fn precedes_array_literal(kind: TokenKind) -> bool {
    match kind {
        TokenKind::Keyword(k) => matches!(
            k,
            Keyword::Case | Keyword::Delete | Keyword::Do | Keyword::Else | Keyword::In
                | Keyword::InstanceOf | Keyword::TypeOf | Keyword::Void
        ),
        TokenKind::Punct(p) => is_binary_operator(p) || is_assignment_operator(p) || matches!(
            p,
            Punct::Bang | Punct::Tilde | Punct::DoubleDash | Punct::DoublePlus | Punct::OpenBrace
                | Punct::Colon | Punct::Comma | Punct::QuestionMark | Punct::SemiColon
        ),
        _ => false,
    }
}

/// Whether `token` is one after which a `[` begins an array literal.
pub fn is_pre_array_literal_token(token: TokenKind) -> (r: bool)
    ensures
        r == precedes_array_literal(token),
{
    match token {
        TokenKind::Keyword(Keyword::Case)
        | TokenKind::Keyword(Keyword::Delete)
        | TokenKind::Keyword(Keyword::Do)
        | TokenKind::Keyword(Keyword::Else)
        | TokenKind::Keyword(Keyword::In)
        | TokenKind::Keyword(Keyword::InstanceOf)
        | TokenKind::Keyword(Keyword::TypeOf)
        | TokenKind::Keyword(Keyword::Void)
        | TokenKind::Punct(Punct::Ampersand)
        | TokenKind::Punct(Punct::AmpersandEqual)
        | TokenKind::Punct(Punct::Asterisk)
        | TokenKind::Punct(Punct::AsteriskEqual)
        | TokenKind::Punct(Punct::Bang)
        | TokenKind::Punct(Punct::BangDoubleEqual)
        | TokenKind::Punct(Punct::BangEqual)
        | TokenKind::Punct(Punct::Caret)
        | TokenKind::Punct(Punct::CaretEqual)
        | TokenKind::Punct(Punct::Colon)
        | TokenKind::Punct(Punct::Comma)
        | TokenKind::Punct(Punct::Dash)
        | TokenKind::Punct(Punct::DashEqual)
        | TokenKind::Punct(Punct::DoubleAmpersand)
        | TokenKind::Punct(Punct::DoubleAsterisk)
        | TokenKind::Punct(Punct::DoubleAsteriskEqual)
        | TokenKind::Punct(Punct::DoubleDash)
        | TokenKind::Punct(Punct::DoubleEqual)
        | TokenKind::Punct(Punct::DoubleGreaterThan)
        | TokenKind::Punct(Punct::DoubleGreaterThanEqual)
        | TokenKind::Punct(Punct::DoubleLessThan)
        | TokenKind::Punct(Punct::DoubleLessThanEqual)
        | TokenKind::Punct(Punct::DoublePipe)
        | TokenKind::Punct(Punct::DoublePlus)
        | TokenKind::Punct(Punct::Equal)
        | TokenKind::Punct(Punct::ForwardSlash)
        | TokenKind::Punct(Punct::ForwardSlashEqual)
        | TokenKind::Punct(Punct::GreaterThan)
        | TokenKind::Punct(Punct::GreaterThanEqual)
        | TokenKind::Punct(Punct::LessThan)
        | TokenKind::Punct(Punct::LessThanEqual)
        | TokenKind::Punct(Punct::OpenBrace)
        | TokenKind::Punct(Punct::Percent)
        | TokenKind::Punct(Punct::PercentEqual)
        | TokenKind::Punct(Punct::Pipe)
        | TokenKind::Punct(Punct::PipeEqual)
        | TokenKind::Punct(Punct::Plus)
        | TokenKind::Punct(Punct::PlusEqual)
        | TokenKind::Punct(Punct::QuestionMark)
        | TokenKind::Punct(Punct::Tilde)
        | TokenKind::Punct(Punct::TripleEqual)
        | TokenKind::Punct(Punct::TripleGreaterThan)
        | TokenKind::Punct(Punct::TripleGreaterThanEqual)
        | TokenKind::Punct(Punct::SemiColon) => true,
        _ => false,
    }
}

/// Whether a token of category `kind` that follows `last` begins an array
/// literal: a `[` at the start of the input or after a token that cannot end
/// an expression.
pub open spec fn opens_array_literal(kind: TokenKind, last: Option<TokenKind>) -> bool {
    kind == TokenKind::Punct(Punct::OpenBracket) && match last {
        Some(l) => precedes_array_literal(l),
        None => true,
    }
}

/// Whether `token`, which follows `last_token`, begins an array literal.
pub fn starts_array_literal(token: TokenKind, last_token: Option<TokenKind>) -> (r: bool)
    ensures
        r == opens_array_literal(token, last_token),
{
    match token {
        TokenKind::Punct(Punct::OpenBracket) => match last_token {
            Some(t) => is_pre_array_literal_token(t),
            None => true,
        },
        _ => false,
    }
}

/// Punctuators that tie the tokens on both sides of a line break into one
/// expression. `==` is not among them.
pub open spec fn joins_lines(p: Punct) -> bool {
    (is_binary_operator(p) && p != Punct::DoubleEqual) || is_assignment_operator(p) || matches!(
        p,
        Punct::Bang | Punct::Tilde | Punct::Comma | Punct::OpenParen | Punct::Period
    )
}

/// Tokens after which the expression goes on, whatever line the next token
/// stands on.
pub open spec fn continues_after(kind: TokenKind) -> bool {
    match kind {
        TokenKind::Keyword(k) => matches!(
            k,
            Keyword::Delete | Keyword::In | Keyword::InstanceOf | Keyword::TypeOf | Keyword::Void
                | Keyword::New
        ),
        TokenKind::Punct(p) => joins_lines(p),
        _ => false,
    }
}

/// Whether no statement can end right after `token`.
pub fn prevent_asi_after_token(token: TokenKind) -> (r: bool)
    ensures
        r == continues_after(token),
{
    match token {
        TokenKind::Keyword(Keyword::Delete)
        | TokenKind::Keyword(Keyword::In)
        | TokenKind::Keyword(Keyword::InstanceOf)
        | TokenKind::Keyword(Keyword::TypeOf)
        | TokenKind::Keyword(Keyword::Void)
        | TokenKind::Keyword(Keyword::New)
        | TokenKind::Punct(Punct::Ampersand)
        | TokenKind::Punct(Punct::AmpersandEqual)
        | TokenKind::Punct(Punct::Asterisk)
        | TokenKind::Punct(Punct::AsteriskEqual)
        | TokenKind::Punct(Punct::Bang)
        | TokenKind::Punct(Punct::BangDoubleEqual)
        | TokenKind::Punct(Punct::BangEqual)
        | TokenKind::Punct(Punct::Caret)
        | TokenKind::Punct(Punct::CaretEqual)
        | TokenKind::Punct(Punct::Comma)
        | TokenKind::Punct(Punct::Dash)
        | TokenKind::Punct(Punct::DashEqual)
        | TokenKind::Punct(Punct::DoubleAmpersand)
        | TokenKind::Punct(Punct::DoubleAsterisk)
        | TokenKind::Punct(Punct::DoubleAsteriskEqual)
        | TokenKind::Punct(Punct::DoubleGreaterThan)
        | TokenKind::Punct(Punct::DoubleGreaterThanEqual)
        | TokenKind::Punct(Punct::DoubleLessThan)
        | TokenKind::Punct(Punct::DoubleLessThanEqual)
        | TokenKind::Punct(Punct::DoublePipe)
        | TokenKind::Punct(Punct::Equal)
        | TokenKind::Punct(Punct::ForwardSlash)
        | TokenKind::Punct(Punct::ForwardSlashEqual)
        | TokenKind::Punct(Punct::GreaterThan)
        | TokenKind::Punct(Punct::GreaterThanEqual)
        | TokenKind::Punct(Punct::LessThan)
        | TokenKind::Punct(Punct::LessThanEqual)
        | TokenKind::Punct(Punct::OpenParen)
        | TokenKind::Punct(Punct::Percent)
        | TokenKind::Punct(Punct::PercentEqual)
        | TokenKind::Punct(Punct::Period)
        | TokenKind::Punct(Punct::Pipe)
        | TokenKind::Punct(Punct::PipeEqual)
        | TokenKind::Punct(Punct::Plus)
        | TokenKind::Punct(Punct::PlusEqual)
        | TokenKind::Punct(Punct::Tilde)
        | TokenKind::Punct(Punct::TripleEqual)
        | TokenKind::Punct(Punct::TripleGreaterThan)
        | TokenKind::Punct(Punct::TripleGreaterThanEqual) => true,
        _ => false,
    }
}

/// Tokens that attach to what stands before them, whatever line that stands
/// on.
pub open spec fn continues_before(kind: TokenKind) -> bool {
    match kind {
        TokenKind::Keyword(k) => matches!(k, Keyword::In | Keyword::InstanceOf),
        TokenKind::Punct(p) => joins_lines(p),
        _ => false,
    }
}

/// Whether no statement can begin with `token`.
pub fn prevent_asi_before_token(token: TokenKind) -> (r: bool)
    ensures
        r == continues_before(token),
{
    match token {
        TokenKind::Keyword(Keyword::In)
        | TokenKind::Keyword(Keyword::InstanceOf)
        | TokenKind::Punct(Punct::Ampersand)
        | TokenKind::Punct(Punct::AmpersandEqual)
        | TokenKind::Punct(Punct::Asterisk)
        | TokenKind::Punct(Punct::AsteriskEqual)
        | TokenKind::Punct(Punct::Bang)
        | TokenKind::Punct(Punct::BangDoubleEqual)
        | TokenKind::Punct(Punct::BangEqual)
        | TokenKind::Punct(Punct::Caret)
        | TokenKind::Punct(Punct::CaretEqual)
        | TokenKind::Punct(Punct::Comma)
        | TokenKind::Punct(Punct::Dash)
        | TokenKind::Punct(Punct::DashEqual)
        | TokenKind::Punct(Punct::DoubleAmpersand)
        | TokenKind::Punct(Punct::DoubleAsterisk)
        | TokenKind::Punct(Punct::DoubleAsteriskEqual)
        | TokenKind::Punct(Punct::DoubleGreaterThan)
        | TokenKind::Punct(Punct::DoubleGreaterThanEqual)
        | TokenKind::Punct(Punct::DoubleLessThan)
        | TokenKind::Punct(Punct::DoubleLessThanEqual)
        | TokenKind::Punct(Punct::DoublePipe)
        | TokenKind::Punct(Punct::Equal)
        | TokenKind::Punct(Punct::ForwardSlash)
        | TokenKind::Punct(Punct::ForwardSlashEqual)
        | TokenKind::Punct(Punct::GreaterThan)
        | TokenKind::Punct(Punct::GreaterThanEqual)
        | TokenKind::Punct(Punct::LessThan)
        | TokenKind::Punct(Punct::LessThanEqual)
        | TokenKind::Punct(Punct::OpenParen)
        | TokenKind::Punct(Punct::Percent)
        | TokenKind::Punct(Punct::PercentEqual)
        | TokenKind::Punct(Punct::Period)
        | TokenKind::Punct(Punct::Pipe)
        | TokenKind::Punct(Punct::PipeEqual)
        | TokenKind::Punct(Punct::Plus)
        | TokenKind::Punct(Punct::PlusEqual)
        | TokenKind::Punct(Punct::Tilde)
        | TokenKind::Punct(Punct::TripleEqual)
        | TokenKind::Punct(Punct::TripleGreaterThan)
        | TokenKind::Punct(Punct::TripleGreaterThanEqual) => true,
        _ => false,
    }
}

/// Tokens that read like a word: two of them in a row need a space between.
pub open spec fn identifier_like(kind: TokenKind) -> bool {
    matches!(
        kind,
        TokenKind::Boolean | TokenKind::Ident | TokenKind::Keyword(_) | TokenKind::Null
            | TokenKind::Number
    )
}

/// Whether `token` reads like a word.
pub fn is_identifier_like(token: TokenKind) -> (r: bool)
    ensures
        r == identifier_like(token),
{
    match token {
        TokenKind::Boolean
        | TokenKind::Ident
        | TokenKind::Keyword(_)
        | TokenKind::Null
        | TokenKind::Number => true,
        _ => false,
    }
}

/// Whether `last` asks for a space after itself when `kind` follows.
pub open spec fn space_after(last: TokenKind, kind: TokenKind) -> bool {
    match last {
        TokenKind::Keyword(Keyword::Do) | TokenKind::Keyword(Keyword::For) | TokenKind::Keyword(
            Keyword::While,
        ) => true,
        TokenKind::Keyword(Keyword::Break) | TokenKind::Keyword(Keyword::Continue)
        | TokenKind::Keyword(Keyword::Return) => kind != TokenKind::Punct(Punct::Period) && kind
            != TokenKind::Punct(Punct::SemiColon),
        TokenKind::Keyword(Keyword::Debugger) | TokenKind::Keyword(Keyword::Default)
        | TokenKind::Keyword(Keyword::This) => false,
        TokenKind::Keyword(_) => kind != TokenKind::Punct(Punct::Period),
        TokenKind::Punct(Punct::CloseParen) => !matches!(
            kind,
            TokenKind::Punct(Punct::CloseParen) | TokenKind::Punct(Punct::CloseBracket)
                | TokenKind::Punct(Punct::SemiColon) | TokenKind::Punct(Punct::Comma)
                | TokenKind::Punct(Punct::Period)
        ),
        TokenKind::Punct(p) => is_binary_operator(p) || is_assignment_operator(p) || matches!(
            p,
            Punct::Colon | Punct::Comma | Punct::QuestionMark | Punct::SemiColon
        ),
        TokenKind::Number => kind == TokenKind::Punct(Punct::Period),
        TokenKind::Ident => kind == TokenKind::Punct(Punct::OpenBrace),
        _ => false,
    }
}

/// Whether `kind` asks for a space before itself. Assignment operators other
/// than the shift assignments, and `?`, do so even at the start of the input;
/// binary operators other than `/`, `===` and `>>>`, and the shift assignments
/// `<<=` and `>>=`, only after another token.
pub open spec fn space_before(kind: TokenKind, after_token: bool) -> bool {
    match kind {
        TokenKind::Punct(p) => {
            let shift_assignment = matches!(
                p,
                Punct::DoubleGreaterThanEqual | Punct::DoubleLessThanEqual
                    | Punct::TripleGreaterThanEqual
            );
            if p == Punct::QuestionMark || (is_assignment_operator(p) && !shift_assignment) {
                true
            } else if p == Punct::DoubleGreaterThanEqual || p == Punct::DoubleLessThanEqual || (
            is_binary_operator(p) && !matches!(
                p,
                Punct::ForwardSlash | Punct::TripleEqual | Punct::TripleGreaterThan
            )) {
                after_token
            } else {
                false
            }
        },
        _ => false,
    }
}

/// Whether a space is needed between `last` and a token of category `kind`
/// that nothing else separates.
pub open spec fn space_between(kind: TokenKind, last: Option<TokenKind>) -> bool {
    ||| last matches Some(l) && (space_after(l, kind) || (identifier_like(kind) && identifier_like(
        l,
    )))
    ||| space_before(kind, last is Some)
}

/// Whether a space is needed between `last_token` and `token`.
pub fn need_space_after(token: TokenKind, last_token: Option<TokenKind>) -> (r: bool)
    ensures
        r == space_between(token, last_token),
{
    if let Some(t) = last_token {
        match t {
            TokenKind::Keyword(Keyword::Do)
            | TokenKind::Keyword(Keyword::For)
            | TokenKind::Keyword(Keyword::While)
            | TokenKind::Punct(Punct::Ampersand)
            | TokenKind::Punct(Punct::AmpersandEqual)
            | TokenKind::Punct(Punct::Asterisk)
            | TokenKind::Punct(Punct::AsteriskEqual)
            | TokenKind::Punct(Punct::BangDoubleEqual)
            | TokenKind::Punct(Punct::BangEqual)
            | TokenKind::Punct(Punct::Caret)
            | TokenKind::Punct(Punct::CaretEqual)
            | TokenKind::Punct(Punct::Colon)
            | TokenKind::Punct(Punct::Comma)
            | TokenKind::Punct(Punct::Dash)
            | TokenKind::Punct(Punct::DashEqual)
            | TokenKind::Punct(Punct::DoubleAmpersand)
            | TokenKind::Punct(Punct::DoubleAsterisk)
            | TokenKind::Punct(Punct::DoubleAsteriskEqual)
            | TokenKind::Punct(Punct::DoubleEqual)
            | TokenKind::Punct(Punct::DoubleGreaterThan)
            | TokenKind::Punct(Punct::DoubleGreaterThanEqual)
            | TokenKind::Punct(Punct::DoubleLessThan)
            | TokenKind::Punct(Punct::DoubleLessThanEqual)
            | TokenKind::Punct(Punct::DoublePipe)
            | TokenKind::Punct(Punct::Equal)
            | TokenKind::Punct(Punct::ForwardSlash)
            | TokenKind::Punct(Punct::ForwardSlashEqual)
            | TokenKind::Punct(Punct::GreaterThan)
            | TokenKind::Punct(Punct::GreaterThanEqual)
            | TokenKind::Punct(Punct::LessThan)
            | TokenKind::Punct(Punct::LessThanEqual)
            | TokenKind::Punct(Punct::Percent)
            | TokenKind::Punct(Punct::PercentEqual)
            | TokenKind::Punct(Punct::Pipe)
            | TokenKind::Punct(Punct::PipeEqual)
            | TokenKind::Punct(Punct::Plus)
            | TokenKind::Punct(Punct::PlusEqual)
            | TokenKind::Punct(Punct::QuestionMark)
            | TokenKind::Punct(Punct::SemiColon)
            | TokenKind::Punct(Punct::TripleEqual)
            | TokenKind::Punct(Punct::TripleGreaterThan)
            | TokenKind::Punct(Punct::TripleGreaterThanEqual) => {
                return true;
            },
            TokenKind::Number => {
                if let TokenKind::Punct(Punct::Period) = token {
                    return true;
                }
            },
            TokenKind::Keyword(Keyword::Break)
            | TokenKind::Keyword(Keyword::Continue)
            | TokenKind::Keyword(Keyword::Return) => match token {
                TokenKind::Punct(Punct::Period) | TokenKind::Punct(Punct::SemiColon) => (),
                _ => {
                    return true;
                },
            },
            TokenKind::Keyword(Keyword::Debugger)
            | TokenKind::Keyword(Keyword::Default)
            | TokenKind::Keyword(Keyword::This) => (),
            TokenKind::Keyword(_) => match token {
                TokenKind::Punct(Punct::Period) => (),
                _ => {
                    return true;
                },
            },
            TokenKind::Punct(Punct::CloseParen) => match token {
                TokenKind::Punct(Punct::CloseParen)
                | TokenKind::Punct(Punct::CloseBracket)
                | TokenKind::Punct(Punct::SemiColon)
                | TokenKind::Punct(Punct::Comma)
                | TokenKind::Punct(Punct::Period) => (),
                _ => {
                    return true;
                },
            },
            TokenKind::Ident => {
                if let TokenKind::Punct(Punct::OpenBrace) = token {
                    return true;
                }
            },
            _ => (),
        }
        if is_identifier_like(token) && is_identifier_like(t) {
            return true;
        }
    }
    match token {
        TokenKind::Punct(Punct::AmpersandEqual)
        | TokenKind::Punct(Punct::AsteriskEqual)
        | TokenKind::Punct(Punct::CaretEqual)
        | TokenKind::Punct(Punct::DashEqual)
        | TokenKind::Punct(Punct::DoubleAsteriskEqual)
        | TokenKind::Punct(Punct::Equal)
        | TokenKind::Punct(Punct::ForwardSlashEqual)
        | TokenKind::Punct(Punct::PercentEqual)
        | TokenKind::Punct(Punct::PipeEqual)
        | TokenKind::Punct(Punct::PlusEqual)
        | TokenKind::Punct(Punct::QuestionMark) => true,
        TokenKind::Punct(Punct::Ampersand)
        | TokenKind::Punct(Punct::Asterisk)
        | TokenKind::Punct(Punct::BangDoubleEqual)
        | TokenKind::Punct(Punct::BangEqual)
        | TokenKind::Punct(Punct::Caret)
        | TokenKind::Punct(Punct::Dash)
        | TokenKind::Punct(Punct::DoubleAmpersand)
        | TokenKind::Punct(Punct::DoubleAsterisk)
        | TokenKind::Punct(Punct::DoubleEqual)
        | TokenKind::Punct(Punct::DoubleGreaterThan)
        | TokenKind::Punct(Punct::DoubleGreaterThanEqual)
        | TokenKind::Punct(Punct::DoubleLessThan)
        | TokenKind::Punct(Punct::DoubleLessThanEqual)
        | TokenKind::Punct(Punct::DoublePipe)
        | TokenKind::Punct(Punct::GreaterThan)
        | TokenKind::Punct(Punct::GreaterThanEqual)
        | TokenKind::Punct(Punct::LessThan)
        | TokenKind::Punct(Punct::LessThanEqual)
        | TokenKind::Punct(Punct::Percent)
        | TokenKind::Punct(Punct::Pipe)
        | TokenKind::Punct(Punct::Plus) => last_token.is_some(),
        _ => false,
    }
}

/// A construct that has been opened and not yet closed.
#[derive(Clone, Copy, Debug, PartialEq, Eq, Structural)]
pub enum Context {
    /// `{`
    Brace,
    /// `(`
    Paren,
    /// `[`, and whether it began an array literal.
    Bracket { array_literal: bool },
    /// `?`
    Ternary,
    /// `switch`
    Switch,
    /// `case`
    Case,
    /// `default`
    Default,
    /// `do`
    Do,
}

/// The innermost open construct, if there is one.
pub open spec fn top(stack: Seq<Context>) -> Option<Context> {
    if stack.len() == 0 {
        None
    } else {
        Some(stack.last())
    }
}

/// The innermost open construct, if there is one.
pub fn top_token(stack: &Vec<Context>) -> (r: Option<Context>)
    ensures
        r == top(stack@),
{
    if stack.len() == 0 {
        None
    } else {
        Some(stack[stack.len() - 1])
    }
}

/// The construct that a token of category `kind` opens, if it opens one.
pub open spec fn opened_context(kind: TokenKind, array_literal: bool) -> Option<Context> {
    match kind {
        TokenKind::Keyword(Keyword::Case) => Some(Context::Case),
        TokenKind::Keyword(Keyword::Default) => Some(Context::Default),
        TokenKind::Keyword(Keyword::Do) => Some(Context::Do),
        TokenKind::Keyword(Keyword::Switch) => Some(Context::Switch),
        TokenKind::Punct(Punct::OpenBrace) => Some(Context::Brace),
        TokenKind::Punct(Punct::OpenParen) => Some(Context::Paren),
        TokenKind::Punct(Punct::OpenBracket) => Some(Context::Bracket { array_literal }),
        TokenKind::Punct(Punct::QuestionMark) => Some(Context::Ternary),
        _ => None,
    }
}

/// Whether `token` opens a construct.
pub fn belongs_on_stack(token: TokenKind) -> (r: bool)
    ensures
        r == (opened_context(token, false) is Some),
        r == (opened_context(token, true) is Some),
{
    match token {
        TokenKind::Keyword(Keyword::Case)
        | TokenKind::Keyword(Keyword::Default)
        | TokenKind::Keyword(Keyword::Do)
        | TokenKind::Keyword(Keyword::Switch)
        | TokenKind::Punct(Punct::OpenBrace)
        | TokenKind::Punct(Punct::OpenParen)
        | TokenKind::Punct(Punct::OpenBracket)
        | TokenKind::Punct(Punct::QuestionMark) => true,
        _ => false,
    }
}

/// The construct that `token` opens, if it opens one.
pub fn context_of(token: TokenKind, starts_array_literal: bool) -> (r: Option<Context>)
    ensures
        r == opened_context(token, starts_array_literal),
{
    if !belongs_on_stack(token) {
        return None;
    }
    match token {
        TokenKind::Keyword(Keyword::Case) => Some(Context::Case),
        TokenKind::Keyword(Keyword::Default) => Some(Context::Default),
        TokenKind::Keyword(Keyword::Do) => Some(Context::Do),
        TokenKind::Keyword(Keyword::Switch) => Some(Context::Switch),
        TokenKind::Punct(Punct::OpenBrace) => Some(Context::Brace),
        TokenKind::Punct(Punct::OpenParen) => Some(Context::Paren),
        TokenKind::Punct(Punct::OpenBracket) => Some(
            Context::Bracket { array_literal: starts_array_literal },
        ),
        _ => Some(Context::Ternary),
    }
}

/// Whether a token of category `kind` closes the innermost open construct
/// `innermost`: a closing bracket of any sort always does, `while` closes a
/// `do`, and `:` closes a label or a ternary.
pub open spec fn closes_context(kind: TokenKind, innermost: Option<Context>) -> bool {
    match kind {
        TokenKind::Keyword(Keyword::While) => innermost == Some(Context::Do),
        TokenKind::Punct(Punct::CloseBracket) | TokenKind::Punct(Punct::CloseParen)
        | TokenKind::Punct(Punct::CloseBrace) => true,
        TokenKind::Punct(Punct::Colon) => innermost == Some(Context::Case) || innermost == Some(
            Context::Default,
        ) || innermost == Some(Context::Ternary),
        _ => false,
    }
}

/// Whether `token` closes the innermost construct of `stack`.
pub fn should_pop_stack(token: TokenKind, stack: &Vec<Context>) -> (r: bool)
    ensures
        r == closes_context(token, top(stack@)),
{
    match token {
        TokenKind::Keyword(Keyword::While) => match top_token(stack) {
            Some(Context::Do) => true,
            _ => false,
        },
        TokenKind::Punct(Punct::CloseBracket)
        | TokenKind::Punct(Punct::CloseParen)
        | TokenKind::Punct(Punct::CloseBrace) => true,
        TokenKind::Punct(Punct::Colon) => match top_token(stack) {
            Some(Context::Case) | Some(Context::Default) | Some(Context::Ternary) => true,
            _ => false,
        },
        _ => false,
    }
}

/// Whether the line ends after a token of category `kind`: after the `[` of
/// an array literal, after `{`, after a `;` or `,` that does not stand
/// directly inside parentheses, and after the `:` of a label.
pub open spec fn ends_line(kind: TokenKind, array_literal: bool, innermost: Option<Context>) -> bool {
    array_literal || match kind {
        TokenKind::Punct(Punct::SemiColon) | TokenKind::Punct(Punct::Comma) => innermost != Some(
            Context::Paren,
        ),
        TokenKind::Punct(Punct::OpenBrace) => true,
        TokenKind::Punct(Punct::Colon) => innermost == Some(Context::Case) || innermost == Some(
            Context::Default,
        ),
        _ => false,
    }
}

/// Whether the line ends after `token`.
pub fn is_line_delimiter(token: TokenKind, starts_array_literal: bool, stack: &Vec<Context>) -> (r:
    bool)
    ensures
        r == ends_line(token, starts_array_literal, top(stack@)),
{
    if starts_array_literal {
        return true;
    }
    match token {
        TokenKind::Punct(Punct::SemiColon) | TokenKind::Punct(Punct::Comma) => match top_token(
            stack,
        ) {
            Some(Context::Paren) => false,
            _ => true,
        },
        TokenKind::Punct(Punct::OpenBrace) => true,
        TokenKind::Punct(Punct::Colon) => match top_token(stack) {
            Some(Context::Case) | Some(Context::Default) => true,
            _ => false,
        },
        _ => false,
    }
}

/// Whether what follows a token of category `kind` is indented one level
/// deeper.
pub open spec fn opens_indent(kind: TokenKind, array_literal: bool) -> bool {
    kind == TokenKind::Punct(Punct::OpenBrace) || kind == TokenKind::Keyword(Keyword::Switch)
        || array_literal
}

/// Whether what follows `token` is indented one level deeper.
pub fn increments_indent(token: TokenKind, starts_array_literal: bool) -> (r: bool)
    ensures
        r == opens_indent(token, starts_array_literal),
{
    match token {
        TokenKind::Punct(Punct::OpenBrace) | TokenKind::Keyword(Keyword::Switch) => true,
        _ => starts_array_literal,
    }
}

/// Whether a token of category `kind` stands one level less deep than what
/// came before it: a `}`, or the `]` of an array literal.
pub open spec fn closes_indent(kind: TokenKind, innermost: Option<Context>) -> bool {
    match kind {
        TokenKind::Punct(Punct::CloseBrace) => true,
        TokenKind::Punct(Punct::CloseBracket) => innermost == Some(
            Context::Bracket { array_literal: true },
        ),
        _ => false,
    }
}

/// Whether `token` stands one level less deep than what came before it.
pub fn decrements_indent(token: TokenKind, stack: &Vec<Context>) -> (r: bool)
    ensures
        r == closes_indent(token, top(stack@)),
{
    match token {
        TokenKind::Punct(Punct::CloseBrace) => true,
        TokenKind::Punct(Punct::CloseBracket) => match top_token(stack) {
            Some(Context::Bracket { array_literal }) => array_literal,
            _ => false,
        },
        _ => false,
    }
}

} // verus!

//! Tokens as the layout rules see them: a category, the text to write, and the
//! place the token had in the input.

use crate::source_map_generator::SourceCoord;
use crate::text::{chars_of, spells};
use vstd::prelude::*;

verus! {

/// The reserved words that some layout rule singles out. Every other reserved
/// word is `Other`.
#[derive(Clone, Copy, Debug, PartialEq, Eq, Structural)]
pub enum Keyword {
    Break,
    Case,
    Catch,
    Continue,
    Debugger,
    Default,
    Delete,
    Do,
    Else,
    Finally,
    For,
    In,
    InstanceOf,
    New,
    Return,
    Switch,
    This,
    TypeOf,
    Void,
    While,
    Yield,
    Other,
}

/// The punctuators that some layout rule singles out. Every other punctuator
/// is `Other`.
#[derive(Clone, Copy, Debug, PartialEq, Eq, Structural)]
pub enum Punct {
    Ampersand,
    AmpersandEqual,
    Asterisk,
    AsteriskEqual,
    Bang,
    BangDoubleEqual,
    BangEqual,
    Caret,
    CaretEqual,
    CloseBrace,
    CloseBracket,
    CloseParen,
    Colon,
    Comma,
    Dash,
    DashEqual,
    DoubleAmpersand,
    DoubleAsterisk,
    DoubleAsteriskEqual,
    DoubleDash,
    DoubleEqual,
    DoubleGreaterThan,
    DoubleGreaterThanEqual,
    DoubleLessThan,
    DoubleLessThanEqual,
    DoublePipe,
    DoublePlus,
    Equal,
    ForwardSlash,
    ForwardSlashEqual,
    GreaterThan,
    GreaterThanEqual,
    LessThan,
    LessThanEqual,
    OpenBrace,
    OpenBracket,
    OpenParen,
    Percent,
    PercentEqual,
    Period,
    Pipe,
    PipeEqual,
    Plus,
    PlusEqual,
    QuestionMark,
    SemiColon,
    Tilde,
    TripleEqual,
    TripleGreaterThan,
    TripleGreaterThanEqual,
    Other,
}

/// The four forms of comment.
#[derive(Clone, Copy, Debug, PartialEq, Eq, Structural)]
pub enum CommentKind {
    /// `// ...`
    Single,
    /// `/* ... */`
    Multi,
    /// `<!-- ... -->`
    Html,
    /// `#! ...`
    Hashbang,
}

/// The category of a token.
#[derive(Clone, Copy, Debug, PartialEq, Eq, Structural)]
pub enum TokenKind {
    Boolean,
    EoF,
    Ident,
    Keyword(Keyword),
    Null,
    Number,
    Punct(Punct),
    String,
    RegEx,
    Template,
    Comment(CommentKind),
}

/// One token of the input.
///
/// `text` is what the token looks like when written out. For a comment,
/// `content` is what stands between its delimiters; for every other token it is
/// empty. `start` and `end` are zero-based positions in the input.
#[derive(Clone, Debug, PartialEq, Eq)]
pub struct Token {
    pub kind: TokenKind,
    pub text: String,
    pub content: String,
    pub start: SourceCoord,
    pub end: SourceCoord,
}

/// The mathematical value of a [`Token`].
pub struct TokenView {
    pub kind: TokenKind,
    pub text: Seq<char>,
    pub content: Seq<char>,
    pub start: SourceCoord,
    pub end: SourceCoord,
}

impl DeepView for Token {
    type V = TokenView;

    open spec fn deep_view(&self) -> TokenView {
        TokenView {
            kind: self.kind,
            text: self.text@,
            content: self.content@,
            start: self.start,
            end: self.end,
        }
    }
}

impl View for Token {
    type V = TokenView;

    open spec fn view(&self) -> TokenView {
        self.deep_view()
    }
}

impl TokenView {
    /// Whether the text of this token is one that a token has when it is read
    /// from source text: it is not empty and does not end with a line feed.
    /// Nothing is asked of the end of the input, which has no text, nor of a
    /// block or HTML comment, which is written from its content.
    pub open spec fn is_lexeme(self) -> bool {
        match self.kind {
            TokenKind::EoF => true,
            TokenKind::Comment(CommentKind::Multi) | TokenKind::Comment(CommentKind::Html) => true,
            _ => self.text.len() > 0 && self.text.last() != '\n',
        }
    }
}

/// Whether every one of `tokens` has the text of a lexeme.
pub open spec fn all_lexemes(tokens: Seq<TokenView>) -> bool {
    forall|i: int| 0 <= i < tokens.len() ==> (#[trigger] tokens[i]).is_lexeme()
}

/// The reserved word that `text` spells, as far as the rules tell reserved
/// words apart.
pub open spec fn keyword_of(text: Seq<char>) -> Keyword {
    if text == "break"@ {
        Keyword::Break
    } else if text == "case"@ {
        Keyword::Case
    } else if text == "catch"@ {
        Keyword::Catch
    } else if text == "continue"@ {
        Keyword::Continue
    } else if text == "debugger"@ {
        Keyword::Debugger
    } else if text == "default"@ {
        Keyword::Default
    } else if text == "delete"@ {
        Keyword::Delete
    } else if text == "do"@ {
        Keyword::Do
    } else if text == "else"@ {
        Keyword::Else
    } else if text == "finally"@ {
        Keyword::Finally
    } else if text == "for"@ {
        Keyword::For
    } else if text == "in"@ {
        Keyword::In
    } else if text == "instanceof"@ {
        Keyword::InstanceOf
    } else if text == "new"@ {
        Keyword::New
    } else if text == "return"@ {
        Keyword::Return
    } else if text == "switch"@ {
        Keyword::Switch
    } else if text == "this"@ {
        Keyword::This
    } else if text == "typeof"@ {
        Keyword::TypeOf
    } else if text == "void"@ {
        Keyword::Void
    } else if text == "while"@ {
        Keyword::While
    } else if text == "yield"@ {
        Keyword::Yield
    } else {
        Keyword::Other
    }
}

/// The punctuator that `text` spells, as far as the rules tell punctuators
/// apart.
pub open spec fn punct_of(text: Seq<char>) -> Punct {
    if text == "&"@ {
        Punct::Ampersand
    } else if text == "&="@ {
        Punct::AmpersandEqual
    } else if text == "*"@ {
        Punct::Asterisk
    } else if text == "*="@ {
        Punct::AsteriskEqual
    } else if text == "!"@ {
        Punct::Bang
    } else if text == "!=="@ {
        Punct::BangDoubleEqual
    } else if text == "!="@ {
        Punct::BangEqual
    } else if text == "^"@ {
        Punct::Caret
    } else if text == "^="@ {
        Punct::CaretEqual
    } else if text == "}"@ {
        Punct::CloseBrace
    } else if text == "]"@ {
        Punct::CloseBracket
    } else if text == ")"@ {
        Punct::CloseParen
    } else if text == ":"@ {
        Punct::Colon
    } else if text == ","@ {
        Punct::Comma
    } else if text == "-"@ {
        Punct::Dash
    } else if text == "-="@ {
        Punct::DashEqual
    } else if text == "&&"@ {
        Punct::DoubleAmpersand
    } else if text == "**"@ {
        Punct::DoubleAsterisk
    } else if text == "**="@ {
        Punct::DoubleAsteriskEqual
    } else if text == "--"@ {
        Punct::DoubleDash
    } else if text == "=="@ {
        Punct::DoubleEqual
    } else if text == ">>"@ {
        Punct::DoubleGreaterThan
    } else if text == ">>="@ {
        Punct::DoubleGreaterThanEqual
    } else if text == "<<"@ {
        Punct::DoubleLessThan
    } else if text == "<<="@ {
        Punct::DoubleLessThanEqual
    } else if text == "||"@ {
        Punct::DoublePipe
    } else if text == "++"@ {
        Punct::DoublePlus
    } else if text == "="@ {
        Punct::Equal
    } else if text == "/"@ {
        Punct::ForwardSlash
    } else if text == "/="@ {
        Punct::ForwardSlashEqual
    } else if text == ">"@ {
        Punct::GreaterThan
    } else if text == ">="@ {
        Punct::GreaterThanEqual
    } else if text == "<"@ {
        Punct::LessThan
    } else if text == "<="@ {
        Punct::LessThanEqual
    } else if text == "{"@ {
        Punct::OpenBrace
    } else if text == "["@ {
        Punct::OpenBracket
    } else if text == "("@ {
        Punct::OpenParen
    } else if text == "%"@ {
        Punct::Percent
    } else if text == "%="@ {
        Punct::PercentEqual
    } else if text == "."@ {
        Punct::Period
    } else if text == "|"@ {
        Punct::Pipe
    } else if text == "|="@ {
        Punct::PipeEqual
    } else if text == "+"@ {
        Punct::Plus
    } else if text == "+="@ {
        Punct::PlusEqual
    } else if text == "?"@ {
        Punct::QuestionMark
    } else if text == ";"@ {
        Punct::SemiColon
    } else if text == "~"@ {
        Punct::Tilde
    } else if text == "==="@ {
        Punct::TripleEqual
    } else if text == ">>>"@ {
        Punct::TripleGreaterThan
    } else if text == ">>>="@ {
        Punct::TripleGreaterThanEqual
    } else {
        Punct::Other
    }
}

/// The reserved word that `text` spells.
pub fn keyword_from_text(text: &str) -> (keyword: Keyword)
    ensures
        keyword == keyword_of(text@),
{
    let chars = chars_of(text);
    if spells(&chars, "break") {
        Keyword::Break
    } else if spells(&chars, "case") {
        Keyword::Case
    } else if spells(&chars, "catch") {
        Keyword::Catch
    } else if spells(&chars, "continue") {
        Keyword::Continue
    } else if spells(&chars, "debugger") {
        Keyword::Debugger
    } else if spells(&chars, "default") {
        Keyword::Default
    } else if spells(&chars, "delete") {
        Keyword::Delete
    } else if spells(&chars, "do") {
        Keyword::Do
    } else if spells(&chars, "else") {
        Keyword::Else
    } else if spells(&chars, "finally") {
        Keyword::Finally
    } else if spells(&chars, "for") {
        Keyword::For
    } else if spells(&chars, "in") {
        Keyword::In
    } else if spells(&chars, "instanceof") {
        Keyword::InstanceOf
    } else if spells(&chars, "new") {
        Keyword::New
    } else if spells(&chars, "return") {
        Keyword::Return
    } else if spells(&chars, "switch") {
        Keyword::Switch
    } else if spells(&chars, "this") {
        Keyword::This
    } else if spells(&chars, "typeof") {
        Keyword::TypeOf
    } else if spells(&chars, "void") {
        Keyword::Void
    } else if spells(&chars, "while") {
        Keyword::While
    } else if spells(&chars, "yield") {
        Keyword::Yield
    } else {
        Keyword::Other
    }
}

/// The punctuator that `text` spells.
pub fn punct_from_text(text: &str) -> (punct: Punct)
    ensures
        punct == punct_of(text@),
{
    let chars = chars_of(text);
    if spells(&chars, "&") {
        Punct::Ampersand
    } else if spells(&chars, "&=") {
        Punct::AmpersandEqual
    } else if spells(&chars, "*") {
        Punct::Asterisk
    } else if spells(&chars, "*=") {
        Punct::AsteriskEqual
    } else if spells(&chars, "!") {
        Punct::Bang
    } else if spells(&chars, "!==") {
        Punct::BangDoubleEqual
    } else if spells(&chars, "!=") {
        Punct::BangEqual
    } else if spells(&chars, "^") {
        Punct::Caret
    } else if spells(&chars, "^=") {
        Punct::CaretEqual
    } else if spells(&chars, "}") {
        Punct::CloseBrace
    } else if spells(&chars, "]") {
        Punct::CloseBracket
    } else if spells(&chars, ")") {
        Punct::CloseParen
    } else if spells(&chars, ":") {
        Punct::Colon
    } else if spells(&chars, ",") {
        Punct::Comma
    } else if spells(&chars, "-") {
        Punct::Dash
    } else if spells(&chars, "-=") {
        Punct::DashEqual
    } else if spells(&chars, "&&") {
        Punct::DoubleAmpersand
    } else if spells(&chars, "**") {
        Punct::DoubleAsterisk
    } else if spells(&chars, "**=") {
        Punct::DoubleAsteriskEqual
    } else if spells(&chars, "--") {
        Punct::DoubleDash
    } else if spells(&chars, "==") {
        Punct::DoubleEqual
    } else if spells(&chars, ">>") {
        Punct::DoubleGreaterThan
    } else if spells(&chars, ">>=") {
        Punct::DoubleGreaterThanEqual
    } else if spells(&chars, "<<") {
        Punct::DoubleLessThan
    } else if spells(&chars, "<<=") {
        Punct::DoubleLessThanEqual
    } else if spells(&chars, "||") {
        Punct::DoublePipe
    } else if spells(&chars, "++") {
        Punct::DoublePlus
    } else if spells(&chars, "=") {
        Punct::Equal
    } else if spells(&chars, "/") {
        Punct::ForwardSlash
    } else if spells(&chars, "/=") {
        Punct::ForwardSlashEqual
    } else if spells(&chars, ">") {
        Punct::GreaterThan
    } else if spells(&chars, ">=") {
        Punct::GreaterThanEqual
    } else if spells(&chars, "<") {
        Punct::LessThan
    } else if spells(&chars, "<=") {
        Punct::LessThanEqual
    } else if spells(&chars, "{") {
        Punct::OpenBrace
    } else if spells(&chars, "[") {
        Punct::OpenBracket
    } else if spells(&chars, "(") {
        Punct::OpenParen
    } else if spells(&chars, "%") {
        Punct::Percent
    } else if spells(&chars, "%=") {
        Punct::PercentEqual
    } else if spells(&chars, ".") {
        Punct::Period
    } else if spells(&chars, "|") {
        Punct::Pipe
    } else if spells(&chars, "|=") {
        Punct::PipeEqual
    } else if spells(&chars, "+") {
        Punct::Plus
    } else if spells(&chars, "+=") {
        Punct::PlusEqual
    } else if spells(&chars, "?") {
        Punct::QuestionMark
    } else if spells(&chars, ";") {
        Punct::SemiColon
    } else if spells(&chars, "~") {
        Punct::Tilde
    } else if spells(&chars, "===") {
        Punct::TripleEqual
    } else if spells(&chars, ">>>") {
        Punct::TripleGreaterThan
    } else if spells(&chars, ">>>=") {
        Punct::TripleGreaterThanEqual
    } else {
        Punct::Other
    }
}

} // verus!

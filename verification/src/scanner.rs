//! The way from input text to tokens. The scanning itself is the work of the
//! `ress` crate; what it reports is brought into the library's own types here.

use crate::source_map_generator::{SourceCoord, SourceMapColumn, SourceMapLine};
use crate::text::chars_of;
use crate::token::{
    all_lexemes, keyword_from_text, keyword_of, punct_from_text, punct_of, CommentKind, Token,
    TokenKind, TokenView,
};
use vstd::prelude::*;

verus! {

/// `ress::Item`: one token of the scanner with its place in the text. Nothing
/// is known of what it holds; the functions below read it.
#[verifier::external_type_specification]
#[verifier::external_body]
#[verifier::reject_recursive_types(T)]
pub struct ExItem<T>(ress::Item<T>);

/// `ress::error::Error`: what the scanner yields where it cannot read a
/// token. Nothing is known of what it holds, and nothing of it is read.
#[verifier::external_type_specification]
#[verifier::external_body]
pub struct ExError(ress::error::Error);

/// The classes of lexeme that the scanner tells apart.
#[derive(Clone, Copy, Debug, PartialEq, Eq, Structural)]
pub enum LexemeClass {
    Boolean,
    EoF,
    Ident,
    Keyword,
    Null,
    Number,
    Punct,
    String,
    RegEx,
    Template,
    Comment,
}

/// What the scanner reports of one lexeme: its class, its text, and where it
/// stood. Lines and columns count from one. For a comment, `comment` is its
/// form and `content` what stands between its delimiters.
#[derive(Clone, Debug, PartialEq, Eq)]
pub struct Lexeme {
    pub class: LexemeClass,
    pub comment: Option<CommentKind>,
    pub text: String,
    pub content: String,
    pub start_line: usize,
    pub start_column: usize,
    pub end_line: usize,
    pub end_column: usize,
}

/// The mathematical value of a [`Lexeme`].
pub struct LexemeView {
    pub class: LexemeClass,
    pub comment: Option<CommentKind>,
    pub text: Seq<char>,
    pub content: Seq<char>,
    pub start_line: usize,
    pub start_column: usize,
    pub end_line: usize,
    pub end_column: usize,
}

impl DeepView for Lexeme {
    type V = LexemeView;

    open spec fn deep_view(&self) -> LexemeView {
        LexemeView {
            class: self.class,
            comment: self.comment,
            text: self.text@,
            content: self.content@,
            start_line: self.start_line,
            start_column: self.start_column,
            end_line: self.end_line,
            end_column: self.end_column,
        }
    }
}

impl View for Lexeme {
    type V = LexemeView;

    open spec fn view(&self) -> LexemeView {
        self.deep_view()
    }
}

impl LexemeView {
    /// What the scanner reports of a lexeme, put in order: `comment` and
    /// `content` as reported for a comment, and none and empty for every
    /// other lexeme, whatever was reported. `location` is the start line, the
    /// start column, the end line and the end column.
    pub open spec fn assembled(
        class: LexemeClass,
        comment: Option<CommentKind>,
        text: Seq<char>,
        content: Seq<char>,
        location: (usize, usize, usize, usize),
    ) -> LexemeView {
        LexemeView {
            class,
            comment: if class == LexemeClass::Comment {
                comment
            } else {
                None
            },
            text,
            content: if class == LexemeClass::Comment {
                content
            } else {
                Seq::empty()
            },
            start_line: location.0,
            start_column: location.1,
            end_line: location.2,
            end_column: location.3,
        }
    }

    /// Whether only a comment has a form and a content.
    pub open spec fn is_consistent(self) -> bool {
        self.class != LexemeClass::Comment ==> self.comment is None && self.content
            == Seq::<char>::empty()
    }
}

/// Puts a lexeme together from what the scanner reports of it. A form and a
/// content are kept for a comment alone.
pub fn make_lexeme(
    class: LexemeClass,
    comment: Option<CommentKind>,
    text: String,
    content: String,
    location: (usize, usize, usize, usize),
) -> (lexeme: Lexeme)
    ensures
        lexeme@ == LexemeView::assembled(class, comment, text@, content@, location),
        lexeme@.is_consistent(),
{
    match class {
        LexemeClass::Comment => Lexeme {
            class,
            comment,
            text,
            content,
            start_line: location.0,
            start_column: location.1,
            end_line: location.2,
            end_column: location.3,
        },
        _ => Lexeme {
            class,
            comment: None,
            text,
            content: String::new(),
            start_line: location.0,
            start_column: location.1,
            end_line: location.2,
            end_column: location.3,
        },
    }
}

/// Which variant of `ress::tokens::Token` the item holds. Nothing is claimed
/// of the result.
#[verifier::external_body]
fn item_class(item: &ress::Item<&str>) -> LexemeClass {
    match &item.token {
        ress::tokens::Token::Boolean(_) => LexemeClass::Boolean,
        ress::tokens::Token::EoF => LexemeClass::EoF,
        ress::tokens::Token::Ident(_) => LexemeClass::Ident,
        ress::tokens::Token::Keyword(_) => LexemeClass::Keyword,
        ress::tokens::Token::Null => LexemeClass::Null,
        ress::tokens::Token::Number(_) => LexemeClass::Number,
        ress::tokens::Token::Punct(_) => LexemeClass::Punct,
        ress::tokens::Token::String(_) => LexemeClass::String,
        ress::tokens::Token::RegEx(_) => LexemeClass::RegEx,
        ress::tokens::Token::Template(_) => LexemeClass::Template,
        ress::tokens::Token::Comment(_) => LexemeClass::Comment,
    }
}

/// The `kind` of the item's `ress::tokens::Comment`, if the item is a comment.
/// Nothing is claimed of the result.
#[verifier::external_body]
fn item_comment_kind(item: &ress::Item<&str>) -> Option<CommentKind> {
    match &item.token {
        ress::tokens::Token::Comment(comment) => Some(
            match comment.kind {
                ress::tokens::CommentKind::Single => CommentKind::Single,
                ress::tokens::CommentKind::Multi => CommentKind::Multi,
                ress::tokens::CommentKind::Html => CommentKind::Html,
                ress::tokens::CommentKind::Hashbang => CommentKind::Hashbang,
            },
        ),
        _ => None,
    }
}

/// The item's token as `ress::tokens::Token::to_string` writes it. Nothing is
/// claimed of the result.
#[verifier::external_body]
fn item_text(item: &ress::Item<&str>) -> String {
    item.token.to_string()
}

/// The `content` of the item's `ress::tokens::Comment`; empty if the item is
/// no comment. Nothing is claimed of the result.
#[verifier::external_body]
fn item_content(item: &ress::Item<&str>) -> String {
    match &item.token {
        ress::tokens::Token::Comment(comment) => comment.content.to_string(),
        _ => String::new(),
    }
}

/// The item's `location`: start line, start column, end line, end column, as
/// `ress` counts them. Nothing is claimed of the result.
#[verifier::external_body]
fn item_location(item: &ress::Item<&str>) -> (usize, usize, usize, usize) {
    let location = &item.location;
    (location.start.line, location.start.column, location.end.line, location.end.column)
}

/// Brings one item of the scanner into the library's own type: reads what
/// the item holds and puts it together as [`make_lexeme`] does. Of what the
/// item holds nothing is known; whatever it is, only a comment gets a form and
/// a content.
fn lexeme_of(item: &ress::Item<&str>) -> (lexeme: Lexeme)
    ensures
        lexeme@.is_consistent(),
{
    make_lexeme(
        item_class(item),
        item_comment_kind(item),
        item_text(item),
        item_content(item),
        item_location(item),
    )
}

/// Brings one step of the scanner into the library's own type: a lexeme where
/// the scanner read one, and nothing where it could not.
fn scanned_lexeme(step: Result<ress::Item<&str>, ress::error::Error>) -> (lexeme: Option<Lexeme>)
    ensures
        lexeme is Some <==> step is Ok,
        lexeme matches Some(l) ==> l@.is_consistent(),
{
    match step {
        Ok(item) => Some(lexeme_of(&item)),
        Err(_) => None,
    }
}

/// Whether `word` stands in `text` at `i`.
pub open spec fn stands_at(text: Seq<char>, i: int, word: Seq<char>) -> bool {
    0 <= i && i + word.len() <= text.len() && text.subrange(i, i + word.len()) == word
}

/// Whether `c` is a hexadecimal digit.
pub open spec fn is_hex_digit(c: char) -> bool {
    let code = c as u32;
    ||| '0' as u32 <= code <= '9' as u32
    ||| 'a' as u32 <= code <= 'f' as u32
    ||| 'A' as u32 <= code <= 'F' as u32
}

/// How many hexadecimal digits stand in `text` from `from` on, counted up to
/// `limit`.
pub open spec fn hex_run(text: Seq<char>, from: int, limit: nat) -> nat
    decreases limit,
{
    if limit == 0 || from < 0 || from >= text.len() || !is_hex_digit(text[from]) {
        0
    } else {
        1 + hex_run(text, from + 1, (limit - 1) as nat)
    }
}

/// Whether a `}` or a backtick stands in `text` at `from` or later.
pub open spec fn closes_from(text: Seq<char>, from: int) -> bool
    decreases text.len() - from,
{
    if from < 0 || from >= text.len() {
        false
    } else {
        text[from] == '}' || text[from] == '`' || closes_from(text, from + 1)
    }
}

/// Whether the scanner can take the code point escape that begins in `text`
/// at `i` with `\u{`: at most eight hexadecimal digits follow directly, and a
/// `}` or a backtick stands somewhere behind.
pub open spec fn escape_is_closed(text: Seq<char>, i: int) -> bool {
    hex_run(text, i + 3, 9) <= 8 && closes_from(text, i + 3)
}

/// Whether the character at `i` of `text` is a backslash directly before a
/// character above U+007F.
pub open spec fn escapes_wide(text: Seq<char>, i: int) -> bool {
    0 <= i && i + 1 < text.len() && text[i] == '\\' && text[i + 1] as u32 > 0x7f
}

/// The texts that the scanner is known to take. Left out are the texts on
/// which `ress` is known to panic or not to come to an end, and some more that
/// look like them:
/// - those that hold `<!-->` or `<!--->`: the scanner cuts an HTML comment
///   behind its end;
/// - those that hold `\u{` with nine or more hexadecimal digits directly
///   behind it, which overflow the code point, or with no `}` and no backtick
///   anywhere behind it, which a template never gets past;
/// - those that hold a backslash directly before a character above U+007F:
///   in a regular expression the scanner goes on inside that character and
///   reads what the text does not hold.
pub open spec fn scannable(text: Seq<char>) -> bool {
    forall|i: int|
        #![trigger text[i]]
        0 <= i < text.len() ==> {
            &&& !stands_at(text, i, seq!['<', '!', '-', '-', '>'])
            &&& !stands_at(text, i, seq!['<', '!', '-', '-', '-', '>'])
            &&& stands_at(text, i, seq!['\\', 'u', '{']) ==> escape_is_closed(text, i)
            &&& !escapes_wide(text, i)
        }
}

/// Whether formatting lays out `text` token by token: the text is empty, or
/// the scanner is known to take it and every token that it reads is a lexeme.
pub open spec fn is_read(text: Seq<char>) -> bool {
    text.len() == 0 || (scannable(text) && all_lexemes(tokens_of(scanned(text))))
}

/// The tokens that formatting lays out for `text`: those that the scanner
/// reads, if the text is laid out token by token and is not empty; none for
/// any other text. The empty text holds no token, and the scanner is not
/// asked about it.
pub open spec fn source_tokens(text: Seq<char>) -> Seq<TokenView> {
    if text.len() > 0 && is_read(text) {
        tokens_of(scanned(text))
    } else {
        Seq::empty()
    }
}

/// What `ress::Scanner` yields for `source`, one entry for each step: the
/// lexeme that it read, or `None` where it failed to read one.
pub uninterp spec fn scanned(source: Seq<char>) -> Seq<Option<LexemeView>>;

/// Runs `ress::Scanner` over `source` to its end and collects what each step
/// yields. The scanner looks at nothing but the text, so that the same text
/// always gives the same lexemes: the contract gives them a name, and says
/// nothing else of them. That the scanner comes to an end and does not panic
/// is not proved: the texts on which it is known to fail are among those that
/// `requires` leaves out, and of the others no failure is known.
#[verifier::external_body]
fn scan(source: &str) -> (lexemes: Vec<Option<Lexeme>>)
    requires
        scannable(source@),
    ensures
        lexemes.deep_view() == scanned(source@),
{
    ress::Scanner::new(source).map(scanned_lexeme).collect()
}

/// The zero-based index that the scanner's one-based `n` stands for. Outside
/// what the scanner reports, the result stays within range: 0 stays 0, and an
/// index beyond `u32::MAX` becomes `u32::MAX`.
pub open spec fn zero_based(n: usize) -> u32 {
    if n == 0 {
        0
    } else if n - 1 > u32::MAX {
        u32::MAX
    } else {
        (n - 1) as u32
    }
}

/// The coordinate that the scanner's one-based `line` and `column` stand for.
pub open spec fn position(line: usize, column: usize) -> SourceCoord {
    SourceCoord {
        line: SourceMapLine(zero_based(line)),
        column: SourceMapColumn(zero_based(column)),
    }
}

/// The category of a lexeme. A reserved word or a punctuator is told from its
/// text. A comment whose form is not given counts as a block comment.
pub open spec fn kind_of(class: LexemeClass, comment: Option<CommentKind>, text: Seq<char>) -> TokenKind {
    match class {
        LexemeClass::Boolean => TokenKind::Boolean,
        LexemeClass::EoF => TokenKind::EoF,
        LexemeClass::Ident => TokenKind::Ident,
        LexemeClass::Keyword => TokenKind::Keyword(keyword_of(text)),
        LexemeClass::Null => TokenKind::Null,
        LexemeClass::Number => TokenKind::Number,
        LexemeClass::Punct => TokenKind::Punct(punct_of(text)),
        LexemeClass::String => TokenKind::String,
        LexemeClass::RegEx => TokenKind::RegEx,
        LexemeClass::Template => TokenKind::Template,
        LexemeClass::Comment => TokenKind::Comment(
            match comment {
                Some(kind) => kind,
                None => CommentKind::Multi,
            },
        ),
    }
}

/// The token that a lexeme becomes.
pub open spec fn token_of(lexeme: LexemeView) -> TokenView {
    TokenView {
        kind: kind_of(lexeme.class, lexeme.comment, lexeme.text),
        text: lexeme.text,
        content: lexeme.content,
        start: position(lexeme.start_line, lexeme.start_column),
        end: position(lexeme.end_line, lexeme.end_column),
    }
}

/// The tokens that the steps of a scan become: each lexeme that was read, in
/// order. Steps at which nothing was read leave no trace.
pub open spec fn tokens_of(steps: Seq<Option<LexemeView>>) -> Seq<TokenView>
    decreases steps.len(),
{
    if steps.len() == 0 {
        Seq::empty()
    } else {
        let before = tokens_of(steps.drop_last());
        match steps.last() {
            Some(lexeme) => before.push(token_of(lexeme)),
            None => before,
        }
    }
}

fn zero_based_index(n: usize) -> (index: u32)
    ensures
        index == zero_based(n),
{
    if n == 0 {
        0
    } else if n - 1 > 0xffff_ffff {
        u32::MAX
    } else {
        (n - 1) as u32
    }
}

/// Turns a one-based position of the scanner into a coordinate.
pub fn convert_position(line: usize, column: usize) -> (coord: SourceCoord)
    ensures
        coord == position(line, column),
{
    SourceCoord {
        line: SourceMapLine(zero_based_index(line)),
        column: SourceMapColumn(zero_based_index(column)),
    }
}

/// Turns a lexeme of the scanner into a token.
pub fn convert_token(lexeme: &Lexeme) -> (token: Token)
    ensures
        token@ == token_of(lexeme@),
{
    let kind = match lexeme.class {
        LexemeClass::Boolean => TokenKind::Boolean,
        LexemeClass::EoF => TokenKind::EoF,
        LexemeClass::Ident => TokenKind::Ident,
        LexemeClass::Keyword => TokenKind::Keyword(keyword_from_text(lexeme.text.as_str())),
        LexemeClass::Null => TokenKind::Null,
        LexemeClass::Number => TokenKind::Number,
        LexemeClass::Punct => TokenKind::Punct(punct_from_text(lexeme.text.as_str())),
        LexemeClass::String => TokenKind::String,
        LexemeClass::RegEx => TokenKind::RegEx,
        LexemeClass::Template => TokenKind::Template,
        LexemeClass::Comment => TokenKind::Comment(
            match lexeme.comment {
                Some(kind) => kind,
                None => CommentKind::Multi,
            },
        ),
    };
    Token {
        kind,
        text: lexeme.text.clone(),
        content: lexeme.content.clone(),
        start: convert_position(lexeme.start_line, lexeme.start_column),
        end: convert_position(lexeme.end_line, lexeme.end_column),
    }
}

/// Turns the steps of a scan into tokens, leaving out the steps at which
/// nothing was read.
pub fn convert_tokens(steps: &Vec<Option<Lexeme>>) -> (tokens: Vec<Token>)
    ensures
        tokens.deep_view() == tokens_of(steps.deep_view()),
{
    let mut tokens: Vec<Token> = Vec::new();
    let mut i: usize = 0;
    while i < steps.len()
        invariant
            i <= steps@.len(),
            tokens.deep_view() == tokens_of(steps.deep_view().take(i as int)),
        decreases steps@.len() - i,
    {
        proof {
            let upto = steps.deep_view().take(i + 1);
            assert(upto.drop_last() =~= steps.deep_view().take(i as int));
        }
        match &steps[i] {
            Some(lexeme) => {
                let token = convert_token(lexeme);
                tokens.push(token);
            },
            None => {},
        }
        i += 1;
    }
    proof {
        assert(steps.deep_view().take(i as int) =~= steps.deep_view());
    }
    tokens
}

/// Whether `word` stands in `chars` at `i`.
fn found_at(chars: &Vec<char>, i: usize, word: &str) -> (r: bool)
    requires
        i <= chars@.len(),
    ensures
        r == stands_at(chars@, i as int, word@),
{
    let mut same = true;
    let mut n: usize = 0;
    for c in it: word.chars()
        invariant
            it.seq() == word@,
            i + n <= chars@.len(),
            same ==> n == it.index() && chars@.subrange(i as int, i + n) =~= word@.take(n as int),
            !same ==> !stands_at(chars@, i as int, word@),
    {
        if same {
            if n < chars.len() - i && chars[i + n] == c {
                n += 1;
            } else {
                same = false;
            }
        }
    }
    proof {
        assert(word@.take(word@.len() as int) =~= word@);
    }
    same
}

/// Whether `c` is a hexadecimal digit.
fn hex_digit(c: char) -> (r: bool)
    ensures
        r == is_hex_digit(c),
{
    let code = c as u32;
    ('0' as u32 <= code && code <= '9' as u32) || ('a' as u32 <= code && code <= 'f' as u32) || (
    'A' as u32 <= code && code <= 'F' as u32)
}

/// Whether the scanner can take the code point escape that begins in `chars`
/// at `i`.
fn closed_escape(chars: &Vec<char>, i: usize) -> (r: bool)
    requires
        i + 3 <= chars@.len(),
    ensures
        r == escape_is_closed(chars@, i as int),
{
    let mut digits: usize = 0;
    while digits < 9 && digits < chars.len() - (i + 3) && hex_digit(chars[i + 3 + digits])
        invariant
            digits <= 9,
            i + 3 + digits <= chars@.len(),
            hex_run(chars@, i + 3, 9) == digits + hex_run(
                chars@,
                i + 3 + digits,
                (9 - digits) as nat,
            ),
        decreases 9 - digits,
    {
        digits += 1;
    }
    if digits > 8 {
        return false;
    }
    assert(hex_run(chars@, i + 3, 9) == digits);
    let mut k: usize = i + 3;
    while k < chars.len()
        invariant
            i + 3 <= k <= chars@.len(),
            hex_run(chars@, i + 3, 9) <= 8,
            closes_from(chars@, i + 3) == closes_from(chars@, k as int),
        decreases chars@.len() - k,
    {
        if chars[k] == '}' || chars[k] == '`' {
            assert(closes_from(chars@, k as int));
            return true;
        }
        assert(closes_from(chars@, k as int) == closes_from(chars@, k + 1));
        k += 1;
    }
    assert(!closes_from(chars@, k as int));
    false
}

/// Whether `source` is a text that the scanner is known to take.
pub fn is_scannable(source: &str) -> (r: bool)
    ensures
        r == scannable(source@),
{
    proof {
        reveal_strlit("<!-->");
        reveal_strlit("<!--->");
        reveal_strlit("\\u{");
    }
    let chars = chars_of(source);
    let mut i: usize = 0;
    while i < chars.len()
        invariant
            i <= chars@.len(),
            chars@ == source@,
            "<!-->"@ == seq!['<', '!', '-', '-', '>'],
            "<!--->"@ == seq!['<', '!', '-', '-', '-', '>'],
            "\\u{"@ == seq!['\\', 'u', '{'],
            forall|j: int|
                #![trigger chars@[j]]
                0 <= j < i ==> {
                    &&& !stands_at(chars@, j, seq!['<', '!', '-', '-', '>'])
                    &&& !stands_at(chars@, j, seq!['<', '!', '-', '-', '-', '>'])
                    &&& stands_at(chars@, j, seq!['\\', 'u', '{']) ==> escape_is_closed(chars@, j)
                    &&& !escapes_wide(chars@, j)
                },
        decreases chars@.len() - i,
    {
        if found_at(&chars, i, "<!-->") || found_at(&chars, i, "<!--->") {
            return false;
        }
        if found_at(&chars, i, "\\u{") && !closed_escape(&chars, i) {
            return false;
        }
        if chars[i] == '\\' && i + 1 < chars.len() && chars[i + 1] as u32 > 0x7f {
            return false;
        }
        i += 1;
    }
    true
}

/// Whether the text of `token` is that of a lexeme.
pub fn has_lexeme_text(token: &Token) -> (r: bool)
    ensures
        r == token@.is_lexeme(),
{
    match token.kind {
        TokenKind::EoF => true,
        TokenKind::Comment(CommentKind::Multi) | TokenKind::Comment(CommentKind::Html) => true,
        _ => {
            let chars = chars_of(token.text.as_str());
            chars.len() > 0 && chars[chars.len() - 1] != '\n'
        },
    }
}

/// Whether every one of `tokens` has the text of a lexeme.
pub fn are_lexemes(tokens: &Vec<Token>) -> (r: bool)
    ensures
        r == all_lexemes(tokens.deep_view()),
{
    let mut i: usize = 0;
    while i < tokens.len()
        invariant
            i <= tokens@.len(),
            forall|j: int| 0 <= j < i ==> (#[trigger] tokens.deep_view()[j]).is_lexeme(),
        decreases tokens@.len() - i,
    {
        if !has_lexeme_text(&tokens[i]) {
            assert(!tokens.deep_view()[i as int].is_lexeme());
            return false;
        }
        i += 1;
    }
    true
}

/// Scans `source` into the tokens that formatting lays out, if the text is
/// laid out token by token: those that the scanner reads, without what it
/// cannot read, and none for the empty text. Returns `None` for a text that
/// the scanner is not known to take, and for one in which the scanner reads a
/// token whose text is no lexeme.
pub fn try_tokenize(source: &str) -> (r: Option<Vec<Token>>)
    ensures
        r is Some <==> is_read(source@),
        r matches Some(tokens) ==> tokens.deep_view() == source_tokens(source@) && all_lexemes(
            tokens.deep_view(),
        ),
{
    if source.is_empty() {
        let none: Vec<Token> = Vec::new();
        assert(none.deep_view() =~= Seq::<TokenView>::empty());
        return Some(none);
    }
    if !is_scannable(source) {
        return None;
    }
    let steps = scan(source);
    let tokens = convert_tokens(&steps);
    if are_lexemes(&tokens) {
        Some(tokens)
    } else {
        None
    }
}

/// Scans `source` into the tokens that formatting lays out: those that
/// [`try_tokenize`] returns, and none where it returns `None`.
pub fn tokenize(source: &str) -> (tokens: Vec<Token>)
    ensures
        tokens.deep_view() == source_tokens(source@),
        all_lexemes(tokens.deep_view()),
{
    match try_tokenize(source) {
        Some(tokens) => tokens,
        None => {
            let none: Vec<Token> = Vec::new();
            assert(none.deep_view() =~= Seq::<TokenView>::empty());
            none
        },
    }
}

} // verus!

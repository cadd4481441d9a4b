//! Coordinates, correspondences, and the source-map encoder.

use vstd::prelude::*;
use vstd::string::StringExecFns;

verus! {

/// Zero-based line number.
#[derive(Copy, Clone, Debug, PartialEq, Eq, PartialOrd, Ord, Structural)]
pub struct SourceMapLine(pub u32);

/// Zero-based column number, in UTF-16 code units.
#[derive(Copy, Clone, Debug, PartialEq, Eq, PartialOrd, Ord, Structural)]
pub struct SourceMapColumn(pub u32);

/// A line and a column.
#[derive(Copy, Clone, Debug, PartialEq, Eq, PartialOrd, Ord, Structural)]
pub struct SourceCoord {
    pub line: SourceMapLine,
    pub column: SourceMapColumn,
}

/// Two points that correspond: `from` lies in the formatted text, `to` in the
/// text that was formatted.
#[derive(Copy, Clone, Debug, PartialEq, Eq, Structural)]
pub struct SourceMapping {
    pub from: SourceCoord,
    pub to: SourceCoord,
}

/// The base64 alphabet of the source-map format, in digit order.
pub open spec fn base64_alphabet() -> Seq<char> {
    "ABCDEFGHIJKLMNOPQRSTUVWXYZabcdefghijklmnopqrstuvwxyz0123456789+/"@
}

/// The character that stands for the six-bit digit `d`.
pub open spec fn base64_digit(d: int) -> char
    recommends
        0 <= d < 64,
{
    base64_alphabet()[d]
}

/// Encodes one six-bit digit.
pub fn encode_digit(value: u8) -> (c: char)
    requires
        value < 64,
    ensures
        c == base64_digit(value as int),
{
    proof {
        reveal_strlit("ABCDEFGHIJKLMNOPQRSTUVWXYZabcdefghijklmnopqrstuvwxyz0123456789+/");
    }
    let b: u8 = if value <= 25 {
        'A' as u8 + value
    } else if value <= 51 {
        'a' as u8 + (value - 26)
    } else if value <= 61 {
        '0' as u8 + (value - 52)
    } else if value == 62 {
        '+' as u8
    } else {
        '/' as u8
    };
    b as char
}

/// The unsigned number that stands for `value` in a variable-length quantity:
/// the magnitude shifted left by one, with the sign in the lowest bit.
pub open spec fn vlq_magnitude(value: int) -> nat {
    if value >= 0 {
        (2 * value) as nat
    } else {
        (2 * (-value) + 1) as nat
    }
}

/// The digits of `m`, five bits to a digit, the lowest five first. Every
/// digit but the last has its sixth bit set.
pub open spec fn vlq_digits(m: nat) -> Seq<char>
    decreases m,
{
    if m < 32 {
        seq![base64_digit(m as int)]
    } else {
        seq![base64_digit((32 + m % 32) as int)] + vlq_digits(m / 32)
    }
}

/// The variable-length quantity that encodes `value`.
pub open spec fn vlq(value: int) -> Seq<char> {
    vlq_digits(vlq_magnitude(value))
}

/// Appends the variable-length quantity that encodes `value`. This holds of
/// every `value`, the least one included, whose magnitude does not fit in 64
/// bits.
pub fn write_vlq(value: i64, output: &mut String)
    ensures
        final(output)@ == old(output)@ + vlq(value as int),
{
    let mut val: u64 = if value >= 0 {
        let magnitude = value as u64;
        assert(magnitude << 1 == 2 * magnitude) by (bit_vector)
            requires
                magnitude < 0x8000_0000_0000_0000,
        ;
        magnitude << 1
    } else if value == i64::MIN {
        // The magnitude does not fit in 64 bits: its lowest digit is written
        // here, and what is left of it fits.
        output.push(encode_digit(33));
        assert(1u64 << 59 == 0x0800_0000_0000_0000) by (bit_vector);
        1 << 59
    } else {
        let magnitude = (-value) as u64;
        assert((magnitude << 1) + 1 == 2 * magnitude + 1) by (bit_vector)
            requires
                magnitude < 0x8000_0000_0000_0000,
        ;
        (magnitude << 1) + 1
    };
    loop
        invariant_except_break
            output@ + vlq_digits(val as nat) == old(output)@ + vlq(value as int),
        ensures
            output@ == old(output)@ + vlq(value as int),
        decreases val,
    {
        let low: u8 = (val & 31) as u8;
        let rest = val >> 5;
        assert(val & 31 == val % 32 && val >> 5 == val / 32) by (bit_vector);
        let ghost before = output@;
        if rest > 0 {
            assert(low | 32 == low + 32) by (bit_vector)
                requires
                    low < 32,
            ;
            output.push(encode_digit(low | 32));
            val = rest;
        } else {
            output.push(encode_digit(low));
            break ;
        }
    }
}

/// How far the encoder has come: the text so far, and the values of the
/// segment before, which the next segment is measured from.
pub struct EncoderView {
    /// The text written so far.
    pub text: Seq<char>,
    /// The line of `to` that the text has reached.
    pub to_line: u32,
    /// The column of `to` in the segment before; 0 at the start of a line.
    pub to_column: u32,
    /// The line of `from` in the segment before.
    pub from_line: u32,
    /// The column of `from` in the segment before.
    pub from_column: u32,
}

/// `n` semicolons.
pub open spec fn semicolons(n: nat) -> Seq<char> {
    Seq::new(n, |i: int| ';')
}

impl EncoderView {
    /// The encoder before the first correspondence.
    pub open spec fn new() -> EncoderView {
        EncoderView { text: Seq::empty(), to_line: 0, to_column: 0, from_line: 0, from_column: 0 }
    }

    /// Whether `m` lies on a later line of `to` than the text has reached.
    pub open spec fn opens_line(self, m: SourceMapping) -> bool {
        self.to_line < m.to.line.0
    }

    /// What separates the segment of `m` from the text so far: one `;` for
    /// each line that `m` lies further down; else a `,`, unless the text is
    /// empty.
    pub open spec fn separator(self, m: SourceMapping) -> Seq<char> {
        if self.opens_line(m) {
            semicolons((m.to.line.0 - self.to_line) as nat)
        } else if self.text.len() > 0 {
            seq![',']
        } else {
            Seq::empty()
        }
    }

    /// The segment of `m`: four quantities, each the difference to the
    /// segment before. They are the column of `to`, counted anew on each
    /// line; the index of the source, which is always 0; the line of `from`;
    /// and the column of `from`.
    pub open spec fn segment(self, m: SourceMapping) -> Seq<char> {
        let column_before = if self.opens_line(m) {
            0
        } else {
            self.to_column as int
        };
        vlq(m.to.column.0 - column_before) + vlq(0) + vlq(m.from.line.0 - self.from_line) + vlq(
            m.from.column.0 - self.from_column,
        )
    }

    /// The encoder after `m`.
    pub open spec fn add(self, m: SourceMapping) -> EncoderView {
        EncoderView {
            text: self.text + self.separator(m) + self.segment(m),
            to_line: if self.opens_line(m) {
                m.to.line.0
            } else {
                self.to_line
            },
            to_column: m.to.column.0,
            from_line: m.from.line.0,
            from_column: m.from.column.0,
        }
    }
}

/// The encoder after the first `n` of `mappings`.
pub open spec fn encoded(mappings: Seq<SourceMapping>, n: nat) -> EncoderView
    decreases n,
{
    if n == 0 {
        EncoderView::new()
    } else {
        encoded(mappings, (n - 1) as nat).add(mappings[n - 1])
    }
}

/// The `mappings` string of a source map that holds `mappings`.
pub open spec fn mappings_text(mappings: Seq<SourceMapping>) -> Seq<char> {
    encoded(mappings, mappings.len()).text
}

/// Encodes `mappings` as the `mappings` string of a source map.
pub fn encode_mappings(mappings: &Vec<SourceMapping>) -> (text: String)
    ensures
        text@ == mappings_text(mappings@),
{
    let mut text = String::new();
    let mut last_to_line: u32 = 0;
    let mut last_to_column: u32 = 0;
    let mut last_from_line: u32 = 0;
    let mut last_from_column: u32 = 0;
    let mut n: usize = 0;
    while n < mappings.len()
        invariant
            n <= mappings@.len(),
            encoded(mappings@, n as nat) == (EncoderView {
                text: text@,
                to_line: last_to_line,
                to_column: last_to_column,
                from_line: last_from_line,
                from_column: last_from_column,
            }),
        decreases mappings@.len() - n,
    {
        let m = mappings[n];
        let ghost before = encoded(mappings@, n as nat);
        if last_to_line < m.to.line.0 {
            while last_to_line < m.to.line.0
                invariant
                    before.to_line <= last_to_line <= m.to.line.0,
                    text@ == before.text + semicolons((last_to_line - before.to_line) as nat),
                decreases m.to.line.0 - last_to_line,
            {
                text.push(';');
                last_to_column = 0;
                last_to_line = last_to_line + 1;
            }
            last_to_column = 0;
        } else {
            if !text.as_str().is_empty() {
                text.push(',');
                assert(before.text.push(',') =~= before.text + seq![',']);
            }
        }
        let ghost separated = text@;
        write_vlq(m.to.column.0 as i64 - last_to_column as i64, &mut text);
        last_to_column = m.to.column.0;
        write_vlq(0, &mut text);
        write_vlq(m.from.line.0 as i64 - last_from_line as i64, &mut text);
        last_from_line = m.from.line.0;
        write_vlq(m.from.column.0 as i64 - last_from_column as i64, &mut text);
        last_from_column = m.from.column.0;
        proof {
            assert(text@ =~= separated + before.segment(m));
        }
        n += 1;
    }
    text
}

/// The sixteen digits in which JSON writes the code of a control character.
pub open spec fn hex_digit(value: int) -> char {
    seq!['0', '1', '2', '3', '4', '5', '6', '7', '8', '9', 'a', 'b', 'c', 'd', 'e', 'f'][value]
}

/// Whether `c` stands in a JSON string literal as it is: every character but
/// the double quote, the backslash and the control characters below U+0020.
pub open spec fn is_json_plain(c: char) -> bool {
    c != '"' && c != '\\' && c as u32 >= 0x20
}

/// What stands for `c` inside a JSON string literal. The double quote and the
/// backslash get a backslash in front; backspace, tab, line feed, form feed
/// and carriage return are written `\b`, `\t`, `\n`, `\f` and `\r`; every
/// other character below U+0020 is written `\u00` and its code in two
/// hexadecimal digits, in lower case; every other character stands as it is.
pub open spec fn json_char(c: char) -> Seq<char> {
    if c == '"' {
        seq!['\\', '"']
    } else if c == '\\' {
        seq!['\\', '\\']
    } else if c == '\u{8}' {
        seq!['\\', 'b']
    } else if c == '\t' {
        seq!['\\', 't']
    } else if c == '\n' {
        seq!['\\', 'n']
    } else if c == '\u{c}' {
        seq!['\\', 'f']
    } else if c == '\r' {
        seq!['\\', 'r']
    } else if (c as u32) < 0x20 {
        seq!['\\', 'u', '0', '0', hex_digit(c as int / 16), hex_digit(c as int % 16)]
    } else {
        seq![c]
    }
}

/// The characters of `text`, each as it stands inside a JSON string literal.
pub open spec fn json_escaped(text: Seq<char>) -> Seq<char>
    decreases text.len(),
{
    if text.len() == 0 {
        Seq::empty()
    } else {
        json_escaped(text.drop_last()) + json_char(text.last())
    }
}

/// The JSON string literal of `text`: its characters between double quotes,
/// each as [`json_char`] writes it.
pub open spec fn json_string(text: Seq<char>) -> Seq<char> {
    seq!['"'] + json_escaped(text) + seq!['"']
}

/// The value of a hexadecimal digit in lower case.
pub open spec fn hex_value(digit: char) -> int {
    if '0' <= digit <= '9' {
        digit as int - '0' as int
    } else {
        digit as int - 'a' as int + 10
    }
}

/// The character that a backslash and `letter` stand for in a JSON string
/// literal.
pub open spec fn json_escape_value(letter: char) -> char {
    if letter == 'b' {
        '\u{8}'
    } else if letter == 't' {
        '\t'
    } else if letter == 'n' {
        '\n'
    } else if letter == 'f' {
        '\u{c}'
    } else if letter == 'r' {
        '\r'
    } else {
        letter
    }
}

/// The text that `escaped` stands for, where `escaped` is the inside of a JSON
/// string literal as [`json_escaped`] writes it: a backslash and `u` stand
/// with the four digits behind them for the character whose code the last two
/// digits give, any other backslash with the letter behind it for one
/// character, and every other character for itself.
pub open spec fn json_unescaped(escaped: Seq<char>) -> Seq<char>
    decreases escaped.len(),
{
    if escaped.len() == 0 {
        Seq::empty()
    } else if escaped[0] != '\\' {
        seq![escaped[0]] + json_unescaped(escaped.skip(1))
    } else if escaped.len() >= 6 && escaped[1] == 'u' {
        seq![((hex_value(escaped[4]) * 16 + hex_value(escaped[5])) as u8) as char]
            + json_unescaped(escaped.skip(6))
    } else if escaped.len() >= 2 {
        seq![json_escape_value(escaped[1])] + json_unescaped(escaped.skip(2))
    } else {
        Seq::empty()
    }
}

/// Writes `text` as a JSON string literal by `serde_json::to_string`, which
/// writes a double quote, the characters of the string, escaped by its table
/// as [`json_char`] says, and a double quote. It writes into memory, where
/// writing does not fail, and a string is always representable, so that it
/// returns no error here. None of this is proved.
#[verifier::external_body]
fn to_json_string(text: &str) -> (json: String)
    ensures
        json@ == json_string(text@),
{
    serde_json::to_string(text).expect("a string is always written")
}

/// The source map as JSON text, given the JSON string literals of the name
/// and of the content of the one source, and the `mappings` string. The
/// members stand in this order, with nothing between them:
/// `{"version":3,"sources":[..],"sourcesContent":[..],"names":[],"mappings":".."}`.
pub open spec fn source_map_document(
    name_json: Seq<char>,
    content_json: Seq<char>,
    mappings: Seq<char>,
) -> Seq<char> {
    "{\"version\":3,\"sources\":["@ + name_json + "],\"sourcesContent\":["@ + content_json
        + "],\"names\":[],\"mappings\":\""@ + mappings + "\"}"@
}

/// Puts a source map together from the JSON string literals of the name and
/// of the content of its source, and from its `mappings` string.
pub fn assemble_source_map(name_json: &str, content_json: &str, mappings: &str) -> (json: String)
    ensures
        json@ == source_map_document(name_json@, content_json@, mappings@),
{
    let mut json = "{\"version\":3,\"sources\":[".to_owned();
    json.append(name_json);
    json.append("],\"sourcesContent\":[");
    json.append(content_json);
    json.append("],\"names\":[],\"mappings\":\"");
    json.append(mappings);
    json.append("\"}");
    json
}

/// Generates a source map as JSON text.
///
/// `from_name` is the name of the formatted file and `from_content` its
/// text, which the map holds in full. In each of `mappings`, `from` is a place
/// in that text and `to` the place in the other text that corresponds to it.
/// The map refers to this one source alone.
pub fn generate_source_map(
    from_name: String,
    from_content: String,
    mappings: Vec<SourceMapping>,
) -> (json: String)
    ensures
        json@ == source_map_document(
            json_string(from_name@),
            json_string(from_content@),
            mappings_text(mappings@),
        ),
{
    let name_json = to_json_string(from_name.as_str());
    let content_json = to_json_string(from_content.as_str());
    let text = encode_mappings(&mappings);
    assemble_source_map(name_json.as_str(), content_json.as_str(), text.as_str())
}

/// Whether `c` can stand in a `mappings` string: a digit of the base64
/// alphabet, or one of the separators `,` and `;`.
pub open spec fn is_mappings_char(c: char) -> bool {
    let code = c as u32;
    ||| 'A' as u32 <= code <= 'Z' as u32
    ||| 'a' as u32 <= code <= 'z' as u32
    ||| '0' as u32 <= code <= '9' as u32
    ||| c == '+'
    ||| c == '/'
    ||| c == ','
    ||| c == ';'
}

/// Whether all of `text` can stand in a `mappings` string.
pub open spec fn is_mappings_text(text: Seq<char>) -> bool {
    forall|i: int| 0 <= i < text.len() ==> is_mappings_char(#[trigger] text[i])
}

/// A variable-length quantity is made of base64 digits.
pub proof fn lemma_vlq_digits_plain(m: nat)
    ensures
        is_mappings_text(vlq_digits(m)),
        vlq_digits(m).len() > 0,
    decreases m,
{
    reveal_strlit("ABCDEFGHIJKLMNOPQRSTUVWXYZabcdefghijklmnopqrstuvwxyz0123456789+/");
    if m >= 32 {
        lemma_vlq_digits_plain(m / 32);
    }
}

/// The text of the encoder is made of base64 digits, `,` and `;`.
pub proof fn lemma_encoded_plain(mappings: Seq<SourceMapping>, n: nat)
    ensures
        is_mappings_text(encoded(mappings, n).text),
    decreases n,
{
    if n > 0 {
        lemma_encoded_plain(mappings, (n - 1) as nat);
        let before = encoded(mappings, (n - 1) as nat);
        let m = mappings[n - 1];
        let column_before = if before.opens_line(m) {
            0
        } else {
            before.to_column as int
        };
        lemma_vlq_digits_plain(vlq_magnitude(m.to.column.0 - column_before));
        lemma_vlq_digits_plain(vlq_magnitude(0));
        lemma_vlq_digits_plain(vlq_magnitude(m.from.line.0 - before.from_line));
        lemma_vlq_digits_plain(vlq_magnitude(m.from.column.0 - before.from_column));
    }
}

/// A `mappings` string holds nothing that JSON would have to escape: no
/// double quote, no backslash and no control character. Between double quotes
/// it is its own JSON string literal.
pub proof fn lemma_mappings_text_plain(mappings: Seq<SourceMapping>)
    ensures
        is_mappings_text(mappings_text(mappings)),
        forall|i: int|
            0 <= i < mappings_text(mappings).len() ==> is_json_plain(
                #[trigger] mappings_text(mappings)[i],
            ),
        json_string(mappings_text(mappings)) == seq!['"'] + mappings_text(mappings) + seq!['"'],
{
    lemma_encoded_plain(mappings, mappings.len());
    lemma_json_string_plain(mappings_text(mappings));
}

/// A text of characters that JSON takes as they are stands in its JSON
/// string literal unchanged, between the two double quotes.
pub proof fn lemma_json_string_plain(text: Seq<char>)
    requires
        forall|i: int| 0 <= i < text.len() ==> is_json_plain(#[trigger] text[i]),
    ensures
        json_escaped(text) == text,
        json_string(text) == seq!['"'] + text + seq!['"'],
    decreases text.len(),
{
    if text.len() > 0 {
        lemma_json_string_plain(text.drop_last());
        assert(is_json_plain(text[text.len() - 1]));
        assert(json_escaped(text) =~= text);
    }
}

/// The characters of a text are escaped one by one, from the first on.
pub proof fn lemma_json_escaped_from_first(text: Seq<char>)
    requires
        text.len() > 0,
    ensures
        json_escaped(text) == json_char(text[0]) + json_escaped(text.skip(1)),
    decreases text.len(),
{
    if text.len() == 1 {
        assert(text.drop_last() =~= Seq::<char>::empty());
        assert(text.skip(1) =~= Seq::<char>::empty());
        assert(json_escaped(text.drop_last()) =~= Seq::<char>::empty());
        assert(json_escaped(text) =~= json_char(text[0]) + json_escaped(text.skip(1)));
    } else {
        lemma_json_escaped_from_first(text.drop_last());
        assert(text.drop_last().skip(1) =~= text.skip(1).drop_last());
        assert(text.skip(1).last() == text.last());
        assert(json_escaped(text) =~= json_char(text[0]) + json_escaped(text.skip(1)));
    }
}

/// A hexadecimal digit has the value that it was written for.
pub proof fn lemma_hex_value(value: int)
    requires
        0 <= value < 16,
    ensures
        hex_value(hex_digit(value)) == value,
{
}

/// What stands for one character reads back as that character.
pub proof fn lemma_json_char_read_back(c: char, rest: Seq<char>)
    ensures
        json_unescaped(json_char(c) + rest) == seq![c] + json_unescaped(rest),
{
    let whole = json_char(c) + rest;
    if json_char(c).len() == 1 {
        assert(whole.skip(1) =~= rest);
    } else if json_char(c).len() == 2 {
        assert(whole.skip(2) =~= rest);
        assert(whole[1] != 'u');
    } else {
        let code = c as int;
        lemma_hex_value(code / 16);
        lemma_hex_value(code % 16);
        assert(whole.skip(6) =~= rest);
        assert(whole[4] == hex_digit(code / 16));
        assert(whole[5] == hex_digit(code % 16));
        assert(((code / 16 * 16 + code % 16) as u8) as char == c);
    }
}

/// The inside of a JSON string literal reads back as the text that it was
/// written for: the literal holds the text whole, and nothing else.
pub proof fn lemma_json_string_reads_back(text: Seq<char>)
    ensures
        json_unescaped(json_escaped(text)) == text,
        json_string(text).subrange(1, json_string(text).len() - 1) == json_escaped(text),
    decreases text.len(),
{
    assert(json_string(text).subrange(1, json_string(text).len() - 1) =~= json_escaped(text));
    if text.len() > 0 {
        lemma_json_escaped_from_first(text);
        lemma_json_char_read_back(text[0], json_escaped(text.skip(1)));
        lemma_json_string_reads_back(text.skip(1));
        assert(seq![text[0]] + text.skip(1) =~= text);
    }
}

/// A source map without correspondences has an empty `mappings` string, and
/// holds the JSON string literal of the content of its source as the one
/// element of `sourcesContent`. Content of characters that JSON takes as they
/// are stands there letter for letter, between double quotes; any other
/// content reads back from what stands there.
pub proof fn lemma_empty_source_map(name: Seq<char>, content: Seq<char>)
    ensures
        mappings_text(Seq::empty()) == Seq::<char>::empty(),
        source_map_document(
            json_string(name),
            json_string(content),
            mappings_text(Seq::empty()),
        ) == "{\"version\":3,\"sources\":["@ + json_string(name) + "],\"sourcesContent\":["@
            + json_string(content) + "],\"names\":[],\"mappings\":\"\"}"@,
        (forall|i: int| 0 <= i < content.len() ==> is_json_plain(#[trigger] content[i]))
            ==> json_string(content) == seq!['"'] + content + seq!['"'],
        json_unescaped(json_escaped(content)) == content,
{
    lemma_json_string_reads_back(content);
    reveal_strlit("],\"names\":[],\"mappings\":\"");
    reveal_strlit("\"}");
    reveal_strlit("],\"names\":[],\"mappings\":\"\"}");
    if forall|i: int| 0 <= i < content.len() ==> is_json_plain(#[trigger] content[i]) {
        lemma_json_string_plain(content);
    }
}

} // verus!

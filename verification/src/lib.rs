//! A tokenizer-based JavaScript prettyprinter that records, for every token
//! and every piece of white space it writes, which place of the input it stems
//! from, and encodes those correspondences as a source map.
//!
//! [`prettyprint`] formats source text and [`generate_source_map`] encodes the
//! correspondences that it returns. The modules, from the leaves up:
//!
//! - [`source_map_generator`]: coordinates, correspondences, and the encoder
//!   of the source map;
//! - [`text`]: characters and lines of a text;
//! - [`token`]: tokens and their categories;
//! - [`scanner`]: from text to tokens, by the `ress` scanner;
//! - [`rules`]: the layout rules that look at categories alone;
//! - [`writer`]: the output writer;
//! - [`prettyprint`]: the layout engine;
//! - [`laws`]: what holds of every layout.
//!
//! Every function states what it returns over a mathematical model of its
//! arguments, and is proved to return it. Not proved is what the code of
//! other crates does: `ress`, which scans, and `serde_json`, which writes
//! strings as JSON.

pub mod laws;
pub mod prettyprint;
pub mod rules;
pub mod scanner;
pub mod source_map_generator;
pub mod text;
pub mod token;
pub mod writer;

pub use prettyprint::{format_tokens, formatted, prettyprint, try_prettyprint};
pub use scanner::{is_read, is_scannable, scannable, scanned, source_tokens, tokens_of};
pub use source_map_generator::{
    generate_source_map, json_string, mappings_text, source_map_document, SourceCoord,
    SourceMapColumn, SourceMapLine, SourceMapping,
};

use vstd::prelude::*;
use vstd::string::StringExecFns;

verus! {

/// How many line feeds `text` holds.
pub open spec fn line_feeds(text: Seq<char>) -> nat
    decreases text.len(),
{
    if text.len() == 0 {
        0
    } else {
        line_feeds(text.drop_last()) + if text.last() == '\n' {
            1nat
        } else {
            0nat
        }
    }
}

/// How many line feeds of `text` stand directly after a carriage return.
pub open spec fn line_feeds_after_return(text: Seq<char>) -> nat
    decreases text.len(),
{
    if text.len() < 2 {
        0
    } else {
        line_feeds_after_return(text.drop_last()) + if text[text.len() - 2] == '\r'
            && text.last() == '\n' {
            1nat
        } else {
            0nat
        }
    }
}

/// How many lines `text` has. A line ends at a line feed; what follows the
/// last line feed is a line if it is not empty.
pub open spec fn line_count(text: Seq<char>) -> nat {
    line_feeds(text) + if text.len() > 0 && text.last() != '\n' {
        1nat
    } else {
        0nat
    }
}

/// How many characters the lines of `text` have together. A line feed, and a
/// carriage return directly before it, belong to no line.
pub open spec fn line_chars(text: Seq<char>) -> int {
    text.len() - line_feeds(text) - line_feeds_after_return(text)
}

/// Whether `text` begins with `prefix`.
pub open spec fn begins_with(text: Seq<char>, prefix: Seq<char>) -> bool {
    prefix.len() <= text.len() && text.take(prefix.len() as int) == prefix
}

/// Whether `text` is worth formatting: it begins with the marker
/// `//PRETTYPRINT`, or its lines are more than 100 characters long on
/// average. A text without lines is not.
pub open spec fn worth_formatting(text: Seq<char>) -> bool {
    begins_with(text, "//PRETTYPRINT"@) || line_chars(text) > 100 * line_count(text)
}

/// Whether `text` begins with `prefix`.
pub fn starts_with(text: &str, prefix: &str) -> (r: bool)
    ensures
        r == begins_with(text@, prefix@),
{
    let want = text::chars_of(prefix);
    let mut same = true;
    let mut n: usize = 0;
    for c in it: text.chars()
        invariant
            it.seq() == text@,
            want@ == prefix@,
            n <= want@.len(),
            n <= it.index(),
            same ==> text@.take(n as int) =~= want@.take(n as int),
            same && n < want@.len() ==> n == it.index(),
            !same ==> !begins_with(text@, prefix@),
    {
        if same && n < want.len() {
            if want[n] == c {
                n += 1;
            } else {
                same = false;
            }
        }
    }
    proof {
        assert(want@.take(want@.len() as int) =~= want@);
    }
    same && n == want.len()
}

/// Decides by rule of thumb whether source text is worth formatting: whether
/// its lines are more than 100 characters long on average. A text that begins
/// with `//PRETTYPRINT` is always worth it.
pub fn should_prettyprint(source_str: &str) -> (r: bool)
    ensures
        r == worth_formatting(source_str@),
{
    if starts_with(source_str, "//PRETTYPRINT") {
        return true;
    }
    let chars = text::chars_of(source_str);
    let mut feeds: usize = 0;
    let mut pairs: usize = 0;
    let mut i: usize = 0;
    proof {
        assert(chars@.take(0) =~= Seq::<char>::empty());
    }
    while i < chars.len()
        invariant
            i <= chars@.len(),
            feeds == line_feeds(chars@.take(i as int)),
            pairs == line_feeds_after_return(chars@.take(i as int)),
            feeds + pairs <= i,
        decreases chars@.len() - i,
    {
        proof {
            assert(chars@.take(i + 1).drop_last() =~= chars@.take(i as int));
        }
        if chars[i] == '\n' {
            feeds += 1;
            if i > 0 && chars[i - 1] == '\r' {
                proof {
                    lemma_pairs_leave_room(chars@.take(i + 1));
                }
                pairs += 1;
            }
        }
        i += 1;
    }
    proof {
        assert(chars@.take(i as int) =~= chars@);
        lemma_pairs_leave_room(chars@);
    }
    let lines = if chars.len() > 0 && chars[chars.len() - 1] != '\n' {
        feeds + 1
    } else {
        feeds
    };
    let line_lengths = chars.len() - feeds - pairs;
    line_lengths as u128 > 100 * (lines as u128)
}

/// A line feed and the carriage return before it are two characters: there
/// are at most as many line feeds, with or without a carriage return, as
/// characters.
pub proof fn lemma_pairs_leave_room(text: Seq<char>)
    ensures
        line_feeds(text) + line_feeds_after_return(text) <= text.len(),
        text.len() > 0 && text.last() != '\n' ==> line_feeds(text) + line_feeds_after_return(
            text,
        ) < text.len(),
    decreases text.len(),
{
    if text.len() >= 2 {
        lemma_pairs_leave_room(text.drop_last());
    } else if text.len() == 1 {
        assert(line_feeds(text.drop_last()) == 0);
    }
}

/// The line that tells a debugger where the source map is.
pub open spec fn source_mapping_url(url: Seq<char>) -> Seq<char> {
    "\n//# sourceMappingURL="@ + url
}

/// Appends to `source_str` the line that names `url` as the place of its
/// source map.
pub fn append_source_mapping_url(source_str: &mut String, url: &str)
    ensures
        final(source_str)@ == old(source_str)@ + source_mapping_url(url@),
{
    source_str.append("\n//# sourceMappingURL=");
    source_str.append(url);
}

/// `a` followed by `b`.
fn joined(a: &str, b: &str) -> (r: String)
    ensures
        r@ == a@ + b@,
{
    let mut r = a.to_owned();
    r.append(b);
    r
}

/// Makes the source map of the formatted version of `source_str`, if the text
/// is worth formatting, has `generate_file` store it, and appends to the text
/// a line that names the URL under which it was stored.
///
/// `generate_file` takes the name of a file and its text, and returns a URL
/// under which the file can be loaded. The map gets the name of the script
/// with `.sourcemap` behind it; the formatted text, which the map holds, is
/// called by the name of the script with `.pretty` behind it.
pub fn maybe_prettyprint<G>(script_name: &str, source_str: &mut String, mut generate_file: G) where
    G: FnMut(String, String) -> String,

    requires
        forall|name: String, map: String| call_requires(generate_file, (name, map)),
    ensures
        !worth_formatting(old(source_str)@) ==> final(source_str)@ == old(source_str)@,
        worth_formatting(old(source_str)@) ==> exists|name: String, map: String, url: String|
            {
                let pretty = formatted(source_tokens(old(source_str)@));
                &&& name@ == script_name@ + ".sourcemap"@
                &&& map@ == source_map_document(
                    json_string(script_name@ + ".pretty"@),
                    json_string(pretty.0),
                    mappings_text(pretty.1),
                )
                &&& #[trigger] call_ensures(generate_file, (name, map), url)
                &&& final(source_str)@ == old(source_str)@ + source_mapping_url(url@)
            },
{
    if !should_prettyprint(source_str.as_str()) {
        return ;
    }
    let (pretty_str, mappings) = prettyprint(source_str.as_str());
    let source_map_name = joined(script_name, ".sourcemap");
    let pretty_name = joined(script_name, ".pretty");
    let source_map = generate_source_map(pretty_name, pretty_str, mappings);
    let url = generate_file(source_map_name, source_map);
    append_source_mapping_url(source_str, url.as_str());
}

} // verus!

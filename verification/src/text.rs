//! Small operations on text that the rest of the library is built from.

use vstd::prelude::*;

verus! {

/// `std::string::String::push`: the string afterwards is the string before
/// with `c` appended. Taken from the documentation of std, not proved.
pub assume_specification[ std::string::String::push ](s: &mut std::string::String, c: char)
    ensures
        final(s)@ == old(s)@.push(c),
;

/// The characters of `s`, in order.
pub fn chars_of(s: &str) -> (chars: Vec<char>)
    ensures
        chars@ == s@,
{
    let mut chars: Vec<char> = Vec::new();
    for c in it: s.chars()
        invariant
            it.seq() == s@,
            chars@ == s@.take(it.index() as int),
    {
        chars.push(c);
    }
    chars
}

/// Whether `chars` spells exactly `word`.
pub fn spells(chars: &Vec<char>, word: &str) -> (same: bool)
    ensures
        same == (chars@ == word@),
{
    let mut same = true;
    let mut n: usize = 0;
    for c in it: word.chars()
        invariant
            it.seq() == word@,
            n <= chars@.len(),
            same ==> n == it.index() && chars@.take(n as int) =~= word@.take(n as int),
            !same ==> chars@ != word@,
    {
        if same {
            if n < chars.len() && chars[n] == c {
                n += 1;
            } else {
                same = false;
            }
        }
    }
    proof {
        if same {
            assert(word@.take(n as int) =~= word@);
            if n == chars@.len() {
                assert(chars@.take(n as int) =~= chars@);
            }
        }
    }
    same && n == chars.len()
}

/// The text `chars[from..to]`.
pub fn string_of(chars: &Vec<char>, from: usize, to: usize) -> (s: String)
    requires
        from <= to <= chars@.len(),
    ensures
        s@ == chars@.subrange(from as int, to as int),
{
    let mut s = String::new();
    let mut i = from;
    while i < to
        invariant
            from <= i <= to <= chars@.len(),
            s@ == chars@.subrange(from as int, i as int),
        decreases to - i,
    {
        s.push(chars[i]);
        i += 1;
    }
    s
}

/// How many characters of `s` stand before its first line feed; the length of
/// `s` if it has none.
pub open spec fn first_line_len(s: Seq<char>) -> nat
    decreases s.len(),
{
    if s.len() == 0 || s[0] == '\n' {
        0
    } else {
        1 + first_line_len(s.skip(1))
    }
}

/// The lines of `s`. A line ends at a line feed, or at a carriage return that
/// a line feed follows; neither belongs to the line. A carriage return that no
/// line feed follows belongs to its line. What follows the last line feed is a
/// line only if it is not empty.
pub open spec fn split_lines(s: Seq<char>) -> Seq<Seq<char>>
    decreases s.len(),
{
    if s.len() == 0 {
        Seq::empty()
    } else {
        let n = first_line_len(s) as int;
        if n < s.len() {
            let line = if n > 0 && s[n - 1] == '\r' {
                s.take(n - 1)
            } else {
                s.take(n)
            };
            seq![line] + split_lines(s.skip(n + 1))
        } else {
            seq![s]
        }
    }
}

/// `first_line_len` is the place of the first line feed.
pub proof fn lemma_first_line_len(s: Seq<char>, n: int)
    requires
        0 <= n <= s.len(),
        forall|j: int| 0 <= j < n ==> s[j] != '\n',
        n < s.len() ==> s[n] == '\n',
    ensures
        first_line_len(s) == n,
    decreases n,
{
    if n > 0 {
        lemma_first_line_len(s.skip(1), n - 1);
    }
}

/// The views of `lines`, in order.
pub open spec fn line_views(lines: Seq<String>) -> Seq<Seq<char>> {
    Seq::new(lines.len(), |i: int| lines[i]@)
}

/// Splits `s` into its lines.
pub fn lines(s: &str) -> (r: Vec<String>)
    ensures
        line_views(r@) == split_lines(s@),
{
    let chars = chars_of(s);
    let mut r: Vec<String> = Vec::new();
    let mut start: usize = 0;
    proof {
        assert(chars@.skip(0) =~= chars@);
    }
    while start < chars.len()
        invariant
            start <= chars@.len(),
            chars@ == s@,
            line_views(r@) + split_lines(chars@.skip(start as int)) == split_lines(s@),
        decreases chars@.len() - start,
    {
        let mut k = start;
        while k < chars.len() && chars[k] != '\n'
            invariant
                start <= k <= chars@.len(),
                forall|j: int| start <= j < k ==> chars@[j] != '\n',
            decreases chars@.len() - k,
        {
            k += 1;
        }
        let ghost rest = chars@.skip(start as int);
        proof {
            lemma_first_line_len(rest, k - start);
        }
        let end = if k < chars.len() && k > start && chars[k - 1] == '\r' {
            k - 1
        } else {
            k
        };
        let line = string_of(&chars, start, end);
        r.push(line);
        proof {
            assert(line@ =~= rest.take(end - start));
            if k < chars.len() {
                assert(rest.skip(k - start + 1) =~= chars@.skip(k + 1));
            }
        }
        start = if k < chars.len() {
            k + 1
        } else {
            k
        };
    }
    r
}

} // verus!

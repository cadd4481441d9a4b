//! The output writer: it gathers the formatted text, keeps the coordinate at
//! which the next character will stand, and records correspondences.

use crate::source_map_generator::{SourceCoord, SourceMapColumn, SourceMapLine, SourceMapping};
use vstd::prelude::*;

verus! {

/// Number of spaces in one level of indentation.
pub const INDENT_UNIT: usize = 2;

/// The first coordinate of a text.
pub open spec fn origin() -> SourceCoord {
    SourceCoord { line: SourceMapLine(0), column: SourceMapColumn(0) }
}

/// The order of coordinates: by line, then by column.
pub open spec fn coord_le(a: SourceCoord, b: SourceCoord) -> bool {
    a.line.0 < b.line.0 || (a.line.0 == b.line.0 && a.column.0 <= b.column.0)
}

/// How many UTF-16 code units `c` takes.
pub open spec fn utf16_units(c: char) -> int {
    if (c as u32) < 0x10000 {
        1
    } else {
        2
    }
}

/// The coordinate that follows `at` once `c` is written there. A line feed
/// leads to the start of the next line, any other character moves on by its
/// UTF-16 length. Columns saturate at `u32::MAX`; a line feed on line
/// `u32::MAX` leads to the greatest coordinate, so that a coordinate never
/// moves backwards.
pub open spec fn advance_char(at: SourceCoord, c: char) -> SourceCoord {
    if c == '\n' {
        if at.line.0 < u32::MAX {
            SourceCoord { line: SourceMapLine((at.line.0 + 1) as u32), column: SourceMapColumn(0) }
        } else {
            SourceCoord { line: SourceMapLine(u32::MAX), column: SourceMapColumn(u32::MAX) }
        }
    } else {
        let column = at.column.0 + utf16_units(c);
        SourceCoord {
            line: at.line,
            column: SourceMapColumn(
                if column > u32::MAX {
                    u32::MAX
                } else {
                    column as u32
                },
            ),
        }
    }
}

/// The coordinate that follows `at` once all of `s` is written there.
pub open spec fn advance(at: SourceCoord, s: Seq<char>) -> SourceCoord
    decreases s.len(),
{
    if s.len() == 0 {
        at
    } else {
        advance_char(advance(at, s.drop_last()), s.last())
    }
}

/// `n` spaces.
pub open spec fn spaces(n: nat) -> Seq<char> {
    Seq::new(n, |i: int| ' ')
}

/// Whether the first coordinates of `mappings`, the ones in the formatted
/// text, never decrease.
pub open spec fn ascending(mappings: Seq<SourceMapping>) -> bool {
    forall|i: int, j: int|
        0 <= i <= j < mappings.len() ==> coord_le(
            (#[trigger] mappings[i]).from,
            (#[trigger] mappings[j]).from,
        )
}

/// Writing one text after another moves the coordinate as writing both at
/// once does.
pub proof fn lemma_advance_concat(at: SourceCoord, a: Seq<char>, b: Seq<char>)
    ensures
        advance(at, a + b) == advance(advance(at, a), b),
    decreases b.len(),
{
    if b.len() > 0 {
        lemma_advance_concat(at, a, b.drop_last());
        assert((a + b).drop_last() =~= a + b.drop_last());
    }
}

/// Writing never moves the coordinate backwards.
pub proof fn lemma_advance_monotone(at: SourceCoord, s: Seq<char>)
    ensures
        coord_le(at, advance(at, s)),
    decreases s.len(),
{
    if s.len() > 0 {
        lemma_advance_monotone(at, s.drop_last());
    }
}

/// What one character does to a coordinate.
pub proof fn lemma_advance_one(at: SourceCoord, c: char)
    ensures
        advance(at, seq![c]) == advance_char(at, c),
{
    assert(seq![c].drop_last() =~= Seq::<char>::empty());
    assert(advance(at, Seq::<char>::empty()) == at);
}

/// The mathematical value of a [`Writer`].
pub struct WriterView {
    /// The text written so far.
    pub buffer: Seq<char>,
    /// Where the next character will stand.
    pub current: SourceCoord,
    /// The input coordinate of the last tagged write.
    pub last_from: SourceCoord,
    /// The correspondences recorded so far, oldest first.
    pub mappings: Seq<SourceMapping>,
}

impl WriterView {
    /// A writer that has written nothing.
    pub open spec fn new() -> WriterView {
        WriterView {
            buffer: Seq::empty(),
            current: origin(),
            last_from: origin(),
            mappings: Seq::empty(),
        }
    }

    /// What holds of every writer that began empty: `current` is where the
    /// text ends, and the correspondences lie in the text, in ascending order.
    pub open spec fn wf(self) -> bool {
        &&& self.current == advance(origin(), self.buffer)
        &&& ascending(self.mappings)
        &&& forall|i: int|
            0 <= i < self.mappings.len() ==> coord_le(
                (#[trigger] self.mappings[i]).from,
                self.current,
            )
    }

    /// Appends `s` and moves the coordinate past it. Records nothing.
    pub open spec fn append(self, s: Seq<char>) -> WriterView {
        WriterView { buffer: self.buffer + s, current: advance(self.current, s), ..self }
    }

    /// Records that the current coordinate corresponds to `to` in the input.
    pub open spec fn tag(self, to: SourceCoord) -> WriterView {
        WriterView {
            last_from: to,
            mappings: self.mappings.push(SourceMapping { from: self.current, to }),
            ..self
        }
    }

    /// Writes text that stems from the input coordinate `from`: records the
    /// correspondence, then appends.
    pub open spec fn write(self, s: Seq<char>, from: SourceCoord) -> WriterView {
        self.tag(from).append(s)
    }

    /// Writes text for which no input coordinate is given. If nothing has
    /// been recorded yet, the current coordinate is recorded against the last
    /// known input coordinate; otherwise nothing is recorded.
    pub open spec fn write_new(self, s: Seq<char>) -> WriterView {
        if self.mappings.len() == 0 {
            self.tag(self.last_from).append(s)
        } else {
            self.append(s)
        }
    }

    /// Writes the indentation of `level` levels as one write that stems from
    /// the input coordinate `from`; nothing at all for level 0.
    pub open spec fn write_indent(self, level: nat, from: SourceCoord) -> WriterView {
        if level == 0 {
            self
        } else {
            self.write(spaces(INDENT_UNIT as nat * level), from)
        }
    }
}

/// Appending in two parts is appending the whole.
pub proof fn lemma_append_append(w: WriterView, a: Seq<char>, b: Seq<char>)
    ensures
        w.append(a).append(b) == w.append(a + b),
{
    lemma_advance_concat(w.current, a, b);
    assert((w.buffer + a) + b =~= w.buffer + (a + b));
}

/// Appending keeps a writer well formed.
pub proof fn lemma_append_wf(w: WriterView, s: Seq<char>)
    requires
        w.wf(),
    ensures
        w.append(s).wf(),
{
    lemma_advance_concat(origin(), w.buffer, s);
    lemma_advance_monotone(w.current, s);
}

/// Recording a correspondence keeps a writer well formed.
pub proof fn lemma_tag_wf(w: WriterView, to: SourceCoord)
    requires
        w.wf(),
    ensures
        w.tag(to).wf(),
{
}

/// Every way of writing keeps a writer well formed.
pub proof fn lemma_write_wf(w: WriterView, s: Seq<char>, from: SourceCoord, level: nat)
    requires
        w.wf(),
    ensures
        w.write(s, from).wf(),
        w.write_new(s).wf(),
        w.write_indent(level, from).wf(),
{
    lemma_tag_wf(w, from);
    lemma_append_wf(w.tag(from), s);
    lemma_tag_wf(w, w.last_from);
    lemma_append_wf(w.tag(w.last_from), s);
    lemma_append_wf(w, s);
    lemma_append_wf(w.tag(from), spaces(INDENT_UNIT as nat * level));
}

/// The writer's state.
pub struct Writer {
    /// The text written so far.
    pub buffer: String,
    /// Where the next character will stand.
    pub current: SourceCoord,
    /// The input coordinate of the last tagged write.
    pub last_from: SourceCoord,
    /// The correspondences recorded so far, oldest first.
    pub mappings: Vec<SourceMapping>,
}

impl View for Writer {
    type V = WriterView;

    open spec fn view(&self) -> WriterView {
        WriterView {
            buffer: self.buffer@,
            current: self.current,
            last_from: self.last_from,
            mappings: self.mappings@,
        }
    }
}

/// Computes [`advance_char`].
pub fn next_coord(at: SourceCoord, c: char) -> (next: SourceCoord)
    ensures
        next == advance_char(at, c),
{
    if c == '\n' {
        if at.line.0 < u32::MAX {
            SourceCoord { line: SourceMapLine(at.line.0 + 1), column: SourceMapColumn(0) }
        } else {
            SourceCoord { line: SourceMapLine(u32::MAX), column: SourceMapColumn(u32::MAX) }
        }
    } else {
        let units: u32 = if (c as u32) < 0x10000 {
            1
        } else {
            2
        };
        SourceCoord { line: at.line, column: SourceMapColumn(at.column.0.saturating_add(units)) }
    }
}

impl Writer {
    /// A writer that has written nothing.
    pub fn new() -> (w: Writer)
        ensures
            w@ == WriterView::new(),
    {
        Writer {
            buffer: String::new(),
            current: SourceCoord { line: SourceMapLine(0), column: SourceMapColumn(0) },
            last_from: SourceCoord { line: SourceMapLine(0), column: SourceMapColumn(0) },
            mappings: Vec::new(),
        }
    }

    /// Appends one character.
    fn put(&mut self, c: char)
        ensures
            final(self)@ == old(self)@.append(seq![c]),
    {
        proof {
            lemma_advance_one(self.current, c);
            assert(self.buffer@.push(c) =~= self.buffer@ + seq![c]);
        }
        self.buffer.push(c);
        self.current = next_coord(self.current, c);
    }

    /// Appends `s` and moves the coordinate past it.
    pub fn update_current(&mut self, s: &str)
        ensures
            final(self)@ == old(self)@.append(s@),
    {
        for c in it: s.chars()
            invariant
                it.seq() == s@,
                self@ == old(self)@.append(s@.take(it.index() as int)),
        {
            proof {
                lemma_append_append(old(self)@, s@.take(it.index() as int), seq![c]);
                assert(s@.take(it.index() as int) + seq![c] =~= s@.take(it.index() + 1));
            }
            self.put(c);
        }
        proof {
            assert(s@.take(s@.len() as int) =~= s@);
        }
    }

    /// Records that the current coordinate corresponds to `to`.
    fn tag(&mut self, to: SourceCoord)
        ensures
            final(self)@ == old(self)@.tag(to),
    {
        self.last_from = to;
        self.mappings.push(SourceMapping { from: self.current, to });
    }

    /// Writes text for which no input coordinate is given: a correspondence
    /// is recorded only where none has been recorded yet.
    pub fn write_new(&mut self, s: &str)
        ensures
            final(self)@ == old(self)@.write_new(s@),
    {
        if self.mappings.len() == 0 {
            self.tag(self.last_from);
        }
        self.update_current(s);
    }

    /// Writes text that stems from the input coordinate `from`.
    pub fn write(&mut self, s: &str, from: SourceCoord)
        ensures
            final(self)@ == old(self)@.write(s@, from),
    {
        self.tag(from);
        self.update_current(s);
    }

    /// Writes the indentation of `level` levels as one write that stems from
    /// the input coordinate `from`. Level 0 writes and records nothing.
    pub fn write_indent(&mut self, level: usize, from: SourceCoord)
        ensures
            final(self)@ == old(self)@.write_indent(level as nat, from),
    {
        if level == 0 {
            return ;
        }
        self.tag(from);
        let ghost tagged = self@;
        let mut done: usize = 0;
        while done < level
            invariant
                done <= level,
                self@ == tagged.append(spaces(INDENT_UNIT as nat * done as nat)),
            decreases level - done,
        {
            proof {
                let so_far = spaces(INDENT_UNIT as nat * done as nat);
                lemma_append_append(tagged, so_far, seq![' ']);
                lemma_append_append(tagged, so_far + seq![' '], seq![' ']);
                assert((so_far + seq![' ']) + seq![' '] =~= spaces(
                    INDENT_UNIT as nat * (done + 1) as nat,
                ));
            }
            self.put(' ');
            self.put(' ');
            done += 1;
        }
    }
}

} // verus!

//! Terminal output of the command line: colored text, tables and an
//! inline spinner.
use vstd::prelude::*;

use crate::text::push_char;

verus! {

/// `text` between an ANSI style and the reset code.
pub open spec fn styled(code: Seq<char>, text: Seq<char>) -> Seq<char> {
    "\x1b["@ + code + "m"@ + text + "\x1b[0m"@
}

fn style(code: &str, text: &str) -> (r: String)
    ensures
        r@ == styled(code@, text@),
{
    let mut r = String::from_str("\x1b[");
    r.append(code);
    r.append("m");
    r.append(text);
    r.append("\x1b[0m");
    r
}

/// Bold magenta.
pub fn title(text: &str) -> (r: String)
    ensures
        r@ == styled("1;35"@, text@),
{
    style("1;35", text)
}

/// Bold green.
pub fn success(text: &str) -> (r: String)
    ensures
        r@ == styled("1;32"@, text@),
{
    style("1;32", text)
}

/// Bold red.
pub fn error(text: &str) -> (r: String)
    ensures
        r@ == styled("1;31"@, text@),
{
    style("1;31", text)
}

/// Faint.
pub fn dim(text: &str) -> (r: String)
    ensures
        r@ == styled("2"@, text@),
{
    style("2", text)
}

/// Magenta.
pub fn label(text: &str) -> (r: String)
    ensures
        r@ == styled("35"@, text@),
{
    style("35", text)
}

/// An indented `key: value` line with the key as a label.
pub fn key_value(key: &str, value: &str) -> (r: String)
    ensures
        r@ == "  "@ + styled("35"@, key@ + ":"@) + " "@ + value@,
{
    let k = crate::text::concat2(key, ":");
    let l = label(k.as_str());
    let mut r = String::from_str("  ");
    r.append(l.as_str());
    r.append(" ");
    r.append(value);
    r
}

/// `n` copies of `c`.
pub open spec fn repeat(c: char, n: nat) -> Seq<char> {
    Seq::new(n, |i: int| c)
}

/// `s` left-aligned in a field of `width` characters.
pub open spec fn padded(s: Seq<char>, width: nat) -> Seq<char> {
    if s.len() >= width {
        s
    } else {
        s + repeat(' ', (width - s.len()) as nat)
    }
}

/// The cells, each padded to its width, separated by single spaces.
pub open spec fn joined_cells(cells: Seq<(Seq<char>, nat)>) -> Seq<char>
    decreases cells.len(),
{
    if cells.len() == 0 {
        Seq::empty()
    } else if cells.len() == 1 {
        padded(cells[0].0, cells[0].1)
    } else {
        joined_cells(cells.drop_last()) + " "@ + padded(cells.last().0, cells.last().1)
    }
}

/// The widths plus one separating space each.
pub open spec fn total_width(cells: Seq<(Seq<char>, nat)>) -> nat
    decreases cells.len(),
{
    if cells.len() == 0 {
        0
    } else {
        total_width(cells.drop_last()) + cells.last().1 + 1
    }
}

/// Cells as text and width.
pub open spec fn cells_of(values: Seq<(&str, usize)>) -> Seq<(Seq<char>, nat)> {
    values.map_values(|v: (&str, usize)| (v.0@, v.1 as nat))
}

fn pad(s: &str, width: usize) -> (r: String)
    ensures
        r@ == padded(s@, width as nat),
{
    let mut r = crate::text::owned(s);
    let n = s.unicode_len();
    let mut k: usize = n;
    while k < width
        invariant
            n == s@.len(),
            n <= k <= width || (k == n && n >= width),
            r@ == s@ + repeat(' ', (k - n) as nat),
        decreases width - k,
    {
        push_char(&mut r, ' ');
        assert(repeat(' ', (k + 1 - n) as nat) =~= repeat(' ', (k - n) as nat).push(' '));
        k = k + 1;
    }
    proof {
        if n >= width {
            assert(repeat(' ', 0) =~= Seq::<char>::empty());
            assert(r@ =~= s@);
        }
    }
    r
}

/// A table row: the values left-aligned in their widths, separated by
/// spaces.
pub fn table_row(values: &[(&str, usize)]) -> (r: String)
    ensures
        r@ == joined_cells(cells_of(values@)),
{
    let ghost cs = cells_of(values@);
    let mut r = String::new();
    let mut i: usize = 0;
    while i < values.len()
        invariant
            i <= values@.len(),
            cs == cells_of(values@),
            r@ == joined_cells(cs.take(i as int)),
        decreases values@.len() - i,
    {
        assert(cs.take(i + 1).drop_last() =~= cs.take(i as int));
        assert(cs.take(i + 1).last() == (values@[i as int].0@, values@[i as int].1 as nat));
        let (v, w) = values[i];
        let cell = pad(v, w);
        if i > 0 {
            r.append(" ");
        }
        r.append(cell.as_str());
        i = i + 1;
    }
    assert(cs.take(values@.len() as int) =~= cs);
    r
}

/// A table header: the column names as a row, then a line of '-' as wide
/// as the columns and their separators.
pub fn table_header(columns: &[(&str, usize)]) -> (r: String)
    requires
        total_width(cells_of(columns@)) <= usize::MAX,
    ensures
        r@ == joined_cells(cells_of(columns@)) + "\n"@ + repeat('-', total_width(cells_of(columns@))),
{
    let ghost cs = cells_of(columns@);
    let header = table_row(columns);
    let mut total: usize = 0;
    let mut i: usize = 0;
    while i < columns.len()
        invariant
            i <= columns@.len(),
            cs == cells_of(columns@),
            total == total_width(cs.take(i as int)),
            total_width(cs) <= usize::MAX,
        decreases columns@.len() - i,
    {
        assert(cs.take(i + 1).drop_last() =~= cs.take(i as int));
        proof {
            lemma_total_width_prefix(cs, i + 1);
        }
        total = total + columns[i].1 + 1;
        i = i + 1;
    }
    assert(cs.take(columns@.len() as int) =~= cs);
    let mut r = header;
    r.append("\n");
    let mut k: usize = 0;
    let ghost base = r@;
    while k < total
        invariant
            k <= total,
            r@ == base + repeat('-', k as nat),
        decreases total - k,
    {
        push_char(&mut r, '-');
        assert(repeat('-', (k + 1) as nat) =~= repeat('-', k as nat).push('-'));
        k = k + 1;
    }
    r
}

proof fn lemma_total_width_prefix(cs: Seq<(Seq<char>, nat)>, n: int)
    requires
        0 <= n <= cs.len(),
    ensures
        total_width(cs.take(n)) <= total_width(cs),
    decreases cs.len(),
{
    if n < cs.len() {
        assert(cs.drop_last().take(n) =~= cs.take(n));
        lemma_total_width_prefix(cs.drop_last(), n);
    } else {
        assert(cs.take(n) =~= cs);
    }
}

/// The frames of the spinner, in turn.
pub open spec fn spec_spinner_frame(i: nat) -> Seq<char> {
    let k = i % 10;
    if k == 0 {
        "⠋"@
    } else if k == 1 {
        "⠙"@
    } else if k == 2 {
        "⠹"@
    } else if k == 3 {
        "⠸"@
    } else if k == 4 {
        "⠼"@
    } else if k == 5 {
        "⠴"@
    } else if k == 6 {
        "⠦"@
    } else if k == 7 {
        "⠧"@
    } else if k == 8 {
        "⠇"@
    } else {
        "⠏"@
    }
}

/// Frame `i` of the spinner; the ten frames repeat.
pub fn spinner_frame(i: usize) -> (r: &'static str)
    ensures
        r@ == spec_spinner_frame(i as nat),
{
    let k = i % 10;
    if k == 0 {
        "⠋"
    } else if k == 1 {
        "⠙"
    } else if k == 2 {
        "⠹"
    } else if k == 3 {
        "⠸"
    } else if k == 4 {
        "⠼"
    } else if k == 5 {
        "⠴"
    } else if k == 6 {
        "⠦"
    } else if k == 7 {
        "⠧"
    } else if k == 8 {
        "⠇"
    } else {
        "⠏"
    }
}

/// A one-line progress indicator.
#[derive(Debug)]
pub struct InlineSpinner {
    pub frame: usize,
    pub message: String,
}

impl InlineSpinner {
    /// A spinner at its first frame.
    pub fn new(message: &str) -> (r: InlineSpinner)
        ensures
            r.frame == 0,
            r.message@ == message@,
    {
        InlineSpinner { frame: 0, message: crate::text::owned(message) }
    }

    /// The text of the next tick (over the current line), and the advance
    /// to the following frame.
    pub fn tick_text(&mut self) -> (r: String)
        requires
            old(self).frame < usize::MAX,
        ensures
            r@ == "\r"@ + spec_spinner_frame(old(self).frame as nat) + " "@ + old(self).message@,
            final(self).frame == old(self).frame + 1,
            final(self).message == old(self).message,
    {
        let f = spinner_frame(self.frame);
        let mut r = crate::text::concat3("\r", f, " ");
        r.append(self.message.as_str());
        self.frame = self.frame + 1;
        r
    }

    /// The closing line of a finished task: a green check and the message.
    pub fn finish_text(&self, final_message: &str) -> (r: String)
        ensures
            r@ == "\r"@ + styled("1;32"@, "✓"@) + " "@ + final_message@,
    {
        let c = success("✓");
        let mut r = crate::text::concat2("\r", c.as_str());
        r.append(" ");
        r.append(final_message);
        r
    }

    /// The closing line of a failed task: a red cross and the message.
    pub fn fail_text(&self, final_message: &str) -> (r: String)
        ensures
            r@ == "\r"@ + styled("1;31"@, "✗"@) + " "@ + final_message@,
    {
        let c = error("✗");
        let mut r = crate::text::concat2("\r", c.as_str());
        r.append(" ");
        r.append(final_message);
        r
    }
}

} // verus!

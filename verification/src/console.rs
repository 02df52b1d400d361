//! The text of the console: lines of a fixed width, of which the last is
//! still open, and how they move up when more is written.

use vstd::prelude::*;

verus! {

/// The number of bytes that the character takes as text in UTF-8.
pub open spec fn char_bytes(c: char) -> int {
    if (c as u32) < 0x80 {
        1
    } else if (c as u32) < 0x800 {
        2
    } else if (c as u32) < 0x1_0000 {
        3
    } else {
        4
    }
}

/// The number of bytes that the line takes as text in UTF-8.
pub open spec fn line_bytes(line: Seq<char>) -> int
    decreases line.len(),
{
    if line.len() == 0 {
        0
    } else {
        line_bytes(line.drop_last()) + char_bytes(line.last())
    }
}

/// The lines that come of writing the characters of `s` from the one with
/// the number `from` on behind the open line `line`.
///
/// A line feed closes the line. Any other character is put at the end of
/// the line, and the line is closed once it has `width` bytes or more. The
/// last of these lines is open.
pub open spec fn written(line: Seq<char>, s: Seq<char>, from: int, width: int) -> Seq<Seq<char>>
    decreases s.len() - from,
{
    if from < 0 || from >= s.len() {
        seq![line]
    } else if s[from] == '\n' {
        seq![line] + written(Seq::empty(), s, from + 1, width)
    } else if line_bytes(line.push(s[from])) >= width {
        seq![line.push(s[from])] + written(Seq::empty(), s, from + 1, width)
    } else {
        written(line.push(s[from]), s, from + 1, width)
    }
}

/// The lines as sequences of characters.
pub open spec fn lines_of(text: Seq<Vec<char>>) -> Seq<Seq<char>> {
    Seq::new(text.len(), |i: int| text[i]@)
}

/// The text of a console of `rows` lines and `cols` columns.
pub struct Console {
    /// The lines, from the top one to the open one at the bottom.
    pub text: Vec<Vec<char>>,
    /// The number of bytes that close a line.
    pub cols: usize,
    /// The number of lines.
    pub rows: usize,
}

/// The number of bytes that the character takes as text in UTF-8.
pub fn bytes_of(c: char) -> (n: usize)
    ensures
        n == char_bytes(c),
        1 <= n <= 4,
{
    let code: u32 = c as u32;
    if code < 0x80 {
        1
    } else if code < 0x800 {
        2
    } else if code < 0x1_0000 {
        3
    } else {
        4
    }
}

/// The number of bytes of a line is at most four for each character.
pub proof fn lemma_line_bytes(line: Seq<char>)
    ensures
        0 <= line_bytes(line) <= 4 * line.len(),
    decreases line.len(),
{
    if line.len() > 0 {
        lemma_line_bytes(line.drop_last());
    }
}

impl Console {
    /// The lines of the console.
    pub open spec fn lines(&self) -> Seq<Seq<char>> {
        lines_of(self.text@)
    }

    /// The console has the lines that it is to have, and one at least.
    pub open spec fn wf(&self) -> bool {
        self.text@.len() == self.rows && self.rows >= 1
    }

    /// The lines that come of writing `s`, the first of them the line that
    /// was open.
    pub open spec fn wrapped(&self, s: Seq<char>) -> Seq<Seq<char>> {
        written(self.lines().last(), s, 0, self.cols as int)
    }

    /// The empty console for a picture of `width` by `height` pixels and
    /// characters of `char_width` by `char_height` pixels.
    pub fn new(width: usize, height: usize, char_width: usize, char_height: usize) -> (c: Console)
        requires
            char_width > 0,
            char_height > 0,
        ensures
            c.cols == width / char_width,
            c.rows == height / char_height,
            c.text@.len() == c.rows,
            forall|i: int| 0 <= i < c.rows ==> (#[trigger] c.lines()[i]).len() == 0,
    {
        let rows: usize = height / char_height;
        let mut text: Vec<Vec<char>> = Vec::new();
        let mut i: usize = 0;
        while i < rows
            invariant
                i <= rows,
                text@.len() == i,
                forall|k: int| 0 <= k < i ==> (#[trigger] text@[k])@.len() == 0,
            decreases rows - i,
        {
            text.push(Vec::new());
            i = i + 1;
        }
        Console { text, cols: width / char_width, rows }
    }

    /// The lines that come of writing `s`: the line that was open with what
    /// is put behind it, and the lines that follow.
    pub fn wrap(&self, s: &[char]) -> (out: Vec<Vec<char>>)
        requires
            self.wf(),
        ensures
            lines_of(out@) == self.wrapped(s@),
            out@.len() >= 1,
    {
        let ghost open0 = self.lines().last();
        let width: usize = self.cols;
        let last: &Vec<char> = &self.text[self.rows - 1];
        let mut line: Vec<char> = Vec::new();
        let mut bytes: u128 = 0;
        let mut k: usize = 0;
        while k < last.len()
            invariant
                k <= last@.len(),
                line@ == last@.subrange(0, k as int),
                bytes == line_bytes(line@),
                bytes <= 4 * k,
            decreases last@.len() - k,
        {
            let c = last[k];
            line.push(c);
            bytes = bytes + bytes_of(c) as u128;
            proof {
                assert(line@.drop_last() =~= last@.subrange(0, k as int));
            }
            k = k + 1;
        }
        proof {
            assert(last@.subrange(0, last@.len() as int) =~= last@);
        }
        let mut out: Vec<Vec<char>> = Vec::new();
        let mut i: usize = 0;
        while i < s.len()
            invariant
                i <= s@.len(),
                width == self.cols,
                bytes == line_bytes(line@),
                last@.len() <= usize::MAX,
                bytes <= 4 * (last@.len() + i),
                lines_of(out@) + written(line@, s@, i as int, width as int) == written(
                    open0,
                    s@,
                    0,
                    width as int,
                ),
            decreases s@.len() - i,
        {
            let c = s[i];
            if c == '\n' {
                out.push(line);
                line = Vec::new();
                bytes = 0;
            } else {
                let ghost open = line@;
                line.push(c);
                proof {
                    assert(line@.drop_last() =~= open);
                }
                bytes = bytes + bytes_of(c) as u128;
                if bytes >= width as u128 {
                    out.push(line);
                    line = Vec::new();
                    bytes = 0;
                }
            }
            i = i + 1;
        }
        out.push(line);
        out
    }

    /// Whether `s` can be written: whether the lines that come of it fit
    /// on the console.
    pub fn fits(&self, s: &[char]) -> (b: bool)
        ensures
            b == (self.wf() && self.wrapped(s@).len() <= self.rows),
    {
        if self.text.len() != self.rows || self.rows == 0 {
            return false;
        }
        let out = self.wrap(s);
        out.len() <= self.rows
    }

    /// Writes `s` to the console: the open line goes on with `s`, and
    /// for each line that `s` closes, the lines move up by one and the top
    /// line goes.
    pub fn write_str(&mut self, s: &[char])
        requires
            old(self).wf(),
            old(self).wrapped(s@).len() <= old(self).rows,
        ensures
            final(self).wf(),
            final(self).rows == old(self).rows,
            final(self).cols == old(self).cols,
            final(self).lines() == old(self).lines().subrange(
                old(self).wrapped(s@).len() - 1,
                old(self).rows - 1,
            ) + old(self).wrapped(s@),
    {
        let mut out = self.wrap(s);
        let n: usize = out.len();
        let mut kept = self.text.split_off(n - 1);
        kept.pop();
        kept.append(&mut out);
        self.text = kept;
    }
}

} // verus!

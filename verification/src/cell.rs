//! A single grid entry: a textual label together with its pre-measured
//! display width and the side it is aligned to when padding is required.

use vstd::prelude::*;

use crate::width::display_width_of;
use crate::width::measure_display_width;

verus! {

/// Indicates alignment of contents when padding is required.
#[derive(Debug, PartialEq, Eq, Clone, Copy, Structural)]
pub enum Alignment {
    /// Padding is added to the right side of the text.
    Left,
    /// Padding is added to the left side of the text.
    Right,
}

impl Default for Alignment {
    fn default() -> (a: Self)
        ensures
            a == Alignment::Left,
    {
        Alignment::Left
    }
}

/// A textual string carrying its display width and alignment.
///
/// `width` is the number of display columns the contents occupy. It is
/// measured once on construction, or supplied by the caller when the raw
/// text and its on-screen width differ (text holding escape sequences that
/// consume no columns); the layout engine never recomputes it.
#[derive(Debug, Clone)]
pub struct GridCell {
    /// The textual string displayed when written.
    pub contents: String,
    /// The display width of `contents` in columns.
    pub width: usize,
    /// Whether `contents` is left or right aligned when padding is required.
    pub alignment: Alignment,
}

/// A run of `n` space characters.
pub open spec fn spec_spaces(n: int) -> Seq<char> {
    Seq::new(n as nat, |i: int| ' ')
}

/// The contents of `cell` padded out to `width` display columns: the text
/// verbatim when the column is no wider than the cell, otherwise the text
/// with spaces on the non-aligned side.
pub open spec fn spec_padded(cell: GridCell, width: int) -> Seq<char> {
    if width <= cell.width {
        cell.contents@
    } else if cell.alignment == Alignment::Left {
        cell.contents@ + spec_spaces(width - cell.width)
    } else {
        spec_spaces(width - cell.width) + cell.contents@
    }
}

/// Appends `count` space characters to `out`.
pub(crate) fn push_spaces(out: &mut String, count: usize)
    ensures
        final(out)@ == old(out)@ + spec_spaces(count as int),
{
    let ghost out0: Seq<char> = out@;
    let mut i: usize = 0;
    while i < count
        invariant
            i <= count,
            out@ == out0 + spec_spaces(i as int),
        decreases count - i,
    {
        out.append(" ");
        proof {
            reveal_strlit(" ");
            assert(out@ =~= out0 + spec_spaces(i + 1));
        }
        i = i + 1;
    }
    proof {
        assert(out@ =~= out0 + spec_spaces(count as int));
    }
}

impl GridCell {
    /// Appends the contents to `out`, padded to `width` columns: verbatim
    /// when `width <= self.width` (no truncation, even if this overflows the
    /// nominal column), otherwise right-padded for left alignment and
    /// left-padded for right alignment.
    pub fn write(&self, out: &mut String, width: usize)
        ensures
            final(out)@ == old(out)@ + spec_padded(*self, width as int),
    {
        let pad_width: usize = if width <= self.width {
            0
        } else {
            width - self.width
        };

        if pad_width == 0 {
            out.append(self.contents.as_str());
        } else if self.alignment == Alignment::Left {
            out.append(self.contents.as_str());
            push_spaces(out, pad_width);
        } else {
            push_spaces(out, pad_width);
            out.append(self.contents.as_str());
        }
    }
}

impl Default for GridCell {
    fn default() -> (c: GridCell)
        ensures
            c.contents@ == Seq::<char>::empty(),
            c.width == 0,
            c.alignment == Alignment::Left,
    {
        GridCell { contents: String::new(), width: 0, alignment: Alignment::Left }
    }
}

impl From<String> for GridCell {
    /// Builds a left-aligned cell from raw text, measuring its width.
    fn from(value: String) -> (c: GridCell) {
        let width = measure_display_width(value.as_str());
        GridCell { contents: value, width, alignment: Alignment::Left }
    }
}

impl vstd::std_specs::convert::FromSpecImpl<String> for GridCell {
    open spec fn obeys_from_spec() -> bool {
        true
    }

    open spec fn from_spec(v: String) -> GridCell {
        GridCell {
            contents: v,
            width: display_width_of(v@) as usize,
            alignment: Alignment::Left,
        }
    }
}

} // verus!

//! The display-width oracle: how many terminal columns a piece of text
//! occupies. The measurement itself is delegated to the `unicode-width`
//! crate; the rest of the library only ever reads the measured number.

use vstd::prelude::*;

verus! {

/// The number of terminal columns that a sequence of characters occupies.
///
/// The value is determined by the characters alone; it is given meaning by
/// the trusted wrapper below, which obtains it from `unicode-width`.
pub uninterp spec fn display_width_of(s: Seq<char>) -> nat;

/// Relies on `unicode_width::UnicodeWidthStr::width`: the display width of a
/// string in terminal columns, a pure function of its characters.
#[verifier::external_body]
pub(crate) fn measure_display_width(s: &str) -> (w: usize)
    ensures
        w as nat == display_width_of(s@),
{
    unicode_width::UnicodeWidthStr::width(s)
}

} // verus!

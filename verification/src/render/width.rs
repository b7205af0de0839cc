//! Display-width measurement.
//!
//! `unicode-width` (UAX #11) gives the East-Asian width, but Private Use
//! Area glyphs (where Nerd Fonts ship their icons) come out as width 1 while
//! every Nerd Font draws them two columns wide. PUA code points count as 2.

use unicode_width::UnicodeWidthChar;

use vstd::prelude::*;

use crate::text::chars_of;

verus! {

/// The display width `unicode-width` gives `c` (`UnicodeWidthChar::width`),
/// `None` for control characters.
pub uninterp spec fn unicode_width_of(c: char) -> Option<usize>;

/// `UnicodeWidthChar::width`. As its source shows: printable ASCII
/// (U+0020..U+007E) is one column, C0 and C1 controls (below U+0020 and
/// U+007F..U+009F) have no width, and every other character gets a width
/// read from a table of byte-sized entries; that value is named, not stated.
#[verifier::external_body]
fn unicode_width(c: char) -> (r: Option<usize>)
    ensures
        r == unicode_width_of(c),
        ('\u{20}' <= c && c < '\u{7f}') ==> r == Some(1usize),
        (c < '\u{20}' || ('\u{7f}' <= c && c < '\u{a0}')) ==> r is None,
        r matches Some(w) ==> w <= 255,
{
    UnicodeWidthChar::width(c)
}

/// The three Unicode Private Use Areas.
pub open spec fn in_private_use_area(c: char) -> bool {
    ('\u{e000}' <= c && c <= '\u{f8ff}') || ('\u{f0000}' <= c && c <= '\u{ffffd}') || (
    '\u{100000}' <= c && c <= '\u{10fffd}')
}

/// Columns a character occupies: 2 in the PUA, otherwise its Unicode width
/// (0 for control characters).
pub open spec fn char_width(c: char) -> nat {
    if in_private_use_area(c) {
        2
    } else {
        match unicode_width_of(c) {
            Some(w) => w as nat,
            None => 0,
        }
    }
}

/// Columns a text occupies: the sum of its characters' widths.
pub open spec fn text_width(s: Seq<char>) -> nat
    decreases s.len(),
{
    if s.len() == 0 {
        0
    } else {
        text_width(s.drop_last()) + char_width(s.last())
    }
}

/// Printable ASCII: U+0020..=U+007E.
pub open spec fn printable_ascii(c: char) -> bool {
    '\u{20}' <= c && c < '\u{7f}'
}

/// C0 and C1 control characters: below U+0020 and U+007F..=U+009F.
pub open spec fn control_char(c: char) -> bool {
    c < '\u{20}' || ('\u{7f}' <= c && c < '\u{a0}')
}

/// Sum of display widths of all chars in `s` (saturating at `usize::MAX`):
/// printable ASCII text is as wide as it is long, control characters count
/// as 0.
pub fn display_width(s: &str) -> (r: usize)
    ensures
        r == if text_width(s@) <= usize::MAX {
            text_width(s@)
        } else {
            usize::MAX as nat
        },
        (forall|j: int| 0 <= j < s@.len() ==> printable_ascii(#[trigger] s@[j])) ==> r == s@.len(),
        (forall|j: int| 0 <= j < s@.len() ==> control_char(#[trigger] s@[j])) ==> r == 0,
{
    let cs = chars_of(s);
    let mut total: usize = 0;
    let mut i: usize = 0;
    while i < cs.len()
        invariant
            cs@ == s@,
            i <= cs.len(),
            total == if text_width(cs@.take(i as int)) <= usize::MAX {
                text_width(cs@.take(i as int))
            } else {
                usize::MAX as nat
            },
            (forall|j: int| 0 <= j < i ==> printable_ascii(#[trigger] cs@[j])) ==> total == i,
            (forall|j: int| 0 <= j < i ==> control_char(#[trigger] cs@[j])) ==> total == 0,
        decreases cs.len() - i,
    {
        let w = char_display_width(cs[i]);
        proof {
            if forall|j: int| 0 <= j < i + 1 ==> printable_ascii(#[trigger] cs@[j]) {
                assert(printable_ascii(cs@[i as int]));
                assert forall|j: int| 0 <= j < i implies printable_ascii(#[trigger] cs@[j]) by {
                    assert(printable_ascii(cs@[j]));
                }
            }
            if forall|j: int| 0 <= j < i + 1 ==> control_char(#[trigger] cs@[j]) {
                assert(control_char(cs@[i as int]));
                assert forall|j: int| 0 <= j < i implies control_char(#[trigger] cs@[j]) by {
                    assert(control_char(cs@[j]));
                }
            }
        }
        assert(cs@.take(i + 1).drop_last() =~= cs@.take(i as int));
        total = total.saturating_add(w);
        i = i + 1;
    }
    assert(cs@.take(cs.len() as int) =~= cs@);
    total
}

/// Columns one character occupies: 2 in the Private Use Areas, 1 for
/// printable ASCII, 0 for control characters, otherwise the Unicode width.
pub fn char_display_width(c: char) -> (r: usize)
    ensures
        r == char_width(c),
        r <= 255,
        in_private_use_area(c) ==> r == 2,
        printable_ascii(c) ==> r == 1,
        control_char(c) ==> r == 0,
{
    if is_nerd_font_pua(c) {
        return 2;
    }
    match unicode_width(c) {
        Some(w) => w,
        None => 0,
    }
}

/// True for code points inside the three Unicode Private Use Areas. Nerd
/// Font glyphs live almost exclusively in the BMP PUA (U+E000..=U+F8FF)
/// plus a small set in the Plane 15/16 supplementary PUAs.
pub fn is_nerd_font_pua(c: char) -> (r: bool)
    ensures
        r == in_private_use_area(c),
{
    ('\u{e000}' <= c && c <= '\u{f8ff}') || ('\u{f0000}' <= c && c <= '\u{ffffd}') || (
    '\u{100000}' <= c && c <= '\u{10fffd}')
}

} // verus!

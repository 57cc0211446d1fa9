//! Display width of text in terminal columns.

use vstd::prelude::*;
use vstd::string::*;

verus! {

/// The width that `unicode_width` gives to a single character: a number of
/// columns, or `None` for a control character.
pub uninterp spec fn char_width(c: char) -> Option<usize>;

/// Looks up the width of `c` with `UnicodeWidthChar::width`.
///
/// The width is read from the tables of `unicode_width` and depends on the
/// character alone.
#[verifier::external_body]
pub(crate) fn width_of(c: char) -> (width: Option<usize>)
    ensures
        width == char_width(c),
{
    unicode_width::UnicodeWidthChar::width(c)
}

/// The columns that a looked-up width stands for; a control character,
/// which has no width, takes none.
pub open spec fn columns_of(width: Option<usize>) -> nat {
    match width {
        Some(n) => n as nat,
        None => 0,
    }
}

/// The columns that one character takes.
pub open spec fn columns(c: char) -> nat {
    columns_of(char_width(c))
}

/// Counts the columns of a looked-up width.
pub fn column_count(width: Option<usize>) -> (count: usize)
    ensures
        count == columns_of(width),
{
    match width {
        Some(n) => n,
        None => 0,
    }
}

/// The display width of a text: the sum of the columns of its characters.
pub open spec fn text_width(text: Seq<char>) -> nat
    decreases text.len(),
{
    if text.len() == 0 {
        0
    } else {
        text_width(text.drop_last()) + columns(text.last())
    }
}

/// The width of a text is at most `usize::MAX` columns per character.
pub proof fn lemma_text_width_bound(text: Seq<char>)
    ensures
        text_width(text) <= text.len() * usize::MAX,
    decreases text.len(),
{
    if text.len() > 0 {
        lemma_text_width_bound(text.drop_last());
        assert(text_width(text) <= (text.len() - 1) * usize::MAX + usize::MAX);
        assert((text.len() - 1) * usize::MAX + usize::MAX == text.len() * usize::MAX)
            by (nonlinear_arith);
    }
}

/// Computes the display width of `text`.
pub fn display_width(text: &str) -> (width: u128)
    ensures
        width == text_width(text@),
{
    let total = text.unicode_len();
    let mut width: u128 = 0;
    for c in it: text.chars()
        invariant
            it.seq() == text@,
            total == text@.len(),
            width == text_width(text@.take(it.index() as int)),
    {
        let ghost i = it.index() as int;
        proof {
            assert(text@.take(i + 1).drop_last() =~= text@.take(i));
            assert(text@.take(i + 1).last() == c);
            lemma_text_width_bound(text@.take(i));
            lemma_text_width_bound(text@.take(i + 1));
            assert((i + 1) * usize::MAX <= total * usize::MAX) by (nonlinear_arith)
                requires
                    i + 1 <= total,
            ;
            assert(total * usize::MAX <= usize::MAX * usize::MAX) by (nonlinear_arith)
                requires
                    total <= usize::MAX,
            ;
            assert(usize::MAX * usize::MAX <= u128::MAX) by (nonlinear_arith)
                requires
                    usize::MAX <= 0xffff_ffff_ffff_ffff,
            ;
        }
        width = width + (column_count(width_of(c)) as u128);
    }
    proof {
        assert(text@.take(text@.len() as int) =~= text@);
    }
    width
}

} // verus!

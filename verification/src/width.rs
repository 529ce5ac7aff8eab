//! Fitting a text into the columns that are left on a terminal line.

use crate::text::{chars_of, find, find_char, lemma_find_char};
use unicode_width::UnicodeWidthStr;
use vstd::prelude::*;
use vstd::string::*;

verus! {

/// The number of terminal columns that a text takes up when it is shown,
/// as the crate unicode-width counts them for a whole string.
pub uninterp spec fn display_width(s: Seq<char>) -> nat;

/// Calls `UnicodeWidthStr::width` of the crate unicode-width on a string
/// slice. Taken on trust: the result depends on the characters of the string
/// alone, and the empty string has width 0 (the crate folds over the
/// characters, starting from 0).
#[verifier::external_body]
fn str_width(s: &str) -> (w: usize)
    ensures
        w == display_width(s@),
        s@.len() == 0 ==> w == 0,
{
    UnicodeWidthStr::width(s)
}

/// The first line of a text: what stands before its first newline.
pub open spec fn first_line(s: Seq<char>) -> Seq<char> {
    s.take(find_char(s, '\n', 0))
}

/// What is left of `line` when characters are taken from its end, one at a
/// time, until it is no wider than `width` columns.
pub open spec fn fit_prefix(line: Seq<char>, width: nat) -> Seq<char>
    decreases line.len(),
{
    if line.len() == 0 || display_width(line) <= width {
        line
    } else {
        fit_prefix(line.drop_last(), width)
    }
}

/// `fit_prefix` gives a prefix of the line, and every longer prefix of the
/// line is wider than `width`.
pub proof fn lemma_fit_prefix(line: Seq<char>, width: nat)
    ensures
        fit_prefix(line, width).len() <= line.len(),
        fit_prefix(line, width) == line.take(fit_prefix(line, width).len() as int),
        fit_prefix(line, width).len() > 0 ==> display_width(fit_prefix(line, width)) <= width,
        forall|k: int|
            fit_prefix(line, width).len() < k <= line.len() ==> display_width(
                #[trigger] line.take(k),
            ) > width,
    decreases line.len(),
{
    if line.len() == 0 || display_width(line) <= width {
        assert(line.take(line.len() as int) == line);
    } else {
        let shorter = line.drop_last();
        lemma_fit_prefix(shorter, width);
        let kept = fit_prefix(shorter, width).len() as int;
        assert(shorter.take(kept) == line.take(kept));
        assert forall|k: int| kept < k <= line.len() implies display_width(
            #[trigger] line.take(k),
        ) > width by {
            if k == line.len() {
                assert(line.take(k) == line);
            } else {
                assert(shorter.take(k) == line.take(k));
            }
        }
    }
}

/// The first line of a text holds no newline.
pub proof fn lemma_first_line(s: Seq<char>)
    ensures
        first_line(s).len() <= s.len(),
        forall|i: int| 0 <= i < first_line(s).len() ==> first_line(s)[i] != '\n',
        first_line(s).len() < s.len() ==> s[first_line(s).len() as int] == '\n',
{
    lemma_find_char(s, '\n', 0);
}

/// The first line of `s`: what stands before its first newline.
pub fn first_line_of<'a>(s: &'a str) -> (r: &'a str)
    ensures
        r@ == first_line(s@),
{
    let chars = chars_of(s);
    let end = find(&chars, '\n', 0);
    s.substring_char(0, end)
}

/// `line`, cut at its end to at most `width` columns: the longest prefix of
/// the line, found from the whole line downwards, that is no wider than
/// `width`. Characters are never split.
pub fn fit<'a>(line: &'a str, width: usize) -> (r: &'a str)
    ensures
        r@ == fit_prefix(line@, width as nat),
        r@.len() <= line@.len(),
        r@ == line@.take(r@.len() as int),
        display_width(r@) <= width,
        display_width(line@) <= width ==> r@ == line@,
        forall|k: int|
            r@.len() < k <= line@.len() ==> display_width(#[trigger] line@.take(k)) > width,
{
    let mut kept: usize = line.unicode_len();
    let mut r = line;
    proof {
        assert(line@.take(kept as int) == line@);
    }
    while str_width(r) > width
        invariant
            kept <= line@.len(),
            r@ == line@.take(kept as int),
            fit_prefix(r@, width as nat) == fit_prefix(line@, width as nat),
        decreases kept,
    {
        proof {
            assert(line@.take(kept as int).drop_last() == line@.take(kept - 1));
        }
        kept = kept - 1;
        r = line.substring_char(0, kept);
    }
    proof {
        lemma_fit_prefix(line@, width as nat);
    }
    r
}

/// The first line of `s`, cut at its end to at most `width` columns.
pub fn shorten<'a>(s: &'a str, width: usize) -> (r: &'a str)
    ensures
        r@ == fit_prefix(first_line(s@), width as nat),
        r@.len() <= first_line(s@).len(),
        r@ == first_line(s@).take(r@.len() as int),
        forall|i: int| 0 <= i < r@.len() ==> r@[i] != '\n',
        display_width(r@) <= width,
        display_width(first_line(s@)) <= width ==> r@ == first_line(s@),
        forall|k: int|
            r@.len() < k <= first_line(s@).len() ==> display_width(
                #[trigger] first_line(s@).take(k),
            ) > width,
{
    let line = first_line_of(s);
    let r = fit(line, width);
    proof {
        lemma_first_line(s@);
        assert forall|i: int| 0 <= i < r@.len() implies r@[i] != '\n' by {
            assert(r@[i] == first_line(s@)[i]);
        }
    }
    r
}

} // verus!

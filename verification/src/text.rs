//! Text built up piece by piece.

use vstd::prelude::*;
use vstd::string::StringExecFns;

verus! {

/// `count` copies of the character `c`.
pub open spec fn repeated(c: char, count: nat) -> Seq<char> {
    Seq::new(count, |i: int| c)
}

/// The number of characters by which `text` falls short of `width`.
pub open spec fn shortfall(text: Seq<char>, width: nat) -> nat {
    if text.len() < width {
        (width - text.len()) as nat
    } else {
        0
    }
}

/// `text`, filled up with blanks behind it to at least `width` characters.
pub open spec fn left_aligned(text: Seq<char>, width: nat) -> Seq<char> {
    text + repeated(' ', shortfall(text, width))
}

/// `text`, filled up with blanks before it to at least `width` characters.
pub open spec fn right_aligned(text: Seq<char>, width: nat) -> Seq<char> {
    repeated(' ', shortfall(text, width)) + text
}

/// Whether two texts hold the same characters.
pub fn same_text(a: &str, b: &str) -> (same: bool)
    ensures
        same == (a@ == b@),
{
    a.to_string() == b.to_string()
}

/// Puts `count` copies of the one-character text `piece` at the end of `out`.
pub fn append_run(out: &mut String, piece: &str, count: usize)
    requires
        piece@.len() == 1,
    ensures
        final(out)@ == old(out)@ + repeated(piece@[0], count as nat),
{
    let mut done: usize = 0;
    while done < count
        invariant
            done <= count,
            piece@.len() == 1,
            out@ == old(out)@ + repeated(piece@[0], done as nat),
        decreases count - done,
    {
        out.append(piece);
        done = done + 1;
    }
}

/// Puts `text` at the end of `out`, with blanks behind it up to `width` characters.
pub fn append_left_aligned(out: &mut String, text: &str, width: usize)
    ensures
        final(out)@ == old(out)@ + left_aligned(text@, width as nat),
{
    proof {
        reveal_strlit(" ");
    }
    let length: usize = text.unicode_len();
    out.append(text);
    if length < width {
        append_run(out, " ", width - length);
    }
    assert(out@ =~= old(out)@ + left_aligned(text@, width as nat));
}

/// Puts `text` at the end of `out`, with blanks before it up to `width` characters.
pub fn append_right_aligned(out: &mut String, text: &str, width: usize)
    ensures
        final(out)@ == old(out)@ + right_aligned(text@, width as nat),
{
    proof {
        reveal_strlit(" ");
    }
    let length: usize = text.unicode_len();
    if length < width {
        append_run(out, " ", width - length);
    }
    out.append(text);
    assert(out@ =~= old(out)@ + right_aligned(text@, width as nat));
}

/// Aligning a text never cuts it: it stays whole, and takes up the width it was
/// given or, where it is longer, its own length.
pub proof fn law_alignment_keeps_text(text: Seq<char>, width: nat)
    ensures
        left_aligned(text, width).take(text.len() as int) == text,
        right_aligned(text, width).skip(shortfall(text, width) as int) == text,
        left_aligned(text, width).len() == right_aligned(text, width).len(),
        left_aligned(text, width).len() == if text.len() < width {
            width
        } else {
            text.len()
        },
{
    assert(left_aligned(text, width).take(text.len() as int) =~= text);
    assert(right_aligned(text, width).skip(shortfall(text, width) as int) =~= text);
}

/// What fills a text up is blanks, behind it or in front of it, and just as many as it
/// takes.
pub proof fn law_alignment_fills_with_blanks(text: Seq<char>, width: nat)
    ensures
        forall|i: int|
            0 <= i < left_aligned(text, width).len() ==> #[trigger] left_aligned(text, width)[i]
                == if i < text.len() {
                text[i]
            } else {
                ' '
            },
        forall|i: int|
            0 <= i < right_aligned(text, width).len() ==> #[trigger] right_aligned(text, width)[i]
                == if i < right_aligned(text, width).len() - text.len() {
                ' '
            } else {
                text[i - (right_aligned(text, width).len() - text.len())]
            },
        left_aligned(text, width).len() >= text.len(),
        left_aligned(text, width).len() >= width,
        left_aligned(text, width).len() == text.len() || left_aligned(text, width).len() == width,
        right_aligned(text, width).len() == left_aligned(text, width).len(),
{
}

/// A run is as long as asked for, and of the one character.
pub proof fn law_run_is_of_one_character(c: char, count: nat, i: int)
    requires
        0 <= i < count,
    ensures
        repeated(c, count).len() == count,
        repeated(c, count)[i] == c,
{
}

} // verus!

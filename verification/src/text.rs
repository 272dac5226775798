//! Splitting text at a separator.

use vstd::prelude::*;

verus! {

/// The pieces of `t` between occurrences of `sep`, empty pieces included.
/// There is always at least one piece.
pub open spec fn pieces(t: Seq<char>, sep: char) -> Seq<Seq<char>>
    decreases t.len(),
{
    if t.len() == 0 {
        seq![Seq::<char>::empty()]
    } else if t.last() == sep {
        pieces(t.drop_last(), sep).push(Seq::<char>::empty())
    } else {
        let before = pieces(t.drop_last(), sep);
        before.drop_last().push(before.last().push(t.last()))
    }
}

/// There is always at least one piece.
pub proof fn lemma_pieces_nonempty(t: Seq<char>, sep: char)
    ensures
        pieces(t, sep).len() >= 1,
    decreases t.len(),
{
    if t.len() > 0 {
        lemma_pieces_nonempty(t.drop_last(), sep);
    }
}

/// Reading one more character either opens a new piece or lengthens the
/// last one.
pub proof fn lemma_pieces_push(t: Seq<char>, sep: char, c: char)
    ensures
        c == sep ==> pieces(t.push(c), sep) == pieces(t, sep).push(Seq::<char>::empty()),
        c != sep ==> pieces(t.push(c), sep) == pieces(t, sep).drop_last().push(
            pieces(t, sep).last().push(c),
        ),
{
    assert(t.push(c).drop_last() == t);
}

/// No piece holds the separator.
pub proof fn lemma_pieces_hold_no_separator(t: Seq<char>, sep: char)
    ensures
        forall|i: int, j: int|
            0 <= i < pieces(t, sep).len() && 0 <= j < pieces(t, sep)[i].len() ==> (
            #[trigger] pieces(t, sep)[i][j]) != sep,
    decreases t.len(),
{
    if t.len() > 0 {
        lemma_pieces_hold_no_separator(t.drop_last(), sep);
        lemma_pieces_nonempty(t.drop_last(), sep);
    }
}

} // verus!

//! Writing several texts over a screen, one after the other.
use crate::color::Color;
use crate::screen::{painted, Cell, TerminalScreenBuffer};
use vstd::prelude::*;

verus! {

/// A text and where it is written.
pub struct Paint {
    /// The text.
    pub text: Seq<char>,
    /// Its color, if it has one.
    pub color: Option<Color>,
    /// The column of its first character.
    pub x: int,
    /// Its row.
    pub y: int,
}

/// A grid with texts written over it in turn.
pub open spec fn paint_all(g: Seq<Seq<Cell>>, ps: Seq<Paint>) -> Seq<Seq<Cell>>
    decreases ps.len(),
{
    if ps.len() == 0 {
        g
    } else {
        let p = ps.last();
        painted(paint_all(g, ps.drop_last()), p.text, p.color, p.x, p.y)
    }
}

/// Whether a buffer came from another by writing texts over its next frame.
pub open spec fn drawn(
    before: TerminalScreenBuffer,
    after: TerminalScreenBuffer,
    ps: Seq<Paint>,
) -> bool {
    &&& after.next_grid() == paint_all(before.next_grid(), ps)
    &&& after.prev == before.prev
    &&& after.x_draw == before.x_draw
    &&& after.y_draw == before.y_draw
}

/// Writing one more text.
pub proof fn lemma_drawn_push(
    a: TerminalScreenBuffer,
    b: TerminalScreenBuffer,
    c: TerminalScreenBuffer,
    ps: Seq<Paint>,
    p: Paint,
)
    requires
        drawn(a, b, ps),
        c.next_grid() == painted(b.next_grid(), p.text, p.color, p.x, p.y),
        c.prev == b.prev,
        c.x_draw == b.x_draw,
        c.y_draw == b.y_draw,
    ensures
        drawn(a, c, ps.push(p)),
{
    assert(ps.push(p).drop_last() =~= ps);
}

/// Writing two lists of texts in turn is writing the one, then the other.
pub proof fn lemma_paint_all_concat(g: Seq<Seq<Cell>>, a: Seq<Paint>, b: Seq<Paint>)
    ensures
        paint_all(g, a + b) == paint_all(paint_all(g, a), b),
    decreases b.len(),
{
    if b.len() == 0 {
    } else {
        lemma_paint_all_concat(g, a, b.drop_last());
        assert((a + b).drop_last() =~= a + b.drop_last());
    }
}

/// Writing a list of texts after another.
pub proof fn lemma_drawn_concat(
    a: TerminalScreenBuffer,
    b: TerminalScreenBuffer,
    c: TerminalScreenBuffer,
    ps: Seq<Paint>,
    qs: Seq<Paint>,
)
    requires
        drawn(a, b, ps),
        drawn(b, c, qs),
    ensures
        drawn(a, c, ps + qs),
{
    lemma_paint_all_concat(a.next_grid(), ps, qs);
}

} // verus!

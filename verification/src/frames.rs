//! What can be read off a frame: what each place of it shows, and what lies over
//! what.
use crate::base_screen::{base_lines, begins_with, law_values_stand_behind_their_names};
use crate::button::Button;
use crate::color::Color;
use crate::game::{minos, Board, Feedback, GameSnapshot, Orientation, Piece, Tetromino, Tile};
use crate::hud::{
    button_paints, color_of, frame_text, glyph_active, glyph_ground, glyph_preview, glyph_shadow,
    held_paints, icons_width, legend_line, legend_paints, legend_wf, locked_paints, longest_desc,
    next_paints, picture_paints, pictures_width, replay_paints, shown_button, shown_place,
    tile_paints, RenderTexts, TILE_DOWN,
};
use crate::paint::{lemma_paint_all_concat, paint_all, Paint};
use crate::renderer::{
    feed_paints, line_clear_paints, lock_glyph, msg_paints, msgs_wf, preview_paints,
    scene_of, shown_button_paints, shown_locked_paints, shown_piece_paints, small_end, text_paints,
    trail_paints, trail_text, DiffPrintRenderer, FeedbackMsg, HardDropTile, Scene,
};
use crate::screen::{painted, plain_row, shown, Cell};
use crate::settings::{Glyphset, Settings};
use crate::text::decimal;
use crate::time::InGameTime;
use vstd::prelude::*;

verus! {

// ---------------------------------------------------------------------------
// Writing over a grid
// ---------------------------------------------------------------------------
/// Whether a text is written over a place.
pub open spec fn covers(p: Paint, x: int, y: int) -> bool {
    &&& p.y == y
    &&& p.x <= x < p.x + p.text.len()
}

/// Whether a text begins in a place that exists.
pub open spec fn on_screen(p: Paint) -> bool {
    &&& 0 <= p.x
    &&& 0 <= p.y
}

/// Where a text is written the grid shows it, and elsewhere what it showed before.
pub proof fn law_text_is_shown_where_it_is_written(g: Seq<Seq<Cell>>, p: Paint, x: int, y: int)
    requires
        on_screen(p),
        0 <= x,
        0 <= y,
    ensures
        covers(p, x, y) && p.x + p.text.len() <= usize::MAX && p.y < usize::MAX ==> shown(
            painted(g, p.text, p.color, p.x, p.y),
            x,
            y,
        ) == (p.text[x - p.x], p.color),
        !covers(p, x, y) ==> shown(painted(g, p.text, p.color, p.x, p.y), x, y) == shown(g, x, y),
{
}

/// A place that none of some texts is written over stays as it is.
proof fn lemma_untouched(g: Seq<Seq<Cell>>, ps: Seq<Paint>, x: int, y: int)
    requires
        0 <= x,
        0 <= y,
        forall|i: int| 0 <= i < ps.len() ==> on_screen(#[trigger] ps[i]) && !covers(ps[i], x, y),
    ensures
        shown(paint_all(g, ps), x, y) == shown(g, x, y),
    decreases ps.len(),
{
    if ps.len() > 0 {
        let p = ps.last();
        assert(ps[ps.len() - 1] == p);
        assert forall|i: int| 0 <= i < ps.drop_last().len() implies on_screen(
            #[trigger] ps.drop_last()[i],
        ) && !covers(ps.drop_last()[i], x, y) by {
            assert(ps.drop_last()[i] == ps[i]);
        }
        lemma_untouched(g, ps.drop_last(), x, y);
        law_text_is_shown_where_it_is_written(paint_all(g, ps.drop_last()), p, x, y);
    }
}

/// The last of some texts that is written over a place is the one that is shown.
pub(crate) proof fn lemma_last_is_shown(g: Seq<Seq<Cell>>, ps: Seq<Paint>, k: int, x: int, y: int)
    requires
        0 <= x,
        0 <= y,
        0 <= k < ps.len(),
        covers(ps[k], x, y),
        ps[k].x + ps[k].text.len() <= usize::MAX,
        ps[k].y < usize::MAX,
        forall|i: int| 0 <= i < ps.len() ==> on_screen(#[trigger] ps[i]),
        forall|i: int| k < i < ps.len() ==> !covers(#[trigger] ps[i], x, y),
    ensures
        shown(paint_all(g, ps), x, y) == (ps[k].text[x - ps[k].x], ps[k].color),
{
    let first = ps.take(k + 1);
    let rest = ps.skip(k + 1);
    assert(first + rest =~= ps);
    lemma_paint_all_concat(g, first, rest);
    assert forall|i: int| 0 <= i < rest.len() implies on_screen(#[trigger] rest[i]) && !covers(
        rest[i],
        x,
        y,
    ) by {
        assert(rest[i] == ps[k + 1 + i]);
    }
    lemma_untouched(paint_all(g, first), rest, x, y);
    assert(first.last() == ps[k]);
    assert(on_screen(ps[k]));
    law_text_is_shown_where_it_is_written(paint_all(g, first.drop_last()), ps[k], x, y);
}

// ---------------------------------------------------------------------------
// Tiles
// ---------------------------------------------------------------------------
/// The kind of the last of the first `k` tiles that lies in a place, if any does.
pub open spec fn tile_in(tiles: Seq<Tile>, k: int, x: int, y: int) -> Option<u8>
    decreases k,
{
    if k <= 0 {
        None
    } else if tiles[k - 1].0.0 == x && tiles[k - 1].0.1 == y {
        Some(tiles[k - 1].1)
    } else {
        tile_in(tiles, k - 1, x, y)
    }
}

/// Whether a piece has a tile in a place.
pub open spec fn lies_in(piece: Piece, x: int, y: int) -> bool {
    exists|i: int|
        0 <= i < 4 && (#[trigger] piece.tile_seq()[i]).0.0 == x && piece.tile_seq()[i].0.1 == y
}

proof fn lemma_tile_in(piece: Piece, k: int, x: int, y: int)
    requires
        0 <= k <= 4,
    ensures
        tile_in(piece.tile_seq(), k, x, y) is Some <==> exists|i: int|
            0 <= i < k && (#[trigger] piece.tile_seq()[i]).0.0 == x && piece.tile_seq()[i].0.1 == y,
        tile_in(piece.tile_seq(), k, x, y) matches Some(id) ==> id == piece.tetromino.tile_type(),
    decreases k,
{
    if k > 0 {
        lemma_tile_in(piece, k - 1, x, y);
        let t = piece.tile_seq()[k - 1];
    }
}

/// Tiles show in their places, and nowhere else.
pub(crate) proof fn lemma_tiles_shown(
    g: Seq<Seq<Cell>>,
    tiles: Seq<Tile>,
    glyph: Seq<char>,
    palette: Map<u8, Color>,
    recolor: Option<u8>,
    k: int,
    x: int,
    y: int,
    d: int,
)
    requires
        glyph.len() == 2,
        0 <= k <= tiles.len(),
        0 <= x < 10,
        0 <= y <= 20,
        0 <= d < 2,
    ensures
        shown(
            paint_all(g, tile_paints(tiles, glyph, palette, recolor, k)),
            26 + 2 * x + d,
            21 - y,
        ) == match tile_in(tiles, k, x, y) {
            Some(id) => (
                glyph[d],
                color_of(
                    palette,
                    match recolor {
                        Some(other) => other,
                        None => id,
                    },
                ),
            ),
            None => shown(g, 26 + 2 * x + d, 21 - y),
        },
    decreases k,
{
    if k > 0 {
        lemma_tiles_shown(g, tiles, glyph, palette, recolor, k - 1, x, y, d);
        let ps = tile_paints(tiles, glyph, palette, recolor, k);
        let rest = tile_paints(tiles, glyph, palette, recolor, k - 1);
        if tiles[k - 1].0.1 <= 20 {
            assert(ps.drop_last() =~= rest);
            law_text_is_shown_where_it_is_written(
                paint_all(g, rest),
                ps.last(),
                26 + 2 * x + d,
                21 - y,
            );
        }
    }
}

/// Locked tiles show in their places, and nowhere else.
pub(crate) proof fn lemma_locked_shown(
    g: Seq<Seq<Cell>>,
    board: Board,
    glyph: Seq<char>,
    palette: Map<u8, Color>,
    k: int,
    x: int,
    y: int,
    d: int,
)
    requires
        glyph.len() == 2,
        0 <= k <= 210,
        0 <= x < 10,
        0 <= y <= 20,
        0 <= d < 2,
    ensures
        shown(paint_all(g, locked_paints(board, glyph, palette, k)), 26 + 2 * x + d, 21 - y)
            == match board@[y]@[x] {
            Some(id) => if (20 - y) * 10 + x < k {
                (glyph[d], color_of(palette, id))
            } else {
                shown(g, 26 + 2 * x + d, 21 - y)
            },
            None => shown(g, 26 + 2 * x + d, 21 - y),
        },
    decreases k,
{
    if k > 0 {
        lemma_locked_shown(g, board, glyph, palette, k - 1, x, y, d);
        let ps = locked_paints(board, glyph, palette, k);
        let rest = locked_paints(board, glyph, palette, k - 1);
        let pos = shown_place(k - 1);
        assert(pos.0 == (k - 1) % 10 && pos.1 == 20 - (k - 1) / 10);
        if board@[pos.1 as int]@[pos.0 as int] is Some {
            assert(ps.drop_last() =~= rest);
            law_text_is_shown_where_it_is_written(
                paint_all(g, rest),
                ps.last(),
                26 + 2 * x + d,
                21 - y,
            );
        }
    }
}

/// Whether no place of a trail lies in a place.
pub open spec fn no_trail_in(tiles: Seq<HardDropTile>, x: int, y: int) -> bool {
    forall|i: int|
        0 <= i < tiles.len() ==> !((#[trigger] tiles[i]).pos.0 == x && tiles[i].pos.1 == y)
}

proof fn lemma_trails_miss(
    g: Seq<Seq<Cell>>,
    sc: Scene,
    tiles: Seq<HardDropTile>,
    k: int,
    x: int,
    y: int,
    d: int,
)
    requires
        0 <= k <= tiles.len(),
        0 <= x < 10,
        0 <= y <= 20,
        0 <= d < 2,
        no_trail_in(tiles, x, y),
        crate::renderer::trail_wf(tiles),
    ensures
        shown(paint_all(g, trail_paints(sc, tiles, k)), 26 + 2 * x + d, 21 - y) == shown(
            g,
            26 + 2 * x + d,
            21 - y,
        ),
    decreases k,
{
    if k > 0 {
        lemma_trails_miss(g, sc, tiles, k - 1, x, y, d);
        let rest = trail_paints(sc, tiles, k - 1);
        let tile = tiles[k - 1];
        assert(tile.wf());
        if let Some(text) = trail_text(sc, tile) {
            lemma_trail_glyphs();
            let ps = trail_paints(sc, tiles, k);
            assert(ps.drop_last() =~= rest);
            law_text_is_shown_where_it_is_written(
                paint_all(g, rest),
                ps.last(),
                26 + 2 * x + d,
                21 - y,
            );
        }
    }
}

pub(crate) proof fn lemma_trail_glyphs()
    ensures
        forall|glyphset: Glyphset, i: nat|
            (#[trigger] crate::renderer::trail_glyph(glyphset, i)) matches Some(text) ==> text.len()
                == 2,
{
    reveal_strlit(" .");
    reveal_strlit("@@");
    reveal_strlit("$$");
    reveal_strlit("##");
    reveal_strlit("%%");
    reveal_strlit("**");
    reveal_strlit("++");
    reveal_strlit("~~");
    reveal_strlit("..");
}

pub(crate) proof fn lemma_lock_glyphs()
    ensures
        forall|glyphset: Glyphset, nanos: nat|
            (#[trigger] lock_glyph(glyphset, nanos)) matches Some(text) ==> text.len() == 2,
{
    reveal_strlit("▮▮");
    reveal_strlit("()");
    reveal_strlit("{}");
    reveal_strlit("<>");
    reveal_strlit("██");
    reveal_strlit("▓▓");
    reveal_strlit("▒▒");
    reveal_strlit("░░");
}

pub(crate) proof fn lemma_tile_glyphs(glyphset: Glyphset)
    ensures
        glyph_active(glyphset).len() == 2,
        glyph_shadow(glyphset).len() == 2,
        glyph_ground(glyphset).len() == 2,
        glyph_preview(glyphset).len() == 2,
{
    reveal_strlit("▮▮");
    reveal_strlit(" .");
    reveal_strlit("##");
    reveal_strlit("::");
    reveal_strlit("[]");
    reveal_strlit("██");
    reveal_strlit("░░");
    reveal_strlit("▓▓");
}

// ---------------------------------------------------------------------------
// Effects
// ---------------------------------------------------------------------------
/// Whether no message is about a piece that was locked in a place, or about a line
/// that is cleared through it.
pub open spec fn no_effect_in(msgs: Seq<FeedbackMsg>, x: int, y: int) -> bool {
    forall|i: int|
        0 <= i < msgs.len() ==> match (#[trigger] msgs[i]).1 {
            Feedback::PieceLocked { piece } => !lies_in(piece, x, y),
            Feedback::LinesClearing { y_coords, .. } => forall|j: int|
                0 <= j < y_coords@.len() ==> #[trigger] y_coords@[j] != y,
            _ => true,
        }
}

proof fn lemma_line_clears_miss(
    g: Seq<Seq<Cell>>,
    y_coords: Seq<usize>,
    text: Seq<char>,
    color: Option<Color>,
    k: int,
    x: int,
    y: int,
)
    requires
        0 <= k <= y_coords.len(),
        0 <= x,
        0 <= y <= 20,
        forall|j: int| 0 <= j < y_coords.len() ==> #[trigger] y_coords[j] != y && y_coords[j] <= 21,
    ensures
        shown(paint_all(g, line_clear_paints(y_coords, text, color, k)), x, 21 - y) == shown(
            g,
            x,
            21 - y,
        ),
    decreases k,
{
    if k > 0 {
        lemma_line_clears_miss(g, y_coords, text, color, k - 1, x, y);
        let ps = line_clear_paints(y_coords, text, color, k);
        let rest = line_clear_paints(y_coords, text, color, k - 1);
        assert(ps.drop_last() =~= rest);
        assert(y_coords[k - 1] != y);
        law_text_is_shown_where_it_is_written(paint_all(g, rest), ps.last(), x, 21 - y);
    }
}

proof fn lemma_effects_miss(
    g: Seq<Seq<Cell>>,
    sc: Scene,
    msgs: Seq<FeedbackMsg>,
    frames: Seq<Option<usize>>,
    k: int,
    x: int,
    y: int,
    d: int,
)
    requires
        0 <= k <= msgs.len(),
        0 <= x < 10,
        0 <= y <= 20,
        0 <= d < 2,
        msgs_wf(msgs),
        no_effect_in(msgs, x, y),
    ensures
        shown(paint_all(g, feed_paints(sc, msgs, frames, k)), 26 + 2 * x + d, 21 - y) == shown(
            g,
            26 + 2 * x + d,
            21 - y,
        ),
    decreases k,
{
    if k > 0 {
        lemma_effects_miss(g, sc, msgs, frames, k - 1, x, y, d);
        let rest = feed_paints(sc, msgs, frames, k - 1);
        let msg = msgs[k - 1];
        assert(msg.0.wf() && msg.1.wf());
        lemma_paint_all_concat(g, rest, msg_paints(sc, msg, frames[k - 1]));
        let h = paint_all(g, rest);
        match msg.1 {
            Feedback::PieceLocked { piece } => {
                lemma_lock_glyphs();
                lemma_tile_in(piece, 4, x, y);
                if let Some(glyph) = lock_glyph(
                    sc.graphics.glyphset,
                    crate::renderer::elapsed(msg.0, sc.time),
                ) {
                    lemma_tiles_shown(
                        h,
                        piece.tile_seq(),
                        glyph,
                        sc.palette@,
                        Some(TILE_DOWN),
                        4,
                        x,
                        y,
                        d,
                    );
                }
            },
            Feedback::LinesClearing { y_coords, .. } => {
                if frames[k - 1] is Some {
                    assert forall|j: int| 0 <= j < y_coords@.len() implies #[trigger] y_coords@[j]
                        != y && y_coords@[j] <= 21 by {}
                    lemma_line_clears_miss(
                        h,
                        y_coords@,
                        crate::renderer::line_clear_glyph(
                            sc.graphics.glyphset,
                            frames[k - 1]->0 as int,
                        ),
                        color_of(sc.palette@, TILE_DOWN),
                        y_coords@.len() as int,
                        26 + 2 * x + d,
                        y,
                    );
                }
            },
            _ => {},
        }
    }
}

// ---------------------------------------------------------------------------
// Beside the board
// ---------------------------------------------------------------------------
proof fn lemma_pictures_place(
    preview: Seq<Tetromino>,
    pictures: Seq<String>,
    palette: Map<u8, Color>,
    x: int,
    y: int,
    from: int,
    to: int,
)
    requires
        from <= to,
    ensures
        picture_paints(preview, pictures, palette, x, y, from, to).len() == to - from,
        forall|i: int|
            0 <= i < to - from ==> {
                let p = #[trigger] picture_paints(preview, pictures, palette, x, y, from, to)[i];
                &&& p.x == x + pictures_width(preview, pictures, from, from + i)
                &&& p.y == y
                &&& p.text == pictures[preview[from + i].number()]@
                &&& p.color == color_of(palette, preview[from + i].tile_type())
            },
    decreases to - from,
{
    if from < to {
        lemma_pictures_place(preview, pictures, palette, x, y, from, to - 1);
    }
}

proof fn lemma_next_place(tetromino: Tetromino, glyph: Seq<char>, palette: Map<u8, Color>, k: int)
    requires
        0 <= k <= 4,
    ensures
        next_paints(tetromino, glyph, palette, k).len() == k,
        forall|i: int|
            0 <= i < k ==> {
                let p = #[trigger] next_paints(tetromino, glyph, palette, k)[i];
                let mino = minos(tetromino, Orientation::N)[i];
                &&& p.x == 50 + 2 * mino.0 + if tetromino == Tetromino::O {
                    2int
                } else {
                    0
                }
                &&& p.y == 10 - mino.1
                &&& p.text == glyph
                &&& p.color == color_of(palette, tetromino.tile_type())
            },
    decreases k,
{
    if k > 0 {
        lemma_next_place(tetromino, glyph, palette, k - 1);
    }
}

proof fn lemma_text_place(texts: Seq<(InGameTime, Seq<char>)>, k: int)
    requires
        0 <= k <= texts.len(),
    ensures
        text_paints(texts, k).len() == k,
        forall|i: int|
            0 <= i < k ==> {
                let p = #[trigger] text_paints(texts, k)[i];
                &&& p.x == 49
                &&& p.y == 18 + i
                &&& p.text == texts[texts.len() - 1 - i].1
                &&& p.color is None
            },
    decreases k,
{
    if k > 0 {
        lemma_text_place(texts, k - 1);
    }
}

proof fn lemma_button_place(
    pressed: Seq<bool>,
    signs: Seq<String>,
    palette: Map<u8, Color>,
    k: int,
)
    requires
        0 <= k <= 17,
    ensures
        button_paints(pressed, signs, palette, k).len() == k,
        forall|i: int|
            0 <= i < k ==> {
                let p = #[trigger] button_paints(pressed, signs, palette, k)[i];
                &&& p.x == 48 + i
                &&& p.y == 17
                &&& (shown_button(i) matches Some(b) ==> p.text == signs[b.number()]@ && p.color
                    == color_of(
                    palette,
                    if pressed[b.number()] {
                        255
                    } else {
                        253
                    },
                ))
                &&& shown_button(i) is None ==> p.text.len() == 1 && p.color is None
            },
    decreases k,
{
    reveal_strlit("(");
    reveal_strlit(")");
    reveal_strlit(" ");
    if k > 0 {
        lemma_button_place(pressed, signs, palette, k - 1);
    }
}

proof fn lemma_desc_bound(legend: Seq<(String, String)>, k: int, i: int)
    requires
        0 <= i < k <= legend.len(),
    ensures
        legend[i].1@.len() <= longest_desc(legend, k),
    decreases k,
{
    if i < k - 1 {
        lemma_desc_bound(legend, k - 1, i);
    }
}

proof fn lemma_legend_place(legend: Seq<(String, String)>, k: int)
    requires
        legend_wf(legend),
        0 <= k <= legend.len(),
    ensures
        legend_paints(legend, k).len() == k,
        forall|i: int|
            0 <= i < k ==> {
                let p = #[trigger] legend_paints(legend, k)[i];
                &&& p.x == 1
                &&& p.y == 16 + i
                &&& p.text == legend_line(legend[i], icons_width(legend))
                &&& p.text.len() <= 23
                &&& p.color is None
            },
    decreases k,
{
    if k > 0 {
        reveal_strlit(" ");
        lemma_legend_place(legend, k - 1);
        lemma_desc_bound(legend, legend.len() as int, k - 1);
    }
}

// ---------------------------------------------------------------------------
// Frames
// ---------------------------------------------------------------------------
/// The fixed part of a frame.
pub open spec fn fixed_part(
    game: GameSnapshot,
    title: Seq<char>,
    settings: &Settings,
    texts: RenderTexts,
) -> Seq<Seq<Cell>> {
    let lines = base_lines(settings.active_graphics().glyphset, frame_text(game, title, texts));
    Seq::new(lines.len(), |y: int| plain_row(lines[y]))
}

/// Whether these are the layers that a frame comes about by, from the fixed part
/// on.
pub open spec fn layered(
    r: DiffPrintRenderer,
    game: GameSnapshot,
    title: Seq<char>,
    settings: &Settings,
    legend: Seq<(String, String)>,
    texts: RenderTexts,
    frames: Seq<Option<usize>>,
    gs: Seq<Seq<Seq<Cell>>>,
) -> bool {
    let sc = scene_of(game, settings);
    let msgs = r.buffered_feedback_msgs@;
    let tiles = r.hard_drop_tiles@;
    let all = r.frame_texts();
    &&& gs.len() == 11
    &&& gs[0] == fixed_part(game, title, settings, texts)
    &&& gs[1] == paint_all(gs[0], legend_paints(legend, legend.len() as int))
    &&& gs[2] == paint_all(gs[1], replay_paints(texts.replay))
    &&& gs[3] == paint_all(gs[2], shown_button_paints(sc, game, texts))
    &&& gs[4] == paint_all(gs[3], trail_paints(sc, tiles, tiles.len() as int))
    &&& gs[5] == paint_all(
        gs[4],
        shown_locked_paints(sc, game, settings.active_palette_lockedtiles()),
    )
    &&& gs[6] == paint_all(gs[5], shown_piece_paints(sc, game))
    &&& gs[7] == paint_all(gs[6], preview_paints(sc, game, texts))
    &&& gs[8] == paint_all(gs[7], held_paints(game.piece_held, texts.tets_small@, sc.palette@))
    &&& gs[9] == paint_all(gs[8], feed_paints(sc, msgs, frames, msgs.len() as int))
    &&& gs[10] == paint_all(gs[9], text_paints(all, all.len() as int))
    &&& gs[10] == r.frame(game, title, settings, legend, texts, frames)
}

/// A frame comes about layer by layer.
pub(crate) proof fn lemma_layers(
    r: DiffPrintRenderer,
    game: GameSnapshot,
    title: Seq<char>,
    settings: &Settings,
    legend: Seq<(String, String)>,
    texts: RenderTexts,
    frames: Seq<Option<usize>>,
) -> (gs: Seq<Seq<Seq<Cell>>>)
    ensures
        layered(r, game, title, settings, legend, texts, frames, gs),
{
    let sc = scene_of(game, settings);
    let msgs = r.buffered_feedback_msgs@;
    let tiles = r.hard_drop_tiles@;
    let all = r.frame_texts();
    let g = fixed_part(game, title, settings, texts);
    let q1 = legend_paints(legend, legend.len() as int);
    let q2 = replay_paints(texts.replay);
    let q3 = shown_button_paints(sc, game, texts);
    let q4 = trail_paints(sc, tiles, tiles.len() as int);
    let q5 = shown_locked_paints(sc, game, settings.active_palette_lockedtiles());
    let q6 = shown_piece_paints(sc, game);
    let q7 = preview_paints(sc, game, texts);
    let q8 = held_paints(game.piece_held, texts.tets_small@, sc.palette@);
    let q9 = feed_paints(sc, msgs, frames, msgs.len() as int);
    let q10 = text_paints(all, all.len() as int);
    let p2 = q1 + q2;
    let p3 = p2 + q3;
    let p4 = p3 + q4;
    let p5 = p4 + q5;
    let p6 = p5 + q6;
    let p7 = p6 + q7;
    let p8 = p7 + q8;
    let p9 = p8 + q9;
    lemma_paint_all_concat(g, q1, q2);
    lemma_paint_all_concat(g, p2, q3);
    lemma_paint_all_concat(g, p3, q4);
    lemma_paint_all_concat(g, p4, q5);
    lemma_paint_all_concat(g, p5, q6);
    lemma_paint_all_concat(g, p6, q7);
    lemma_paint_all_concat(g, p7, q8);
    lemma_paint_all_concat(g, p8, q9);
    lemma_paint_all_concat(g, p9, q10);
    seq![
        g,
        paint_all(g, q1),
        paint_all(g, p2),
        paint_all(g, p3),
        paint_all(g, p4),
        paint_all(g, p5),
        paint_all(g, p6),
        paint_all(g, p7),
        paint_all(g, p8),
        paint_all(g, p9),
        paint_all(g, p9 + q10),
    ]
}

/// Whether the pictures of pieces are no wider than the place for a held piece.
pub open spec fn pictures_fit(texts: RenderTexts) -> bool {
    forall|i: int|
        0 <= i < texts.tets_small@.len() ==> (#[trigger] texts.tets_small@[i])@.len() <= 6
}

/// What is drawn beside the board, and the texts, leave the board as it is.
proof fn lemma_board_is_left_alone(
    g: Seq<Seq<Cell>>,
    sc: Scene,
    game: GameSnapshot,
    texts: RenderTexts,
    x: int,
    y: int,
)
    requires
        texts.wf(),
        pictures_fit(texts),
        26 <= x < 46,
        0 <= y,
    ensures
        shown(paint_all(g, preview_paints(sc, game, texts)), x, y) == shown(g, x, y),
        shown(paint_all(g, held_paints(game.piece_held, texts.tets_small@, sc.palette@)), x, y)
            == shown(g, x, y),
{
    let preview = game.piece_preview@;
    if preview.len() > 0 {
        let a = next_paints(preview[0], glyph_preview(sc.graphics.glyphset), sc.palette@, 4);
        let b = picture_paints(
            preview,
            texts.tets_small@,
            sc.palette@,
            49,
            13,
            1,
            small_end(preview),
        );
        let c = picture_paints(
            preview,
            texts.tets_mini@,
            sc.palette@,
            50,
            15,
            4,
            preview.len() as int,
        );
        lemma_next_place(preview[0], glyph_preview(sc.graphics.glyphset), sc.palette@, 4);
        lemma_pictures_place(
            preview,
            texts.tets_small@,
            sc.palette@,
            49,
            13,
            1,
            small_end(preview),
        );
        if preview.len() >= 4 {
            lemma_pictures_place(
                preview,
                texts.tets_mini@,
                sc.palette@,
                50,
                15,
                4,
                preview.len() as int,
            );
        }
        let ps = a + b + c;
        assert forall|i: int| 0 <= i < ps.len() implies on_screen(#[trigger] ps[i]) && !covers(
            ps[i],
            x,
            y,
        ) by {
            if i < a.len() {
                assert(ps[i] == a[i]);
            } else if i < a.len() + b.len() {
                assert(ps[i] == b[i - a.len()]);
            } else {
                assert(ps[i] == c[i - a.len() - b.len()]);
            }
        }
        lemma_untouched(g, ps, x, y);
    }
    let hs = held_paints(game.piece_held, texts.tets_small@, sc.palette@);
    if let Some((tetromino, _)) = game.piece_held {
        assert(texts.tets_small@[tetromino.number()]@.len() <= 6);
    }
    lemma_untouched(g, hs, x, y);
}

pub(crate) proof fn lemma_texts_leave_board(
    g: Seq<Seq<Cell>>,
    all: Seq<(InGameTime, Seq<char>)>,
    x: int,
    y: int,
)
    requires
        0 <= x < 49,
        0 <= y,
    ensures
        shown(paint_all(g, text_paints(all, all.len() as int)), x, y) == shown(g, x, y),
{
    lemma_text_place(all, all.len() as int);
    lemma_untouched(g, text_paints(all, all.len() as int), x, y);
}

/// What the later layers leave of the board.
pub(crate) proof fn lemma_later_layers(
    r: DiffPrintRenderer,
    game: GameSnapshot,
    title: Seq<char>,
    settings: &Settings,
    legend: Seq<(String, String)>,
    texts: RenderTexts,
    frames: Seq<Option<usize>>,
    gs: Seq<Seq<Seq<Cell>>>,
    x: int,
    y: int,
    d: int,
)
    requires
        r.can_render(game, *settings, legend, texts, frames),
        pictures_fit(texts),
        0 <= x < 10,
        0 <= y <= 20,
        0 <= d < 2,
        no_effect_in(r.buffered_feedback_msgs@, x, y),
        layered(r, game, title, settings, legend, texts, frames, gs),
    ensures
        shown(gs[10], 26 + 2 * x + d, 21 - y) == shown(gs[6], 26 + 2 * x + d, 21 - y),
{
    let sc = scene_of(game, settings);
    let msgs = r.buffered_feedback_msgs@;
    let (u, v) = (26 + 2 * x + d, 21 - y);
    lemma_board_is_left_alone(gs[6], sc, game, texts, u, v);
    lemma_board_is_left_alone(gs[7], sc, game, texts, u, v);
    lemma_effects_miss(gs[8], sc, msgs, frames, msgs.len() as int, x, y, d);
    lemma_texts_leave_board(gs[9], r.frame_texts(), u, v);
}

/// In every frame with a piece in play, each of its tiles up to the skyline shows
/// the two characters of the piece in play, in the color of the piece, whatever
/// else lies in that place: its shadow, a locked tile or a trail. Only effects of
/// messages lie over it.
pub proof fn law_piece_in_play_lies_on_top(
    r: DiffPrintRenderer,
    game: GameSnapshot,
    title: Seq<char>,
    settings: &Settings,
    legend: Seq<(String, String)>,
    texts: RenderTexts,
    frames: Seq<Option<usize>>,
    piece: Piece,
    x: int,
    y: int,
)
    requires
        r.can_render(game, *settings, legend, texts, frames),
        pictures_fit(texts),
        game.piece_in_play == Some(piece),
        lies_in(piece, x, y),
        x < 10,
        y <= 20,
        no_effect_in(r.buffered_feedback_msgs@, x, y),
    ensures
        ({
            let frame = r.frame(game, title, settings, legend, texts, frames);
            let color = color_of(settings.active_palette(), piece.tetromino.tile_type());
            let chars = match settings.active_graphics().glyphset {
                Glyphset::Electronika60 => "▮▮"@,
                Glyphset::ASCII => "[]"@,
                Glyphset::Unicode => "▓▓"@,
            };
            &&& shown(frame, 26 + 2 * x, 21 - y) == (chars[0], color)
            &&& shown(frame, 27 + 2 * x, 21 - y) == (chars[1], color)
        }),
{
    let sc = scene_of(game, settings);
    let gs = lemma_layers(r, game, title, settings, legend, texts, frames);
    lemma_tile_glyphs(sc.graphics.glyphset);
    lemma_tile_in(piece, 4, x, y);
    let active = tile_paints(
        piece.tile_seq(),
        glyph_active(sc.graphics.glyphset),
        sc.palette@,
        None,
        4,
    );
    let shadow = tile_paints(
        piece.landing(game.board).tile_seq(),
        glyph_shadow(sc.graphics.glyphset),
        sc.palette@,
        None,
        4,
    );
    let under = if sc.graphics.show_shadow_piece {
        lemma_paint_all_concat(gs[5], shadow, active);
        paint_all(gs[5], shadow)
    } else {
        gs[5]
    };
    assert forall|d: int| 0 <= d < 2 implies #[trigger] shown(gs[10], 26 + 2 * x + d, 21 - y) == (
        glyph_active(sc.graphics.glyphset)[d],
        color_of(sc.palette@, piece.tetromino.tile_type()),
    ) by {
        lemma_later_layers(r, game, title, settings, legend, texts, frames, gs, x, y, d);
        lemma_tiles_shown(
            under,
            piece.tile_seq(),
            glyph_active(sc.graphics.glyphset),
            sc.palette@,
            None,
            4,
            x,
            y,
            d,
        );
    }
    assert(shown(gs[10], 26 + 2 * x + 0, 21 - y).1 == color_of(
        sc.palette@,
        piece.tetromino.tile_type(),
    ));
    assert(shown(gs[10], 26 + 2 * x + 1, 21 - y).1 == color_of(
        sc.palette@,
        piece.tetromino.tile_type(),
    ));
}

/// What the piece in play and its shadow make of a place.
pub(crate) proof fn lemma_piece_layer(
    g: Seq<Seq<Cell>>,
    sc: Scene,
    game: GameSnapshot,
    x: int,
    y: int,
    d: int,
)
    requires
        0 <= x < 10,
        0 <= y <= 20,
        0 <= d < 2,
    ensures
        shown(paint_all(g, shown_piece_paints(sc, game)), 26 + 2 * x + d, 21 - y)
            == match game.piece_in_play {
            None => shown(g, 26 + 2 * x + d, 21 - y),
            Some(piece) => if lies_in(piece, x, y) {
                (
                    glyph_active(sc.graphics.glyphset)[d],
                    color_of(sc.palette@, piece.tetromino.tile_type()),
                )
            } else if sc.graphics.show_shadow_piece && lies_in(piece.landing(game.board), x, y) {
                (
                    glyph_shadow(sc.graphics.glyphset)[d],
                    color_of(sc.palette@, piece.landing(game.board).tetromino.tile_type()),
                )
            } else {
                shown(g, 26 + 2 * x + d, 21 - y)
            },
        },
{
    lemma_tile_glyphs(sc.graphics.glyphset);
    if let Some(piece) = game.piece_in_play {
        let landing = piece.landing(game.board);
        lemma_tile_in(piece, 4, x, y);
        lemma_tile_in(landing, 4, x, y);
        let active = tile_paints(
            piece.tile_seq(),
            glyph_active(sc.graphics.glyphset),
            sc.palette@,
            None,
            4,
        );
        let shadow = tile_paints(
            landing.tile_seq(),
            glyph_shadow(sc.graphics.glyphset),
            sc.palette@,
            None,
            4,
        );
        lemma_tiles_shown(
            g,
            landing.tile_seq(),
            glyph_shadow(sc.graphics.glyphset),
            sc.palette@,
            None,
            4,
            x,
            y,
            d,
        );
        let under = if sc.graphics.show_shadow_piece {
            lemma_paint_all_concat(g, shadow, active);
            paint_all(g, shadow)
        } else {
            g
        };
        lemma_tiles_shown(
            under,
            piece.tile_seq(),
            glyph_active(sc.graphics.glyphset),
            sc.palette@,
            None,
            4,
            x,
            y,
            d,
        );
    }
}

/// A piece that lands is the same piece, turned in the same way and in the same
/// columns, moved down through free places as far as it goes.
pub proof fn law_piece_lands_as_far_down_as_it_goes(piece: Piece, board: Board)
    ensures
        ({
            let landing = piece.landing(board);
            &&& landing.tetromino == piece.tetromino
            &&& landing.orientation == piece.orientation
            &&& landing.position.0 == piece.position.0
            &&& landing.position.1 <= piece.position.1
            &&& forall|y: int|
                landing.position.1 <= y < piece.position.1 ==> #[trigger] moved_to(piece, y).fits(
                    board,
                )
            &&& landing.position.1 == 0 || !moved_to(piece, landing.position.1 - 1).fits(board)
        }),
    decreases piece.position.1,
{
    if piece.position.1 > 0 && piece.lowered().fits(board) {
        let low = piece.lowered();
        law_piece_lands_as_far_down_as_it_goes(low, board);
        assert forall|y: int| low.landing(board).position.1 <= y < piece.position.1 implies #[trigger] moved_to(
            piece,
            y,
        ).fits(board) by {
            assert(moved_to(piece, y) == moved_to(low, y));
            if y == low.position.1 {
                assert(moved_to(low, y) == low);
            }
        }
        assert(moved_to(piece, low.landing(board).position.1 - 1) == moved_to(
            low,
            low.landing(board).position.1 - 1,
        ));
    } else if piece.position.1 > 0 {
        assert(moved_to(piece, piece.position.1 - 1) == piece.lowered());
    }
}

/// A piece in another row.
pub open spec fn moved_to(piece: Piece, y: int) -> Piece {
    Piece { position: (piece.position.0, y as usize), ..piece }
}

/// Where the piece in play would land, and does not lie itself, its shadow shows in
/// the color of the piece, if shadows are shown; also over locked tiles and trails.
pub proof fn law_shadow_shows_where_the_piece_would_land(
    r: DiffPrintRenderer,
    game: GameSnapshot,
    title: Seq<char>,
    settings: &Settings,
    legend: Seq<(String, String)>,
    texts: RenderTexts,
    frames: Seq<Option<usize>>,
    piece: Piece,
    x: int,
    y: int,
)
    requires
        r.can_render(game, *settings, legend, texts, frames),
        pictures_fit(texts),
        game.piece_in_play == Some(piece),
        settings.active_graphics().show_shadow_piece,
        lies_in(piece.landing(game.board), x, y),
        !lies_in(piece, x, y),
        x < 10,
        y <= 20,
        no_effect_in(r.buffered_feedback_msgs@, x, y),
    ensures
        ({
            let frame = r.frame(game, title, settings, legend, texts, frames);
            let color = color_of(settings.active_palette(), piece.tetromino.tile_type());
            let chars = match settings.active_graphics().glyphset {
                Glyphset::Electronika60 => " ."@,
                Glyphset::ASCII => "::"@,
                Glyphset::Unicode => "░░"@,
            };
            &&& shown(frame, 26 + 2 * x, 21 - y) == (chars[0], color)
            &&& shown(frame, 27 + 2 * x, 21 - y) == (chars[1], color)
        }),
{
    let sc = scene_of(game, settings);
    let gs = lemma_layers(r, game, title, settings, legend, texts, frames);
    law_piece_lands_as_far_down_as_it_goes(piece, game.board);
    lemma_later_layers(r, game, title, settings, legend, texts, frames, gs, x, y, 0);
    lemma_later_layers(r, game, title, settings, legend, texts, frames, gs, x, y, 1);
    lemma_piece_layer(gs[5], sc, game, x, y, 0);
    lemma_piece_layer(gs[5], sc, game, x, y, 1);
}

/// Whether neither the piece in play nor its shadow shows in a place.
pub open spec fn free_of_piece(game: GameSnapshot, settings: &Settings, x: int, y: int) -> bool {
    game.piece_in_play matches Some(piece) ==> {
        &&& !lies_in(piece, x, y)
        &&& settings.active_graphics().show_shadow_piece ==> !lies_in(
            piece.landing(game.board),
            x,
            y,
        )
    }
}

/// Every locked tile up to the skyline shows in its place, in the color that the
/// palette for locked tiles has for it, unless they are hidden; the piece in play,
/// its shadow and effects lie over it, and it lies over trails.
pub proof fn law_locked_tiles_show_in_their_places(
    r: DiffPrintRenderer,
    game: GameSnapshot,
    title: Seq<char>,
    settings: &Settings,
    legend: Seq<(String, String)>,
    texts: RenderTexts,
    frames: Seq<Option<usize>>,
    x: int,
    y: int,
    id: u8,
)
    requires
        r.can_render(game, *settings, legend, texts, frames),
        pictures_fit(texts),
        !settings.active_graphics().blindfolded,
        0 <= x < 10,
        0 <= y <= 20,
        game.board@[y]@[x] == Some(id),
        free_of_piece(game, settings, x, y),
        no_effect_in(r.buffered_feedback_msgs@, x, y),
    ensures
        ({
            let frame = r.frame(game, title, settings, legend, texts, frames);
            let color = color_of(settings.active_palette_lockedtiles(), id);
            let chars = match settings.active_graphics().glyphset {
                Glyphset::Electronika60 => "▮▮"@,
                Glyphset::ASCII => "##"@,
                Glyphset::Unicode => "██"@,
            };
            &&& shown(frame, 26 + 2 * x, 21 - y) == (chars[0], color)
            &&& shown(frame, 27 + 2 * x, 21 - y) == (chars[1], color)
        }),
{
    let sc = scene_of(game, settings);
    let gs = lemma_layers(r, game, title, settings, legend, texts, frames);
    let glyph = glyph_ground(sc.graphics.glyphset);
    let palette = settings.active_palette_lockedtiles();
    lemma_tile_glyphs(sc.graphics.glyphset);
    lemma_later_layers(r, game, title, settings, legend, texts, frames, gs, x, y, 0);
    lemma_later_layers(r, game, title, settings, legend, texts, frames, gs, x, y, 1);
    lemma_piece_layer(gs[5], sc, game, x, y, 0);
    lemma_piece_layer(gs[5], sc, game, x, y, 1);
    lemma_locked_shown(gs[4], game.board, glyph, palette, 210, x, y, 0);
    lemma_locked_shown(gs[4], game.board, glyph, palette, 210, x, y, 1);
}

/// Whether what is shown of a replay fits beside the board.
pub open spec fn replay_fits(texts: RenderTexts) -> bool {
    texts.replay matches Some((speed, length)) ==> speed@.len() <= 10 && length@.len() <= 13
}

/// The keys, what is shown of a replay and the buttons leave the board as it is.
proof fn lemma_first_layers(
    r: DiffPrintRenderer,
    game: GameSnapshot,
    title: Seq<char>,
    settings: &Settings,
    legend: Seq<(String, String)>,
    texts: RenderTexts,
    frames: Seq<Option<usize>>,
    gs: Seq<Seq<Seq<Cell>>>,
    u: int,
    v: int,
)
    requires
        legend_wf(legend),
        replay_fits(texts),
        25 <= u < 48,
        0 <= v,
        layered(r, game, title, settings, legend, texts, frames, gs),
    ensures
        shown(gs[3], u, v) == shown(gs[0], u, v),
{
    let sc = scene_of(game, settings);
    reveal_strlit("(Viewing REPLAY)");
    reveal_strlit("Replay speed: ");
    reveal_strlit("Total time ");
    lemma_legend_place(legend, legend.len() as int);
    lemma_untouched(gs[0], legend_paints(legend, legend.len() as int), u, v);
    lemma_untouched(gs[1], replay_paints(texts.replay), u, v);
    lemma_button_place(game.buttons_pressed@, texts.buttons@, sc.palette@, 17);
    lemma_untouched(gs[2], shown_button_paints(sc, game, texts), u, v);
}

/// A place of the board without tile, piece, shadow, trail or effect shows what the
/// fixed part of the screen has there; and so does one with a locked tile while
/// those are hidden.
pub proof fn law_open_place_shows_the_fixed_part(
    r: DiffPrintRenderer,
    game: GameSnapshot,
    title: Seq<char>,
    settings: &Settings,
    legend: Seq<(String, String)>,
    texts: RenderTexts,
    frames: Seq<Option<usize>>,
    x: int,
    y: int,
    d: int,
)
    requires
        r.can_render(game, *settings, legend, texts, frames),
        pictures_fit(texts),
        replay_fits(texts),
        0 <= x < 10,
        0 <= y <= 20,
        0 <= d < 2,
        settings.active_graphics().blindfolded || game.board@[y]@[x] is None,
        free_of_piece(game, settings, x, y),
        no_trail_in(r.hard_drop_tiles@, x, y),
        no_effect_in(r.buffered_feedback_msgs@, x, y),
    ensures
        shown(
            r.frame(game, title, settings, legend, texts, frames),
            26 + 2 * x + d,
            21 - y,
        ) == shown(fixed_part(game, title, settings, texts), 26 + 2 * x + d, 21 - y),
{
    let sc = scene_of(game, settings);
    let gs = lemma_layers(r, game, title, settings, legend, texts, frames);
    let tiles = r.hard_drop_tiles@;
    let glyph = glyph_ground(sc.graphics.glyphset);
    let palette = settings.active_palette_lockedtiles();
    lemma_tile_glyphs(sc.graphics.glyphset);
    lemma_later_layers(r, game, title, settings, legend, texts, frames, gs, x, y, d);
    lemma_piece_layer(gs[5], sc, game, x, y, d);
    lemma_locked_shown(gs[4], game.board, glyph, palette, 210, x, y, d);
    lemma_trails_miss(gs[3], sc, tiles, tiles.len() as int, x, y, d);
    lemma_first_layers(r, game, title, settings, legend, texts, frames, gs, 26 + 2 * x + d, 21 - y);
}

// ---------------------------------------------------------------------------
// To the left of the board
// ---------------------------------------------------------------------------
/// Whether texts are all written from the board on to the right.
pub open spec fn from_board_on(ps: Seq<Paint>) -> bool {
    forall|i: int| 0 <= i < ps.len() ==> 26 <= (#[trigger] ps[i]).x && 0 <= ps[i].y
}

proof fn lemma_trails_from_board_on(sc: Scene, tiles: Seq<HardDropTile>, k: int)
    requires
        0 <= k <= tiles.len(),
        crate::renderer::trail_wf(tiles),
    ensures
        from_board_on(trail_paints(sc, tiles, k)),
    decreases k,
{
    if k > 0 {
        lemma_trails_from_board_on(sc, tiles, k - 1);
        assert(tiles[k - 1].wf());
    }
}

proof fn lemma_locked_from_board_on(
    board: Board,
    glyph: Seq<char>,
    palette: Map<u8, Color>,
    k: int,
)
    requires
        0 <= k <= 210,
    ensures
        from_board_on(locked_paints(board, glyph, palette, k)),
    decreases k,
{
    if k > 0 {
        lemma_locked_from_board_on(board, glyph, palette, k - 1);
    }
}

proof fn lemma_tiles_from_board_on(
    tiles: Seq<Tile>,
    glyph: Seq<char>,
    palette: Map<u8, Color>,
    recolor: Option<u8>,
    k: int,
)
    requires
        0 <= k <= tiles.len(),
    ensures
        from_board_on(tile_paints(tiles, glyph, palette, recolor, k)),
    decreases k,
{
    if k > 0 {
        lemma_tiles_from_board_on(tiles, glyph, palette, recolor, k - 1);
    }
}

proof fn lemma_line_clears_from_board_on(
    y_coords: Seq<usize>,
    text: Seq<char>,
    color: Option<Color>,
    k: int,
)
    requires
        0 <= k <= y_coords.len(),
        forall|j: int| 0 <= j < y_coords.len() ==> #[trigger] y_coords[j] <= 21,
    ensures
        from_board_on(line_clear_paints(y_coords, text, color, k)),
    decreases k,
{
    if k > 0 {
        lemma_line_clears_from_board_on(y_coords, text, color, k - 1);
        assert(y_coords[k - 1] <= 21);
    }
}

proof fn lemma_effects_from_board_on(
    sc: Scene,
    msgs: Seq<FeedbackMsg>,
    frames: Seq<Option<usize>>,
    k: int,
)
    requires
        0 <= k <= msgs.len(),
        msgs_wf(msgs),
    ensures
        from_board_on(feed_paints(sc, msgs, frames, k)),
    decreases k,
{
    if k > 0 {
        lemma_effects_from_board_on(sc, msgs, frames, k - 1);
        let msg = msgs[k - 1];
        assert(msg.0.wf() && msg.1.wf());
        match msg.1 {
            Feedback::PieceLocked { piece } => {
                if let Some(glyph) = lock_glyph(
                    sc.graphics.glyphset,
                    crate::renderer::elapsed(msg.0, sc.time),
                ) {
                    lemma_tiles_from_board_on(
                        piece.tile_seq(),
                        glyph,
                        sc.palette@,
                        Some(TILE_DOWN),
                        4,
                    );
                }
            },
            Feedback::LinesClearing { y_coords, .. } => {
                if frames[k - 1] is Some {
                    lemma_line_clears_from_board_on(
                        y_coords@,
                        crate::renderer::line_clear_glyph(
                            sc.graphics.glyphset,
                            frames[k - 1]->0 as int,
                        ),
                        color_of(sc.palette@, TILE_DOWN),
                        y_coords@.len() as int,
                    );
                }
            },
            _ => {},
        }
    }
}

proof fn lemma_piece_from_board_on(sc: Scene, game: GameSnapshot)
    ensures
        from_board_on(shown_piece_paints(sc, game)),
{
    if let Some(piece) = game.piece_in_play {
        lemma_tiles_from_board_on(
            piece.tile_seq(),
            glyph_active(sc.graphics.glyphset),
            sc.palette@,
            None,
            4,
        );
        lemma_tiles_from_board_on(
            piece.landing(game.board).tile_seq(),
            glyph_shadow(sc.graphics.glyphset),
            sc.palette@,
            None,
            4,
        );
    }
}

proof fn lemma_preview_from_board_on(sc: Scene, game: GameSnapshot, texts: RenderTexts)
    ensures
        forall|i: int|
            0 <= i < preview_paints(sc, game, texts).len() ==> 49 <= (
            #[trigger] preview_paints(sc, game, texts)[i]).x && 9 <= preview_paints(
                sc,
                game,
                texts,
            )[i].y <= 15,
{
    let preview = game.piece_preview@;
    if preview.len() > 0 {
        let a = next_paints(preview[0], glyph_preview(sc.graphics.glyphset), sc.palette@, 4);
        let n = small_end(preview);
        let b = picture_paints(preview, texts.tets_small@, sc.palette@, 49, 13, 1, n);
        let m = preview.len() as int;
        let c = picture_paints(preview, texts.tets_mini@, sc.palette@, 50, 15, 4, m);
        lemma_next_place(preview[0], glyph_preview(sc.graphics.glyphset), sc.palette@, 4);
        lemma_pictures_place(preview, texts.tets_small@, sc.palette@, 49, 13, 1, n);
        if m >= 4 {
            lemma_pictures_place(preview, texts.tets_mini@, sc.palette@, 50, 15, 4, m);
        }
        let ps = a + b + c;
        assert forall|i: int| 0 <= i < ps.len() implies 49 <= (#[trigger] ps[i]).x && 9 <= ps[i].y
            <= 15 by {
            if i < a.len() {
                assert(ps[i] == a[i]);
            } else if i < a.len() + b.len() {
                assert(ps[i] == b[i - a.len()]);
            } else {
                assert(ps[i] == c[i - a.len() - b.len()]);
            }
        }
    }
}

/// To the left of the board, apart from the held piece, the layers from the trails
/// on leave everything as it is.
proof fn lemma_left_of_board(
    r: DiffPrintRenderer,
    game: GameSnapshot,
    title: Seq<char>,
    settings: &Settings,
    legend: Seq<(String, String)>,
    texts: RenderTexts,
    frames: Seq<Option<usize>>,
    gs: Seq<Seq<Seq<Cell>>>,
    u: int,
    v: int,
)
    requires
        r.can_render(game, *settings, legend, texts, frames),
        0 <= u < 26,
        0 <= v,
        layered(r, game, title, settings, legend, texts, frames, gs),
    ensures
        shown(gs[7], u, v) == shown(gs[3], u, v),
        v != 2 ==> shown(gs[10], u, v) == shown(gs[3], u, v),
        shown(gs[10], u, v) == shown(gs[8], u, v),
{
    let sc = scene_of(game, settings);
    let msgs = r.buffered_feedback_msgs@;
    let tiles = r.hard_drop_tiles@;
    let palette = settings.active_palette_lockedtiles();
    lemma_trails_from_board_on(sc, tiles, tiles.len() as int);
    lemma_untouched(gs[3], trail_paints(sc, tiles, tiles.len() as int), u, v);
    lemma_locked_from_board_on(game.board, glyph_ground(sc.graphics.glyphset), palette, 210);
    lemma_untouched(gs[4], shown_locked_paints(sc, game, palette), u, v);
    lemma_piece_from_board_on(sc, game);
    lemma_untouched(gs[5], shown_piece_paints(sc, game), u, v);
    lemma_preview_from_board_on(sc, game, texts);
    lemma_untouched(gs[6], preview_paints(sc, game, texts), u, v);
    if v != 2 {
        lemma_untouched(gs[7], held_paints(game.piece_held, texts.tets_small@, sc.palette@), u, v);
    }
    lemma_effects_from_board_on(sc, msgs, frames, msgs.len() as int);
    lemma_untouched(gs[8], feed_paints(sc, msgs, frames, msgs.len() as int), u, v);
    lemma_texts_leave_board(gs[9], r.frame_texts(), u, v);
}

/// The held piece shows beside the board: its picture, in its own color while it
/// may be swapped back in, and in grey otherwise.
pub proof fn law_held_piece_shows_in_its_color_while_it_may_be_swapped(
    r: DiffPrintRenderer,
    game: GameSnapshot,
    title: Seq<char>,
    settings: &Settings,
    legend: Seq<(String, String)>,
    texts: RenderTexts,
    frames: Seq<Option<usize>>,
    tetromino: Tetromino,
    swap_allowed: bool,
    i: int,
)
    requires
        r.can_render(game, *settings, legend, texts, frames),
        pictures_fit(texts),
        game.piece_held == Some((tetromino, swap_allowed)),
        0 <= i < texts.tets_small@[tetromino.number()]@.len(),
    ensures
        shown(r.frame(game, title, settings, legend, texts, frames), 20 + i, 2) == (
            texts.tets_small@[tetromino.number()]@[i],
            color_of(
                settings.active_palette(),
                if swap_allowed {
                    tetromino.tile_type()
                } else {
                    254
                },
            ),
        ),
{
    let sc = scene_of(game, settings);
    let gs = lemma_layers(r, game, title, settings, legend, texts, frames);
    assert(texts.tets_small@[tetromino.number()]@.len() <= 6);
    lemma_left_of_board(r, game, title, settings, legend, texts, frames, gs, 20 + i, 2);
    let hs = held_paints(game.piece_held, texts.tets_small@, sc.palette@);
    lemma_last_is_shown(gs[7], hs, 0, 20 + i, 2);
}

/// Rows of statistics show as the fixed part of the screen has them.
proof fn lemma_statistics_untouched(
    r: DiffPrintRenderer,
    game: GameSnapshot,
    title: Seq<char>,
    settings: &Settings,
    legend: Seq<(String, String)>,
    texts: RenderTexts,
    frames: Seq<Option<usize>>,
    u: int,
    v: int,
)
    requires
        r.can_render(game, *settings, legend, texts, frames),
        0 <= u < 26,
        3 <= v <= 10 || (v == 11 && texts.replay is None),
    ensures
        shown(r.frame(game, title, settings, legend, texts, frames), u, v) == shown(
            fixed_part(game, title, settings, texts),
            u,
            v,
        ),
{
    let sc = scene_of(game, settings);
    let gs = lemma_layers(r, game, title, settings, legend, texts, frames);
    lemma_left_of_board(r, game, title, settings, legend, texts, frames, gs, u, v);
    lemma_legend_place(legend, legend.len() as int);
    lemma_untouched(gs[0], legend_paints(legend, legend.len() as int), u, v);
    lemma_untouched(gs[1], replay_paints(texts.replay), u, v);
    lemma_button_place(game.buttons_pressed@, texts.buttons@, sc.palette@, 17);
    lemma_untouched(gs[2], shown_button_paints(sc, game, texts), u, v);
}

/// The lines that the game counts show behind "Lines:", its points behind "Score:",
/// its time behind "Time:", its gravity behind "Gravity:" and the pieces per second
/// behind "PPS:", each in a row of its own, as far as there is room beside the
/// board; and the lock delay in milliseconds once pieces fall as fast as they ever
/// will, if it changes at all.
pub proof fn law_statistics_show_behind_their_names(
    r: DiffPrintRenderer,
    game: GameSnapshot,
    title: Seq<char>,
    settings: &Settings,
    legend: Seq<(String, String)>,
    texts: RenderTexts,
    frames: Seq<Option<usize>>,
    i: int,
)
    requires
        r.can_render(game, *settings, legend, texts, frames),
        0 <= i < 26,
    ensures
        ({
            let frame = r.frame(game, title, settings, legend, texts, frames);
            let lines = " Lines: "@ + decimal(game.lineclears as nat);
            let score = " Score: "@ + decimal(game.score as nat);
            let time = " Time:  "@ + texts.time@;
            let gravity = " Gravity: "@ + texts.gravity@;
            &&& i < time.len() ==> shown(frame, i, 5) == (time[i], None::<Color>)
            &&& i < lines.len() ==> shown(frame, i, 6) == (lines[i], None::<Color>)
            &&& i < score.len() ==> shown(frame, i, 7) == (score[i], None::<Color>)
            &&& i < gravity.len() ==> shown(frame, i, 9) == (gravity[i], None::<Color>)
            &&& game.fall_delay_lowerbound_hit && !game.lock_delay_is_constant ==> {
                let delay = " "@ + ("Lock delay: "@ + decimal(
                    game.lock_delay.saturated().nanos() / 1_000_000,
                ) + "ms"@);
                i < delay.len() ==> shown(frame, i, 10) == (delay[i], None::<Color>)
            }
            &&& texts.replay is None ==> {
                let pps = " PPS: "@ + texts.pps@;
                i < pps.len() ==> shown(frame, i, 11) == (pps[i], None::<Color>)
            }
        }),
{
    let t = frame_text(game, title, texts);
    let all = base_lines(settings.active_graphics().glyphset, t);
    let g = fixed_part(game, title, settings, texts);
    law_values_stand_behind_their_names(settings.active_graphics().glyphset, t);
    lemma_statistics_untouched(r, game, title, settings, legend, texts, frames, i, 5);
    lemma_statistics_untouched(r, game, title, settings, legend, texts, frames, i, 6);
    lemma_statistics_untouched(r, game, title, settings, legend, texts, frames, i, 7);
    lemma_statistics_untouched(r, game, title, settings, legend, texts, frames, i, 9);
    lemma_row(g, all[5], " Time:  "@, texts.time@, 5, i);
    lemma_row(g, all[6], " Lines: "@, decimal(game.lineclears as nat), 6, i);
    lemma_row(g, all[7], " Score: "@, decimal(game.score as nat), 7, i);
    lemma_row(g, all[9], " Gravity: "@, texts.gravity@, 9, i);
    lemma_statistics_untouched(r, game, title, settings, legend, texts, frames, i, 10);
    lemma_row(g, all[10], " "@, t.lock_delay, 10, i);
    if texts.replay is None {
        lemma_statistics_untouched(r, game, title, settings, legend, texts, frames, i, 11);
        lemma_row(g, all[11], " PPS: "@, texts.pps@, 11, i);
    }
}

/// A line that begins with a name and a value shows them.
proof fn lemma_row(
    g: Seq<Seq<Cell>>,
    line: Seq<char>,
    name: Seq<char>,
    value: Seq<char>,
    v: int,
    i: int,
)
    requires
        0 <= v < g.len(),
        g[v] == plain_row(line),
        begins_with(line, name, value),
        0 <= i,
    ensures
        i < (name + value).len() ==> shown(g, i, v) == ((name + value)[i], None::<Color>),
{
    if i < name.len() {
        assert(line[i] == name[i]);
    } else if i < (name + value).len() {
        assert(line[name.len() + (i - name.len())] == value[i - name.len()]);
    }
}

// ---------------------------------------------------------------------------
// To the right of the board
// ---------------------------------------------------------------------------
/// Texts show one below the other, the latest at the top and over everything else.
pub proof fn law_latest_text_shows_at_the_top(
    r: DiffPrintRenderer,
    game: GameSnapshot,
    title: Seq<char>,
    settings: &Settings,
    legend: Seq<(String, String)>,
    texts: RenderTexts,
    frames: Seq<Option<usize>>,
    k: int,
    i: int,
)
    requires
        0 <= k < r.frame_texts().len(),
        r.frame_texts().len() + 1_000 <= usize::MAX,
        0 <= i < r.frame_texts()[r.frame_texts().len() - 1 - k].1.len(),
        49 + r.frame_texts()[r.frame_texts().len() - 1 - k].1.len() <= usize::MAX,
    ensures
        shown(r.frame(game, title, settings, legend, texts, frames), 49 + i, 18 + k) == (
            r.frame_texts()[r.frame_texts().len() - 1 - k].1[i],
            None::<Color>,
        ),
{
    let gs = lemma_layers(r, game, title, settings, legend, texts, frames);
    let all = r.frame_texts();
    lemma_text_place(all, all.len() as int);
    let ps = text_paints(all, all.len() as int);
    lemma_last_is_shown(gs[9], ps, k, 49 + i, 18 + k);
}

/// The texts of a frame are those that are being shown, and then those of the
/// messages of the game in the order in which they came: at the end the text of the
/// last message, if it has one.
pub proof fn law_texts_of_messages_follow_those_shown(r: DiffPrintRenderer, k: int)
    ensures
        r.frame_texts().len() >= r.buffered_text_msgs@.len(),
        0 <= k < r.buffered_text_msgs@.len() ==> r.frame_texts()[k] == (
            r.buffered_text_msgs@[k].0,
            r.buffered_text_msgs@[k].1@,
        ),
        r.buffered_feedback_msgs@.len() == 0 ==> r.frame_texts().len()
            == r.buffered_text_msgs@.len(),
        r.buffered_feedback_msgs@.len() > 0 ==> match r.buffered_feedback_msgs@.last().1 {
            Feedback::Text(text) => r.frame_texts().len() > 0 && r.frame_texts().last() == (
                r.buffered_feedback_msgs@.last().0,
                text@,
            ),
            _ => true,
        },
{
}

/// Whether everything that is drawn on the board lies in its ten columns.
pub open spec fn in_columns(r: DiffPrintRenderer, game: GameSnapshot) -> bool {
    &&& game.piece_in_play matches Some(piece) ==> piece_in_columns(piece)
    &&& forall|i: int|
        0 <= i < r.hard_drop_tiles@.len() ==> (#[trigger] r.hard_drop_tiles@[i]).pos.0 < 10
    &&& forall|i: int|
        0 <= i < r.buffered_feedback_msgs@.len() ==> match (
        #[trigger] r.buffered_feedback_msgs@[i]).1 {
            Feedback::PieceLocked { piece } => piece_in_columns(piece),
            _ => true,
        }
}

/// Whether a piece lies in the ten columns of the board.
pub open spec fn piece_in_columns(piece: Piece) -> bool {
    forall|i: int| 0 <= i < 4 ==> (#[trigger] piece.tile_seq()[i]).0.0 < 10
}

/// Whether no line is being cleared in a row of the screen.
pub open spec fn no_clearing_in(msgs: Seq<FeedbackMsg>, v: int) -> bool {
    forall|i: int|
        0 <= i < msgs.len() ==> match (#[trigger] msgs[i]).1 {
            Feedback::LinesClearing { y_coords, .. } => forall|j: int|
                0 <= j < y_coords@.len() ==> 21 - #[trigger] y_coords@[j] != v,
            _ => true,
        }
}

proof fn lemma_tiles_in_columns(
    g: Seq<Seq<Cell>>,
    tiles: Seq<Tile>,
    glyph: Seq<char>,
    palette: Map<u8, Color>,
    recolor: Option<u8>,
    k: int,
    u: int,
    v: int,
)
    requires
        glyph.len() == 2,
        0 <= k <= tiles.len(),
        forall|i: int| 0 <= i < tiles.len() ==> (#[trigger] tiles[i]).0.0 < 10,
        46 <= u,
        0 <= v,
    ensures
        shown(paint_all(g, tile_paints(tiles, glyph, palette, recolor, k)), u, v) == shown(g, u, v),
    decreases k,
{
    if k > 0 {
        lemma_tiles_in_columns(g, tiles, glyph, palette, recolor, k - 1, u, v);
        let ps = tile_paints(tiles, glyph, palette, recolor, k);
        let rest = tile_paints(tiles, glyph, palette, recolor, k - 1);
        assert(tiles[k - 1].0.0 < 10);
        if tiles[k - 1].0.1 <= 20 {
            assert(ps.drop_last() =~= rest);
            law_text_is_shown_where_it_is_written(paint_all(g, rest), ps.last(), u, v);
        }
    }
}

proof fn lemma_locked_in_columns(
    g: Seq<Seq<Cell>>,
    board: Board,
    glyph: Seq<char>,
    palette: Map<u8, Color>,
    k: int,
    u: int,
    v: int,
)
    requires
        glyph.len() == 2,
        0 <= k <= 210,
        46 <= u,
        0 <= v,
    ensures
        shown(paint_all(g, locked_paints(board, glyph, palette, k)), u, v) == shown(g, u, v),
    decreases k,
{
    if k > 0 {
        lemma_locked_in_columns(g, board, glyph, palette, k - 1, u, v);
        let ps = locked_paints(board, glyph, palette, k);
        let rest = locked_paints(board, glyph, palette, k - 1);
        let pos = shown_place(k - 1);
        if board@[pos.1 as int]@[pos.0 as int] is Some {
            assert(ps.drop_last() =~= rest);
            law_text_is_shown_where_it_is_written(paint_all(g, rest), ps.last(), u, v);
        }
    }
}

proof fn lemma_trails_in_columns(
    g: Seq<Seq<Cell>>,
    sc: Scene,
    tiles: Seq<HardDropTile>,
    k: int,
    u: int,
    v: int,
)
    requires
        0 <= k <= tiles.len(),
        forall|i: int| 0 <= i < tiles.len() ==> (#[trigger] tiles[i]).pos.0 < 10,
        crate::renderer::trail_wf(tiles),
        46 <= u,
        0 <= v,
    ensures
        shown(paint_all(g, trail_paints(sc, tiles, k)), u, v) == shown(g, u, v),
    decreases k,
{
    if k > 0 {
        lemma_trails_in_columns(g, sc, tiles, k - 1, u, v);
        let rest = trail_paints(sc, tiles, k - 1);
        assert(tiles[k - 1].wf() && tiles[k - 1].pos.0 < 10);
        if let Some(text) = trail_text(sc, tiles[k - 1]) {
            lemma_trail_glyphs();
            let ps = trail_paints(sc, tiles, k);
            assert(ps.drop_last() =~= rest);
            law_text_is_shown_where_it_is_written(paint_all(g, rest), ps.last(), u, v);
        }
    }
}

proof fn lemma_line_clears_elsewhere(
    g: Seq<Seq<Cell>>,
    y_coords: Seq<usize>,
    text: Seq<char>,
    color: Option<Color>,
    k: int,
    u: int,
    v: int,
)
    requires
        0 <= k <= y_coords.len(),
        0 <= u,
        0 <= v,
        forall|j: int| 0 <= j < y_coords.len() ==> 21 - #[trigger] y_coords[j] != v,
        forall|j: int| 0 <= j < y_coords.len() ==> #[trigger] y_coords[j] <= 21,
    ensures
        shown(paint_all(g, line_clear_paints(y_coords, text, color, k)), u, v) == shown(g, u, v),
    decreases k,
{
    if k > 0 {
        lemma_line_clears_elsewhere(g, y_coords, text, color, k - 1, u, v);
        let ps = line_clear_paints(y_coords, text, color, k);
        assert(ps.drop_last() =~= line_clear_paints(y_coords, text, color, k - 1));
        assert(21 - y_coords[k - 1] != v);
        assert(y_coords[k - 1] <= 21);
        law_text_is_shown_where_it_is_written(paint_all(g, ps.drop_last()), ps.last(), u, v);
    }
}

proof fn lemma_effects_in_columns(
    g: Seq<Seq<Cell>>,
    r: DiffPrintRenderer,
    sc: Scene,
    game: GameSnapshot,
    frames: Seq<Option<usize>>,
    k: int,
    u: int,
    v: int,
)
    requires
        0 <= k <= r.buffered_feedback_msgs@.len(),
        msgs_wf(r.buffered_feedback_msgs@),
        in_columns(r, game),
        no_clearing_in(r.buffered_feedback_msgs@, v),
        46 <= u,
        0 <= v,
    ensures
        shown(paint_all(g, feed_paints(sc, r.buffered_feedback_msgs@, frames, k)), u, v) == shown(
            g,
            u,
            v,
        ),
    decreases k,
{
    if k > 0 {
        let msgs = r.buffered_feedback_msgs@;
        lemma_effects_in_columns(g, r, sc, game, frames, k - 1, u, v);
        let rest = feed_paints(sc, msgs, frames, k - 1);
        let msg = msgs[k - 1];
        assert(msg.0.wf() && msg.1.wf());
        lemma_paint_all_concat(g, rest, msg_paints(sc, msg, frames[k - 1]));
        let h = paint_all(g, rest);
        match msg.1 {
            Feedback::PieceLocked { piece } => {
                lemma_lock_glyphs();
                assert(piece_in_columns(piece));
                if let Some(glyph) = lock_glyph(
                    sc.graphics.glyphset,
                    crate::renderer::elapsed(msg.0, sc.time),
                ) {
                    lemma_tiles_in_columns(
                        h,
                        piece.tile_seq(),
                        glyph,
                        sc.palette@,
                        Some(TILE_DOWN),
                        4,
                        u,
                        v,
                    );
                }
            },
            Feedback::LinesClearing { y_coords, .. } => {
                if frames[k - 1] is Some {
                    lemma_line_clears_elsewhere(
                        h,
                        y_coords@,
                        crate::renderer::line_clear_glyph(
                            sc.graphics.glyphset,
                            frames[k - 1]->0 as int,
                        ),
                        color_of(sc.palette@, TILE_DOWN),
                        y_coords@.len() as int,
                        u,
                        v,
                    );
                }
            },
            _ => {},
        }
    }
}

/// To the right of the board, the board and its effects leave everything as it is.
proof fn lemma_right_of_board(
    r: DiffPrintRenderer,
    game: GameSnapshot,
    title: Seq<char>,
    settings: &Settings,
    legend: Seq<(String, String)>,
    texts: RenderTexts,
    frames: Seq<Option<usize>>,
    gs: Seq<Seq<Seq<Cell>>>,
    u: int,
    v: int,
)
    requires
        r.can_render(game, *settings, legend, texts, frames),
        pictures_fit(texts),
        in_columns(r, game),
        no_clearing_in(r.buffered_feedback_msgs@, v),
        46 <= u,
        0 <= v,
        layered(r, game, title, settings, legend, texts, frames, gs),
    ensures
        shown(gs[6], u, v) == shown(gs[3], u, v),
        shown(gs[9], u, v) == shown(gs[7], u, v),
        v < 18 ==> shown(gs[10], u, v) == shown(gs[7], u, v),
{
    let sc = scene_of(game, settings);
    let tiles = r.hard_drop_tiles@;
    let palette = settings.active_palette_lockedtiles();
    lemma_tile_glyphs(sc.graphics.glyphset);
    lemma_trails_in_columns(gs[3], sc, tiles, tiles.len() as int, u, v);
    lemma_locked_in_columns(
        gs[4],
        game.board,
        glyph_ground(sc.graphics.glyphset),
        palette,
        210,
        u,
        v,
    );
    if let Some(piece) = game.piece_in_play {
        let landing = piece.landing(game.board);
        law_piece_lands_as_far_down_as_it_goes(piece, game.board);
        assert(piece_in_columns(piece));
        assert forall|i: int| 0 <= i < 4 implies (#[trigger] landing.tile_seq()[i]).0.0 < 10 by {
            assert(piece.tile_seq()[i].0.0 < 10);
        }
        let active = tile_paints(
            piece.tile_seq(),
            glyph_active(sc.graphics.glyphset),
            sc.palette@,
            None,
            4,
        );
        let shadow = tile_paints(
            landing.tile_seq(),
            glyph_shadow(sc.graphics.glyphset),
            sc.palette@,
            None,
            4,
        );
        lemma_tiles_in_columns(
            gs[5],
            landing.tile_seq(),
            glyph_shadow(sc.graphics.glyphset),
            sc.palette@,
            None,
            4,
            u,
            v,
        );
        let under = if sc.graphics.show_shadow_piece {
            lemma_paint_all_concat(gs[5], shadow, active);
            paint_all(gs[5], shadow)
        } else {
            gs[5]
        };
        lemma_tiles_in_columns(
            under,
            piece.tile_seq(),
            glyph_active(sc.graphics.glyphset),
            sc.palette@,
            None,
            4,
            u,
            v,
        );
    }
    let hs = held_paints(game.piece_held, texts.tets_small@, sc.palette@);
    if let Some((tetromino, _)) = game.piece_held {
        assert(texts.tets_small@[tetromino.number()]@.len() <= 6);
    }
    lemma_untouched(gs[7], hs, u, v);
    lemma_effects_in_columns(
        gs[8],
        r,
        sc,
        game,
        frames,
        r.buffered_feedback_msgs@.len() as int,
        u,
        v,
    );
    if v < 18 {
        let all = r.frame_texts();
        lemma_text_place(all, all.len() as int);
        lemma_untouched(gs[9], text_paints(all, all.len() as int), u, v);
    }
}

/// Which button is shown in which column, from the left.
pub open spec fn button_column(b: Button) -> int {
    match b {
        Button::MoveLeft => 49,
        Button::DropSoft => 50,
        Button::MoveRight => 51,
        Button::RotateLeft => 53,
        Button::RotateAround => 54,
        Button::RotateRight => 55,
        Button::DropHard => 57,
        Button::HoldPiece => 59,
        Button::TeleLeft => 61,
        Button::TeleDown => 62,
        Button::TeleRight => 63,
    }
}

/// Where the buttons are shown, or in a replay, each shows its sign in its column,
/// in one color while it is down and in another while it is up.
pub proof fn law_buttons_show_whether_they_are_down(
    r: DiffPrintRenderer,
    game: GameSnapshot,
    title: Seq<char>,
    settings: &Settings,
    legend: Seq<(String, String)>,
    texts: RenderTexts,
    frames: Seq<Option<usize>>,
    b: Button,
)
    requires
        r.can_render(game, *settings, legend, texts, frames),
        pictures_fit(texts),
        in_columns(r, game),
        no_clearing_in(r.buffered_feedback_msgs@, 17),
        settings.active_graphics().show_button_state || texts.replay is Some,
        forall|i: int| 0 <= i < 11 ==> (#[trigger] texts.buttons@[i])@.len() == 1,
    ensures
        shown(r.frame(game, title, settings, legend, texts, frames), button_column(b), 17) == (
            texts.buttons@[b.number()]@[0],
            color_of(
                settings.active_palette(),
                if game.buttons_pressed@[b.number()] {
                    255
                } else {
                    253
                },
            ),
        ),
{
    let sc = scene_of(game, settings);
    let gs = lemma_layers(r, game, title, settings, legend, texts, frames);
    let u = button_column(b);
    crate::button::lemma_variants_numbered(b, 0);
    assert(texts.buttons@[b.number()]@.len() == 1);
    lemma_right_of_board(r, game, title, settings, legend, texts, frames, gs, u, 17);
    lemma_preview_from_board_on(sc, game, texts);
    lemma_untouched(gs[6], preview_paints(sc, game, texts), u, 17);
    let ps = shown_button_paints(sc, game, texts);
    lemma_button_place(game.buttons_pressed@, texts.buttons@, sc.palette@, 17);
    let k = u - 48;
    assert(shown_button(k) == Some(b));
    assert forall|i: int| k < i < ps.len() implies !covers(#[trigger] ps[i], u, 17) by {}
    lemma_last_is_shown(gs[2], ps, k, u, 17);
}

proof fn lemma_upright_minos(tetromino: Tetromino, i: int, j: int)
    requires
        0 <= i < 4,
        0 <= j < 4,
    ensures
        ({
            let m = minos(tetromino, Orientation::N);
            &&& m.len() == 4
            &&& 0 <= m[i].0 <= 3
            &&& 0 <= m[i].1 <= 1
            &&& i != j ==> m[i].0 != m[j].0 || m[i].1 != m[j].1
        }),
{
}

proof fn lemma_next_on_top(
    g: Seq<Seq<Cell>>,
    sc: Scene,
    game: GameSnapshot,
    texts: RenderTexts,
    k: int,
    d: int,
)
    requires
        game.piece_preview@.len() > 0,
        0 <= k < 4,
        0 <= d < 2,
    ensures
        ({
            let next = game.piece_preview@[0];
            let mino = minos(next, Orientation::N)[k];
            let left: int = if next == Tetromino::O {
                52
            } else {
                50
            };
            shown(
                paint_all(g, preview_paints(sc, game, texts)),
                left + 2 * mino.0 + d,
                10 - mino.1,
            ) == (
                glyph_preview(sc.graphics.glyphset)[d],
                color_of(sc.palette@, next.tile_type()),
            )
        }),
{
    let preview = game.piece_preview@;
    let next = preview[0];
    let mino = minos(next, Orientation::N)[k];
    lemma_upright_minos(next, k, k);
    let u = (if next == Tetromino::O {
        52int
    } else {
        50
    }) + 2 * mino.0 + d;
    let v = 10 - mino.1;
    let glyph = glyph_preview(sc.graphics.glyphset);
    lemma_tile_glyphs(sc.graphics.glyphset);
    let a = next_paints(next, glyph, sc.palette@, 4);
    let n = small_end(preview);
    let m = preview.len() as int;
    let b = picture_paints(preview, texts.tets_small@, sc.palette@, 49, 13, 1, n);
    let c = picture_paints(preview, texts.tets_mini@, sc.palette@, 50, 15, 4, m);
    let ps = a + b + c;
    lemma_preview_from_board_on(sc, game, texts);
    assert(k < ps.len() && ps[k] == a[k] && covers(a[k], u, v)) by {
        lemma_next_place(next, glyph, sc.palette@, 4);
    }
    assert(a[k].text == glyph && a[k].color == color_of(sc.palette@, next.tile_type())
        && a[k].x == u - d) by {
        lemma_next_place(next, glyph, sc.palette@, 4);
    }
    assert forall|i: int| k < i < ps.len() implies !covers(#[trigger] ps[i], u, v) by {
        if i < 4 {
            lemma_next_place(next, glyph, sc.palette@, 4);
            lemma_upright_minos(next, i, k);
            assert(ps[i] == a[i]);
        } else {
            lemma_next_place(next, glyph, sc.palette@, 4);
            lemma_pictures_place(preview, texts.tets_small@, sc.palette@, 49, 13, 1, n);
            if i < 4 + b.len() {
                assert(ps[i] == b[i - 4]);
            } else {
                if m >= 4 {
                    lemma_pictures_place(preview, texts.tets_mini@, sc.palette@, 50, 15, 4, m);
                }
                assert(ps[i] == c[i - 4 - b.len()]);
            }
        }
    }
    lemma_last_is_shown(g, ps, k, u, v);
}

/// The first of the pieces to come shows in full, upright and in its color, beside
/// the board.
pub proof fn law_next_piece_shows_in_full(
    r: DiffPrintRenderer,
    game: GameSnapshot,
    title: Seq<char>,
    settings: &Settings,
    legend: Seq<(String, String)>,
    texts: RenderTexts,
    frames: Seq<Option<usize>>,
    k: int,
    d: int,
)
    requires
        r.can_render(game, *settings, legend, texts, frames),
        pictures_fit(texts),
        in_columns(r, game),
        no_clearing_in(r.buffered_feedback_msgs@, 9),
        no_clearing_in(r.buffered_feedback_msgs@, 10),
        game.piece_preview@.len() > 0,
        0 <= k < 4,
        0 <= d < 2,
    ensures
        ({
            let next = game.piece_preview@[0];
            let mino = minos(next, Orientation::N)[k];
            let chars = match settings.active_graphics().glyphset {
                Glyphset::Electronika60 => "▮▮"@,
                Glyphset::ASCII => "[]"@,
                Glyphset::Unicode => "██"@,
            };
            let left: int = if next == Tetromino::O {
                52
            } else {
                50
            };
            shown(
                r.frame(game, title, settings, legend, texts, frames),
                left + 2 * mino.0 + d,
                10 - mino.1,
            ) == (chars[d], color_of(settings.active_palette(), next.tile_type()))
        }),
{
    let sc = scene_of(game, settings);
    let gs = lemma_layers(r, game, title, settings, legend, texts, frames);
    let next = game.piece_preview@[0];
    let mino = minos(next, Orientation::N)[k];
    lemma_upright_minos(next, k, k);
    let u = (if next == Tetromino::O {
        52int
    } else {
        50
    }) + 2 * mino.0 + d;
    let v = 10 - mino.1;
    lemma_right_of_board(r, game, title, settings, legend, texts, frames, gs, u, v);
    lemma_next_on_top(gs[6], sc, game, texts, k, d);
}

/// The column in which the picture of a piece to come begins, given that of the first
/// in the line: after the pictures before it, each with a space.
pub open spec fn picture_column(
    preview: Seq<Tetromino>,
    pictures: Seq<String>,
    first: int,
    from: int,
    j: int,
) -> int
    decreases j - from,
{
    if j <= from {
        first
    } else {
        picture_column(preview, pictures, first, from, j - 1) + pictures[preview[j
            - 1].number()]@.len() + 1
    }
}

proof fn lemma_picture_column(
    preview: Seq<Tetromino>,
    pictures: Seq<String>,
    first: int,
    from: int,
    i: int,
    j: int,
)
    requires
        from <= i <= j,
    ensures
        picture_column(preview, pictures, first, from, j) == first + pictures_width(
            preview,
            pictures,
            from,
            j,
        ),
        i < j ==> pictures_width(preview, pictures, from, i) + pictures[preview[i].number()]@.len()
            < pictures_width(preview, pictures, from, j),
    decreases j - from,
{
    if from < j {
        lemma_picture_column(
            preview,
            pictures,
            first,
            from,
            if i < j {
                i
            } else {
                j - 1
            },
            j - 1,
        );
    }
}

proof fn lemma_pictures_shown(
    g: Seq<Seq<Cell>>,
    preview: Seq<Tetromino>,
    pictures: Seq<String>,
    palette: Map<u8, Color>,
    x: int,
    y: int,
    from: int,
    to: int,
    j: int,
    i: int,
)
    requires
        0 <= x,
        0 <= y < usize::MAX,
        0 <= from <= j < to,
        0 <= i < pictures[preview[j].number()]@.len(),
        x + pictures_width(preview, pictures, from, to) <= usize::MAX,
    ensures
        shown(
            paint_all(g, picture_paints(preview, pictures, palette, x, y, from, to)),
            picture_column(preview, pictures, x, from, j) + i,
            y,
        ) == (
            pictures[preview[j].number()]@[i],
            color_of(palette, preview[j].tile_type()),
        ),
{
    let ps = picture_paints(preview, pictures, palette, x, y, from, to);
    lemma_pictures_place(preview, pictures, palette, x, y, from, to);
    lemma_picture_column(preview, pictures, x, from, j, j);
    lemma_picture_column(preview, pictures, x, from, j, to);
    let u = picture_column(preview, pictures, x, from, j) + i;
    assert forall|k: int| j - from < k < ps.len() implies !covers(#[trigger] ps[k], u, y) by {
        lemma_picture_column(preview, pictures, x, from, j, from + k);
    }
    lemma_last_is_shown(g, ps, j - from, u, y);
}

/// The pieces to come after the first show as pictures beside the board, in their
/// order and each in its color: the second to the fourth in one line, and those
/// after them, smaller, in another.
pub proof fn law_pieces_to_come_show_in_their_order(
    r: DiffPrintRenderer,
    game: GameSnapshot,
    title: Seq<char>,
    settings: &Settings,
    legend: Seq<(String, String)>,
    texts: RenderTexts,
    frames: Seq<Option<usize>>,
    j: int,
    i: int,
)
    requires
        r.can_render(game, *settings, legend, texts, frames),
        pictures_fit(texts),
        in_columns(r, game),
        no_clearing_in(r.buffered_feedback_msgs@, 13),
        no_clearing_in(r.buffered_feedback_msgs@, 15),
        1 <= j < game.piece_preview@.len(),
        0 <= i,
    ensures
        ({
            let preview = game.piece_preview@;
            let frame = r.frame(game, title, settings, legend, texts, frames);
            let color = color_of(settings.active_palette(), preview[j].tile_type());
            if j < 4 {
                let picture = texts.tets_small@[preview[j].number()]@;
                let x = picture_column(preview, texts.tets_small@, 49, 1, j);
                i < picture.len() ==> shown(frame, x + i, 13) == (picture[i], color)
            } else {
                let picture = texts.tets_mini@[preview[j].number()]@;
                let x = picture_column(preview, texts.tets_mini@, 50, 4, j);
                i < picture.len() ==> shown(frame, x + i, 15) == (picture[i], color)
            }
        }),
{
    let sc = scene_of(game, settings);
    let gs = lemma_layers(r, game, title, settings, legend, texts, frames);
    let preview = game.piece_preview@;
    let n = small_end(preview);
    let m = preview.len() as int;
    let glyph = glyph_preview(sc.graphics.glyphset);
    let a = next_paints(preview[0], glyph, sc.palette@, 4);
    let b = picture_paints(preview, texts.tets_small@, sc.palette@, 49, 13, 1, n);
    let c = picture_paints(preview, texts.tets_mini@, sc.palette@, 50, 15, 4, m);
    let ga = paint_all(gs[6], a);
    let gb = paint_all(ga, b);
    lemma_paint_all_concat(gs[6], a, b);
    lemma_paint_all_concat(gs[6], a + b, c);
    assert(gs[7] == paint_all(gb, c));
    if j < 4 {
        let picture = texts.tets_small@[preview[j].number()]@;
        let u = picture_column(preview, texts.tets_small@, 49, 1, j) + i;
        if i < picture.len() {
            lemma_picture_column(preview, texts.tets_small@, 49, 1, j, j);
            lemma_right_of_board(r, game, title, settings, legend, texts, frames, gs, u, 13);
            lemma_pictures_shown(
                ga,
                preview,
                texts.tets_small@,
                sc.palette@,
                49,
                13,
                1,
                n,
                j,
                i,
            );
            if m >= 4 {
                lemma_pictures_place(preview, texts.tets_mini@, sc.palette@, 50, 15, 4, m);
            }
            lemma_untouched(gb, c, u, 13);
        }
    } else {
        let picture = texts.tets_mini@[preview[j].number()]@;
        let u = picture_column(preview, texts.tets_mini@, 50, 4, j) + i;
        if i < picture.len() {
            lemma_picture_column(preview, texts.tets_mini@, 50, 4, j, j);
            lemma_right_of_board(r, game, title, settings, legend, texts, frames, gs, u, 15);
            lemma_pictures_shown(gb, preview, texts.tets_mini@, sc.palette@, 50, 15, 4, m, j, i);
        }
    }
}

// ---------------------------------------------------------------------------
// The legend of the keys and what is said of a replay
// ---------------------------------------------------------------------------
/// Every line of the legend of the keys shows in full in a row of its own below the
/// others: its description, before it a space, and before that its icons.
pub proof fn law_legend_shows_every_description(
    r: DiffPrintRenderer,
    game: GameSnapshot,
    title: Seq<char>,
    settings: &Settings,
    legend: Seq<(String, String)>,
    texts: RenderTexts,
    frames: Seq<Option<usize>>,
    k: int,
    i: int,
)
    requires
        r.can_render(game, *settings, legend, texts, frames),
        0 <= k < legend.len(),
        0 <= i < legend[k].1@.len(),
    ensures
        ({
            let frame = r.frame(game, title, settings, legend, texts, frames);
            let x = 2 + icons_width(legend);
            &&& x + i < 26
            &&& shown(frame, x + i, 16 + k) == (legend[k].1@[i], None::<Color>)
            &&& shown(frame, x - 1, 16 + k) == (' ', None::<Color>)
            &&& 0 < legend[k].0@.len() <= icons_width(legend) ==> shown(frame, x - 2, 16 + k) == (
                legend[k].0@.last(),
                None::<Color>,
            )
        }),
{
    reveal_strlit(" ");
    let sc = scene_of(game, settings);
    let gs = lemma_layers(r, game, title, settings, legend, texts, frames);
    let n = legend.len() as int;
    let ps = legend_paints(legend, n);
    lemma_legend_place(legend, n);
    lemma_desc_bound(legend, n, k);
    let width = icons_width(legend);
    let line = legend_line(legend[k], width);
    assert(ps[k].text == line);
    assert(line.len() == width + 1 + legend[k].1@.len());
    assert(line[width as int] == ' ');
    assert(line[width + 1 + i] == legend[k].1@[i]);
    lemma_legend_cell(r, game, title, settings, legend, texts, frames, gs, k, width + 1 + i);
    lemma_legend_cell(r, game, title, settings, legend, texts, frames, gs, k, width as int);
    if 0 < legend[k].0@.len() <= width {
        assert(line[width - 1] == legend[k].0@.last());
        lemma_legend_cell(r, game, title, settings, legend, texts, frames, gs, k, width - 1);
    }
}

proof fn lemma_legend_cell(
    r: DiffPrintRenderer,
    game: GameSnapshot,
    title: Seq<char>,
    settings: &Settings,
    legend: Seq<(String, String)>,
    texts: RenderTexts,
    frames: Seq<Option<usize>>,
    gs: Seq<Seq<Seq<Cell>>>,
    k: int,
    i: int,
)
    requires
        r.can_render(game, *settings, legend, texts, frames),
        0 <= k < legend.len(),
        0 <= i < legend_line(legend[k], icons_width(legend)).len(),
        layered(r, game, title, settings, legend, texts, frames, gs),
    ensures
        shown(r.frame(game, title, settings, legend, texts, frames), 1 + i, 16 + k) == (
            legend_line(legend[k], icons_width(legend))[i],
            None::<Color>,
        ),
{
    let sc = scene_of(game, settings);
    let n = legend.len() as int;
    let ps = legend_paints(legend, n);
    lemma_legend_place(legend, n);
    assert(ps[k].text.len() <= 23);
    assert forall|j: int| k < j < ps.len() implies !covers(#[trigger] ps[j], 1 + i, 16 + k) by {}
    lemma_last_is_shown(gs[0], ps, k, 1 + i, 16 + k);
    lemma_untouched(gs[1], replay_paints(texts.replay), 1 + i, 16 + k);
    lemma_button_place(game.buttons_pressed@, texts.buttons@, sc.palette@, 17);
    lemma_untouched(gs[2], shown_button_paints(sc, game, texts), 1 + i, 16 + k);
    lemma_left_of_board(r, game, title, settings, legend, texts, frames, gs, 1 + i, 16 + k);
}

/// In a replay its speed and its length show behind their names, as far as there is
/// room beside the board, and that it is one.
pub proof fn law_replay_shows_its_speed_and_length(
    r: DiffPrintRenderer,
    game: GameSnapshot,
    title: Seq<char>,
    settings: &Settings,
    legend: Seq<(String, String)>,
    texts: RenderTexts,
    frames: Seq<Option<usize>>,
    speed: String,
    length: String,
    i: int,
)
    requires
        r.can_render(game, *settings, legend, texts, frames),
        texts.replay == Some((speed, length)),
        speed@.len() + 1_000 <= usize::MAX,
        length@.len() + 1_000 <= usize::MAX,
        0 <= i < 25,
    ensures
        ({
            let frame = r.frame(game, title, settings, legend, texts, frames);
            let head = "(Viewing REPLAY)"@;
            let first = "Replay speed: "@ + speed@;
            let second = "Total time "@ + length@;
            &&& i < head.len() ==> shown(frame, 1 + i, 1) == (head[i], None::<Color>)
            &&& i < first.len() ==> shown(frame, 1 + i, 11) == (first[i], None::<Color>)
            &&& i < second.len() ==> shown(frame, 1 + i, 12) == (second[i], None::<Color>)
        }),
{
    reveal_strlit("(Viewing REPLAY)");
    reveal_strlit("Replay speed: ");
    reveal_strlit("Total time ");
    let sc = scene_of(game, settings);
    let gs = lemma_layers(r, game, title, settings, legend, texts, frames);
    let ps = replay_paints(texts.replay);
    let head = "(Viewing REPLAY)"@;
    let first = "Replay speed: "@ + speed@;
    let second = "Total time "@ + length@;
    lemma_button_place(game.buttons_pressed@, texts.buttons@, sc.palette@, 17);
    assert(ps.len() == 3 && ps[0].text == head && ps[1].text == first && ps[2].text == second);
    if i < head.len() {
        lemma_last_is_shown(gs[1], ps, 0, 1 + i, 1);
    }
    if i < first.len() {
        lemma_last_is_shown(gs[1], ps, 1, 1 + i, 11);
    }
    if i < second.len() {
        lemma_last_is_shown(gs[1], ps, 2, 1 + i, 12);
    }
    let bs = shown_button_paints(sc, game, texts);
    lemma_untouched(gs[2], bs, 1 + i, 1);
    lemma_untouched(gs[2], bs, 1 + i, 11);
    lemma_untouched(gs[2], bs, 1 + i, 12);
    lemma_left_of_board(r, game, title, settings, legend, texts, frames, gs, 1 + i, 1);
    lemma_left_of_board(r, game, title, settings, legend, texts, frames, gs, 1 + i, 11);
    lemma_left_of_board(r, game, title, settings, legend, texts, frames, gs, 1 + i, 12);
}

// ---------------------------------------------------------------------------
// What is not there to be shown
// ---------------------------------------------------------------------------
/// Outside of replays, where buttons are not to be shown there is nothing in their
/// place.
pub proof fn law_buttons_are_hidden_unless_they_are_to_be_shown(
    r: DiffPrintRenderer,
    game: GameSnapshot,
    title: Seq<char>,
    settings: &Settings,
    legend: Seq<(String, String)>,
    texts: RenderTexts,
    frames: Seq<Option<usize>>,
    b: Button,
)
    requires
        r.can_render(game, *settings, legend, texts, frames),
        pictures_fit(texts),
        in_columns(r, game),
        no_clearing_in(r.buffered_feedback_msgs@, 17),
        !settings.active_graphics().show_button_state,
        texts.replay is None,
    ensures
        shown(r.frame(game, title, settings, legend, texts, frames), button_column(b), 17)
            == shown(fixed_part(game, title, settings, texts), button_column(b), 17),
{
    let sc = scene_of(game, settings);
    let gs = lemma_layers(r, game, title, settings, legend, texts, frames);
    let u = button_column(b);
    lemma_right_of_board(r, game, title, settings, legend, texts, frames, gs, u, 17);
    lemma_preview_from_board_on(sc, game, texts);
    lemma_untouched(gs[6], preview_paints(sc, game, texts), u, 17);
    lemma_legend_place(legend, legend.len() as int);
    lemma_untouched(gs[0], legend_paints(legend, legend.len() as int), u, 17);
    lemma_untouched(gs[1], replay_paints(texts.replay), u, 17);
    lemma_untouched(gs[2], shown_button_paints(sc, game, texts), u, 17);
}

/// While no piece is held, there is nothing in the place of the held piece.
pub proof fn law_nothing_shows_in_place_of_a_held_piece(
    r: DiffPrintRenderer,
    game: GameSnapshot,
    title: Seq<char>,
    settings: &Settings,
    legend: Seq<(String, String)>,
    texts: RenderTexts,
    frames: Seq<Option<usize>>,
    u: int,
)
    requires
        r.can_render(game, *settings, legend, texts, frames),
        game.piece_held is None,
        20 <= u < 26,
    ensures
        shown(r.frame(game, title, settings, legend, texts, frames), u, 2) == shown(
            fixed_part(game, title, settings, texts),
            u,
            2,
        ),
{
    let sc = scene_of(game, settings);
    let gs = lemma_layers(r, game, title, settings, legend, texts, frames);
    lemma_left_of_board(r, game, title, settings, legend, texts, frames, gs, u, 2);
    lemma_untouched(gs[7], held_paints(game.piece_held, texts.tets_small@, sc.palette@), u, 2);
    lemma_legend_place(legend, legend.len() as int);
    lemma_untouched(gs[0], legend_paints(legend, legend.len() as int), u, 2);
    lemma_untouched(gs[1], replay_paints(texts.replay), u, 2);
    lemma_button_place(game.buttons_pressed@, texts.buttons@, sc.palette@, 17);
    lemma_untouched(gs[2], shown_button_paints(sc, game, texts), u, 2);
}

} // verus!

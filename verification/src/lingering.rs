//! What stays on the screen from frame to frame: messages, texts and trails, for
//! how long each of them is shown, and what it is shown as.
use crate::color::Color;
use crate::frames::{
    covers, free_of_piece, law_text_is_shown_where_it_is_written, lemma_last_is_shown,
    lemma_later_layers, lemma_layers, lemma_lock_glyphs, lemma_locked_shown, lemma_piece_layer,
    lemma_texts_leave_board, lemma_tile_glyphs, lemma_tiles_shown, lemma_trail_glyphs,
    no_effect_in, on_screen, pictures_fit, tile_in,
};
use crate::game::{Feedback, GameOver, GameResult, GameSnapshot, Piece, Tetromino, Tile};
use crate::hud::{color_of, glyph_ground, RenderTexts};
use crate::paint::{lemma_paint_all_concat, paint_all};
use crate::renderer::{
    clear_name, column_trail, elapsed, feed_kept, feed_paints, feed_texts, feed_trail,
    line_clear_glyph, line_clear_paints, lock_glyph, message_text, msg_kept, msg_paints, msg_trail,
    piece_trail, scene_of, texts_kept, trail_kept, trail_paints, trail_text, trail_wf,
    DiffPrintRenderer, FeedbackMsg, HardDropTile, Scene,
};
use crate::screen::{shown, Cell};
use crate::settings::{Glyphset, Settings};
use crate::text::decimal;
use crate::time::InGameTime;
use vstd::prelude::*;

verus! {

// ---------------------------------------------------------------------------
// Texts
// ---------------------------------------------------------------------------
/// Whether a text came less than five seconds before a time.
pub open spec fn text_is_recent(now: InGameTime) -> spec_fn((InGameTime, Seq<char>)) -> bool {
    |text: (InGameTime, Seq<char>)| now.nanos() < text.0.nanos() + 5_000_000_000
}

proof fn lemma_texts_kept(texts: Seq<(InGameTime, Seq<char>)>, now: InGameTime, k: int)
    requires
        0 <= k <= texts.len(),
    ensures
        texts_kept(texts, now, k) == texts.take(k).filter(text_is_recent(now)),
    decreases k,
{
    reveal(Seq::filter);
    if k > 0 {
        lemma_texts_kept(texts, now, k - 1);
        assert(texts.take(k).drop_last() =~= texts.take(k - 1));
    }
}

/// The texts that stay are those that came less than five seconds ago, all of them
/// and in the order in which they came.
pub proof fn law_texts_stay_for_five_seconds(
    texts: Seq<(InGameTime, Seq<char>)>,
    now: InGameTime,
)
    ensures
        texts_kept(texts, now, texts.len() as int) == texts.filter(text_is_recent(now)),
{
    lemma_texts_kept(texts, now, texts.len() as int);
    assert(texts.take(texts.len() as int) =~= texts);
}

/// A message is shown as text if it is text itself, an internal event, the end of the
/// game or the praise for clearing lines; all other messages show no text.
pub proof fn law_messages_that_are_texts(feedback: Feedback)
    ensures
        match feedback {
            Feedback::Text(text) => message_text(feedback) == Some(text@),
            Feedback::Debug(text) => message_text(feedback) == Some(text@),
            Feedback::GameEnded { result: GameResult::Completed(_) } => message_text(feedback)
                == Some("Game Complete!"@),
            Feedback::GameEnded { result: GameResult::Lost(GameOver::LockOut) } => message_text(
                feedback,
            ) == Some("LockOut"@ + "..."@),
            Feedback::GameEnded { result: GameResult::Lost(GameOver::BlockOut) } => message_text(
                feedback,
            ) == Some("BlockOut"@ + "..."@),
            Feedback::GameEnded { result: GameResult::Lost(GameOver::Forfeit) } => message_text(
                feedback,
            ) == Some("Forfeit"@ + "..."@),
            Feedback::GameEnded { .. } => message_text(feedback) is Some,
            Feedback::Accolade { .. } => message_text(feedback) is Some,
            Feedback::PieceLocked { .. } => message_text(feedback) is None,
            Feedback::LinesClearing { .. } => message_text(feedback) is None,
            Feedback::HardDrop { .. } => message_text(feedback) is None,
        },
{
}

/// A text, or nothing.
pub open spec fn if_so(b: bool, text: Seq<char>) -> Seq<char> {
    if b {
        text
    } else {
        Seq::empty()
    }
}

/// The praise for clearing lines tells the points for it, that the board was left
/// empty, the piece that was spun into place, how many lines were cleared together
/// and, from the second on, the how many-th in a row they were, in this order and
/// each only where it applies.
pub proof fn law_praise_tells_how_lines_were_cleared(
    score_bonus: u32,
    lineclears: u32,
    combo: u32,
    is_spin: bool,
    is_perfect_clear: bool,
    tetromino: Tetromino,
)
    ensures
        message_text(
            (Feedback::Accolade {
                score_bonus,
                lineclears,
                combo,
                is_spin,
                is_perfect_clear,
                tetromino,
            }),
        ) == Some(
            "+"@ + decimal(score_bonus as nat) + if_so(is_perfect_clear, " Perfect"@) + if_so(
                is_spin,
                " "@ + seq![tetromino.letter()] + "-Spin"@,
            ) + " "@ + clear_name(lineclears) + if_so(
                combo >= 2,
                " #"@ + decimal(combo as nat) + "."@,
            ),
        ),
        clear_name(1) == "Single"@,
        clear_name(2) == "Double"@,
        clear_name(3) == "Triple"@,
        clear_name(4) == "Quadruple"@,
{
    let points = "+"@ + decimal(score_bonus as nat);
    let perfect = points + if_so(is_perfect_clear, " Perfect"@);
    assert(!is_perfect_clear ==> perfect =~= points);
    let letter = seq![tetromino.letter()];
    assert(" "@.push(tetromino.letter()) =~= " "@ + letter);
    let spin = perfect + if_so(is_spin, " "@ + letter + "-Spin"@);
    assert(is_spin ==> spin =~= perfect + (" "@ + letter) + "-Spin"@);
    assert(!is_spin ==> spin =~= perfect);
    let clear = spin + " "@ + clear_name(lineclears);
    let all = clear + if_so(combo >= 2, " #"@ + decimal(combo as nat) + "."@);
    assert(combo >= 2 ==> all =~= clear + " #"@ + decimal(combo as nat) + "."@);
    assert(combo < 2 ==> all =~= clear);
}

proof fn lemma_texts_of(msgs: Seq<FeedbackMsg>, k: int, i: int)
    requires
        0 <= i < k <= msgs.len(),
    ensures
        match message_text(msgs[i].1) {
            Some(text) => feed_texts(msgs, k).contains((msgs[i].0, text)),
            None => true,
        },
    decreases k,
{
    let rest = feed_texts(msgs, k - 1);
    let all = feed_texts(msgs, k);
    if let Some(text) = message_text(msgs[i].1) {
        if i < k - 1 {
            lemma_texts_of(msgs, k - 1, i);
            let j = rest.index_of((msgs[i].0, text));
            assert(all[j] == rest[j]);
        } else {
            assert(all[rest.len() as int] == (msgs[i].0, text));
        }
    }
}

/// The text of every message is among the texts of the frame.
pub proof fn law_every_text_is_shown(r: DiffPrintRenderer, i: int)
    requires
        0 <= i < r.buffered_feedback_msgs@.len(),
    ensures
        match message_text(r.buffered_feedback_msgs@[i].1) {
            Some(text) => r.frame_texts().contains((r.buffered_feedback_msgs@[i].0, text)),
            None => true,
        },
{
    let msgs = r.buffered_feedback_msgs@;
    lemma_texts_of(msgs, msgs.len() as int, i);
    if let Some(text) = message_text(msgs[i].1) {
        let later = feed_texts(msgs, msgs.len() as int);
        let j = later.index_of((msgs[i].0, text));
        let n = r.buffered_text_msgs@.len();
        assert(r.frame_texts()[n + j] == later[j]);
    }
}

// ---------------------------------------------------------------------------
// Messages
// ---------------------------------------------------------------------------
/// Whether a message stays: where effects are shown, a locked piece for 175
/// milliseconds, and cleared lines for as long as there is a frame of their
/// animation, if clearing them takes any time.
pub open spec fn msg_lasts(sc: Scene) -> spec_fn((FeedbackMsg, Option<usize>)) -> bool {
    |m: (FeedbackMsg, Option<usize>)|
        sc.graphics.show_effects && match m.0.1 {
            Feedback::PieceLocked { .. } => sc.time.nanos() < m.0.0.nanos() + 175_000_000,
            Feedback::LinesClearing { line_clear_start, .. } => line_clear_start.nanos() > 0
                && m.1 is Some,
            _ => false,
        }
}

/// Each message with the frame of its animation.
pub open spec fn with_frames(
    msgs: Seq<FeedbackMsg>,
    frames: Seq<Option<usize>>,
    k: nat,
) -> Seq<(FeedbackMsg, Option<usize>)> {
    Seq::new(k, |i: int| (msgs[i], frames[i]))
}

/// The message alone.
pub open spec fn message_of() -> spec_fn((FeedbackMsg, Option<usize>)) -> FeedbackMsg {
    |m: (FeedbackMsg, Option<usize>)| m.0
}

/// The messages that stay are those that last, all of them and in their order.
pub proof fn law_messages_stay_while_they_last(
    sc: Scene,
    msgs: Seq<FeedbackMsg>,
    frames: Seq<Option<usize>>,
    k: nat,
)
    requires
        k <= msgs.len(),
    ensures
        feed_kept(sc, msgs, frames, k as int) == with_frames(msgs, frames, k).filter(
            msg_lasts(sc),
        ).map_values(message_of()),
    decreases k,
{
    reveal(Seq::filter);
    let all = with_frames(msgs, frames, k);
    if k > 0 {
        let n = (k - 1) as nat;
        law_messages_stay_while_they_last(sc, msgs, frames, n);
        let rest = with_frames(msgs, frames, n);
        assert(all.drop_last() =~= rest);
        assert(all.last() == (msgs[k - 1], frames[k - 1]));
        let kept = rest.filter(msg_lasts(sc));
        assert(kept.push(all.last()).map_values(message_of()) =~= kept.map_values(
            message_of(),
        ).push(msgs[k - 1]));
        assert(msg_kept(sc, msgs[k - 1], frames[k - 1]) == msg_lasts(sc)(all.last()));
    } else {
        assert(all.filter(msg_lasts(sc)).map_values(message_of()) =~= Seq::empty());
    }
}

/// A piece that was just locked glows: it is drawn with characters that go from
/// dense to light and back, and with the same ones for less than 175 milliseconds.
pub proof fn law_locked_piece_glows_for_a_moment(glyphset: Glyphset, nanos: nat)
    ensures
        lock_glyph(glyphset, nanos) is Some <==> nanos < 175_000_000,
        nanos < 175_000_000 ==> {
            let stage: int = if nanos < 50_000_000 {
                0
            } else {
                nanos as int / 25_000_000 - 1
            };
            let signs = match glyphset {
                Glyphset::Electronika60 => "▮▮▮▮▮▮▮▮▮▮▮▮"@,
                Glyphset::ASCII => "()(){}{}<><>"@,
                Glyphset::Unicode => "██▓▓▒▒░░▒▒▓▓"@,
            };
            lock_glyph(glyphset, nanos) == Some(signs.subrange(2 * stage, 2 * stage + 2))
        },
{
    reveal_strlit("▮▮▮▮▮▮▮▮▮▮▮▮");
    reveal_strlit("()(){}{}<><>");
    reveal_strlit("██▓▓▒▒░░▒▒▓▓");
    reveal_strlit("▮▮");
    reveal_strlit("()");
    reveal_strlit("{}");
    reveal_strlit("<>");
    reveal_strlit("██");
    reveal_strlit("▓▓");
    reveal_strlit("▒▒");
    reveal_strlit("░░");
    if nanos < 175_000_000 {
        let stage: int = if nanos < 50_000_000 {
            0
        } else {
            nanos as int / 25_000_000 - 1
        };
        let signs = match glyphset {
            Glyphset::Electronika60 => "▮▮▮▮▮▮▮▮▮▮▮▮"@,
            Glyphset::ASCII => "()(){}{}<><>"@,
            Glyphset::Unicode => "██▓▓▒▒░░▒▒▓▓"@,
        };
        assert(0 <= stage < 6);
        assert(lock_glyph(glyphset, nanos)->0 =~= signs.subrange(2 * stage, 2 * stage + 2));
    }
}

// ---------------------------------------------------------------------------
// Trails
// ---------------------------------------------------------------------------
/// How often a trail has got lighter.
pub open spec fn times_faded(nanos: nat) -> nat {
    once(nanos >= 50_000_000) + once(nanos >= 70_000_000) + once(nanos >= 90_000_000) + once(
        nanos >= 110_000_000,
    ) + once(nanos >= 130_000_000) + once(nanos >= 150_000_000) + once(nanos >= 180_000_000)
}

/// One, if something is so.
pub open spec fn once(b: bool) -> nat {
    if b {
        1
    } else {
        0
    }
}

/// A trail gets lighter with time and with its height above where the piece came to
/// rest, until it is gone; no part of it lasts for longer than 240 milliseconds.
pub proof fn law_trail_gets_lighter(sc: Scene, tile: HardDropTile)
    ensures
        ({
            let age = elapsed(tile.creation_time, sc.time);
            let lightness = times_faded(age) + tile.y_offset as nat * 4 / 7;
            let signs = match sc.graphics.glyphset {
                Glyphset::Electronika60 => " . . . . . . . ."@,
                _ => "@@$$##%%**++~~.."@,
            };
            trail_text(sc, tile) == if age < 240_000_000 && lightness < 8 {
                Some(signs.subrange(2 * lightness as int, 2 * lightness as int + 2))
            } else {
                None
            }
        }),
{
    reveal_strlit(" . . . . . . . .");
    reveal_strlit("@@$$##%%**++~~..");
    reveal_strlit(" .");
    reveal_strlit("@@");
    reveal_strlit("$$");
    reveal_strlit("##");
    reveal_strlit("%%");
    reveal_strlit("**");
    reveal_strlit("++");
    reveal_strlit("~~");
    reveal_strlit("..");
    let age = elapsed(tile.creation_time, sc.time);
    let lightness = times_faded(age) + tile.y_offset as nat * 4 / 7;
    let signs = match sc.graphics.glyphset {
        Glyphset::Electronika60 => " . . . . . . . ."@,
        _ => "@@$$##%%**++~~.."@,
    };
    if age < 240_000_000 && lightness < 8 {
        assert(trail_text(sc, tile)->0 =~= signs.subrange(
            2 * lightness as int,
            2 * lightness as int + 2,
        ));
    }
}

/// Whether a place of a trail is still drawn.
pub open spec fn trail_lasts(sc: Scene) -> spec_fn(HardDropTile) -> bool {
    |tile: HardDropTile| trail_text(sc, tile) is Some
}

proof fn lemma_trail_kept(sc: Scene, tiles: Seq<HardDropTile>, k: int)
    requires
        0 <= k <= tiles.len(),
    ensures
        trail_kept(sc, tiles, k) == tiles.take(k).filter(trail_lasts(sc)),
    decreases k,
{
    reveal(Seq::filter);
    if k > 0 {
        lemma_trail_kept(sc, tiles, k - 1);
        assert(tiles.take(k).drop_last() =~= tiles.take(k - 1));
    }
}

/// The places of trails that stay are those that are still drawn, all of them and in
/// their order.
pub proof fn law_trails_stay_while_they_are_drawn(sc: Scene, tiles: Seq<HardDropTile>)
    ensures
        trail_kept(sc, tiles, tiles.len() as int) == tiles.filter(trail_lasts(sc)),
{
    lemma_trail_kept(sc, tiles, tiles.len() as int);
    assert(tiles.take(tiles.len() as int) =~= tiles);
}

proof fn lemma_column_trail(since: InGameTime, tile: Tile, top: int)
    requires
        0 <= top <= 20,
    ensures
        ({
            let trail = column_trail(since, tile, top);
            &&& trail.len() == if top > tile.0.1 {
                top - tile.0.1
            } else {
                0
            }
            &&& forall|i: int|
                0 <= i < trail.len() ==> (#[trigger] trail[i]) == (HardDropTile {
                    creation_time: since,
                    pos: (tile.0.0, (tile.0.1 + i) as usize),
                    y_offset: i as usize,
                    tile_type_id: tile.1,
                })
        }),
    decreases top,
{
    if top > tile.0.1 {
        lemma_column_trail(since, tile, top - 1);
    }
}

proof fn lemma_piece_trail(since: InGameTime, tiles: Seq<Tile>, k: int, i: int, y: int)
    requires
        0 <= i < k <= tiles.len(),
        tiles[i].0.1 <= y < 20,
    ensures
        piece_trail(since, tiles, k).contains(
            (HardDropTile {
                creation_time: since,
                pos: (tiles[i].0.0, y as usize),
                y_offset: (y - tiles[i].0.1) as usize,
                tile_type_id: tiles[i].1,
            }),
        ),
    decreases k,
{
    let wanted = HardDropTile {
        creation_time: since,
        pos: (tiles[i].0.0, y as usize),
        y_offset: (y - tiles[i].0.1) as usize,
        tile_type_id: tiles[i].1,
    };
    let rest = piece_trail(since, tiles, k - 1);
    let all = piece_trail(since, tiles, k);
    if i < k - 1 {
        lemma_piece_trail(since, tiles, k - 1, i, y);
        let j = rest.index_of(wanted);
        assert(all[j] == rest[j]);
    } else {
        lemma_column_trail(since, tiles[i], 20);
        let column = column_trail(since, tiles[i], 20);
        let j = y - tiles[i].0.1;
        assert(column[j] == wanted);
        assert(all[rest.len() + j] == column[j]);
    }
}

proof fn lemma_piece_trail_only(since: InGameTime, tiles: Seq<Tile>, k: int, j: int) -> (i: int)
    requires
        0 <= k <= tiles.len(),
        0 <= j < piece_trail(since, tiles, k).len(),
    ensures
        0 <= i < k,
        ({
            let place = piece_trail(since, tiles, k)[j];
            &&& place.creation_time == since
            &&& place.pos.0 == tiles[i].0.0
            &&& tiles[i].0.1 <= place.pos.1 < 20
            &&& place.y_offset == place.pos.1 - tiles[i].0.1
            &&& place.tile_type_id == tiles[i].1
        }),
    decreases k,
{
    let rest = piece_trail(since, tiles, k - 1);
    if j < rest.len() {
        lemma_piece_trail_only(since, tiles, k - 1, j)
    } else {
        lemma_column_trail(since, tiles[k - 1], 20);
        assert(piece_trail(since, tiles, k)[j] == column_trail(
            since,
            tiles[k - 1],
            20,
        )[j - rest.len()]);
        k - 1
    }
}

/// A piece that is dropped at once leaves, where effects are shown, a trail in the
/// places from each of its tiles up to the skyline, each knowing how far above the
/// tile it lies, and in no other place.
pub proof fn law_dropped_piece_leaves_a_trail(
    sc: Scene,
    since: InGameTime,
    old_piece: Piece,
    new_piece: Piece,
    i: int,
    y: int,
    j: int,
)
    requires
        0 <= i < 4,
        new_piece.tile_seq()[i].0.1 <= y < 20,
    ensures
        ({
            let trail = msg_trail(sc, (since, Feedback::HardDrop { old_piece, new_piece }));
            let tiles = new_piece.tile_seq();
            &&& sc.graphics.show_effects ==> trail.contains(
                (HardDropTile {
                    creation_time: since,
                    pos: (tiles[i].0.0, y as usize),
                    y_offset: (y - tiles[i].0.1) as usize,
                    tile_type_id: tiles[i].1,
                }),
            )
            &&& !sc.graphics.show_effects ==> trail.len() == 0
            &&& 0 <= j < trail.len() ==> exists|t: int|
                0 <= t < 4 && trail[j].pos.0 == (#[trigger] tiles[t]).0.0 && tiles[t].0.1
                    <= trail[j].pos.1 < 20
        }),
{
    lemma_piece_trail(since, new_piece.tile_seq(), 4, i, y);
    let trail = msg_trail(sc, (since, Feedback::HardDrop { old_piece, new_piece }));
    if 0 <= j < trail.len() {
        let t = lemma_piece_trail_only(since, new_piece.tile_seq(), 4, j);
        assert(0 <= t < 4 && trail[j].pos.0 == new_piece.tile_seq()[t].0.0);
    }
}

/// No other message leaves a trail.
pub proof fn law_only_drops_leave_trails(sc: Scene, msg: FeedbackMsg)
    ensures
        !(msg.1 is HardDrop) ==> msg_trail(sc, msg).len() == 0,
{
}

/// Every place of the trail of every message is among the trails that are started.
pub proof fn law_every_trail_is_started(
    sc: Scene,
    msgs: Seq<FeedbackMsg>,
    k: int,
    i: int,
    place: HardDropTile,
)
    requires
        0 <= i < k <= msgs.len(),
        msg_trail(sc, msgs[i]).contains(place),
    ensures
        feed_trail(sc, msgs, k).contains(place),
    decreases k,
{
    let rest = feed_trail(sc, msgs, k - 1);
    let last = msg_trail(sc, msgs[k - 1]);
    let all = feed_trail(sc, msgs, k);
    if i < k - 1 {
        law_every_trail_is_started(sc, msgs, k - 1, i, place);
        let j = rest.index_of(place);
        assert(all[j] == rest[j]);
    } else {
        let j = last.index_of(place);
        assert(all[rest.len() + j] == last[j]);
    }
}

// ---------------------------------------------------------------------------
// Effects in a frame
// ---------------------------------------------------------------------------
/// Where effects are shown, the piece that was locked last shows in each of its places
/// at or below the skyline, over everything else, with the characters that it glows
/// with and in the color of its own that all glowing pieces have.
pub proof fn law_locked_piece_glows_on_top(
    r: DiffPrintRenderer,
    game: GameSnapshot,
    title: Seq<char>,
    settings: &Settings,
    legend: Seq<(String, String)>,
    texts: RenderTexts,
    frames: Seq<Option<usize>>,
    piece: Piece,
    x: int,
    y: int,
    d: int,
)
    requires
        r.can_render(game, *settings, legend, texts, frames),
        settings.active_graphics().show_effects,
        r.buffered_feedback_msgs@.len() > 0,
        r.buffered_feedback_msgs@.last().1 == (Feedback::PieceLocked { piece }),
        elapsed(r.buffered_feedback_msgs@.last().0, game.time) < 175_000_000,
        tile_in(piece.tile_seq(), 4, x, y) is Some,
        0 <= x < 10,
        0 <= y <= 20,
        0 <= d < 2,
    ensures
        shown(
            r.frame(game, title, settings, legend, texts, frames),
            26 + 2 * x + d,
            21 - y,
        ) == (
            lock_glyph(
                settings.active_graphics().glyphset,
                elapsed(r.buffered_feedback_msgs@.last().0, game.time),
            )->0[d],
            color_of(settings.active_palette(), 255),
        ),
{
    let sc = scene_of(game, settings);
    let gs = lemma_layers(r, game, title, settings, legend, texts, frames);
    let msgs = r.buffered_feedback_msgs@;
    let n = msgs.len() as int;
    let nanos = elapsed(msgs.last().0, game.time);
    law_locked_piece_glows_for_a_moment(sc.graphics.glyphset, nanos);
    lemma_lock_glyphs();
    let glyph = lock_glyph(sc.graphics.glyphset, nanos)->0;
    let rest = feed_paints(sc, msgs, frames, n - 1);
    lemma_paint_all_concat(gs[8], rest, msg_paints(sc, msgs[n - 1], frames[n - 1]));
    lemma_tiles_shown(
        paint_all(gs[8], rest),
        piece.tile_seq(),
        glyph,
        sc.palette@,
        Some(255),
        4,
        x,
        y,
        d,
    );
    lemma_texts_leave_board(gs[9], r.frame_texts(), 26 + 2 * x + d, 21 - y);
}

proof fn lemma_trail_shown(
    g: Seq<Seq<Cell>>,
    sc: Scene,
    tiles: Seq<HardDropTile>,
    n: int,
    k: int,
    d: int,
)
    requires
        trail_wf(tiles),
        0 <= k < n <= tiles.len(),
        tiles[k].pos.0 < 10,
        trail_text(sc, tiles[k]) is Some,
        forall|j: int|
            k < j < n ==> (#[trigger] tiles[j]).pos.0 != tiles[k].pos.0 || tiles[j].pos.1
                != tiles[k].pos.1,
        0 <= d < 2,
    ensures
        shown(
            paint_all(g, trail_paints(sc, tiles, n)),
            26 + 2 * tiles[k].pos.0 + d,
            21 - tiles[k].pos.1,
        ) == (
            trail_text(sc, tiles[k])->0[d],
            color_of(sc.palette@, tiles[k].tile_type_id),
        ),
    decreases n,
{
    lemma_trail_glyphs();
    let rest = trail_paints(sc, tiles, n - 1);
    let ps = trail_paints(sc, tiles, n);
    let (u, v) = (26 + 2 * tiles[k].pos.0 + d, 21 - tiles[k].pos.1);
    assert(tiles[n - 1].wf() && tiles[k].wf());
    if k < n - 1 {
        lemma_trail_shown(g, sc, tiles, n - 1, k, d);
    }
    if trail_text(sc, tiles[n - 1]) is Some {
        assert(ps.drop_last() =~= rest);
        law_text_is_shown_where_it_is_written(paint_all(g, rest), ps.last(), u, v);
    }
}

/// A trail shows in each of its places that nothing else lies in, in the color of the
/// piece that left it, until it is gone; of several in the same place the latest.
pub proof fn law_trail_shows_where_nothing_lies(
    r: DiffPrintRenderer,
    game: GameSnapshot,
    title: Seq<char>,
    settings: &Settings,
    legend: Seq<(String, String)>,
    texts: RenderTexts,
    frames: Seq<Option<usize>>,
    k: int,
    d: int,
)
    requires
        r.can_render(game, *settings, legend, texts, frames),
        pictures_fit(texts),
        0 <= k < r.hard_drop_tiles@.len(),
        r.hard_drop_tiles@[k].pos.0 < 10,
        trail_text(scene_of(game, settings), r.hard_drop_tiles@[k]) is Some,
        forall|j: int|
            k < j < r.hard_drop_tiles@.len() ==> (#[trigger] r.hard_drop_tiles@[j]).pos.0
                != r.hard_drop_tiles@[k].pos.0 || r.hard_drop_tiles@[j].pos.1
                != r.hard_drop_tiles@[k].pos.1,
        game.board@[r.hard_drop_tiles@[k].pos.1 as int]@[r.hard_drop_tiles@[k].pos.0 as int] is None,
        free_of_piece(
            game,
            settings,
            r.hard_drop_tiles@[k].pos.0 as int,
            r.hard_drop_tiles@[k].pos.1 as int,
        ),
        no_effect_in(
            r.buffered_feedback_msgs@,
            r.hard_drop_tiles@[k].pos.0 as int,
            r.hard_drop_tiles@[k].pos.1 as int,
        ),
        0 <= d < 2,
    ensures
        ({
            let tile = r.hard_drop_tiles@[k];
            shown(
                r.frame(game, title, settings, legend, texts, frames),
                26 + 2 * tile.pos.0 + d,
                21 - tile.pos.1,
            ) == (
                trail_text(scene_of(game, settings), tile)->0[d],
                color_of(settings.active_palette(), tile.tile_type_id),
            )
        }),
{
    let sc = scene_of(game, settings);
    let gs = lemma_layers(r, game, title, settings, legend, texts, frames);
    let tiles = r.hard_drop_tiles@;
    assert(tiles[k].wf());
    let (x, y) = (tiles[k].pos.0 as int, tiles[k].pos.1 as int);
    let glyph = glyph_ground(sc.graphics.glyphset);
    lemma_tile_glyphs(sc.graphics.glyphset);
    lemma_later_layers(r, game, title, settings, legend, texts, frames, gs, x, y, d);
    lemma_piece_layer(gs[5], sc, game, x, y, d);
    lemma_locked_shown(
        gs[4],
        game.board,
        glyph,
        settings.active_palette_lockedtiles(),
        210,
        x,
        y,
        d,
    );
    lemma_trail_shown(gs[3], sc, tiles, tiles.len() as int, k, d);
}

proof fn lemma_line_clears_place(
    y_coords: Seq<usize>,
    text: Seq<char>,
    color: Option<Color>,
    k: int,
)
    requires
        0 <= k <= y_coords.len(),
    ensures
        line_clear_paints(y_coords, text, color, k).len() == k,
        forall|i: int|
            0 <= i < k ==> {
                let p = #[trigger] line_clear_paints(y_coords, text, color, k)[i];
                &&& p.x == 26
                &&& p.y == 21 - y_coords[i]
                &&& p.text == text
                &&& p.color == color
            },
    decreases k,
{
    if k > 0 {
        lemma_line_clears_place(y_coords, text, color, k - 1);
    }
}

/// Lines that are being cleared show the frame of their animation that it is time for,
/// each across the board in its row and over everything else.
pub proof fn law_cleared_lines_show_their_animation(
    r: DiffPrintRenderer,
    game: GameSnapshot,
    title: Seq<char>,
    settings: &Settings,
    legend: Seq<(String, String)>,
    texts: RenderTexts,
    frames: Seq<Option<usize>>,
    k: int,
    i: int,
)
    requires
        r.can_render(game, *settings, legend, texts, frames),
        settings.active_graphics().show_effects,
        r.buffered_feedback_msgs@.len() > 0,
        r.buffered_feedback_msgs@.last().1 is LinesClearing,
        r.buffered_feedback_msgs@.last().1->line_clear_start.nanos() > 0,
        frames[r.buffered_feedback_msgs@.len() - 1] is Some,
        0 <= k < r.buffered_feedback_msgs@.last().1->y_coords@.len(),
        0 <= i < 20,
        i < line_clear_glyph(
            settings.active_graphics().glyphset,
            frames[r.buffered_feedback_msgs@.len() - 1]->0 as int,
        ).len() <= 20,
        forall|j: int|
            k < j < r.buffered_feedback_msgs@.last().1->y_coords@.len()
                ==> #[trigger] r.buffered_feedback_msgs@.last().1->y_coords@[j]
                != r.buffered_feedback_msgs@.last().1->y_coords@[k],
    ensures
        shown(
            r.frame(game, title, settings, legend, texts, frames),
            26 + i,
            21 - r.buffered_feedback_msgs@.last().1->y_coords@[k],
        ) == (
            line_clear_glyph(
                settings.active_graphics().glyphset,
                frames[r.buffered_feedback_msgs@.len() - 1]->0 as int,
            )[i],
            color_of(settings.active_palette(), 255),
        ),
{
    let sc = scene_of(game, settings);
    let gs = lemma_layers(r, game, title, settings, legend, texts, frames);
    let msgs = r.buffered_feedback_msgs@;
    let n = msgs.len() as int;
    let y_coords = msgs.last().1->y_coords@;
    let text = line_clear_glyph(sc.graphics.glyphset, frames[n - 1]->0 as int);
    let color = color_of(sc.palette@, 255);
    let rest = feed_paints(sc, msgs, frames, n - 1);
    assert(msgs[n - 1].0.wf() && msgs[n - 1].1.wf());
    lemma_paint_all_concat(gs[8], rest, msg_paints(sc, msgs[n - 1], frames[n - 1]));
    let ps = line_clear_paints(y_coords, text, color, y_coords.len() as int);
    lemma_line_clears_place(y_coords, text, color, y_coords.len() as int);
    let v = 21 - y_coords[k];
    assert forall|j: int| 0 <= j < ps.len() implies on_screen(#[trigger] ps[j]) && (j > k
        ==> !covers(ps[j], 26 + i, v)) by {
        assert(y_coords[j] <= 21);
    }
    assert(ps[k].y == v);
    lemma_last_is_shown(paint_all(gs[8], rest), ps, k, 26 + i, v);
    lemma_texts_leave_board(gs[9], r.frame_texts(), 26 + i, v);
}

} // verus!

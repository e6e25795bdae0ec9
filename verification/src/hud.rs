//! What is drawn over the fixed part of the game's screen: the board, the
//! pieces and information beside them.
use crate::base_screen::{FrameText, FrameTextView};
use crate::button::Button;
use crate::color::Color;
use crate::engine::minos_upright;
use crate::game::{
    column_wf, join3, minos, sum_of_pieces, tiles_wf, total_pieces, Board, Coord, GameSnapshot,
    Orientation, Stat, Tetromino, Tile, SKYLINE_HEIGHT, WIDTH,
};
use crate::paint::{drawn, lemma_drawn_push, Paint};
use crate::screen::{larger, TerminalScreenBuffer};
use crate::settings::{Glyphset, Palette};
use crate::text::{chars_of, decimal, decimal_of, push_right_aligned, right_aligned, text_of};
use crate::time::InGameTime;
use vstd::prelude::*;
use vstd::string::*;
use vstd::utf8::encode_utf8;

verus! {

/// A description of the keys, line by line: icons of the keys and what they do.
pub type KeybindsLegend = Vec<(String, String)>;

/// Texts that depend on how times, speeds and pieces are written.
#[derive(Clone, Debug)]
pub struct RenderTexts {
    /// The time in the game.
    pub time: String,
    /// The time that is left, in a game that time completes.
    pub time_left: String,
    /// How fast pieces fall.
    pub gravity: String,
    /// How many pieces are placed in a second.
    pub pps: String,
    /// While a replay is shown, its speed and its length.
    pub replay: Option<(String, String)>,
    /// The sign of each button, by number.
    pub buttons: Vec<String>,
    /// The picture of each tetromino in a list, by number.
    pub tets_small: Vec<String>,
    /// The smallest picture of each tetromino, by number.
    pub tets_mini: Vec<String>,
}

impl RenderTexts {
    /// There is a text for every button and every tetromino.
    pub open spec fn wf(self) -> bool {
        &&& self.buttons@.len() == 11
        &&& self.tets_small@.len() == 7
        &&& self.tets_mini@.len() == 7
    }
}

/// The color of a kind of tile, if the palette has one.
pub open spec fn color_of(palette: Map<u8, Color>, id: u8) -> Option<Color> {
    if palette.contains_key(id) {
        Some(palette[id])
    } else {
        None
    }
}

/// Looks up the color of a kind of tile.
pub fn get_color(palette: &Palette, id: u8) -> (c: Option<Color>)
    ensures
        c == color_of(palette@, id),
{
    broadcast use vstd::std_specs::hash::group_hash_axioms;

    match palette.get(&id) {
        Some(c) => Some(*c),
        None => None,
    }
}

/// The column on the screen of a place on the board.
pub open spec fn board_x(pos: Coord) -> int {
    26 + 2 * pos.0
}

/// The row on the screen of a place on the board.
pub open spec fn board_y(pos: Coord) -> int {
    1 + SKYLINE_HEIGHT - pos.1
}

/// Where on the screen a place on the board is drawn.
pub fn pos_board(pos: Coord) -> (r: (usize, usize))
    requires
        column_wf(pos.0),
        pos.1 <= SKYLINE_HEIGHT + 1,
    ensures
        r.0 == board_x(pos),
        r.1 == board_y(pos),
{
    (26 + 2 * pos.0, 1 + SKYLINE_HEIGHT - pos.1)
}

// ---------------------------------------------------------------------------
// Statistics
// ---------------------------------------------------------------------------
/// The first condition from number `i` on that completes the game.
pub open spec fn winning_condition(conditions: Seq<(Stat, bool)>, i: int) -> Option<Stat>
    decreases conditions.len() - i,
{
    if i < 0 || i >= conditions.len() {
        None
    } else if conditions[i].1 {
        Some(conditions[i].0)
    } else {
        winning_condition(conditions, i + 1)
    }
}

/// The difference, or nothing where it would be negative.
pub open spec fn left_over(limit: nat, reached: nat) -> nat {
    if limit >= reached {
        (limit - reached) as nat
    } else {
        0
    }
}

/// What the game counts down to its completion, and its value.
pub open spec fn countdown(game: GameSnapshot, time_left: Seq<char>) -> (Seq<char>, Seq<char>) {
    match winning_condition(game.end_conditions@, 0) {
        Some(Stat::TimeElapsed(_)) => ("Time left:"@, time_left),
        Some(Stat::PiecesLocked(p)) => (
            "Pieces left:"@,
            decimal(left_over(p as nat, total_pieces(game.pieces_locked@))),
        ),
        Some(Stat::LinesCleared(l)) => (
            "Lines left:"@,
            decimal(left_over(l as nat, game.lineclears as nat)),
        ),
        Some(Stat::PointsScored(s)) => (
            "Points left:"@,
            decimal(left_over(s as nat, game.score as nat)),
        ),
        None => (""@, ""@),
    }
}

/// Whether the lock delay is shown: once pieces fall as fast as they ever will,
/// if it changes at all.
pub open spec fn shows_lock_delay(game: GameSnapshot) -> bool {
    game.fall_delay_lowerbound_hit && !game.lock_delay_is_constant
}

/// The texts of the fixed part of the screen.
pub open spec fn frame_text(
    game: GameSnapshot,
    title: Seq<char>,
    texts: RenderTexts,
) -> FrameTextView {
    let (endcond_title, endcond_value) = countdown(game, texts.time_left@);
    FrameTextView {
        title,
        width: larger((encode_utf8(title).len() as usize) as nat, 14),
        time: texts.time@,
        endcond_title,
        endcond_value,
        lines: decimal(game.lineclears as nat),
        score: decimal(game.score as nat),
        gravity: texts.gravity@,
        lock_delay: if shows_lock_delay(game) {
            "Lock delay: "@ + decimal(game.lock_delay.saturated().millis()) + "ms"@
        } else {
            ""@
        },
        pps: texts.pps@,
        hold: game.piece_held is Some,
        next: game.piece_preview@.len() > 0,
    }
}

proof fn lemma_winning_condition_found(conditions: Seq<(Stat, bool)>, from: int, i: int)
    requires
        0 <= from <= i < conditions.len(),
        conditions[i].1,
        forall|j: int| from <= j < i ==> !(#[trigger] conditions[j]).1,
    ensures
        winning_condition(conditions, from) == Some(conditions[i].0),
    decreases i - from,
{
    if from < i {
        assert(!conditions[from].1);
        lemma_winning_condition_found(conditions, from + 1, i);
    }
}

/// What is counted down is what is left to the first condition that completes the
/// game: its limit less what the game has of it, and never less than nothing.
pub proof fn law_first_completing_condition_is_counted_down(
    game: GameSnapshot,
    time_left: Seq<char>,
    i: int,
)
    requires
        0 <= i < game.end_conditions@.len(),
        game.end_conditions@[i].1,
        forall|j: int| 0 <= j < i ==> !(#[trigger] game.end_conditions@[j]).1,
    ensures
        countdown(game, time_left) == match game.end_conditions@[i].0 {
            Stat::TimeElapsed(_) => ("Time left:"@, time_left),
            Stat::PiecesLocked(limit) => {
                let n = game.pieces_locked@;
                let reached = n[0] + n[1] + n[2] + n[3] + n[4] + n[5] + n[6];
                (
                    "Pieces left:"@,
                    decimal(
                        if reached < limit {
                            (limit - reached) as nat
                        } else {
                            0
                        },
                    ),
                )
            },
            Stat::LinesCleared(limit) => (
                "Lines left:"@,
                decimal(
                    if game.lineclears < limit {
                        (limit - game.lineclears) as nat
                    } else {
                        0
                    },
                ),
            ),
            Stat::PointsScored(limit) => (
                "Points left:"@,
                decimal(
                    if game.score < limit {
                        (limit - game.score) as nat
                    } else {
                        0
                    },
                ),
            ),
        },
{
    lemma_winning_condition_found(game.end_conditions@, 0, i);
    reveal_with_fuel(crate::game::count_sum, 8);
}

/// The lock delay is told of once pieces fall as fast as they ever will, if it changes
/// at all, and not otherwise; every other text has its own place.
pub proof fn law_texts_of_a_frame_are_those_of_the_game(
    game: GameSnapshot,
    title: Seq<char>,
    texts: RenderTexts,
)
    ensures
        ({
            let t = frame_text(game, title, texts);
            &&& t.title == title
            &&& t.time == texts.time@
            &&& t.lines == decimal(game.lineclears as nat)
            &&& t.score == decimal(game.score as nat)
            &&& t.gravity == texts.gravity@
            &&& t.pps == texts.pps@
            &&& t.hold <==> game.piece_held is Some
            &&& t.next <==> game.piece_preview@.len() > 0
            &&& t.lock_delay.len() > 0 <==> game.fall_delay_lowerbound_hit
                && !game.lock_delay_is_constant
        }),
{
    reveal_strlit("");
    reveal_strlit("Lock delay: ");
}

/// A palette's own color is the color of a kind of tile, and none if it has none.
pub proof fn law_color_is_the_palettes(palette: Map<u8, Color>, id: u8)
    ensures
        palette.contains_key(id) ==> color_of(palette, id) == Some(palette[id]),
        !palette.contains_key(id) ==> color_of(palette, id) is None,
{
}

/// Finds the condition that completes the game.
pub fn find_winning_condition(conditions: &Vec<(Stat, bool)>) -> (r: Option<Stat>)
    ensures
        r == winning_condition(conditions@, 0),
{
    let mut i: usize = 0;
    while i < conditions.len()
        invariant
            i <= conditions@.len(),
            winning_condition(conditions@, 0) == winning_condition(conditions@, i as int),
        decreases conditions@.len() - i,
    {
        if conditions[i].1 {
            return Some(conditions[i].0);
        }
        i = i + 1;
    }
    None
}

/// The time that is left in a game that time completes.
pub fn time_left(game: &GameSnapshot) -> (r: Option<InGameTime>)
    requires
        game.wf(),
    ensures
        match winning_condition(game.end_conditions@, 0) {
            Some(Stat::TimeElapsed(t)) => {
                &&& r is Some
                &&& r->0.wf()
                &&& r->0.nanos() == left_over(t.nanos(), game.time.nanos())
            },
            _ => r is None,
        },
{
    match find_winning_condition(&game.end_conditions) {
        Some(Stat::TimeElapsed(t)) => {
            proof {
                lemma_winning_condition_listed(game.end_conditions@, 0);
            }
            Some(t.saturating_sub(game.time))
        },
        _ => None,
    }
}

/// The condition that completes the game is one of its conditions.
proof fn lemma_winning_condition_listed(conditions: Seq<(Stat, bool)>, i: int)
    requires
        0 <= i,
        forall|j: int| 0 <= j < conditions.len() ==> (#[trigger] conditions[j]).0.wf(),
    ensures
        winning_condition(conditions, i) matches Some(s) ==> s.wf(),
    decreases conditions.len() - i,
{
    if i < conditions.len() && !conditions[i].1 {
        lemma_winning_condition_listed(conditions, i + 1);
    }
}

fn counted_down(limit: u32, reached: u32) -> (s: String)
    ensures
        s@ == decimal(left_over(limit as nat, reached as nat)),
{
    if limit >= reached {
        decimal_of((limit - reached) as u128)
    } else {
        decimal_of(0)
    }
}

/// Collects the texts of the fixed part of the screen.
pub fn collect_frame_text(game: &GameSnapshot, title: &str, texts: &RenderTexts) -> (t: FrameText)
    requires
        game.wf(),
    ensures
        t@ == frame_text(*game, title@, *texts),
{
    let (endcond_title, endcond_value): (String, String) = match find_winning_condition(
        &game.end_conditions,
    ) {
        Some(Stat::TimeElapsed(_)) => ("Time left:".to_owned(), texts.time_left.clone()),
        Some(Stat::PiecesLocked(p)) => (
            "Pieces left:".to_owned(),
            counted_down(p, sum_of_pieces(&game.pieces_locked)),
        ),
        Some(Stat::LinesCleared(l)) => ("Lines left:".to_owned(), counted_down(l, game.lineclears)),
        Some(Stat::PointsScored(s)) => ("Points left:".to_owned(), counted_down(s, game.score)),
        None => ("".to_owned(), "".to_owned()),
    };
    let byte_len: usize = title.len();
    let width: usize = if byte_len < 14 {
        14
    } else {
        byte_len
    };
    let lock_delay: String = if game.fall_delay_lowerbound_hit && !game.lock_delay_is_constant {
        join3(
            "Lock delay: ",
            decimal_of(game.lock_delay.saturating_duration().as_millis()).as_str(),
            "ms",
        )
    } else {
        "".to_owned()
    };
    FrameText {
        title: title.to_owned(),
        width,
        time: texts.time.clone(),
        endcond_title,
        endcond_value,
        lines: decimal_of(game.lineclears as u128),
        score: decimal_of(game.score as u128),
        gravity: texts.gravity.clone(),
        lock_delay,
        pps: texts.pps.clone(),
        hold: game.piece_held.is_some(),
        next: game.piece_preview.len() > 0,
    }
}

// ---------------------------------------------------------------------------
// Keybinds legend and replay information
// ---------------------------------------------------------------------------
/// How wide the legend of the keys is at most.
pub const W_KEYBINDS: usize = 23;

/// The length of the longest description in the first `k` lines.
pub open spec fn longest_desc(legend: Seq<(String, String)>, k: int) -> nat
    decreases k,
{
    if k <= 0 {
        0
    } else {
        larger(longest_desc(legend, k - 1), legend[k - 1].1@.len())
    }
}

/// The length of the longest icons in the first `k` lines.
pub open spec fn longest_icons(legend: Seq<(String, String)>, k: int) -> nat
    decreases k,
{
    if k <= 0 {
        0
    } else {
        larger(longest_icons(legend, k - 1), legend[k - 1].0@.len())
    }
}

/// How many columns the icons take: as many as the longest ones have, as far
/// as the descriptions leave room.
pub open spec fn icons_width(legend: Seq<(String, String)>) -> nat {
    let longest = longest_icons(legend, legend.len() as int);
    let available = W_KEYBINDS - longest_desc(legend, legend.len() as int) - 1;
    if longest < available {
        longest
    } else {
        available as nat
    }
}

/// The first characters of a text, as many as fit.
pub open spec fn cut(s: Seq<char>, width: nat) -> Seq<char> {
    if s.len() <= width {
        s
    } else {
        s.take(width as int)
    }
}

/// A line of the legend: the icons to the right of their columns, a space and
/// the description.
pub open spec fn legend_line(line: (String, String), width: nat) -> Seq<char> {
    right_aligned(cut(line.0@, width), width) + " "@ + line.1@
}

/// The first `k` lines of the legend, from the top.
pub open spec fn legend_paints(legend: Seq<(String, String)>, k: int) -> Seq<Paint>
    decreases k,
{
    if k <= 0 {
        Seq::empty()
    } else {
        legend_paints(legend, k - 1).push(
            Paint {
                text: legend_line(legend[k - 1], icons_width(legend)),
                color: None,
                x: 1,
                y: 16 + k - 1,
            },
        )
    }
}

/// Whether the descriptions leave room for a space before them.
pub open spec fn legend_wf(legend: Seq<(String, String)>) -> bool {
    &&& legend.len() + 1_000 <= usize::MAX
    &&& longest_desc(legend, legend.len() as int) < W_KEYBINDS
}

/// Whether the descriptions leave room for a space before them.
pub fn is_legend_wf(legend: &KeybindsLegend) -> (b: bool)
    ensures
        b == legend_wf(legend@),
{
    if legend.len() > usize::MAX - 1_000 {
        return false;
    }
    let mut longest: usize = 0;
    for k in 0..legend.len()
        invariant
            longest == longest_desc(legend@, k as int),
    {
        let len: usize = legend[k].1.as_str().unicode_len();
        if longest < len {
            longest = len;
        }
    }
    longest < W_KEYBINDS
}

/// Draws the legend of the keys.
pub fn draw_legend(screen: &mut TerminalScreenBuffer, legend: &KeybindsLegend)
    requires
        legend_wf(legend@),
    ensures
        drawn(*old(screen), *final(screen), legend_paints(legend@, legend@.len() as int)),
{
    let mut desc_len: usize = 0;
    let mut icons_len: usize = 0;
    for k in 0..legend.len()
        invariant
            desc_len == longest_desc(legend@, k as int),
            icons_len == longest_icons(legend@, k as int),
    {
        let d: usize = legend[k].1.as_str().unicode_len();
        if desc_len < d {
            desc_len = d;
        }
        let i: usize = legend[k].0.as_str().unicode_len();
        if icons_len < i {
            icons_len = i;
        }
    }
    let icons_available_len: usize = W_KEYBINDS - desc_len - 1;
    if icons_len >= icons_available_len {
        icons_len = icons_available_len;
    }
    let ghost before = *screen;
    for dy in 0..legend.len()
        invariant
            legend_wf(legend@),
            icons_len == icons_width(legend@),
            icons_len < W_KEYBINDS,
            drawn(before, *screen, legend_paints(legend@, dy as int)),
    {
        let icons = chars_of(legend[dy].0.as_str());
        let mut icons = icons;
        if icons.len() > icons_len {
            icons.truncate(icons_len);
        }
        let mut line = String::new();
        push_right_aligned(&mut line, text_of(&icons).as_str(), icons_len);
        line.append(" ");
        line.append(legend[dy].1.as_str());
        let ghost middle = *screen;
        screen.buffer_str(line.as_str(), None, (1, 16 + dy));
        proof {
            lemma_drawn_push(
                before,
                middle,
                *screen,
                legend_paints(legend@, dy as int),
                Paint { text: line@, color: None, x: 1, y: 16 + dy },
            );
        }
    }
}

/// What is shown of a replay: that it is one, its speed and its length.
pub open spec fn replay_paints(replay: Option<(String, String)>) -> Seq<Paint> {
    match replay {
        None => Seq::empty(),
        Some((speed, length)) => seq![
            Paint { text: "(Viewing REPLAY)"@, color: None, x: 1, y: 1 },
            Paint { text: "Replay speed: "@ + speed@, color: None, x: 1, y: 11 },
            Paint { text: "Total time "@ + length@, color: None, x: 1, y: 12 },
        ],
    }
}

/// Draws what is shown of a replay.
pub fn draw_replay(screen: &mut TerminalScreenBuffer, replay: &Option<(String, String)>)
    ensures
        drawn(*old(screen), *final(screen), replay_paints(*replay)),
{
    if let Some((speed, length)) = replay {
        let ghost before = *screen;
        let ghost p1 = Paint { text: "(Viewing REPLAY)"@, color: None, x: 1, y: 1 };
        let ghost p2 = Paint { text: "Replay speed: "@ + speed@, color: None, x: 1, y: 11 };
        let ghost p3 = Paint { text: "Total time "@ + length@, color: None, x: 1, y: 12 };
        screen.buffer_str("(Viewing REPLAY)", None, (1, 1));
        let ghost s1 = *screen;
        let mut text = "Replay speed: ".to_owned();
        text.append(speed.as_str());
        screen.buffer_str(text.as_str(), None, (1, 11));
        let ghost s2 = *screen;
        let mut text = "Total time ".to_owned();
        text.append(length.as_str());
        screen.buffer_str(text.as_str(), None, (1, 12));
        proof {
            lemma_drawn_push(before, before, s1, Seq::empty(), p1);
            lemma_drawn_push(before, s1, s2, Seq::empty().push(p1), p2);
            lemma_drawn_push(before, s2, *screen, Seq::empty().push(p1).push(p2), p3);
            assert(Seq::empty().push(p1).push(p2).push(p3) =~= seq![p1, p2, p3]);
        }
    }
}

// ---------------------------------------------------------------------------
// Buttons
// ---------------------------------------------------------------------------
/// The buttons in the order in which they are shown, with marks between them.
pub open spec fn shown_button(i: int) -> Option<Button> {
    if i == 1 {
        Some(Button::MoveLeft)
    } else if i == 2 {
        Some(Button::DropSoft)
    } else if i == 3 {
        Some(Button::MoveRight)
    } else if i == 5 {
        Some(Button::RotateLeft)
    } else if i == 6 {
        Some(Button::RotateAround)
    } else if i == 7 {
        Some(Button::RotateRight)
    } else if i == 9 {
        Some(Button::DropHard)
    } else if i == 11 {
        Some(Button::HoldPiece)
    } else if i == 13 {
        Some(Button::TeleLeft)
    } else if i == 14 {
        Some(Button::TeleDown)
    } else if i == 15 {
        Some(Button::TeleRight)
    } else {
        None
    }
}

/// The mark in a place without a button.
pub open spec fn shown_mark(i: int) -> Seq<char> {
    if i == 0 {
        "("@
    } else if i == 16 {
        ")"@
    } else {
        " "@
    }
}

/// The kind of tile in whose color a button that is down is shown.
pub const TILE_DOWN: u8 = 255;

/// The kind of tile in whose color a button that is up is shown.
pub const TILE_UP: u8 = 253;

/// The first `k` places of the state of the buttons, from the left.
pub open spec fn button_paints(
    pressed: Seq<bool>,
    signs: Seq<String>,
    palette: Map<u8, Color>,
    k: int,
) -> Seq<Paint>
    decreases k,
{
    if k <= 0 {
        Seq::empty()
    } else {
        button_paints(pressed, signs, palette, k - 1).push(
            match shown_button(k - 1) {
                Some(b) => Paint {
                    text: signs[b.number()]@,
                    color: color_of(
                        palette,
                        if pressed[b.number()] {
                            TILE_DOWN
                        } else {
                            TILE_UP
                        },
                    ),
                    x: 48 + k - 1,
                    y: 17,
                },
                None => Paint { text: shown_mark(k - 1), color: None, x: 48 + k - 1, y: 17 },
            },
        )
    }
}

fn button_in_place(i: usize) -> (b: Option<Button>)
    ensures
        b == shown_button(i as int),
{
    match i {
        1 => Some(Button::MoveLeft),
        2 => Some(Button::DropSoft),
        3 => Some(Button::MoveRight),
        5 => Some(Button::RotateLeft),
        6 => Some(Button::RotateAround),
        7 => Some(Button::RotateRight),
        9 => Some(Button::DropHard),
        11 => Some(Button::HoldPiece),
        13 => Some(Button::TeleLeft),
        14 => Some(Button::TeleDown),
        15 => Some(Button::TeleRight),
        _ => None,
    }
}

/// Draws which buttons are down.
pub fn draw_buttons(
    screen: &mut TerminalScreenBuffer,
    pressed: &[bool; 11],
    signs: &Vec<String>,
    palette: &Palette,
)
    requires
        signs@.len() == 11,
    ensures
        drawn(*old(screen), *final(screen), button_paints(pressed@, signs@, palette@, 17)),
{
    let ghost before = *screen;
    for dx in 0..17usize
        invariant
            signs@.len() == 11,
            drawn(before, *screen, button_paints(pressed@, signs@, palette@, dx as int)),
    {
        let ghost middle = *screen;
        let ghost done = button_paints(pressed@, signs@, palette@, dx as int);
        match button_in_place(dx) {
            Some(b) => {
                let i: usize = b.index() as usize;
                let color: Option<Color> = get_color(
                    palette,
                    if pressed[i] {
                        TILE_DOWN
                    } else {
                        TILE_UP
                    },
                );
                screen.buffer_str(signs[i].as_str(), color, (48 + dx, 17));
                proof {
                    let p = Paint { text: signs@[i as int]@, color, x: 48 + dx, y: 17 };
                    lemma_drawn_push(before, middle, *screen, done, p);
                }
            },
            None => {
                let mark: &str = if dx == 0 {
                    "("
                } else if dx == 16 {
                    ")"
                } else {
                    " "
                };
                screen.buffer_str(mark, None, (48 + dx, 17));
                proof {
                    let p = Paint { text: mark@, color: None, x: 48 + dx, y: 17 };
                    lemma_drawn_push(before, middle, *screen, done, p);
                }
            },
        }
    }
}

// ---------------------------------------------------------------------------
// Board and pieces
// ---------------------------------------------------------------------------
/// The two characters that a locked tile is drawn with.
pub open spec fn glyph_ground(glyphset: Glyphset) -> Seq<char> {
    match glyphset {
        Glyphset::Electronika60 => "▮▮"@,
        Glyphset::ASCII => "##"@,
        Glyphset::Unicode => "██"@,
    }
}

/// The two characters that a tile of the shadow piece is drawn with.
pub open spec fn glyph_shadow(glyphset: Glyphset) -> Seq<char> {
    match glyphset {
        Glyphset::Electronika60 => " ."@,
        Glyphset::ASCII => "::"@,
        Glyphset::Unicode => "░░"@,
    }
}

/// The two characters that a tile of the piece in play is drawn with.
pub open spec fn glyph_active(glyphset: Glyphset) -> Seq<char> {
    match glyphset {
        Glyphset::Electronika60 => "▮▮"@,
        Glyphset::ASCII => "[]"@,
        Glyphset::Unicode => "▓▓"@,
    }
}

/// The two characters that a tile of the next piece is drawn with.
pub open spec fn glyph_preview(glyphset: Glyphset) -> Seq<char> {
    match glyphset {
        Glyphset::Electronika60 => "▮▮"@,
        Glyphset::ASCII => "[]"@,
        Glyphset::Unicode => "██"@,
    }
}

/// The characters for locked tiles, the shadow piece, the piece in play and the
/// next piece.
pub fn tile_glyphs(glyphset: Glyphset) -> (r: (
    &'static str,
    &'static str,
    &'static str,
    &'static str,
))
    ensures
        r.0@ == glyph_ground(glyphset),
        r.1@ == glyph_shadow(glyphset),
        r.2@ == glyph_active(glyphset),
        r.3@ == glyph_preview(glyphset),
{
    match glyphset {
        Glyphset::Electronika60 => ("▮▮", " .", "▮▮", "▮▮"),
        Glyphset::ASCII => ("##", "::", "[]", "[]"),
        Glyphset::Unicode => ("██", "░░", "▓▓", "██"),
    }
}

/// A text drawn in a place on the board.
pub open spec fn board_paint(text: Seq<char>, color: Option<Color>, pos: Coord) -> Paint {
    Paint { text, color, x: board_x(pos), y: board_y(pos) }
}

/// How many places of the board are drawn: those up to the row at the skyline.
pub const SHOWN_PLACES: usize = 210;

/// The `k`-th place of the board to be drawn, along the rows from the top down.
pub open spec fn shown_place(k: int) -> Coord {
    ((k % WIDTH as int) as usize, (SKYLINE_HEIGHT - k / WIDTH as int) as usize)
}

/// The locked tiles in the first `k` places.
pub open spec fn locked_paints(
    board: Board,
    glyph: Seq<char>,
    palette: Map<u8, Color>,
    k: int,
) -> Seq<Paint>
    decreases k,
{
    if k <= 0 {
        Seq::empty()
    } else {
        let rest = locked_paints(board, glyph, palette, k - 1);
        let pos = shown_place(k - 1);
        match board@[pos.1 as int]@[pos.0 as int] {
            Some(id) => rest.push(board_paint(glyph, color_of(palette, id), pos)),
            None => rest,
        }
    }
}

/// Draws the locked tiles.
pub fn draw_locked(
    screen: &mut TerminalScreenBuffer,
    board: &Board,
    glyph: &str,
    palette: &Palette,
)
    ensures
        drawn(
            *old(screen),
            *final(screen),
            locked_paints(*board, glyph@, palette@, SHOWN_PLACES as int),
        ),
{
    let ghost before = *screen;
    for k in 0..SHOWN_PLACES
        invariant
                drawn(before, *screen, locked_paints(*board, glyph@, palette@, k as int)),
    {
        let pos: Coord = (k % WIDTH, SKYLINE_HEIGHT - k / WIDTH);
        let ghost middle = *screen;
        if let Some(id) = board[pos.1][pos.0] {
            let color = get_color(palette, id);
            screen.buffer_str(glyph, color, pos_board(pos));
            proof {
                lemma_drawn_push(
                    before,
                    middle,
                    *screen,
                    locked_paints(*board, glyph@, palette@, k as int),
                    board_paint(glyph@, color, pos),
                );
            }
        }
    }
}

/// The first `k` tiles of a piece, as far as they lie at most at the skyline,
/// each in the color that `color` gives it or else in its own.
pub open spec fn tile_paints(
    tiles: Seq<Tile>,
    glyph: Seq<char>,
    palette: Map<u8, Color>,
    recolor: Option<u8>,
    k: int,
) -> Seq<Paint>
    decreases k,
{
    if k <= 0 {
        Seq::empty()
    } else {
        let rest = tile_paints(tiles, glyph, palette, recolor, k - 1);
        let (pos, id) = tiles[k - 1];
        let id = match recolor {
            Some(other) => other,
            None => id,
        };
        if pos.1 <= SKYLINE_HEIGHT {
            rest.push(board_paint(glyph, color_of(palette, id), pos))
        } else {
            rest
        }
    }
}

/// Draws the tiles of a piece.
pub fn draw_tiles(
    screen: &mut TerminalScreenBuffer,
    tiles: &[Tile; 4],
    glyph: &str,
    palette: &Palette,
    recolor: Option<u8>,
)
    requires
        tiles_wf(tiles@),
    ensures
        drawn(
            *old(screen),
            *final(screen),
            tile_paints(tiles@, glyph@, palette@, recolor, 4),
        ),
{
    let ghost before = *screen;
    for k in 0..4usize
        invariant
                tiles_wf(tiles@),
            drawn(before, *screen, tile_paints(tiles@, glyph@, palette@, recolor, k as int)),
    {
        let (pos, own): Tile = tiles[k];
        let id: u8 = match recolor {
            Some(other) => other,
            None => own,
        };
        let ghost middle = *screen;
        if pos.1 <= SKYLINE_HEIGHT {
            let color = get_color(palette, id);
            screen.buffer_str(glyph, color, pos_board(pos));
            proof {
                lemma_drawn_push(
                    before,
                    middle,
                    *screen,
                    tile_paints(tiles@, glyph@, palette@, recolor, k as int),
                    board_paint(glyph@, color, pos),
                );
            }
        }
    }
}

// ---------------------------------------------------------------------------
// Preview and held piece
// ---------------------------------------------------------------------------
/// The first `k` minos of the next piece, upright beside the board.
pub open spec fn next_paints(
    tetromino: Tetromino,
    glyph: Seq<char>,
    palette: Map<u8, Color>,
    k: int,
) -> Seq<Paint>
    decreases k,
{
    if k <= 0 {
        Seq::empty()
    } else {
        let (x, y) = minos(tetromino, Orientation::N)[k - 1];
        next_paints(tetromino, glyph, palette, k - 1).push(
            Paint {
                text: glyph,
                color: color_of(palette, tetromino.tile_type()),
                x: (if tetromino == Tetromino::O {
                    2int
                } else {
                    0
                }) + 50 + 2 * x,
                y: 10 - y,
            },
        )
    }
}

/// Draws the next piece.
pub fn draw_next(
    screen: &mut TerminalScreenBuffer,
    tetromino: Tetromino,
    glyph: &str,
    palette: &Palette,
)
    ensures
        drawn(*old(screen), *final(screen), next_paints(tetromino, glyph@, palette@, 4)),
{
    let ghost before = *screen;
    let color = get_color(palette, tetromino.tiletypeid());
    let places = minos_upright(tetromino);
    let shift: usize = if tetromino == Tetromino::O {
        2
    } else {
        0
    };
    for k in 0..4usize
        invariant
            places@ == minos(tetromino, Orientation::N),
            shift == if tetromino == Tetromino::O {
                2int
            } else {
                0
            },
            color == color_of(palette@, tetromino.tile_type()),
            drawn(before, *screen, next_paints(tetromino, glyph@, palette@, k as int)),
    {
        let (x, y): Coord = places[k];
        let ghost middle = *screen;
        screen.buffer_str(glyph, color, (shift + 50 + 2 * x, 10 - y));
        proof {
            lemma_drawn_push(
                before,
                middle,
                *screen,
                next_paints(tetromino, glyph@, palette@, k as int),
                Paint { text: glyph@, color, x: shift + 50 + 2 * x, y: 10 - y },
            );
        }
    }
}

/// How many columns the pictures of pieces `from` to `to` take, with a space
/// after each.
pub open spec fn pictures_width(
    preview: Seq<Tetromino>,
    pictures: Seq<String>,
    from: int,
    to: int,
) -> nat
    decreases to - from,
{
    if to <= from {
        0
    } else {
        pictures_width(preview, pictures, from, to - 1) + pictures[preview[to
            - 1].number()]@.len() + 1
    }
}

/// The pictures of pieces `from` to `to` in a line, with a space after each.
pub open spec fn picture_paints(
    preview: Seq<Tetromino>,
    pictures: Seq<String>,
    palette: Map<u8, Color>,
    x: int,
    y: int,
    from: int,
    to: int,
) -> Seq<Paint>
    decreases to - from,
{
    if to <= from {
        Seq::empty()
    } else {
        picture_paints(preview, pictures, palette, x, y, from, to - 1).push(
            Paint {
                text: pictures[preview[to - 1].number()]@,
                color: color_of(palette, preview[to - 1].tile_type()),
                x: x + pictures_width(preview, pictures, from, to - 1),
                y,
            },
        )
    }
}

/// Longer lists of pictures are wider.
proof fn lemma_pictures_width(
    preview: Seq<Tetromino>,
    pictures: Seq<String>,
    from: int,
    mid: int,
    to: int,
)
    requires
        from <= mid <= to,
    ensures
        pictures_width(preview, pictures, from, mid) <= pictures_width(
            preview,
            pictures,
            from,
            to,
        ),
    decreases to - mid,
{
    if mid < to {
        lemma_pictures_width(preview, pictures, from, mid, to - 1);
    }
}

/// Draws the pictures of some of the pieces to come in a line.
pub fn draw_pictures(
    screen: &mut TerminalScreenBuffer,
    preview: &Vec<Tetromino>,
    pictures: &Vec<String>,
    palette: &Palette,
    pos: (usize, usize),
    from: usize,
    to: usize,
)
    requires
        pictures@.len() == 7,
        from <= to <= preview@.len(),
        pos.0 + pictures_width(preview@, pictures@, from as int, to as int) <= usize::MAX,
    ensures
        drawn(
            *old(screen),
            *final(screen),
            picture_paints(
                preview@,
                pictures@,
                palette@,
                pos.0 as int,
                pos.1 as int,
                from as int,
                to as int,
            ),
        ),
{
    let ghost before = *screen;
    let mut x: usize = pos.0;
    for k in from..to
        invariant
            pictures@.len() == 7,
            from <= to <= preview@.len(),
            pos.0 + pictures_width(preview@, pictures@, from as int, to as int) <= usize::MAX,
            x == pos.0 + pictures_width(preview@, pictures@, from as int, k as int),
            drawn(
                before,
                *screen,
                picture_paints(
                    preview@,
                    pictures@,
                    palette@,
                    pos.0 as int,
                    pos.1 as int,
                    from as int,
                    k as int,
                ),
            ),
    {
        let tetromino: Tetromino = preview[k];
        let i: usize = tetromino.index();
        let picture: &str = pictures[i].as_str();
        let color = get_color(palette, tetromino.tiletypeid());
        proof {
            lemma_pictures_width(preview@, pictures@, from as int, k + 1, to as int);
        }
        let ghost middle = *screen;
        screen.buffer_str(picture, color, (x, pos.1));
        proof {
            lemma_drawn_push(
                before,
                middle,
                *screen,
                picture_paints(
                    preview@,
                    pictures@,
                    palette@,
                    pos.0 as int,
                    pos.1 as int,
                    from as int,
                    k as int,
                ),
                Paint { text: picture@, color, x: x as int, y: pos.1 as int },
            );
        }
        x = x + (picture.unicode_len() + 1);
    }
}

/// The held piece, in its own color while it may be swapped back in.
pub open spec fn held_paints(
    held: Option<(Tetromino, bool)>,
    pictures: Seq<String>,
    palette: Map<u8, Color>,
) -> Seq<Paint> {
    match held {
        None => Seq::empty(),
        Some((tetromino, swap_allowed)) => seq![
            Paint {
                text: pictures[tetromino.number()]@,
                color: color_of(
                    palette,
                    if swap_allowed {
                        tetromino.tile_type()
                    } else {
                        crate::settings::GREY_TILE
                    },
                ),
                x: 20,
                y: 2,
            },
        ],
    }
}

/// Draws the held piece.
pub fn draw_held(
    screen: &mut TerminalScreenBuffer,
    held: Option<(Tetromino, bool)>,
    pictures: &Vec<String>,
    palette: &Palette,
)
    requires
        pictures@.len() == 7,
    ensures
        drawn(*old(screen), *final(screen), held_paints(held, pictures@, palette@)),
{
    if let Some((tetromino, swap_allowed)) = held {
        let ghost before = *screen;
        let i: usize = tetromino.index();
        let color = get_color(
            palette,
            if swap_allowed {
                tetromino.tiletypeid()
            } else {
                crate::settings::GREY_TILE
            },
        );
        screen.buffer_str(pictures[i].as_str(), color, (20, 2));
        proof {
            let p = Paint { text: pictures@[i as int]@, color, x: 20, y: 2 };
            lemma_drawn_push(before, before, *screen, Seq::empty(), p);
        }
    }
}

/// Whether the pictures of pieces `from` to `to`, begun in column `x`, have
/// columns that can be numbered.
pub fn is_width_in_range(
    preview: &Vec<Tetromino>,
    pictures: &Vec<String>,
    x: usize,
    from: usize,
    to: usize,
) -> (b: bool)
    requires
        pictures@.len() == 7,
        to <= preview@.len(),
    ensures
        b == (x + pictures_width(preview@, pictures@, from as int, to as int) <= usize::MAX),
{
    let mut end: usize = x;
    let mut k: usize = from;
    while k < to
        invariant
            pictures@.len() == 7,
            to <= preview@.len(),
            from <= k,
            k <= to || k == from,
            end == x + pictures_width(preview@, pictures@, from as int, k as int),
        decreases to - k,
    {
        let width: usize = pictures[preview[k].index()].as_str().unicode_len();
        proof {
            lemma_pictures_width(preview@, pictures@, from as int, k + 1, to as int);
        }
        if usize::MAX - end <= width {
            return false;
        }
        end = end + width + 1;
        k = k + 1;
    }
    true
}

} // verus!

//! The renderer of a game: it keeps what is animated, composes each frame and
//! prints only what changed.
use crate::base_screen::{base_lines, base_screen, lines_view};
use crate::color::Color;
use crate::game::{
    column_wf, game_over_text, lemma_landing_wf, tile_wf, tiles_wf, Coord, Feedback, GameMetaData,
    GameResult, GameSnapshot, Tetromino, Tile, SKYLINE_HEIGHT,
};
use crate::hud::{
    board_paint, button_paints, collect_frame_text, color_of, draw_buttons, draw_held, draw_legend,
    draw_locked, draw_next, draw_pictures, draw_replay, draw_tiles, frame_text, get_color,
    glyph_active, glyph_ground, glyph_preview, glyph_shadow, held_paints, is_legend_wf,
    is_width_in_range, legend_paints, legend_wf, locked_paints, next_paints, picture_paints,
    pictures_width, pos_board, replay_paints, tile_glyphs, tile_paints, KeybindsLegend, RenderTexts,
    SHOWN_PLACES, TILE_DOWN,
};
use crate::paint::{drawn, lemma_drawn_concat, lemma_drawn_push, paint_all, Paint};
use crate::screen::{fits, frame_commands, plain_row, Cell, DrawCommand, TerminalScreenBuffer};
use crate::settings::{Glyphset, GraphicsSettings, Palette, Settings};
use crate::text::{decimal, decimal_of};
use crate::time::{InGameTime, NANOS_PER_MILLI};
use vstd::prelude::*;
use vstd::string::*;

verus! {

/// A place that a piece went through when it was dropped at once.
#[derive(PartialEq, Eq, PartialOrd, Ord, Hash, Clone, Copy, Debug)]
pub struct HardDropTile {
    /// When the piece was dropped.
    pub creation_time: InGameTime,
    /// The place.
    pub pos: Coord,
    /// How far it lies above where the piece came to rest.
    pub y_offset: usize,
    /// The kind of tile that the piece is made of.
    pub tile_type_id: u8,
}

impl HardDropTile {
    /// The place can be drawn and lies below the skyline, and the time is
    /// well-formed.
    pub open spec fn wf(self) -> bool {
        &&& self.creation_time.wf()
        &&& column_wf(self.pos.0)
        &&& self.pos.1 < SKYLINE_HEIGHT
        &&& self.y_offset < SKYLINE_HEIGHT
    }
}

/// What a frame shows apart from the game itself: at which time, in which way
/// and in which colors.
pub struct Scene<'a> {
    /// The time in the game.
    pub time: InGameTime,
    /// How the game is shown.
    pub graphics: GraphicsSettings,
    /// The palette for pieces in play.
    pub palette: &'a Palette,
}

/// The nanoseconds between two times, or none where they are the other way
/// around.
pub open spec fn elapsed(since: InGameTime, now: InGameTime) -> nat {
    if now.nanos() >= since.nanos() {
        (now.nanos() - since.nanos()) as nat
    } else {
        0
    }
}

/// Whether a number of nanoseconds is below a number of milliseconds.
pub open spec fn within(nanos: nat, millis: nat) -> bool {
    nanos < millis * NANOS_PER_MILLI as nat
}

fn is_within(t: InGameTime, millis: u64) -> (b: bool)
    requires
        t.wf(),
    ensures
        b == within(t.nanos(), millis as nat),
{
    t.before(InGameTime::from_millis(millis))
}

// ---------------------------------------------------------------------------
// The trail of a dropped piece
// ---------------------------------------------------------------------------
/// How far a trail has faded.
pub open spec fn trail_stage(nanos: nat) -> Option<nat> {
    if within(nanos, 50) {
        Some(0)
    } else if within(nanos, 70) {
        Some(1)
    } else if within(nanos, 90) {
        Some(2)
    } else if within(nanos, 110) {
        Some(3)
    } else if within(nanos, 130) {
        Some(4)
    } else if within(nanos, 150) {
        Some(5)
    } else if within(nanos, 180) {
        Some(6)
    } else if within(nanos, 240) {
        Some(7)
    } else {
        None
    }
}

/// The two characters of a trail, from the densest to the lightest.
pub open spec fn trail_glyph(glyphset: Glyphset, i: nat) -> Option<Seq<char>> {
    if i >= 8 {
        None
    } else if glyphset == Glyphset::Electronika60 {
        Some(" ."@)
    } else if i == 0 {
        Some("@@"@)
    } else if i == 1 {
        Some("$$"@)
    } else if i == 2 {
        Some("##"@)
    } else if i == 3 {
        Some("%%"@)
    } else if i == 4 {
        Some("**"@)
    } else if i == 5 {
        Some("++"@)
    } else if i == 6 {
        Some("~~"@)
    } else {
        Some(".."@)
    }
}

/// What is drawn in a place of a trail: the lighter, the longer ago the piece
/// went through it and the higher it lies; nothing once it has faded.
pub open spec fn trail_text(sc: Scene, tile: HardDropTile) -> Option<Seq<char>> {
    match trail_stage(elapsed(tile.creation_time, sc.time)) {
        Some(stage) => trail_glyph(
            sc.graphics.glyphset,
            (tile.y_offset as nat) * 4 / 7 + stage,
        ),
        None => None,
    }
}

/// What is drawn of the first `k` places of trails.
pub open spec fn trail_paints(sc: Scene, tiles: Seq<HardDropTile>, k: int) -> Seq<Paint>
    decreases k,
{
    if k <= 0 {
        Seq::empty()
    } else {
        let rest = trail_paints(sc, tiles, k - 1);
        let tile = tiles[k - 1];
        match trail_text(sc, tile) {
            Some(text) => rest.push(
                board_paint(text, color_of(sc.palette@, tile.tile_type_id), tile.pos),
            ),
            None => rest,
        }
    }
}

/// Those of the first `k` places of trails that have not faded.
pub open spec fn trail_kept(sc: Scene, tiles: Seq<HardDropTile>, k: int) -> Seq<HardDropTile>
    decreases k,
{
    if k <= 0 {
        Seq::empty()
    } else if trail_text(sc, tiles[k - 1]) is Some {
        trail_kept(sc, tiles, k - 1).push(tiles[k - 1])
    } else {
        trail_kept(sc, tiles, k - 1)
    }
}

/// Whether every place of a trail is well-formed.
pub open spec fn trail_wf(tiles: Seq<HardDropTile>) -> bool {
    forall|i: int| 0 <= i < tiles.len() ==> (#[trigger] tiles[i]).wf()
}

fn find_trail_stage(t: InGameTime) -> (r: Option<usize>)
    requires
        t.wf(),
    ensures
        match trail_stage(t.nanos()) {
            Some(i) => r == Some(i as usize) && i < 8,
            None => r is None,
        },
{
    if is_within(t, 50) {
        Some(0)
    } else if is_within(t, 70) {
        Some(1)
    } else if is_within(t, 90) {
        Some(2)
    } else if is_within(t, 110) {
        Some(3)
    } else if is_within(t, 130) {
        Some(4)
    } else if is_within(t, 150) {
        Some(5)
    } else if is_within(t, 180) {
        Some(6)
    } else if is_within(t, 240) {
        Some(7)
    } else {
        None
    }
}

fn find_trail_glyph(glyphset: Glyphset, i: usize) -> (r: Option<&'static str>)
    ensures
        match trail_glyph(glyphset, i as nat) {
            Some(text) => r matches Some(s) && s@ == text,
            None => r is None,
        },
{
    if i >= 8 {
        None
    } else if glyphset == Glyphset::Electronika60 {
        Some(" .")
    } else {
        match i {
            0 => Some("@@"),
            1 => Some("$$"),
            2 => Some("##"),
            3 => Some("%%"),
            4 => Some("**"),
            5 => Some("++"),
            6 => Some("~~"),
            _ => Some(".."),
        }
    }
}

/// Draws the trails of dropped pieces and forgets what has faded.
fn draw_trails(
    screen: &mut TerminalScreenBuffer,
    tiles: &Vec<HardDropTile>,
    sc: &Scene,
) -> (kept: Vec<HardDropTile>)
    requires
        trail_wf(tiles@),
        sc.time.wf(),
    ensures
        drawn(*old(screen), *final(screen), trail_paints(*sc, tiles@, tiles@.len() as int)),
        kept@ == trail_kept(*sc, tiles@, tiles@.len() as int),
        trail_wf(kept@),
{
    let ghost before = *screen;
    let mut kept: Vec<HardDropTile> = Vec::new();
    for k in 0..tiles.len()
        invariant
            trail_wf(tiles@),
            sc.time.wf(),
            drawn(before, *screen, trail_paints(*sc, tiles@, k as int)),
            kept@ == trail_kept(*sc, tiles@, k as int),
            trail_wf(kept@),
    {
        let tile: HardDropTile = tiles[k];
        assert(tiles@[k as int].wf());
        let age: InGameTime = sc.time.saturating_sub(tile.creation_time);
        let text: Option<&'static str> = match find_trail_stage(age) {
            Some(stage) => find_trail_glyph(
                sc.graphics.glyphset,
                tile.y_offset * 4 / 7 + stage,
            ),
            None => None,
        };
        if let Some(text) = text {
            let color = get_color(sc.palette, tile.tile_type_id);
            let ghost middle = *screen;
            screen.buffer_str(text, color, pos_board(tile.pos));
            proof {
                lemma_drawn_push(
                    before,
                    middle,
                    *screen,
                    trail_paints(*sc, tiles@, k as int),
                    board_paint(text@, color, tile.pos),
                );
            }
            kept.push(tile);
        }
    }
    kept
}

/// What is left of a trail is younger than a quarter of a second.
pub proof fn law_trails_fade(sc: Scene, tiles: Seq<HardDropTile>, k: int, i: int)
    requires
        0 <= k <= tiles.len(),
        0 <= i < trail_kept(sc, tiles, k).len(),
    ensures
        within(elapsed(trail_kept(sc, tiles, k)[i].creation_time, sc.time), 240),
    decreases k,
{
    if i < trail_kept(sc, tiles, k - 1).len() {
        law_trails_fade(sc, tiles, k - 1, i);
    }
}

// ---------------------------------------------------------------------------
// Effects
// ---------------------------------------------------------------------------
/// The two characters that a piece is drawn with for a moment after it was
/// locked.
pub open spec fn lock_glyph(glyphset: Glyphset, nanos: nat) -> Option<Seq<char>> {
    if within(nanos, 50) {
        Some(
            match glyphset {
                Glyphset::Electronika60 => "▮▮"@,
                Glyphset::ASCII => "()"@,
                Glyphset::Unicode => "██"@,
            },
        )
    } else if within(nanos, 75) {
        Some(
            match glyphset {
                Glyphset::Electronika60 => "▮▮"@,
                Glyphset::ASCII => "()"@,
                Glyphset::Unicode => "▓▓"@,
            },
        )
    } else if within(nanos, 100) {
        Some(
            match glyphset {
                Glyphset::Electronika60 => "▮▮"@,
                Glyphset::ASCII => "{}"@,
                Glyphset::Unicode => "▒▒"@,
            },
        )
    } else if within(nanos, 125) {
        Some(
            match glyphset {
                Glyphset::Electronika60 => "▮▮"@,
                Glyphset::ASCII => "{}"@,
                Glyphset::Unicode => "░░"@,
            },
        )
    } else if within(nanos, 150) {
        Some(
            match glyphset {
                Glyphset::Electronika60 => "▮▮"@,
                Glyphset::ASCII => "<>"@,
                Glyphset::Unicode => "▒▒"@,
            },
        )
    } else if within(nanos, 175) {
        Some(
            match glyphset {
                Glyphset::Electronika60 => "▮▮"@,
                Glyphset::ASCII => "<>"@,
                Glyphset::Unicode => "▓▓"@,
            },
        )
    } else {
        None
    }
}

fn find_lock_glyph(glyphset: Glyphset, t: InGameTime) -> (r: Option<&'static str>)
    requires
        t.wf(),
    ensures
        match lock_glyph(glyphset, t.nanos()) {
            Some(text) => r matches Some(s) && s@ == text,
            None => r is None,
        },
{
    let (ascii, unicode): (&'static str, &'static str) = if is_within(t, 50) {
        ("()", "██")
    } else if is_within(t, 75) {
        ("()", "▓▓")
    } else if is_within(t, 100) {
        ("{}", "▒▒")
    } else if is_within(t, 125) {
        ("{}", "░░")
    } else if is_within(t, 150) {
        ("<>", "▒▒")
    } else if is_within(t, 175) {
        ("<>", "▓▓")
    } else {
        return None;
    };
    Some(
        match glyphset {
            Glyphset::Electronika60 => "▮▮",
            Glyphset::ASCII => ascii,
            Glyphset::Unicode => unicode,
        },
    )
}

/// A line while it is cleared, frame by frame, in [`Glyphset::Electronika60`].
pub const LINE_CLEAR_ELECTRONIKA60: [&'static str; 10] = [
    "▮▮▮▮▮▮▮▮▮▮▮▮▮▮▮▮▮▮▮▮",
    "  ▮▮▮▮▮▮▮▮▮▮▮▮▮▮▮▮▮▮",
    "    ▮▮▮▮▮▮▮▮▮▮▮▮▮▮▮▮",
    "      ▮▮▮▮▮▮▮▮▮▮▮▮▮▮",
    "        ▮▮▮▮▮▮▮▮▮▮▮▮",
    "          ▮▮▮▮▮▮▮▮▮▮",
    "            ▮▮▮▮▮▮▮▮",
    "              ▮▮▮▮▮▮",
    "                ▮▮▮▮",
    "                  ▮▮",
];

/// A line while it is cleared, frame by frame, in [`Glyphset::ASCII`].
pub const LINE_CLEAR_ASCII: [&'static str; 10] = [
    "$$$$$$$$$$$$$$$$$$$$",
    "$$$$$$$$$$$$$$$$$$$$",
    "                    ",
    "                    ",
    "$$$$$$$$$$$$$$$$$$$$",
    "$$$$$$$$$$$$$$$$$$$$",
    "                    ",
    "                    ",
    "$$$$$$$$$$$$$$$$$$$$",
    "$$$$$$$$$$$$$$$$$$$$",
];

/// A line while it is cleared, frame by frame, in [`Glyphset::Unicode`].
pub const LINE_CLEAR_UNICODE: [&'static str; 10] = [
    "████████████████████",
    " ██████████████████ ",
    "  ████████████████  ",
    "   ██████████████   ",
    "    ████████████    ",
    "     ██████████     ",
    "      ████████      ",
    "       ██████       ",
    "        ████        ",
    "         ██         ",
];

/// How many frames it takes to clear a line.
pub const LINE_CLEAR_FRAMES: usize = 10;

/// A line while it is cleared.
pub open spec fn line_clear_glyph(glyphset: Glyphset, i: int) -> Seq<char> {
    match glyphset {
        Glyphset::Electronika60 => LINE_CLEAR_ELECTRONIKA60[i]@,
        Glyphset::ASCII => LINE_CLEAR_ASCII[i]@,
        Glyphset::Unicode => LINE_CLEAR_UNICODE[i]@,
    }
}

fn find_line_clear_glyph(glyphset: Glyphset, i: usize) -> (s: &'static str)
    requires
        i < LINE_CLEAR_FRAMES,
    ensures
        s@ == line_clear_glyph(glyphset, i as int),
{
    match glyphset {
        Glyphset::Electronika60 => LINE_CLEAR_ELECTRONIKA60[i],
        Glyphset::ASCII => LINE_CLEAR_ASCII[i],
        Glyphset::Unicode => LINE_CLEAR_UNICODE[i],
    }
}

/// The first `k` of the lines that are cleared.
pub open spec fn line_clear_paints(
    y_coords: Seq<usize>,
    text: Seq<char>,
    color: Option<Color>,
    k: int,
) -> Seq<Paint>
    decreases k,
{
    if k <= 0 {
        Seq::empty()
    } else {
        line_clear_paints(y_coords, text, color, k - 1).push(
            Paint { text, color, x: 26, y: 1 + SKYLINE_HEIGHT - y_coords[k - 1] },
        )
    }
}

fn draw_line_clears(
    screen: &mut TerminalScreenBuffer,
    y_coords: &Vec<usize>,
    text: &str,
    color: Option<Color>,
)
    requires
        forall|i: int| 0 <= i < y_coords@.len() ==> #[trigger] y_coords@[i] <= SKYLINE_HEIGHT + 1,
    ensures
        drawn(
            *old(screen),
            *final(screen),
            line_clear_paints(y_coords@, text@, color, y_coords@.len() as int),
        ),
{
    let ghost before = *screen;
    for k in 0..y_coords.len()
        invariant
            forall|i: int|
                0 <= i < y_coords@.len() ==> #[trigger] y_coords@[i] <= SKYLINE_HEIGHT + 1,
            drawn(before, *screen, line_clear_paints(y_coords@, text@, color, k as int)),
    {
        let y: usize = y_coords[k];
        assert(y_coords@[k as int] <= SKYLINE_HEIGHT + 1);
        let ghost middle = *screen;
        screen.buffer_str(text, color, (26, 1 + SKYLINE_HEIGHT - y));
        proof {
            lemma_drawn_push(
                before,
                middle,
                *screen,
                line_clear_paints(y_coords@, text@, color, k as int),
                Paint { text: text@, color, x: 26, y: 1 + SKYLINE_HEIGHT - y },
            );
        }
    }
}

// ---------------------------------------------------------------------------
// Messages
// ---------------------------------------------------------------------------
/// What clearing a number of lines together is called.
pub open spec fn clear_name(lineclears: u32) -> Seq<char> {
    if lineclears == 1 {
        "Single"@
    } else if lineclears == 2 {
        "Double"@
    } else if lineclears == 3 {
        "Triple"@
    } else if lineclears == 4 {
        "Quadruple"@
    } else if lineclears == 5 {
        "Quintuple"@
    } else if lineclears == 6 {
        "Sextuple"@
    } else if lineclears == 7 {
        "Septuple"@
    } else if lineclears == 8 {
        "Octuple"@
    } else if lineclears == 9 {
        "Nonuple"@
    } else if lineclears == 10 {
        "Decuple"@
    } else if lineclears == 11 {
        "Undecuple"@
    } else if lineclears == 12 {
        "Duodecuple"@
    } else if lineclears == 13 {
        "Tredecuple"@
    } else if lineclears == 14 {
        "Quattuordecuple"@
    } else if lineclears == 15 {
        "Quindecuple"@
    } else if lineclears == 16 {
        "Sexdecuple"@
    } else if lineclears == 17 {
        "Septendecuple"@
    } else if lineclears == 18 {
        "Octodecuple"@
    } else if lineclears == 19 {
        "Novemdecuple"@
    } else if lineclears == 20 {
        "Vigintuple"@
    } else if lineclears == 21 {
        "Kirbtris"@
    } else {
        "Unreachable"@
    }
}

fn find_clear_name(lineclears: u32) -> (s: &'static str)
    ensures
        s@ == clear_name(lineclears),
{
    match lineclears {
        1 => "Single",
        2 => "Double",
        3 => "Triple",
        4 => "Quadruple",
        5 => "Quintuple",
        6 => "Sextuple",
        7 => "Septuple",
        8 => "Octuple",
        9 => "Nonuple",
        10 => "Decuple",
        11 => "Undecuple",
        12 => "Duodecuple",
        13 => "Tredecuple",
        14 => "Quattuordecuple",
        15 => "Quindecuple",
        16 => "Sexdecuple",
        17 => "Septendecuple",
        18 => "Octodecuple",
        19 => "Novemdecuple",
        20 => "Vigintuple",
        21 => "Kirbtris",
        _ => "Unreachable",
    }
}

/// The praise for clearing lines.
pub open spec fn accolade_text(
    score_bonus: u32,
    lineclears: u32,
    combo: u32,
    is_spin: bool,
    is_perfect_clear: bool,
    tetromino: Tetromino,
) -> Seq<char> {
    let points = "+"@ + decimal(score_bonus as nat);
    let perfect = if is_perfect_clear {
        points + " Perfect"@
    } else {
        points
    };
    let spin = if is_spin {
        perfect + " "@.push(tetromino.letter()) + "-Spin"@
    } else {
        perfect
    };
    let clear = spin + " "@ + clear_name(lineclears);
    if combo > 1 {
        clear + " #"@ + decimal(combo as nat) + "."@
    } else {
        clear
    }
}

fn accolade(
    score_bonus: u32,
    lineclears: u32,
    combo: u32,
    is_spin: bool,
    is_perfect_clear: bool,
    tetromino: Tetromino,
) -> (s: String)
    ensures
        s@ == accolade_text(
            score_bonus,
            lineclears,
            combo,
            is_spin,
            is_perfect_clear,
            tetromino,
        ),
{
    let mut s = "+".to_owned();
    s.append(decimal_of(score_bonus as u128).as_str());
    if is_perfect_clear {
        s.append(" Perfect");
    }
    if is_spin {
        let mut letter = " ".to_owned();
        letter.push(tetromino.name());
        s.append(letter.as_str());
        s.append("-Spin");
    }
    s.append(" ");
    s.append(find_clear_name(lineclears));
    if combo > 1 {
        s.append(" #");
        s.append(decimal_of(combo as u128).as_str());
        s.append(".");
    }
    s
}

/// The text that a message is shown as, if it is shown as text.
pub open spec fn message_text(feedback: Feedback) -> Option<Seq<char>> {
    match feedback {
        Feedback::Accolade {
            score_bonus,
            lineclears,
            combo,
            is_spin,
            is_perfect_clear,
            tetromino,
        } => Some(
            accolade_text(score_bonus, lineclears, combo, is_spin, is_perfect_clear, tetromino),
        ),
        Feedback::Text(text) => Some(text@),
        Feedback::Debug(text) => Some(text@),
        Feedback::GameEnded { result } => Some(
            match result {
                GameResult::Completed(_) => "Game Complete!"@,
                GameResult::Lost(cause) => game_over_text(cause) + "..."@,
            },
        ),
        _ => None,
    }
}

/// Finds the text that a message is shown as.
fn find_message_text(feedback: &Feedback) -> (r: Option<String>)
    requires
        feedback.wf(),
    ensures
        match message_text(*feedback) {
            Some(text) => r matches Some(s) && s@ == text,
            None => r is None,
        },
{
    match feedback {
        Feedback::Accolade {
            score_bonus,
            lineclears,
            combo,
            is_spin,
            is_perfect_clear,
            tetromino,
        } => Some(
            accolade(*score_bonus, *lineclears, *combo, *is_spin, *is_perfect_clear, *tetromino),
        ),
        Feedback::Text(text) => Some(text.clone()),
        Feedback::Debug(text) => Some(text.clone()),
        Feedback::GameEnded { result } => Some(
            match result {
                GameResult::Completed(_) => "Game Complete!".to_owned(),
                GameResult::Lost(cause) => {
                    let mut s = cause.describe();
                    s.append("...");
                    s
                },
            },
        ),
        _ => None,
    }
}

/// A message of the game and when it came.
pub type FeedbackMsg = (InGameTime, Feedback);

/// A text and when it came.
pub type TextMsg = (InGameTime, String);

/// Texts and when they came.
pub open spec fn texts_view(texts: Seq<TextMsg>) -> Seq<(InGameTime, Seq<char>)> {
    Seq::new(texts.len(), |i: int| (texts[i].0, texts[i].1@))
}

/// Whether every message is well-formed.
pub open spec fn msgs_wf(msgs: Seq<FeedbackMsg>) -> bool {
    forall|i: int| 0 <= i < msgs.len() ==> (#[trigger] msgs[i]).0.wf() && msgs[i].1.wf()
}

/// Whether every text came at a well-formed time.
pub open spec fn texts_wf(texts: Seq<TextMsg>) -> bool {
    forall|i: int| 0 <= i < texts.len() ==> (#[trigger] texts[i]).0.wf()
}

/// Whether a message is still to be shown in later frames: while a piece
/// glows after it was locked, and while lines are cleared.
pub open spec fn msg_kept(sc: Scene, msg: FeedbackMsg, frame: Option<usize>) -> bool {
    match msg.1 {
        Feedback::PieceLocked { .. } => sc.graphics.show_effects && lock_glyph(
            sc.graphics.glyphset,
            elapsed(msg.0, sc.time),
        ) is Some,
        Feedback::LinesClearing { line_clear_start, .. } => sc.graphics.show_effects
            && line_clear_start.nanos() != 0 && frame is Some,
        _ => false,
    }
}

/// What is drawn for a message in this frame.
pub open spec fn msg_paints(sc: Scene, msg: FeedbackMsg, frame: Option<usize>) -> Seq<Paint> {
    if !msg_kept(sc, msg, frame) {
        Seq::empty()
    } else {
        match msg.1 {
            Feedback::PieceLocked { piece } => tile_paints(
                piece.tile_seq(),
                lock_glyph(sc.graphics.glyphset, elapsed(msg.0, sc.time))->0,
                sc.palette@,
                Some(TILE_DOWN),
                4,
            ),
            Feedback::LinesClearing { y_coords, .. } => line_clear_paints(
                y_coords@,
                line_clear_glyph(sc.graphics.glyphset, frame->0 as int),
                color_of(sc.palette@, TILE_DOWN),
                y_coords@.len() as int,
            ),
            _ => Seq::empty(),
        }
    }
}

/// The places below row `top` that a tile went through when it was dropped.
pub open spec fn column_trail(since: InGameTime, tile: Tile, top: int) -> Seq<HardDropTile>
    decreases top,
{
    if top <= tile.0.1 {
        Seq::empty()
    } else {
        column_trail(since, tile, top - 1).push(
            HardDropTile {
                creation_time: since,
                pos: (tile.0.0, (top - 1) as usize),
                y_offset: (top - 1 - tile.0.1) as usize,
                tile_type_id: tile.1,
            },
        )
    }
}

/// The places that the first `k` tiles went through when they were dropped.
pub open spec fn piece_trail(since: InGameTime, tiles: Seq<Tile>, k: int) -> Seq<HardDropTile>
    decreases k,
{
    if k <= 0 {
        Seq::empty()
    } else {
        piece_trail(since, tiles, k - 1) + column_trail(
            since,
            tiles[k - 1],
            SKYLINE_HEIGHT as int,
        )
    }
}

/// The trail that a message starts.
pub open spec fn msg_trail(sc: Scene, msg: FeedbackMsg) -> Seq<HardDropTile> {
    match msg.1 {
        Feedback::HardDrop { new_piece, .. } => if sc.graphics.show_effects {
            piece_trail(msg.0, new_piece.tile_seq(), 4)
        } else {
            Seq::empty()
        },
        _ => Seq::empty(),
    }
}

/// The text that a message adds.
pub open spec fn msg_texts(msg: FeedbackMsg) -> Seq<(InGameTime, Seq<char>)> {
    match message_text(msg.1) {
        Some(text) => seq![(msg.0, text)],
        None => Seq::empty(),
    }
}

/// What is drawn for the first `k` messages.
pub open spec fn feed_paints(
    sc: Scene,
    msgs: Seq<FeedbackMsg>,
    frames: Seq<Option<usize>>,
    k: int,
) -> Seq<Paint>
    decreases k,
{
    if k <= 0 {
        Seq::empty()
    } else {
        feed_paints(sc, msgs, frames, k - 1) + msg_paints(sc, msgs[k - 1], frames[k - 1])
    }
}

/// Those of the first `k` messages that are still to be shown.
pub open spec fn feed_kept(
    sc: Scene,
    msgs: Seq<FeedbackMsg>,
    frames: Seq<Option<usize>>,
    k: int,
) -> Seq<FeedbackMsg>
    decreases k,
{
    if k <= 0 {
        Seq::empty()
    } else if msg_kept(sc, msgs[k - 1], frames[k - 1]) {
        feed_kept(sc, msgs, frames, k - 1).push(msgs[k - 1])
    } else {
        feed_kept(sc, msgs, frames, k - 1)
    }
}

/// The trails that the first `k` messages start.
pub open spec fn feed_trail(sc: Scene, msgs: Seq<FeedbackMsg>, k: int) -> Seq<HardDropTile>
    decreases k,
{
    if k <= 0 {
        Seq::empty()
    } else {
        feed_trail(sc, msgs, k - 1) + msg_trail(sc, msgs[k - 1])
    }
}

/// The texts that the first `k` messages add.
pub open spec fn feed_texts(msgs: Seq<FeedbackMsg>, k: int) -> Seq<(InGameTime, Seq<char>)>
    decreases k,
{
    if k <= 0 {
        Seq::empty()
    } else {
        feed_texts(msgs, k - 1) + msg_texts(msgs[k - 1])
    }
}

/// Adds the places that a tile went through when it was dropped.
fn push_column_trail(trail: &mut Vec<HardDropTile>, since: InGameTime, tile: Tile)
    requires
        trail_wf(old(trail)@),
        since.wf(),
        tile_wf(tile),
    ensures
        final(trail)@ == old(trail)@ + column_trail(since, tile, SKYLINE_HEIGHT as int),
        trail_wf(final(trail)@),
{
    let ghost before = trail@;
    let ((x_tile, y_tile), tile_type_id): Tile = tile;
    if y_tile >= SKYLINE_HEIGHT {
        return;
    }
    for dy in y_tile..SKYLINE_HEIGHT
        invariant
            since.wf(),
            tile_wf(tile),
            tile == ((x_tile, y_tile), tile_type_id),
            trail@ == before + column_trail(since, tile, dy as int),
            trail_wf(trail@),
    {
        trail.push(
            HardDropTile {
                creation_time: since,
                pos: (x_tile, dy),
                y_offset: dy - y_tile,
                tile_type_id,
            },
        );
        assert(trail@ =~= before + column_trail(since, tile, dy + 1));
    }
}

/// Shows one message. Whether it is to be shown in later frames is returned.
fn show_message(
    screen: &mut TerminalScreenBuffer,
    trail: &mut Vec<HardDropTile>,
    texts: &mut Vec<TextMsg>,
    sc: &Scene,
    msg: &FeedbackMsg,
    frame: Option<usize>,
) -> (keep: bool)
    requires
        msg.0.wf(),
        msg.1.wf(),
        sc.time.wf(),
        trail_wf(old(trail)@),
        texts_wf(old(texts)@),
        frame matches Some(i) ==> i < LINE_CLEAR_FRAMES,
    ensures
        drawn(*old(screen), *final(screen), msg_paints(*sc, *msg, frame)),
        final(trail)@ == old(trail)@ + msg_trail(*sc, *msg),
        texts_view(final(texts)@) == texts_view(old(texts)@) + msg_texts(*msg),
        keep == msg_kept(*sc, *msg, frame),
        trail_wf(final(trail)@),
        texts_wf(final(texts)@),
        final(texts)@.len() <= old(texts)@.len() + 1,
{
    let ghost texts_before = texts@;
    let ghost trail_before = trail@;
    assert(texts_view(texts@) =~= texts_view(texts_before) + Seq::empty());
    assert(trail@ =~= trail_before + Seq::empty());
    match &msg.1 {
        Feedback::PieceLocked { piece } => {
            if !sc.graphics.show_effects {
                return false;
            }
            let age: InGameTime = sc.time.saturating_sub(msg.0);
            match find_lock_glyph(sc.graphics.glyphset, age) {
                Some(glyph) => {
                    draw_tiles(screen, &piece.tiles(), glyph, sc.palette, Some(TILE_DOWN));
                    true
                },
                None => false,
            }
        },
        Feedback::LinesClearing { y_coords, line_clear_start } => {
            if !sc.graphics.show_effects || line_clear_start.is_zero() {
                return false;
            }
            match frame {
                Some(i) => {
                    let text = find_line_clear_glyph(sc.graphics.glyphset, i);
                    let color = get_color(sc.palette, TILE_DOWN);
                    draw_line_clears(screen, y_coords, text, color);
                    true
                },
                None => false,
            }
        },
        Feedback::HardDrop { new_piece, .. } => {
            if sc.graphics.show_effects {
                let tiles = new_piece.tiles();
                for k in 0..4usize
                    invariant
                        msg.0.wf(),
                        tiles_wf(tiles@),
                        trail_wf(trail@),
                        trail@ == trail_before + piece_trail(msg.0, tiles@, k as int),
                {
                    assert(tile_wf(tiles@[k as int]));
                    push_column_trail(trail, msg.0, tiles[k]);
                    assert(trail@ =~= trail_before + piece_trail(msg.0, tiles@, k + 1));
                }
            }
            false
        },
        _ => {
            if let Some(text) = find_message_text(&msg.1) {
                texts.push((msg.0, text));
                assert(texts_view(texts@) =~= texts_view(texts_before) + msg_texts(*msg));
            }
            false
        },
    }
}

/// How long text is shown, in milliseconds.
pub const TEXT_MILLIS: u64 = 5_000;

/// The first `k` texts to be drawn, the latest at the top.
pub open spec fn text_paints(texts: Seq<(InGameTime, Seq<char>)>, k: int) -> Seq<Paint>
    decreases k,
{
    if k <= 0 {
        Seq::empty()
    } else {
        text_paints(texts, k - 1).push(
            Paint { text: texts[texts.len() - k].1, color: None, x: 49, y: 18 + k - 1 },
        )
    }
}

/// Those of the first `k` texts that are shown for longer.
pub open spec fn texts_kept(
    texts: Seq<(InGameTime, Seq<char>)>,
    now: InGameTime,
    k: int,
) -> Seq<(InGameTime, Seq<char>)>
    decreases k,
{
    if k <= 0 {
        Seq::empty()
    } else if within(elapsed(texts[k - 1].0, now), TEXT_MILLIS as nat) {
        texts_kept(texts, now, k - 1).push(texts[k - 1])
    } else {
        texts_kept(texts, now, k - 1)
    }
}

/// Draws the texts.
fn draw_texts(screen: &mut TerminalScreenBuffer, texts: &Vec<TextMsg>)
    requires
        texts@.len() + 1_000 <= usize::MAX,
    ensures
        drawn(
            *old(screen),
            *final(screen),
            text_paints(texts_view(texts@), texts@.len() as int),
        ),
{
    let ghost before = *screen;
    let ghost all = texts_view(texts@);
    for dy in 0..texts.len()
        invariant
            texts@.len() + 1_000 <= usize::MAX,
            all == texts_view(texts@),
            drawn(before, *screen, text_paints(all, dy as int)),
    {
        let ghost middle = *screen;
        let text: &str = texts[texts.len() - 1 - dy].1.as_str();
        screen.buffer_str(text, None, (49, 18 + dy));
        proof {
            lemma_drawn_push(
                before,
                middle,
                *screen,
                text_paints(all, dy as int),
                Paint { text: text@, color: None, x: 49, y: 18 + dy },
            );
        }
    }
}

/// Forgets the texts that have been shown for long enough.
fn retain_texts(texts: &Vec<TextMsg>, now: InGameTime) -> (kept: Vec<TextMsg>)
    requires
        texts_wf(texts@),
        now.wf(),
    ensures
        texts_view(kept@) == texts_kept(texts_view(texts@), now, texts@.len() as int),
        texts_wf(kept@),
{
    let mut kept: Vec<TextMsg> = Vec::new();
    let ghost all = texts_view(texts@);
    assert(texts_view(kept@) =~= texts_kept(all, now, 0));
    for k in 0..texts.len()
        invariant
            texts_wf(texts@),
            now.wf(),
            all == texts_view(texts@),
            texts_view(kept@) == texts_kept(all, now, k as int),
            texts_wf(kept@),
    {
        assert(texts@[k as int].0.wf());
        let ghost before = texts_view(kept@);
        let timestamp: InGameTime = texts[k].0;
        if is_within(now.saturating_sub(timestamp), TEXT_MILLIS) {
            kept.push((timestamp, texts[k].1.clone()));
            assert(texts_view(kept@) =~= before.push(all[k as int]));
        }
    }
    kept
}

/// Text that is still kept is younger than five seconds.
pub proof fn law_texts_expire(
    texts: Seq<(InGameTime, Seq<char>)>,
    now: InGameTime,
    k: int,
    i: int,
)
    requires
        0 <= k <= texts.len(),
        0 <= i < texts_kept(texts, now, k).len(),
    ensures
        within(elapsed(texts_kept(texts, now, k)[i].0, now), TEXT_MILLIS as nat),
    decreases k,
{
    if i < texts_kept(texts, now, k - 1).len() {
        law_texts_expire(texts, now, k - 1, i);
    }
}

// ---------------------------------------------------------------------------
// Frames
// ---------------------------------------------------------------------------
/// The renderer of a game.
#[derive(PartialEq, Eq, PartialOrd, Ord, Hash, Debug)]
pub struct DiffPrintRenderer {
    /// The screen.
    pub screen: TerminalScreenBuffer,
    /// Messages of the game that are being shown.
    pub buffered_feedback_msgs: Vec<FeedbackMsg>,
    /// Texts that are being shown.
    pub buffered_text_msgs: Vec<TextMsg>,
    /// Trails that are being shown.
    pub hard_drop_tiles: Vec<HardDropTile>,
}

impl Default for DiffPrintRenderer {
    fn default() -> (r: DiffPrintRenderer)
        ensures
            r.wf(),
            r.screen.prev@.len() == 0,
            r.screen.next@.len() == 0,
            r.screen.x_draw == 0,
            r.screen.y_draw == 0,
            r.buffered_feedback_msgs@.len() == 0,
            r.buffered_text_msgs@.len() == 0,
            r.hard_drop_tiles@.len() == 0,
    {
        DiffPrintRenderer {
            screen: TerminalScreenBuffer::new(),
            buffered_feedback_msgs: Vec::new(),
            buffered_text_msgs: Vec::new(),
            hard_drop_tiles: Vec::new(),
        }
    }
}

/// What the frame of a game shows apart from the game itself.
pub open spec fn scene_of<'a>(game: GameSnapshot, settings: &'a Settings) -> Scene<'a> {
    Scene {
        time: game.time,
        graphics: settings.active_graphics(),
        palette: &settings.palette_slots@[settings.active_graphics().palette_active as int].1,
    }
}

/// The buttons, where they are shown.
pub open spec fn shown_button_paints(sc: Scene, game: GameSnapshot, texts: RenderTexts) -> Seq<
    Paint,
> {
    if sc.graphics.show_button_state || texts.replay is Some {
        button_paints(game.buttons_pressed@, texts.buttons@, sc.palette@, 17)
    } else {
        Seq::empty()
    }
}

/// The locked tiles, unless they are hidden.
pub open spec fn shown_locked_paints(
    sc: Scene,
    game: GameSnapshot,
    palette_locked: Map<u8, Color>,
) -> Seq<Paint> {
    if sc.graphics.blindfolded {
        Seq::empty()
    } else {
        locked_paints(
            game.board,
            glyph_ground(sc.graphics.glyphset),
            palette_locked,
            SHOWN_PLACES as int,
        )
    }
}

/// The piece in play, over the place where it would land if that is shown.
pub open spec fn shown_piece_paints(sc: Scene, game: GameSnapshot) -> Seq<Paint> {
    match game.piece_in_play {
        None => Seq::empty(),
        Some(piece) => {
            let active = tile_paints(
                piece.tile_seq(),
                glyph_active(sc.graphics.glyphset),
                sc.palette@,
                None,
                4,
            );
            if sc.graphics.show_shadow_piece {
                tile_paints(
                    piece.landing(game.board).tile_seq(),
                    glyph_shadow(sc.graphics.glyphset),
                    sc.palette@,
                    None,
                    4,
                ) + active
            } else {
                active
            }
        },
    }
}

/// Pieces to come up to the fourth.
pub open spec fn small_end(preview: Seq<Tetromino>) -> int {
    if preview.len() < 4 {
        preview.len() as int
    } else {
        4
    }
}

/// The pieces to come: the first in full, the next three as pictures in a line,
/// all others in the smallest pictures.
pub open spec fn preview_paints(sc: Scene, game: GameSnapshot, texts: RenderTexts) -> Seq<Paint> {
    let preview = game.piece_preview@;
    if preview.len() == 0 {
        Seq::empty()
    } else {
        next_paints(preview[0], glyph_preview(sc.graphics.glyphset), sc.palette@, 4)
            + picture_paints(
            preview,
            texts.tets_small@,
            sc.palette@,
            49,
            13,
            1,
            small_end(preview),
        ) + picture_paints(
            preview,
            texts.tets_mini@,
            sc.palette@,
            50,
            15,
            4,
            preview.len() as int,
        )
    }
}

/// Whether the pictures of all pieces to come have columns that can be
/// numbered.
pub open spec fn preview_wf(preview: Seq<Tetromino>, texts: RenderTexts) -> bool {
    &&& 49 + pictures_width(preview, texts.tets_small@, 1, small_end(preview)) <= usize::MAX
    &&& 50 + pictures_width(preview, texts.tets_mini@, 4, preview.len() as int) <= usize::MAX
}

impl DiffPrintRenderer {
    /// Texts and trails are well-formed.
    pub open spec fn wf(self) -> bool {
        &&& texts_wf(self.buffered_text_msgs@)
        &&& trail_wf(self.hard_drop_tiles@)
    }

    /// All texts that the next frame shows: those that are being shown and
    /// those that messages add.
    pub open spec fn frame_texts(self) -> Seq<(InGameTime, Seq<char>)> {
        texts_view(self.buffered_text_msgs@) + feed_texts(
            self.buffered_feedback_msgs@,
            self.buffered_feedback_msgs@.len() as int,
        )
    }

    /// Everything that is drawn over the fixed part of the screen, in turn.
    pub open spec fn frame_paints(
        self,
        game: GameSnapshot,
        settings: &Settings,
        legend: Seq<(String, String)>,
        texts: RenderTexts,
        frames: Seq<Option<usize>>,
    ) -> Seq<Paint> {
        let sc = scene_of(game, settings);
        let msgs = self.buffered_feedback_msgs@;
        legend_paints(legend, legend.len() as int) + replay_paints(texts.replay)
            + shown_button_paints(sc, game, texts) + trail_paints(
            sc,
            self.hard_drop_tiles@,
            self.hard_drop_tiles@.len() as int,
        ) + shown_locked_paints(sc, game, settings.active_palette_lockedtiles())
            + shown_piece_paints(sc, game) + preview_paints(sc, game, texts) + held_paints(
            game.piece_held,
            texts.tets_small@,
            sc.palette@,
        ) + feed_paints(sc, msgs, frames, msgs.len() as int) + text_paints(
            self.frame_texts(),
            self.frame_texts().len() as int,
        )
    }

    /// The next frame: the fixed part of the screen with everything drawn over
    /// it.
    pub open spec fn frame(
        self,
        game: GameSnapshot,
        title: Seq<char>,
        settings: &Settings,
        legend: Seq<(String, String)>,
        texts: RenderTexts,
        frames: Seq<Option<usize>>,
    ) -> Seq<Seq<Cell>> {
        let lines = base_lines(
            settings.active_graphics().glyphset,
            frame_text(game, title, texts),
        );
        paint_all(
            Seq::new(lines.len(), |y: int| plain_row(lines[y])),
            self.frame_paints(game, settings, legend, texts, frames),
        )
    }

    /// What a frame needs: well-formed inputs, a frame of the animation for
    /// every message, and numbers of texts and columns within range.
    pub open spec fn can_render(
        self,
        game: GameSnapshot,
        settings: Settings,
        legend: Seq<(String, String)>,
        texts: RenderTexts,
        frames: Seq<Option<usize>>,
    ) -> bool {
        &&& self.wf()
        &&& msgs_wf(self.buffered_feedback_msgs@)
        &&& game.wf()
        &&& settings.graphics_wf()
        &&& legend_wf(legend)
        &&& texts.wf()
        &&& preview_wf(game.piece_preview@, texts)
        &&& frames.len() == self.buffered_feedback_msgs@.len()
        &&& forall|i: int|
            0 <= i < frames.len() ==> ((#[trigger] frames[i]) matches Some(f) ==> f
                < LINE_CLEAR_FRAMES)
        &&& self.buffered_text_msgs@.len() + self.buffered_feedback_msgs@.len() + 1_000
            <= usize::MAX
    }

    /// Takes in messages of the game.
    pub fn push_game_feedback_msgs(&mut self, new_msgs: Vec<FeedbackMsg>)
        ensures
            *final(self) == (DiffPrintRenderer {
                buffered_feedback_msgs: final(self).buffered_feedback_msgs,
                ..*old(self)
            }),
            final(self).buffered_feedback_msgs@ == old(self).buffered_feedback_msgs@ + new_msgs@,
    {
        let mut new_msgs = new_msgs;
        self.buffered_feedback_msgs.append(&mut new_msgs);
    }

    /// For every message about lines that are being cleared, how long that has
    /// been going on and how long it takes.
    pub fn line_clear_progress(&self, now: InGameTime) -> (r: Vec<
        Option<(InGameTime, InGameTime)>,
    >)
        requires
            msgs_wf(self.buffered_feedback_msgs@),
            now.wf(),
        ensures
            r@.len() == self.buffered_feedback_msgs@.len(),
            forall|i: int|
                0 <= i < r@.len() ==> match self.buffered_feedback_msgs@[i].1 {
                    Feedback::LinesClearing { line_clear_start, .. } => (#[trigger] r@[i]) matches
                        Some(p) && p.0.wf() && p.0.nanos() == elapsed(
                        self.buffered_feedback_msgs@[i].0,
                        now,
                    ) && p.1 == line_clear_start,
                    _ => r@[i] is None,
                },
    {
        let mut r: Vec<Option<(InGameTime, InGameTime)>> = Vec::new();
        for k in 0..self.buffered_feedback_msgs.len()
            invariant
                msgs_wf(self.buffered_feedback_msgs@),
                now.wf(),
                r@.len() == k,
                forall|i: int|
                    0 <= i < k ==> match self.buffered_feedback_msgs@[i].1 {
                        Feedback::LinesClearing { line_clear_start, .. } => (#[trigger] r@[i])
                            matches Some(p) && p.0.wf() && p.0.nanos() == elapsed(
                            self.buffered_feedback_msgs@[i].0,
                            now,
                        ) && p.1 == line_clear_start,
                        _ => r@[i] is None,
                    },
        {
            assert(self.buffered_feedback_msgs@[k as int].0.wf());
            let msg: &FeedbackMsg = &self.buffered_feedback_msgs[k];
            match &msg.1 {
                Feedback::LinesClearing { line_clear_start, .. } => {
                    r.push(Some((now.saturating_sub(msg.0), *line_clear_start)));
                },
                _ => {
                    r.push(None);
                },
            }
        }
        r
    }

    /// Shows the messages and forgets those that are done.
    fn show_messages(&mut self, sc: &Scene, frames: &Vec<Option<usize>>)
        requires
            old(self).wf(),
            msgs_wf(old(self).buffered_feedback_msgs@),
            sc.time.wf(),
            frames@.len() == old(self).buffered_feedback_msgs@.len(),
            forall|i: int|
                0 <= i < frames@.len() ==> ((#[trigger] frames@[i]) matches Some(f) ==> f
                    < LINE_CLEAR_FRAMES),
        ensures
            final(self).wf(),
            msgs_wf(final(self).buffered_feedback_msgs@),
            ({
                let msgs = old(self).buffered_feedback_msgs@;
                let n = msgs.len() as int;
                &&& drawn(
                    old(self).screen,
                    final(self).screen,
                    feed_paints(*sc, msgs, frames@, n),
                )
                &&& final(self).buffered_feedback_msgs@ == feed_kept(*sc, msgs, frames@, n)
                &&& final(self).hard_drop_tiles@ == old(self).hard_drop_tiles@ + feed_trail(
                    *sc,
                    msgs,
                    n,
                )
                &&& texts_view(final(self).buffered_text_msgs@) == old(self).frame_texts()
                &&& final(self).buffered_text_msgs@.len() <= old(self).buffered_text_msgs@.len()
                    + n
            }),
    {
        let ghost before = *self;
        let mut msgs: Vec<FeedbackMsg> = Vec::new();
        std::mem::swap(&mut msgs, &mut self.buffered_feedback_msgs);
        let ghost all = msgs@;
        let mut k: usize = 0;
        assert(self.hard_drop_tiles@ =~= before.hard_drop_tiles@ + feed_trail(*sc, all, 0));
        assert(texts_view(self.buffered_text_msgs@) =~= texts_view(before.buffered_text_msgs@)
            + feed_texts(all, 0));
        for msg in iter: msgs
            invariant
                iter.seq() == all,
                k == iter.index(),
                k <= all.len(),
                all == before.buffered_feedback_msgs@,
                msgs_wf(all),
                self.wf(),
                msgs_wf(self.buffered_feedback_msgs@),
                sc.time.wf(),
                frames@.len() == all.len(),
                forall|i: int|
                    0 <= i < frames@.len() ==> ((#[trigger] frames@[i]) matches Some(f) ==> f
                        < LINE_CLEAR_FRAMES),
                drawn(before.screen, self.screen, feed_paints(*sc, all, frames@, k as int)),
                self.buffered_feedback_msgs@ == feed_kept(*sc, all, frames@, k as int),
                self.hard_drop_tiles@ == before.hard_drop_tiles@ + feed_trail(*sc, all, k as int),
                texts_view(self.buffered_text_msgs@) == texts_view(before.buffered_text_msgs@)
                    + feed_texts(all, k as int),
                self.buffered_text_msgs@.len() <= before.buffered_text_msgs@.len() + k,
        {
            assert(msg == all[k as int]);
            assert(k < frames.len());
            assert(all[k as int].0.wf() && all[k as int].1.wf());
            assert(frames@[k as int] matches Some(f) ==> f < LINE_CLEAR_FRAMES);
            let ghost middle = *self;
            let keep = show_message(
                &mut self.screen,
                &mut self.hard_drop_tiles,
                &mut self.buffered_text_msgs,
                sc,
                &msg,
                frames[k],
            );
            proof {
                lemma_drawn_concat(
                    before.screen,
                    middle.screen,
                    self.screen,
                    feed_paints(*sc, all, frames@, k as int),
                    msg_paints(*sc, all[k as int], frames@[k as int]),
                );
                assert(self.hard_drop_tiles@ =~= before.hard_drop_tiles@ + feed_trail(
                    *sc,
                    all,
                    k + 1,
                ));
                assert(texts_view(self.buffered_text_msgs@) =~= texts_view(
                    before.buffered_text_msgs@,
                ) + feed_texts(all, k + 1));
            }
            if keep {
                self.buffered_feedback_msgs.push(msg);
            }
            k = k + 1;
        }
    }

    /// Composes the next frame and gives out what it takes to show it, from a
    /// new corner on if one is given. Where the frame does not lie within the
    /// coordinates that a terminal knows, nothing is given out. Once the terminal
    /// has done what was given out, [`DiffPrintRenderer::flushed`] is called.
    #[verifier::rlimit(30)]
    pub fn render(
        &mut self,
        game: &GameSnapshot,
        meta_data: &GameMetaData,
        settings: &Settings,
        keybinds_legend: &KeybindsLegend,
        texts: &RenderTexts,
        line_clear_frames: &Vec<Option<usize>>,
        rerender_entire_view: Option<(u16, u16)>,
    ) -> (r: Option<Vec<DrawCommand>>)
        requires
            old(self).can_render(
                *game,
                *settings,
                keybinds_legend@,
                *texts,
                line_clear_frames@,
            ),
        ensures
            final(self).wf(),
            msgs_wf(final(self).buffered_feedback_msgs@),
            ({
                let frame = old(self).frame(
                    *game,
                    meta_data.title@,
                    settings,
                    keybinds_legend@,
                    *texts,
                    line_clear_frames@,
                );
                let prev = match rerender_entire_view {
                    Some(_) => Seq::empty(),
                    None => old(self).screen.prev_grid(),
                };
                let (x, y) = match rerender_entire_view {
                    Some((x, y)) => (x as int, y as int),
                    None => (old(self).screen.x_draw as int, old(self).screen.y_draw as int),
                };
                let sc = scene_of(*game, settings);
                let msgs = old(self).buffered_feedback_msgs@;
                let trails = old(self).hard_drop_tiles@;
                &&& final(self).screen.x_draw == x
                &&& final(self).screen.y_draw == y
                &&& match r {
                    Some(cmds) => {
                        &&& fits(prev, x, y) && fits(frame, x, y)
                        &&& cmds@ == frame_commands(prev, frame, x, y)
                    },
                    None => !(fits(prev, x, y) && fits(frame, x, y)),
                }
                &&& final(self).screen.prev_grid() == prev
                &&& final(self).screen.next_grid() == frame
                &&& final(self).buffered_feedback_msgs@ == feed_kept(
                    sc,
                    msgs,
                    line_clear_frames@,
                    msgs.len() as int,
                )
                &&& final(self).hard_drop_tiles@ == trail_kept(sc, trails, trails.len() as int)
                    + feed_trail(sc, msgs, msgs.len() as int)
                &&& texts_view(final(self).buffered_text_msgs@) == texts_kept(
                    old(self).frame_texts(),
                    game.time,
                    old(self).frame_texts().len() as int,
                )
            }),
    {
        if let Some((x, y)) = rerender_entire_view {
            self.screen.buffer_reset((x as usize, y as usize));
        }
        let ghost prev = self.screen.prev_grid();
        assert(rerender_entire_view is Some ==> prev =~= Seq::empty());
        let graphics: GraphicsSettings = *settings.graphics();
        let sc = Scene { time: game.time, graphics, palette: settings.palette() };
        let frame_text = collect_frame_text(game, meta_data.title.as_str(), texts);
        let lines = base_screen(graphics.glyphset, &frame_text);
        self.screen.buffer_from(&lines);
        let ghost s0 = self.screen;
        let (tile_ground, tile_shadow, tile_active, tile_preview) = tile_glyphs(graphics.glyphset);

        draw_legend(&mut self.screen, keybinds_legend);
        let ghost p1 = legend_paints(keybinds_legend@, keybinds_legend@.len() as int);
        let ghost s1 = self.screen;

        draw_replay(&mut self.screen, &texts.replay);
        let ghost p2 = p1 + replay_paints(texts.replay);
        proof {
            lemma_drawn_concat(s0, s1, self.screen, p1, replay_paints(texts.replay));
        }
        let ghost s2 = self.screen;

        if graphics.show_button_state || texts.replay.is_some() {
            draw_buttons(
                &mut self.screen,
                &game.buttons_pressed,
                &texts.buttons,
                sc.palette,
            );
        }
        let ghost q3 = shown_button_paints(sc, *game, *texts);
        let ghost p3 = p2 + q3;
        proof {
            lemma_drawn_concat(s0, s2, self.screen, p2, q3);
        }
        let ghost s3 = self.screen;

        let kept = draw_trails(&mut self.screen, &self.hard_drop_tiles, &sc);
        let ghost trails = self.hard_drop_tiles@;
        let ghost q4 = trail_paints(sc, trails, trails.len() as int);
        let ghost p4 = p3 + q4;
        self.hard_drop_tiles = kept;
        proof {
            lemma_drawn_concat(s0, s3, self.screen, p3, q4);
        }
        let ghost s4 = self.screen;

        if !graphics.blindfolded {
            draw_locked(
                &mut self.screen,
                &game.board,
                tile_ground,
                settings.palette_lockedtiles(),
            );
        }
        let ghost q5 = shown_locked_paints(sc, *game, settings.active_palette_lockedtiles());
        let ghost p5 = p4 + q5;
        proof {
            lemma_drawn_concat(s0, s4, self.screen, p4, q5);
        }
        let ghost s5 = self.screen;

        if let Some(piece) = &game.piece_in_play {
            let ghost landing = piece.landing(game.board);
            if graphics.show_shadow_piece {
                proof {
                    lemma_landing_wf(*piece, game.board);
                }
                let shadow = piece.landed(&game.board).tiles();
                draw_tiles(&mut self.screen, &shadow, tile_shadow, sc.palette, None);
            }
            let ghost s = self.screen;
            draw_tiles(&mut self.screen, &piece.tiles(), tile_active, sc.palette, None);
            proof {
                if graphics.show_shadow_piece {
                    lemma_drawn_concat(
                        s5,
                        s,
                        self.screen,
                        tile_paints(landing.tile_seq(), tile_shadow@, sc.palette@, None, 4),
                        tile_paints(piece.tile_seq(), tile_active@, sc.palette@, None, 4),
                    );
                }
            }
        }
        let ghost q6 = shown_piece_paints(sc, *game);
        let ghost p6 = p5 + q6;
        proof {
            lemma_drawn_concat(s0, s5, self.screen, p5, q6);
        }
        let ghost s6 = self.screen;

        draw_preview(&mut self.screen, game, texts, tile_preview, &sc);
        let ghost q7 = preview_paints(sc, *game, *texts);
        let ghost p7 = p6 + q7;
        proof {
            lemma_drawn_concat(s0, s6, self.screen, p6, q7);
        }
        let ghost s7 = self.screen;

        draw_held(&mut self.screen, game.piece_held, &texts.tets_small, sc.palette);
        let ghost q8 = held_paints(game.piece_held, texts.tets_small@, sc.palette@);
        let ghost p8 = p7 + q8;
        proof {
            lemma_drawn_concat(s0, s7, self.screen, p7, q8);
        }
        let ghost s8 = self.screen;

        self.show_messages(&sc, line_clear_frames);
        let ghost msgs = old(self).buffered_feedback_msgs@;
        let ghost q9 = feed_paints(sc, msgs, line_clear_frames@, msgs.len() as int);
        let ghost p9 = p8 + q9;
        proof {
            lemma_drawn_concat(s0, s8, self.screen, p8, q9);
        }
        let ghost s9 = self.screen;

        draw_texts(&mut self.screen, &self.buffered_text_msgs);
        let ghost all_texts = old(self).frame_texts();
        let ghost q10 = text_paints(all_texts, all_texts.len() as int);
        proof {
            lemma_drawn_concat(s0, s9, self.screen, p9, q10);
            assert(p9 + q10 == old(self).frame_paints(
                *game,
                settings,
                keybinds_legend@,
                *texts,
                line_clear_frames@,
            ));
            let base = base_lines(graphics.glyphset, frame_text@);
            assert(s0.next_grid() =~= Seq::new(base.len(), |y: int| plain_row(base[y]))) by {
                assert(lines_view(lines@) == base);
                assert forall|y: int| 0 <= y < base.len() implies base[y] == #[trigger] lines@[y]@ by {
                    assert(lines_view(lines@)[y] == lines@[y]@);
                }
            }
        }
        let kept = retain_texts(&self.buffered_text_msgs, game.time);
        self.buffered_text_msgs = kept;
        if self.screen.is_in_range() {
            Some(self.screen.flush_commands())
        } else {
            None
        }
    }

    /// Takes note that the terminal shows the last frame that was composed.
    pub fn flushed(&mut self)
        ensures
            final(self).screen.prev == old(self).screen.next,
            final(self).screen.next@.len() == 0,
            final(self).screen.x_draw == old(self).screen.x_draw,
            final(self).screen.y_draw == old(self).screen.y_draw,
            *final(self) == (DiffPrintRenderer { screen: final(self).screen, ..*old(self) }),
    {
        self.screen.flushed();
    }
}

/// Draws the pieces to come.
fn draw_preview(
    screen: &mut TerminalScreenBuffer,
    game: &GameSnapshot,
    texts: &RenderTexts,
    glyph: &str,
    sc: &Scene,
)
    requires
        texts.wf(),
        preview_wf(game.piece_preview@, *texts),
        glyph@ == glyph_preview(sc.graphics.glyphset),
    ensures
        drawn(*old(screen), *final(screen), preview_paints(*sc, *game, *texts)),
{
    let preview: &Vec<Tetromino> = &game.piece_preview;
    let len: usize = preview.len();
    if len == 0 {
        return;
    }
    let ghost s0 = *screen;
    draw_next(screen, preview[0], glyph, sc.palette);
    let ghost s1 = *screen;
    let end: usize = if len < 4 {
        len
    } else {
        4
    };
    draw_pictures(screen, preview, &texts.tets_small, sc.palette, (49, 13), 1, end);
    let ghost s2 = *screen;
    let ghost q1 = next_paints(preview@[0], glyph@, sc.palette@, 4);
    let ghost q2 = picture_paints(preview@, texts.tets_small@, sc.palette@, 49, 13, 1, end as int);
    let ghost q3 = picture_paints(preview@, texts.tets_mini@, sc.palette@, 50, 15, 4, len as int);
    if len > 4 {
        draw_pictures(screen, preview, &texts.tets_mini, sc.palette, (50, 15), 4, len);
    }
    proof {
        lemma_drawn_concat(s0, s1, s2, q1, q2);
        lemma_drawn_concat(s0, s2, *screen, q1 + q2, q3);
    }
}

fn are_msgs_wf(msgs: &Vec<FeedbackMsg>) -> (b: bool)
    ensures
        b == msgs_wf(msgs@),
{
    for k in 0..msgs.len()
        invariant
            forall|i: int|
                0 <= i < k ==> (#[trigger] msgs@[i]).0.wf() && msgs@[i].1.wf(),
    {
        if !msgs[k].0.is_wf() || !msgs[k].1.is_wf() {
            assert(!(msgs@[k as int].0.wf() && msgs@[k as int].1.wf()));
            return false;
        }
    }
    true
}

fn are_frames_in_range(frames: &Vec<Option<usize>>) -> (b: bool)
    ensures
        b == forall|i: int|
            0 <= i < frames@.len() ==> ((#[trigger] frames@[i]) matches Some(f) ==> f
                < LINE_CLEAR_FRAMES),
{
    for k in 0..frames.len()
        invariant
            forall|i: int|
                0 <= i < k ==> ((#[trigger] frames@[i]) matches Some(f) ==> f
                    < LINE_CLEAR_FRAMES),
    {
        if let Some(f) = frames[k] {
            if f >= LINE_CLEAR_FRAMES {
                assert(frames@[k as int] == Some(f));
                return false;
            }
        }
    }
    true
}

impl DiffPrintRenderer {
    /// Whether a frame can be rendered.
    pub fn is_renderable(
        &self,
        game: &GameSnapshot,
        settings: &Settings,
        keybinds_legend: &KeybindsLegend,
        texts: &RenderTexts,
        line_clear_frames: &Vec<Option<usize>>,
    ) -> (b: bool)
        requires
            self.wf(),
        ensures
            b == self.can_render(
                *game,
                *settings,
                keybinds_legend@,
                *texts,
                line_clear_frames@,
            ),
    {
        let preview = &game.piece_preview;
        let len: usize = preview.len();
        let end: usize = if len < 4 {
            len
        } else {
            4
        };
        let lens: u128 = self.buffered_text_msgs.len() as u128 + self.buffered_feedback_msgs.len() as u128
            + 1_000;
        texts.buttons.len() == 11 && texts.tets_small.len() == 7 && texts.tets_mini.len() == 7
            && lens <= usize::MAX as u128 && line_clear_frames.len()
            == self.buffered_feedback_msgs.len() && are_frames_in_range(line_clear_frames)
            && are_msgs_wf(&self.buffered_feedback_msgs) && game.is_wf() && settings.is_graphics_wf()
            && is_legend_wf(keybinds_legend) && is_width_in_range(
            preview,
            &texts.tets_small,
            49,
            1,
            end,
        ) && is_width_in_range(preview, &texts.tets_mini, 50, 4, len)
    }
}

} // verus!

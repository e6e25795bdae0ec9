//! What the player can set up.
use crate::builder::{is_default_generator, millis_time};
use crate::color::Color;
use crate::engine::{
    delay_parts, generator_value, no_time, number_bits, one_second, time_of, time_value, DelayParts,
    BITS_TEN,
};
use crate::game::{Board, Stat, WIDTH};
use crate::keys::Keybinds;
use crate::text::chars_of;
use crate::time::{lemma_time_by_nanos, ExtDuration, InGameTime};
use falling_tetromino_engine::{
    DelayParameters, ExtNonNegF64, RotationSystem as EngineRotationSystem, TetrominoGenerator,
};
use std::collections::HashMap;
use std::time::Duration;
use vstd::prelude::*;
use vstd::string::*;

verus! {

/// Named alternatives.
pub type Slots<T> = Vec<(String, T)>;

/// The color of each kind of tile.
pub type Palette = HashMap<u8, Color>;

/// The set of characters that the game is drawn with.
#[derive(PartialEq, Eq, Structural, PartialOrd, Ord, Hash, Clone, Copy, Debug)]
pub enum Glyphset {
    /// As on the first machine that the game ran on.
    Electronika60,
    /// Plain characters.
    ASCII,
    /// Block and line characters.
    Unicode,
}

impl Default for Glyphset {
    fn default() -> (r: Glyphset)
        ensures
            r == Glyphset::Unicode,
    {
        Glyphset::Unicode
    }
}

/// A number of frames per second, as the bits of a 64-bit binary
/// floating-point number.
#[derive(PartialEq, Eq, Structural, PartialOrd, Ord, Hash, Clone, Copy, Debug)]
pub struct FrameRate {
    /// The bits.
    pub bits: u64,
}

/// The bits of thirty frames per second.
pub const FPS_30: u64 = 0x403E_0000_0000_0000;

/// The bits of sixty frames per second.
pub const FPS_60: u64 = 0x404E_0000_0000_0000;

/// How the game is shown.
#[derive(PartialEq, Eq, Structural, PartialOrd, Ord, Hash, Clone, Copy, Debug)]
pub struct GraphicsSettings {
    /// The palette for pieces in play.
    pub palette_active: usize,
    /// The palette for locked tiles.
    pub palette_active_lockedtiles: usize,
    /// The characters to draw with.
    pub glyphset: Glyphset,
    /// Whether effects are shown.
    pub show_effects: bool,
    /// Whether locked tiles are hidden.
    pub blindfolded: bool,
    /// Whether it is shown where the piece in play would land.
    pub show_shadow_piece: bool,
    /// Whether it is shown which buttons are down.
    pub show_button_state: bool,
    /// How often the screen is redrawn.
    pub game_fps: FrameRate,
    /// Whether it is shown how often the screen is really redrawn.
    pub show_fps: bool,
}

impl GraphicsSettings {
    /// How the game is shown unless it is set otherwise.
    pub open spec fn standard() -> GraphicsSettings {
        GraphicsSettings {
            palette_active: 3,
            palette_active_lockedtiles: 3,
            glyphset: Glyphset::Unicode,
            show_effects: true,
            blindfolded: false,
            show_shadow_piece: true,
            show_button_state: false,
            game_fps: FrameRate { bits: FPS_30 },
            show_fps: false,
        }
    }
}

impl Default for GraphicsSettings {
    fn default() -> (r: GraphicsSettings)
        ensures
            r == GraphicsSettings::standard(),
    {
        GraphicsSettings {
            glyphset: Glyphset::default(),
            palette_active: 3,
            palette_active_lockedtiles: 3,
            show_effects: true,
            blindfolded: false,
            show_shadow_piece: true,
            show_button_state: false,
            game_fps: FrameRate { bits: FPS_30 },
            show_fps: false,
        }
    }
}

/// How much of the session is kept in the savefile.
#[derive(PartialEq, Eq, Structural, PartialOrd, Ord, Hash, Clone, Copy, Debug)]
pub enum SavefileGranularity {
    /// Nothing; there is no savefile.
    NoSavefile,
    /// The settings.
    RememberSettings,
    /// The settings and the scores.
    RememberSettingsScores,
    /// The settings, the scores and the inputs of past games.
    RememberSettingsScoresReplays,
}

impl Default for SavefileGranularity {
    fn default() -> (r: SavefileGranularity)
        ensures
            r == SavefileGranularity::NoSavefile,
    {
        SavefileGranularity::NoSavefile
    }
}

/// The kind of tile that a given board starts with.
pub const GREY_TILE: u8 = 254;

/// How many places the board has.
pub const PLACES: usize = 270;

/// What lies in the `n`-th place of a board, counted along the rows from the
/// bottom up.
pub open spec fn place(board: Board, n: int) -> Option<u8> {
    board@[n / WIDTH as int]@[n % WIDTH as int]
}

/// How many of the first `k` places it takes to reach the last filled one of
/// them.
pub open spec fn filled_extent(board: Board, k: int) -> nat
    decreases k,
{
    if k <= 0 {
        0
    } else if place(board, k - 1) is Some {
        k as nat
    } else {
        filled_extent(board, k - 1)
    }
}

/// A board as text: a letter for every filled place and a space for every empty
/// one, up to the last filled place.
pub open spec fn encoded(board: Board) -> Seq<char> {
    Seq::new(
        filled_extent(board, PLACES as int),
        |n: int|
            if place(board, n) is Some {
                'X'
            } else {
                ' '
            },
    )
}

/// Text without its newlines.
pub open spec fn without_newlines(s: Seq<char>) -> Seq<char> {
    s.filter(|c: char| c != '\n')
}

/// What the text of a board says of its `n`-th place: filled unless it says
/// nothing or holds a space there. Newlines do not count.
pub open spec fn decoded_place(s: Seq<char>, n: int) -> Option<u8> {
    let t = without_newlines(s);
    if n < t.len() && t[n] != ' ' {
        Some(GREY_TILE)
    } else {
        None
    }
}

/// What a new game starts with, by mode.
#[derive(Debug)]
pub struct NewGameSettings {
    /// How the fall delay of a custom game shrinks.
    pub custom_fall_delay_params: DelayParameters,
    /// What completes a custom game.
    pub custom_win_condition: Option<Stat>,
    /// The seed of a custom game.
    pub custom_seed: Option<u64>,
    /// The board that a custom game starts with, as text.
    pub custom_board: Option<String>,
    /// How many lines of cheese there are; not zero.
    pub cheese_linelimit: Option<u32>,
    /// How long a piece takes to fall by one row in a game of cheese.
    pub cheese_fall_delay: ExtDuration,
    /// How many tiles a line of cheese has; not zero.
    pub cheese_tiles_per_line: usize,
    /// How many lines there are in a game of combos; not zero.
    pub combo_linelimit: Option<u32>,
    /// The rows, four wide, that a game of combos starts with, one bit for
    /// every tile.
    pub combo_startlayout: u16,
    /// Whether the experimental mode can be played.
    pub experimental_mode_unlocked: bool,
}

impl NewGameSettings {
    /// The text of a board.
    pub fn encode_board(board: &Board) -> (s: String)
        ensures
            s@ == encoded(*board),
    {
        let mut extent: usize = 0;
        for k in 0..PLACES
            invariant
                extent == filled_extent(*board, k as int),
                extent <= k,
        {
            if board[k / WIDTH][k % WIDTH].is_some() {
                extent = k + 1;
            }
        }
        let mut s = String::new();
        for n in 0..extent
            invariant
                extent <= PLACES,
                extent == filled_extent(*board, PLACES as int),
                s@ == encoded(*board).take(n as int),
        {
            s.push(
                if board[n / WIDTH][n % WIDTH].is_some() {
                    'X'
                } else {
                    ' '
                },
            );
        }
        s
    }

    /// The board that a text stands for.
    pub fn decode_board(board_str: &str) -> (board: Board)
        ensures
            forall|n: int|
                0 <= n < PLACES ==> #[trigger] place(board, n) == decoded_place(board_str@, n),
    {
        let mut new_board: Board = [[None; 10]; 27];
        let chars = chars_of(board_str);
        let mut n: usize = 0;
        assert(chars@.take(0) =~= Seq::empty());
        assert forall|m: int| 0 <= m < PLACES implies #[trigger] place(new_board, m)
            == decoded_place(chars@.take(0), m) by {
            assert(new_board@[m / WIDTH as int]@[m % WIDTH as int] is None);
        }
        for i in 0..chars.len()
            invariant
                n <= i,
                n == without_newlines(chars@.take(i as int)).len(),
                forall|m: int|
                    0 <= m < PLACES ==> #[trigger] place(new_board, m) == decoded_place(
                        chars@.take(i as int),
                        m,
                    ),
        {
            let ghost before = chars@.take(i as int);
            let ghost after = chars@.take(i + 1);
            proof {
                reveal(Seq::filter);
                assert(after.drop_last() =~= before);
            }
            let c = chars[i];
            let ghost was = new_board;
            if c != '\n' {
                if n < PLACES {
                    let tile: Option<u8> = if c == ' ' {
                        None
                    } else {
                        Some(GREY_TILE)
                    };
                    new_board[n / WIDTH][n % WIDTH] = tile;
                }
                n = n + 1;
            }
            assert forall|m: int| 0 <= m < PLACES implies #[trigger] place(new_board, m)
                == decoded_place(after, m) by {
                assert(place(was, m) == decoded_place(before, m));
            }
        }
        assert(chars@.take(chars@.len() as int) =~= chars@);
        new_board
    }
}

/// No place from the extent on is filled, and the extent stays in range.
proof fn lemma_filled_extent(board: Board, k: int, n: int)
    requires
        0 <= k,
        0 <= n < k,
    ensures
        filled_extent(board, k) <= k,
        n >= filled_extent(board, k) ==> place(board, n) is None,
    decreases k,
{
    reveal_with_fuel(filled_extent, 2);
    if n < k - 1 {
        lemma_filled_extent(board, k - 1, n);
    } else if k > 1 {
        lemma_filled_extent(board, k - 1, 0);
    }
}

/// Text without newlines stays as it is when newlines are taken out.
proof fn lemma_no_newlines(s: Seq<char>)
    requires
        forall|i: int| 0 <= i < s.len() ==> #[trigger] s[i] != '\n',
    ensures
        without_newlines(s) == s,
    decreases s.len(),
{
    reveal(Seq::filter);
    if s.len() > 0 {
        lemma_no_newlines(s.drop_last());
        assert(s.drop_last().push(s.last()) =~= s);
    }
}

/// The text of a board stands for a board with the same places filled.
pub proof fn law_decode_inverts_encode(board: Board, n: int)
    requires
        0 <= n < PLACES,
    ensures
        decoded_place(encoded(board), n) == if place(board, n) is Some {
            Some(GREY_TILE)
        } else {
            None
        },
{
    lemma_no_newlines(encoded(board));
    lemma_filled_extent(board, PLACES as int, n);
}

/// Boards with the same places filled have the same text.
pub proof fn law_encode_sees_filled_places(a: Board, b: Board)
    requires
        forall|n: int| 0 <= n < PLACES ==> (#[trigger] place(a, n) is Some) == (place(b, n) is Some),
    ensures
        encoded(a) == encoded(b),
{
    lemma_same_extent(a, b, PLACES as int);
    lemma_filled_extent(a, PLACES as int, 0);
    assert(encoded(a) =~= encoded(b));
}

proof fn lemma_same_extent(a: Board, b: Board, k: int)
    requires
        k <= PLACES,
        forall|n: int| 0 <= n < PLACES ==> (#[trigger] place(a, n) is Some) == (place(b, n) is Some),
    ensures
        filled_extent(a, k) == filled_extent(b, k),
    decreases k,
{
    if k > 0 {
        assert((place(a, k - 1) is Some) == (place(b, k - 1) is Some));
        lemma_same_extent(a, b, k - 1);
    }
}

/// How a piece is rotated.
#[derive(PartialEq, Eq, Structural, PartialOrd, Ord, Hash, Clone, Copy, Debug)]
pub enum RotationSystem {
    /// The engine's own system.
    Ocular,
    /// The oldest system, in which pieces stay in place.
    Classic,
    /// The most common system.
    Super,
}

/// How the game plays.
#[derive(Clone, Copy, Debug)]
pub struct GameplaySettings {
    /// How a piece is rotated.
    pub rotation_system: RotationSystem,
    /// How the next piece is picked.
    pub tetromino_generator: TetrominoGenerator,
    /// How many pieces to come are shown.
    pub piece_preview_count: usize,
    /// How long a button is down until the piece moves by itself.
    pub delayed_auto_shift: InGameTime,
    /// How long it takes then between one move and the next.
    pub auto_repeat_rate: InGameTime,
    /// How many times faster a piece falls while it is dropped.
    pub soft_drop_factor: ExtNonNegF64,
    /// How long clearing lines takes.
    pub line_clear_duration: InGameTime,
    /// How long it takes until the next piece appears.
    pub spawn_delay: InGameTime,
    /// Whether a button that is down acts on a piece as it appears.
    pub allow_prespawn_actions: bool,
}

impl GameplaySettings {
    /// Times are well-formed.
    pub open spec fn wf(self) -> bool {
        &&& self.delayed_auto_shift.wf()
        &&& self.auto_repeat_rate.wf()
        &&& self.line_clear_duration.wf()
        &&& self.spawn_delay.wf()
    }
}

/// Everything that the player can set up. Each kind of settings has named slots
/// of which one is active.
#[derive(Debug)]
pub struct Settings {
    /// The active slot of graphics settings.
    pub graphics_slot_active: usize,
    /// The active slot of keybinds.
    pub keybinds_slot_active: usize,
    /// The active slot of gameplay settings.
    pub gameplay_slot_active: usize,
    /// How many slots of graphics settings stay as they are.
    pub graphics_slots_that_should_not_be_changed: usize,
    /// How many palettes stay as they are.
    pub palette_slots_that_should_not_be_changed: usize,
    /// How many slots of keybinds stay as they are.
    pub keybinds_slots_that_should_not_be_changed: usize,
    /// How many slots of gameplay settings stay as they are.
    pub gameplay_slots_that_should_not_be_changed: usize,
    /// Graphics settings.
    pub graphics_slots: Slots<GraphicsSettings>,
    /// Palettes.
    pub palette_slots: Slots<Palette>,
    /// Gameplay settings.
    pub gameplay_slots: Slots<GameplaySettings>,
    /// Keybinds.
    pub keybinds_slots: Slots<Keybinds>,
    /// What a new game starts with.
    pub new_game: NewGameSettings,
}

impl Settings {
    /// Every active slot exists, and so do the palettes of the active graphics
    /// settings.
    pub open spec fn wf(self) -> bool {
        &&& self.keybinds_slot_active < self.keybinds_slots@.len()
        &&& self.graphics_wf()
        &&& self.gameplay_wf()
    }

    /// The active slot of graphics settings exists, and so do their palettes.
    pub open spec fn graphics_wf(self) -> bool {
        &&& self.graphics_slot_active < self.graphics_slots@.len()
        &&& self.active_graphics().palette_active < self.palette_slots@.len()
        &&& self.active_graphics().palette_active_lockedtiles < self.palette_slots@.len()
    }

    /// The active slot of gameplay settings exists, and their times are
    /// well-formed.
    pub open spec fn gameplay_wf(self) -> bool {
        &&& self.gameplay_slot_active < self.gameplay_slots@.len()
        &&& self.active_gameplay().wf()
    }

    /// The active graphics settings.
    pub open spec fn active_graphics(self) -> GraphicsSettings {
        self.graphics_slots@[self.graphics_slot_active as int].1
    }

    /// The active gameplay settings.
    pub open spec fn active_gameplay(self) -> GameplaySettings {
        self.gameplay_slots@[self.gameplay_slot_active as int].1
    }

    /// The palette for pieces in play.
    pub open spec fn active_palette(self) -> Map<u8, Color> {
        self.palette_slots@[self.active_graphics().palette_active as int].1@
    }

    /// The palette for locked tiles.
    pub open spec fn active_palette_lockedtiles(self) -> Map<u8, Color> {
        self.palette_slots@[self.active_graphics().palette_active_lockedtiles as int].1@
    }

    /// The active graphics settings.
    pub fn graphics(&self) -> (r: &GraphicsSettings)
        requires
            self.graphics_slot_active < self.graphics_slots@.len(),
        ensures
            *r == self.active_graphics(),
    {
        &self.graphics_slots[self.graphics_slot_active].1
    }

    /// The active keybinds.
    pub fn keybinds(&self) -> (r: &Keybinds)
        requires
            self.keybinds_slot_active < self.keybinds_slots@.len(),
        ensures
            *r == self.keybinds_slots@[self.keybinds_slot_active as int].1,
    {
        &self.keybinds_slots[self.keybinds_slot_active].1
    }

    /// The active gameplay settings.
    pub fn gameplay(&self) -> (r: &GameplaySettings)
        requires
            self.gameplay_slot_active < self.gameplay_slots@.len(),
        ensures
            *r == self.active_gameplay(),
    {
        &self.gameplay_slots[self.gameplay_slot_active].1
    }

    /// The active graphics settings, to be changed.
    pub fn graphics_mut(&mut self) -> (r: &mut GraphicsSettings)
        requires
            old(self).graphics_slot_active < old(self).graphics_slots@.len(),
        ensures
            *r == old(self).active_graphics(),
            final(self).graphics_slots@ == old(self).graphics_slots@.update(
                old(self).graphics_slot_active as int,
                (
                    old(self).graphics_slots@[old(self).graphics_slot_active as int].0,
                    *final(r),
                ),
            ),
            *final(self) == (Settings {
                graphics_slots: final(self).graphics_slots,
                ..*old(self)
            }),
    {
        &mut self.graphics_slots[self.graphics_slot_active].1
    }

    /// The active keybinds, to be changed.
    pub fn keybinds_mut(&mut self) -> (r: &mut Keybinds)
        requires
            old(self).keybinds_slot_active < old(self).keybinds_slots@.len(),
        ensures
            *r == old(self).keybinds_slots@[old(self).keybinds_slot_active as int].1,
            final(self).keybinds_slots@ == old(self).keybinds_slots@.update(
                old(self).keybinds_slot_active as int,
                (
                    old(self).keybinds_slots@[old(self).keybinds_slot_active as int].0,
                    *final(r),
                ),
            ),
            *final(self) == (Settings {
                keybinds_slots: final(self).keybinds_slots,
                ..*old(self)
            }),
    {
        &mut self.keybinds_slots[self.keybinds_slot_active].1
    }

    /// The active gameplay settings, to be changed.
    pub fn gameplay_mut(&mut self) -> (r: &mut GameplaySettings)
        requires
            old(self).gameplay_slot_active < old(self).gameplay_slots@.len(),
        ensures
            *r == old(self).active_gameplay(),
            final(self).gameplay_slots@ == old(self).gameplay_slots@.update(
                old(self).gameplay_slot_active as int,
                (
                    old(self).gameplay_slots@[old(self).gameplay_slot_active as int].0,
                    *final(r),
                ),
            ),
            *final(self) == (Settings {
                gameplay_slots: final(self).gameplay_slots,
                ..*old(self)
            }),
    {
        &mut self.gameplay_slots[self.gameplay_slot_active].1
    }

    /// The palette for pieces in play.
    pub fn palette(&self) -> (r: &Palette)
        requires
            self.graphics_slot_active < self.graphics_slots@.len(),
            self.active_graphics().palette_active < self.palette_slots@.len(),
        ensures
            *r == self.palette_slots@[self.active_graphics().palette_active as int].1,
            r@ == self.active_palette(),
    {
        &self.palette_slots[self.graphics().palette_active].1
    }

    /// The palette for locked tiles.
    pub fn palette_lockedtiles(&self) -> (r: &Palette)
        requires
            self.graphics_slot_active < self.graphics_slots@.len(),
            self.active_graphics().palette_active_lockedtiles < self.palette_slots@.len(),
        ensures
            *r == self.palette_slots@[self.active_graphics().palette_active_lockedtiles as int].1,
            r@ == self.active_palette_lockedtiles(),
    {
        &self.palette_slots[self.graphics().palette_active_lockedtiles].1
    }
}

// ---------------------------------------------------------------------------
// Defaults
// ---------------------------------------------------------------------------
impl NewGameSettings {
    /// What a new game starts with unless it is set otherwise, given the rows
    /// for a game of combos.
    pub open spec fn is_default(self, combo_startlayout: u16) -> bool {
        &&& delay_parts(self.custom_fall_delay_params) == (DelayParts {
            base_delay: one_second(),
            factor_bits: 0x3FEF_3DD9_7F62_B6AE,
            subtrahend: ExtDuration::Finite(InGameTime { secs: 0, subsec_nanos: 42_000 }),
            lowerbound: no_time(),
        })
        &&& self.custom_win_condition is None
        &&& self.custom_seed is None
        &&& self.custom_board is None
        &&& self.cheese_linelimit == Some(20u32)
        &&& self.cheese_fall_delay == ExtDuration::Infinite
        &&& self.cheese_tiles_per_line == WIDTH - 1
        &&& self.combo_linelimit == Some(30u32)
        &&& self.combo_startlayout == combo_startlayout
        &&& !self.experimental_mode_unlocked
    }

    /// What a new game starts with unless it is set otherwise, given the rows
    /// for a game of combos.
    pub fn default_with(combo_startlayout: u16) -> (r: NewGameSettings)
        ensures
            r.is_default(combo_startlayout),
            r.wf(),
    {
        NewGameSettings {
            custom_fall_delay_params: DelayParameters::standard_fall(),
            custom_win_condition: None,
            custom_seed: None,
            custom_board: None,
            cheese_linelimit: Some(20),
            cheese_fall_delay: ExtDuration::Infinite,
            cheese_tiles_per_line: WIDTH - 1,
            combo_linelimit: Some(30),
            combo_startlayout,
            experimental_mode_unlocked: false,
        }
    }

    /// Limits and widths are not zero, and times are well-formed.
    pub open spec fn wf(self) -> bool {
        &&& (self.custom_win_condition matches Some(stat) ==> stat.wf())
        &&& self.cheese_linelimit != Some(0u32)
        &&& self.cheese_fall_delay.wf()
        &&& self.cheese_tiles_per_line != 0
        &&& self.combo_linelimit != Some(0u32)
    }
}

/// What `Configuration::default` of the engine says of how a game plays.
struct DefaultRules {
    rotation_system: RotationSystem,
    piece_preview_count: usize,
    delayed_auto_shift: Duration,
    auto_repeat_rate: Duration,
    soft_drop_divisor: ExtNonNegF64,
    line_clear_duration: Duration,
    spawn_delay: Duration,
    allow_prespawn_actions: bool,
}

/// `Configuration::default` of the engine: the fields that say how a game
/// plays.
#[verifier::external_body]
fn default_rules() -> (r: DefaultRules)
    ensures
        r.rotation_system == RotationSystem::Ocular,
        r.piece_preview_count == 4,
        time_value(r.delayed_auto_shift) == millis_time(167),
        time_value(r.auto_repeat_rate) == millis_time(33),
        number_bits(r.soft_drop_divisor) == BITS_TEN,
        time_value(r.line_clear_duration) == millis_time(200),
        time_value(r.spawn_delay) == millis_time(50),
        r.allow_prespawn_actions,
{
    let c = falling_tetromino_engine::Configuration::default();
    DefaultRules {
        rotation_system: match c.rotation_system {
            EngineRotationSystem::Ocular => RotationSystem::Ocular,
            EngineRotationSystem::Classic => RotationSystem::Classic,
            EngineRotationSystem::Super => RotationSystem::Super,
        },
        piece_preview_count: c.piece_preview_count, delayed_auto_shift: c.delayed_auto_shift,
        auto_repeat_rate: c.auto_repeat_rate, soft_drop_divisor: c.soft_drop_divisor,
        line_clear_duration: c.line_clear_duration, spawn_delay: c.spawn_delay,
        allow_prespawn_actions: c.allow_prespawn_actions,
    }
}

impl GameplaySettings {
    /// Whether these are the settings that hold unless they are set otherwise.
    pub open spec fn is_default(self) -> bool {
        &&& self.rotation_system == RotationSystem::Ocular
        &&& is_default_generator(generator_value(self.tetromino_generator))
        &&& self.piece_preview_count == 4
        &&& self.delayed_auto_shift == millis_time(167)
        &&& self.auto_repeat_rate == millis_time(33)
        &&& number_bits(self.soft_drop_factor) == BITS_TEN
        &&& self.line_clear_duration == millis_time(200)
        &&& self.spawn_delay == millis_time(50)
        &&& self.allow_prespawn_actions
    }
}

impl Default for GameplaySettings {
    fn default() -> (r: GameplaySettings)
        ensures
            r.is_default(),
            r.wf(),
    {
        let c = default_rules();
        GameplaySettings {
            rotation_system: c.rotation_system,
            tetromino_generator: TetrominoGenerator::default(),
            piece_preview_count: c.piece_preview_count,
            delayed_auto_shift: time_of(c.delayed_auto_shift),
            auto_repeat_rate: time_of(c.auto_repeat_rate),
            soft_drop_factor: c.soft_drop_divisor,
            line_clear_duration: time_of(c.line_clear_duration),
            spawn_delay: time_of(c.spawn_delay),
            allow_prespawn_actions: c.allow_prespawn_actions,
        }
    }
}

/// The names of the palettes that are there from the start. The first is the
/// one without colors.
pub const PALETTE_NAMES: [&'static str; 10] = [
    "Monochrome",
    "16-color",
    "Fullcolor",
    "Okpalette",
    "Gruvbox",
    "Solarized",
    "Terafox",
    "Fahrenheit",
    "The Matrix",
    "Sequoia",
];

/// The names of the keybinds that are there from the start.
pub const KEYBINDS_NAMES: [&'static str; 4] = ["Default", "Extra Finesse", "Vim", "Guideline"];

/// Slots with these names and contents, in order.
pub open spec fn slots_of<T>(slots: Seq<(String, T)>, names: Seq<&str>, contents: Seq<T>) -> bool {
    &&& slots.len() == names.len()
    &&& slots.len() == contents.len()
    &&& forall|i: int|
        0 <= i < slots.len() ==> (#[trigger] slots[i]).0@ == names[i]@ && slots[i].1 == contents[i]
}

impl Settings {
    /// The settings unless they are set otherwise, given the contents of the
    /// palettes and the keybinds and the rows for a game of combos.
    pub fn default_with(
        palettes: Vec<Palette>,
        keybinds: Vec<Keybinds>,
        combo_startlayout: u16,
    ) -> (r: Settings)
        requires
            palettes@.len() == 10,
            keybinds@.len() == 4,
        ensures
            r.graphics_slot_active == 0,
            r.keybinds_slot_active == 0,
            r.gameplay_slot_active == 0,
            r.graphics_slots_that_should_not_be_changed == 2,
            r.palette_slots_that_should_not_be_changed == 10,
            r.keybinds_slots_that_should_not_be_changed == 4,
            r.gameplay_slots_that_should_not_be_changed == 2,
            r.graphics_slots@.len() == 2,
            r.graphics_slots@[0].0@ == "Default"@,
            r.graphics_slots@[0].1 == GraphicsSettings::standard(),
            r.graphics_slots@[1].0@ == "Extra Focused"@,
            r.graphics_slots@[1].1 == (GraphicsSettings {
                palette_active: 2,
                palette_active_lockedtiles: 0,
                show_effects: false,
                game_fps: FrameRate { bits: FPS_60 },
                ..GraphicsSettings::standard()
            }),
            slots_of(r.palette_slots@, PALETTE_NAMES@, palettes@),
            slots_of(r.keybinds_slots@, KEYBINDS_NAMES@, keybinds@),
            r.gameplay_slots@.len() == 2,
            r.gameplay_slots@[0].0@ == "Default"@,
            r.gameplay_slots@[0].1.is_default(),
            r.gameplay_slots@[1].0@ == "Extra Finesse"@,
            exists|base: GameplaySettings|
                base.is_default() && r.gameplay_slots@[1].1 == (GameplaySettings {
                    delayed_auto_shift: millis_time(110),
                    auto_repeat_rate: millis_time(0),
                    piece_preview_count: 9,
                    ..base
                }),
            r.new_game.is_default(combo_startlayout),
            r.new_game.wf(),
            r.wf(),
    {
        let graphics_slots = vec![
            ("Default".to_owned(), GraphicsSettings::default()),
            (
                "Extra Focused".to_owned(),
                GraphicsSettings {
                    palette_active: 2,
                    palette_active_lockedtiles: 0,
                    show_effects: false,
                    game_fps: FrameRate { bits: FPS_60 },
                    ..GraphicsSettings::default()
                },
            ),
        ];
        let palette_slots = name_slots(&PALETTE_NAMES, palettes);
        let keybinds_slots = name_slots(&KEYBINDS_NAMES, keybinds);
        let base = GameplaySettings::default();
        let finesse = GameplaySettings {
            delayed_auto_shift: InGameTime::from_millis(110),
            auto_repeat_rate: InGameTime::from_millis(0),
            piece_preview_count: 9,
            ..base
        };
        let gameplay_slots = vec![
            ("Default".to_owned(), GameplaySettings::default()),
            ("Extra Finesse".to_owned(), finesse),
        ];
        proof {
            lemma_time_by_nanos(finesse.delayed_auto_shift, millis_time(110));
            lemma_time_by_nanos(finesse.auto_repeat_rate, millis_time(0));
        }
        assert(base.is_default() && finesse == (GameplaySettings {
            delayed_auto_shift: millis_time(110),
            auto_repeat_rate: millis_time(0),
            piece_preview_count: 9,
            ..base
        }));
        Settings {
            graphics_slot_active: 0,
            keybinds_slot_active: 0,
            gameplay_slot_active: 0,
            graphics_slots_that_should_not_be_changed: graphics_slots.len(),
            palette_slots_that_should_not_be_changed: palette_slots.len(),
            keybinds_slots_that_should_not_be_changed: keybinds_slots.len(),
            gameplay_slots_that_should_not_be_changed: gameplay_slots.len(),
            graphics_slots,
            palette_slots,
            keybinds_slots,
            gameplay_slots,
            new_game: NewGameSettings::default_with(combo_startlayout),
        }
    }
}

/// Gives names to contents, in order.
fn name_slots<T, const N: usize>(names: &[&'static str; N], contents: Vec<T>) -> (r: Slots<T>)
    requires
        contents@.len() == N,
    ensures
        slots_of(r@, names@, contents@),
{
    let mut r: Slots<T> = Vec::new();
    for content in iter: contents
        invariant
            contents@.len() == N,
            names@.len() == N,
            iter.seq() == contents@,
            r@.len() == iter.index(),
            forall|i: int|
                0 <= i < r@.len() ==> (#[trigger] r@[i]).0@ == names@[i]@ && r@[i].1
                    == contents@[i],
    {
        let k: usize = r.len();
        r.push((names[k].to_owned(), content));
    }
    r
}

// ---------------------------------------------------------------------------
// Tests for what can come from outside
// ---------------------------------------------------------------------------
impl NewGameSettings {
    /// Whether limits and widths are not zero, and times are well-formed.
    pub fn is_wf(&self) -> (b: bool)
        ensures
            b == self.wf(),
    {
        let win_wf = match self.custom_win_condition {
            Some(stat) => stat.is_wf(),
            None => true,
        };
        let cheese_wf = match self.cheese_linelimit {
            Some(n) => n != 0,
            None => true,
        };
        let combo_wf = match self.combo_linelimit {
            Some(n) => n != 0,
            None => true,
        };
        win_wf && cheese_wf && self.cheese_fall_delay.is_wf() && self.cheese_tiles_per_line != 0
            && combo_wf
    }
}

impl Settings {
    /// Whether the active slot of graphics settings exists, and so do their
    /// palettes.
    pub fn is_graphics_wf(&self) -> (b: bool)
        ensures
            b == self.graphics_wf(),
    {
        if self.graphics_slot_active >= self.graphics_slots.len() {
            return false;
        }
        let graphics = self.graphics();
        graphics.palette_active < self.palette_slots.len() && graphics.palette_active_lockedtiles
            < self.palette_slots.len()
    }

    /// Whether the active slot of gameplay settings exists, and their times are
    /// well-formed.
    pub fn is_gameplay_wf(&self) -> (b: bool)
        ensures
            b == self.gameplay_wf(),
    {
        if self.gameplay_slot_active >= self.gameplay_slots.len() {
            return false;
        }
        let gameplay = self.gameplay();
        gameplay.delayed_auto_shift.is_wf() && gameplay.auto_repeat_rate.is_wf()
            && gameplay.line_clear_duration.is_wf() && gameplay.spawn_delay.is_wf()
    }

    /// Whether every active slot exists, and so do the palettes of the active
    /// graphics settings.
    pub fn is_wf(&self) -> (b: bool)
        ensures
            b == self.wf(),
    {
        self.keybinds_slot_active < self.keybinds_slots.len() && self.is_graphics_wf()
            && self.is_gameplay_wf()
    }
}

/// The text of a board has a letter for every filled place and a space for every empty
/// one, row by row from the bottom up, and ends at the last filled place.
pub proof fn law_board_is_written_row_by_row(board: Board, x: int, y: int)
    requires
        0 <= x < 10,
        0 <= y < 27,
    ensures
        ({
            let text = encoded(board);
            let n = 10 * y + x;
            &&& board@[y]@[x] is Some ==> n < text.len() && text[n] == 'X'
            &&& board@[y]@[x] is None && n < text.len() ==> text[n] == ' '
            &&& text.len() <= 270
            &&& text.len() > 0 ==> text.last() == 'X'
        }),
{
    let n = 10 * y + x;
    assert(n / 10 == y && n % 10 == x);
    lemma_filled_extent(board, PLACES as int, n);
    lemma_extent_ends_filled(board, PLACES as int);
}

proof fn lemma_extent_ends_filled(board: Board, k: int)
    ensures
        filled_extent(board, k) <= if k > 0 {
            k
        } else {
            0
        },
        filled_extent(board, k) > 0 ==> place(board, filled_extent(board, k) - 1) is Some,
    decreases k,
{
    if k > 0 {
        lemma_extent_ends_filled(board, k - 1);
    }
}

/// Of a text without newlines, the places of the board are filled, with grey tiles,
/// where it has anything but a space.
pub proof fn law_board_is_read_row_by_row(text: Seq<char>, n: int)
    requires
        forall|i: int| 0 <= i < text.len() ==> #[trigger] text[i] != '\n',
        0 <= n,
    ensures
        decoded_place(text, n) == if n < text.len() && text[n] != ' ' {
            Some(254u8)
        } else {
            None
        },
{
    lemma_no_newlines(text);
}

proof fn lemma_newline_drops_out(a: Seq<char>, b: Seq<char>)
    ensures
        without_newlines(a.push('\n') + b) == without_newlines(a + b),
    decreases b.len(),
{
    reveal(Seq::filter);
    if b.len() == 0 {
        assert(a.push('\n') + b =~= a.push('\n'));
        assert(a + b =~= a);
        assert(a.push('\n').drop_last() =~= a);
    } else {
        lemma_newline_drops_out(a, b.drop_last());
        assert((a.push('\n') + b).drop_last() =~= a.push('\n') + b.drop_last());
        assert((a + b).drop_last() =~= a + b.drop_last());
    }
}

/// A newline anywhere in the text of a board makes no difference.
pub proof fn law_newlines_do_not_count(a: Seq<char>, b: Seq<char>, n: int)
    ensures
        decoded_place(a.push('\n') + b, n) == decoded_place(a + b, n),
{
    lemma_newline_drops_out(a, b);
}

/// The active settings are those in the active slots; the palette for pieces in play is
/// the one that the active graphics settings name for them, and that for locked tiles
/// the one that they name for those.
pub proof fn law_active_settings_are_those_in_active_slots(settings: Settings)
    ensures
        ({
            let graphics = settings.graphics_slots@[settings.graphics_slot_active as int].1;
            &&& settings.active_graphics() == graphics
            &&& settings.active_gameplay()
                == settings.gameplay_slots@[settings.gameplay_slot_active as int].1
            &&& settings.active_palette()
                == settings.palette_slots@[graphics.palette_active as int].1@
            &&& settings.active_palette_lockedtiles()
                == settings.palette_slots@[graphics.palette_active_lockedtiles as int].1@
        }),
{
}

/// Unless it is set otherwise, pieces are moved again after 167 milliseconds and then
/// every 33, lines take 200 milliseconds to clear and pieces 50 to appear, and four
/// pieces to come are shown; games of cheese have 20 lines of nine tiles each, and
/// games of combos 30 lines.
pub proof fn law_defaults(gameplay: GameplaySettings, new_game: NewGameSettings, layout: u16)
    requires
        gameplay.is_default(),
        new_game.is_default(layout),
    ensures
        gameplay.delayed_auto_shift.nanos() == 167_000_000,
        gameplay.auto_repeat_rate.nanos() == 33_000_000,
        gameplay.line_clear_duration.nanos() == 200_000_000,
        gameplay.spawn_delay.nanos() == 50_000_000,
        gameplay.piece_preview_count == 4,
        gameplay.allow_prespawn_actions,
        gameplay.rotation_system == RotationSystem::Ocular,
        new_game.custom_seed is None && new_game.custom_board is None,
        new_game.custom_win_condition is None,
        new_game.cheese_linelimit == Some(20u32),
        new_game.cheese_tiles_per_line == 9,
        new_game.cheese_fall_delay == ExtDuration::Infinite,
        new_game.combo_linelimit == Some(30u32),
        new_game.combo_startlayout == layout,
        !new_game.experimental_mode_unlocked,
{
}

/// Unless it is set otherwise, effects and the shadow of a piece are shown, and nothing
/// is hidden.
pub proof fn law_standard_graphics()
    ensures
        GraphicsSettings::standard().show_effects,
        GraphicsSettings::standard().show_shadow_piece,
        !GraphicsSettings::standard().blindfolded,
        !GraphicsSettings::standard().show_button_state,
        GraphicsSettings::standard().glyphset == Glyphset::Unicode,
        GraphicsSettings::standard().palette_active
            == GraphicsSettings::standard().palette_active_lockedtiles,
{
}

/// Slots that come of names and contents have them in pairs and in their order.
pub proof fn law_slots_pair_names_with_contents<T>(
    slots: Seq<(String, T)>,
    names: Seq<&str>,
    contents: Seq<T>,
    i: int,
)
    requires
        slots_of(slots, names, contents),
        0 <= i < names.len(),
    ensures
        slots.len() == names.len(),
        slots[i].0@ == names[i]@,
        slots[i].1 == contents[i],
{
}

} // verus!

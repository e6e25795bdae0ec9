//! What the frontend knows of a game: its vocabulary and a snapshot of its
//! state.
use crate::text::{decimal, decimal_of};
use crate::time::{ExtDuration, InGameTime};
use vstd::prelude::*;
use vstd::string::*;

verus! {

/// Columns of the board.
pub const WIDTH: usize = 10;

/// Rows of the board, counted from the bottom.
pub const HEIGHT: usize = 27;

/// Rows of the board that are shown below the skyline.
pub const SKYLINE_HEIGHT: usize = 20;

/// The kind of a tile; never zero.
pub type TileTypeID = u8;

/// A column and a row of the board, counted from the lower left.
pub type Coord = (usize, usize);

/// A tile of a piece.
pub type Tile = (Coord, TileTypeID);

/// The board: rows from the bottom up, each with its tiles.
pub type Board = [[Option<u8>; 10]; 27];

/// One of the seven tetrominos.
#[derive(PartialEq, Eq, Structural, PartialOrd, Ord, Hash, Clone, Copy, Debug)]
pub enum Tetromino {
    /// The square.
    O,
    /// The straight line.
    I,
    /// The right-handed snake.
    S,
    /// The left-handed snake.
    Z,
    /// The junction.
    T,
    /// The right-handed hook.
    L,
    /// The left-handed hook.
    J,
}

impl Tetromino {
    /// All tetrominos, in the order of their numbers.
    pub const VARIANTS: [Tetromino; 7] = [
        Tetromino::O,
        Tetromino::I,
        Tetromino::S,
        Tetromino::Z,
        Tetromino::T,
        Tetromino::L,
        Tetromino::J,
    ];

    /// The tetromino's number.
    pub open spec fn number(self) -> int {
        match self {
            Tetromino::O => 0,
            Tetromino::I => 1,
            Tetromino::S => 2,
            Tetromino::Z => 3,
            Tetromino::T => 4,
            Tetromino::L => 5,
            Tetromino::J => 6,
        }
    }

    /// The tetromino's number.
    pub fn index(self) -> (i: usize)
        ensures
            i == self.number(),
            i < 7,
            Tetromino::VARIANTS[i as int] == self,
    {
        match self {
            Tetromino::O => 0,
            Tetromino::I => 1,
            Tetromino::S => 2,
            Tetromino::Z => 3,
            Tetromino::T => 4,
            Tetromino::L => 5,
            Tetromino::J => 6,
        }
    }

    /// The kind of tile that the tetromino is made of.
    pub open spec fn tile_type(self) -> u8 {
        (self.number() + 1) as u8
    }

    /// The kind of tile that the tetromino is made of.
    pub fn tiletypeid(self) -> (id: TileTypeID)
        ensures
            id == self.tile_type(),
    {
        self.index() as u8 + 1
    }

    /// The tetromino's letter.
    pub open spec fn letter(self) -> char {
        match self {
            Tetromino::O => 'O',
            Tetromino::I => 'I',
            Tetromino::S => 'S',
            Tetromino::Z => 'Z',
            Tetromino::T => 'T',
            Tetromino::L => 'L',
            Tetromino::J => 'J',
        }
    }

    /// The tetromino's letter.
    pub fn name(self) -> (c: char)
        ensures
            c == self.letter(),
    {
        match self {
            Tetromino::O => 'O',
            Tetromino::I => 'I',
            Tetromino::S => 'S',
            Tetromino::Z => 'Z',
            Tetromino::T => 'T',
            Tetromino::L => 'L',
            Tetromino::J => 'J',
        }
    }
}

/// The way a piece is turned.
#[derive(PartialEq, Eq, Structural, PartialOrd, Ord, Hash, Clone, Copy, Debug)]
pub enum Orientation {
    /// North: upright.
    N,
    /// East: turned right once.
    E,
    /// South: turned around.
    S,
    /// West: turned left once.
    W,
}

impl Orientation {
    /// All orientations, in the order of their numbers.
    pub const VARIANTS: [Orientation; 4] = [
        Orientation::N,
        Orientation::E,
        Orientation::S,
        Orientation::W,
    ];
}

/// A piece on the board.
#[derive(PartialEq, Eq, PartialOrd, Ord, Hash, Clone, Copy, Debug)]
pub struct Piece {
    /// What kind of piece it is.
    pub tetromino: Tetromino,
    /// How it is turned.
    pub orientation: Orientation,
    /// Where its lower left lies.
    pub position: Coord,
}

/// Where the four minos of a tetromino lie, counted from its lower left.
pub open spec fn minos(tetromino: Tetromino, oriented: Orientation) -> Seq<Coord> {
    match (tetromino, oriented) {
        (Tetromino::O, _) => seq![(0, 0), (1, 0), (0, 1), (1, 1)],
        (Tetromino::I, Orientation::N | Orientation::S) => seq![(0, 0), (1, 0), (2, 0), (3, 0)],
        (Tetromino::I, _) => seq![(0, 0), (0, 1), (0, 2), (0, 3)],
        (Tetromino::S, Orientation::N | Orientation::S) => seq![(0, 0), (1, 0), (2, 1), (1, 1)],
        (Tetromino::S, _) => seq![(1, 0), (0, 1), (1, 1), (0, 2)],
        (Tetromino::Z, Orientation::N | Orientation::S) => seq![(1, 0), (2, 0), (0, 1), (1, 1)],
        (Tetromino::Z, _) => seq![(0, 0), (1, 1), (0, 1), (1, 2)],
        (Tetromino::T, Orientation::N) => seq![(0, 0), (1, 0), (2, 0), (1, 1)],
        (Tetromino::T, Orientation::E) => seq![(0, 0), (1, 1), (0, 1), (0, 2)],
        (Tetromino::T, Orientation::S) => seq![(1, 0), (0, 1), (2, 1), (1, 1)],
        (Tetromino::T, Orientation::W) => seq![(1, 0), (0, 1), (1, 1), (1, 2)],
        (Tetromino::L, Orientation::N) => seq![(0, 0), (1, 0), (2, 0), (2, 1)],
        (Tetromino::L, Orientation::E) => seq![(0, 0), (1, 0), (0, 1), (0, 2)],
        (Tetromino::L, Orientation::S) => seq![(0, 0), (1, 1), (2, 1), (0, 1)],
        (Tetromino::L, Orientation::W) => seq![(1, 0), (0, 2), (1, 1), (1, 2)],
        (Tetromino::J, Orientation::N) => seq![(0, 0), (1, 0), (2, 0), (0, 1)],
        (Tetromino::J, Orientation::E) => seq![(0, 0), (1, 2), (0, 1), (0, 2)],
        (Tetromino::J, Orientation::S) => seq![(2, 0), (0, 1), (1, 1), (2, 1)],
        (Tetromino::J, Orientation::W) => seq![(0, 0), (1, 0), (1, 1), (1, 2)],
    }
}

/// Every tile of the board has a kind.
pub open spec fn board_wf(board: Board) -> bool {
    forall|y: int, x: int|
        0 <= y < HEIGHT && 0 <= x < WIDTH ==> #[trigger] board@[y]@[x] != Some(0u8)
}

impl Piece {
    /// The piece's tiles.
    pub open spec fn tile_seq(self) -> Seq<Tile> {
        let minos = minos(self.tetromino, self.orientation);
        Seq::new(
            4,
            |i: int|
                (
                    (
                        (self.position.0 + minos[i].0) as usize,
                        (self.position.1 + minos[i].1) as usize,
                    ),
                    self.tetromino.tile_type(),
                ),
        )
    }

    /// The columns and rows of the piece's tiles can be numbered.
    pub open spec fn in_range(self) -> bool {
        self.position.0 <= usize::MAX - 3 && self.position.1 <= usize::MAX - 3
    }

    /// The piece's tiles lie in columns that can be drawn.
    pub open spec fn wf(self) -> bool {
        self.in_range() && tiles_wf(self.tile_seq())
    }

    /// Whether the piece lies on free places of the board.
    pub open spec fn fits(self, board: Board) -> bool {
        forall|i: int|
            0 <= i < 4 ==> {
                let (x, y) = (#[trigger] self.tile_seq()[i]).0;
                x < WIDTH && y < HEIGHT && board@[y as int]@[x as int] is None
            }
    }

    /// The piece one row further down.
    pub open spec fn lowered(self) -> Piece {
        Piece { position: (self.position.0, (self.position.1 - 1) as usize), ..self }
    }

    /// The piece moved down as far as it goes.
    pub open spec fn landing(self, board: Board) -> Piece
        decreases self.position.1,
    {
        if self.position.1 > 0 && self.lowered().fits(board) {
            self.lowered().landing(board)
        } else {
            self
        }
    }
}

/// A piece that moves down keeps its columns.
pub proof fn lemma_landing_wf(piece: Piece, board: Board)
    requires
        piece.wf(),
    ensures
        piece.landing(board).wf(),
    decreases piece.position.1,
{
    if piece.position.1 > 0 && piece.lowered().fits(board) {
        let low = piece.lowered();
        lemma_landing_wf(low, board);
    }
}

/// A statistic of a game, with the value that it is held against.
#[derive(PartialEq, Eq, Structural, PartialOrd, Ord, Hash, Clone, Copy, Debug)]
pub enum Stat {
    /// Time that has passed in the game.
    TimeElapsed(InGameTime),
    /// Pieces that were locked.
    PiecesLocked(u32),
    /// Lines that were cleared.
    LinesCleared(u32),
    /// Points that were scored.
    PointsScored(u32),
}

impl Stat {
    /// A time is well-formed.
    pub open spec fn wf(self) -> bool {
        match self {
            Stat::TimeElapsed(t) => t.wf(),
            _ => true,
        }
    }
}

/// How a game was lost.
#[derive(PartialEq, Eq, Structural, PartialOrd, Ord, Hash, Clone, Copy, Debug)]
pub enum GameOver {
    /// A piece locked entirely above the skyline.
    LockOut,
    /// A new piece had no room.
    BlockOut,
    /// A limit was reached that ends the game as lost.
    Limit(Stat),
    /// The player gave up.
    Forfeit,
}

/// How a game ended.
#[derive(PartialEq, Eq, Structural, PartialOrd, Ord, Hash, Clone, Copy, Debug)]
pub enum GameResult {
    /// Completed, by meeting this condition.
    Completed(Stat),
    /// Lost.
    Lost(GameOver),
}

/// `format!` of a `std::time::Duration` with `{:?}`.
pub uninterp spec fn duration_debug(secs: u64, subsec_nanos: u32) -> Seq<char>;

/// Writes a duration of whole seconds and nanoseconds as the standard
/// library's `Debug` for `Duration` does; the text is a function of the two
/// numbers and of nothing else.
#[verifier::external_body]
fn duration_debug_text(secs: u64, subsec_nanos: u32) -> (s: String)
    requires
        subsec_nanos < 1_000_000_000,
    ensures
        s@ == duration_debug(secs, subsec_nanos),
{
    format!("{:?}", std::time::Duration::new(secs, subsec_nanos))
}

/// A statistic with its value, in words.
pub open spec fn stat_text(stat: Stat) -> Seq<char> {
    match stat {
        Stat::TimeElapsed(t) => "TimeElapsed("@ + duration_debug(t.secs, t.subsec_nanos) + ")"@,
        Stat::PiecesLocked(n) => "PiecesLocked("@ + decimal(n as nat) + ")"@,
        Stat::LinesCleared(n) => "LinesCleared("@ + decimal(n as nat) + ")"@,
        Stat::PointsScored(n) => "PointsScored("@ + decimal(n as nat) + ")"@,
    }
}

/// The way in which a game was lost, in words.
pub open spec fn game_over_text(cause: GameOver) -> Seq<char> {
    match cause {
        GameOver::LockOut => "LockOut"@,
        GameOver::BlockOut => "BlockOut"@,
        GameOver::Limit(stat) => "Limit("@ + stat_text(stat) + ")"@,
        GameOver::Forfeit => "Forfeit"@,
    }
}

/// Three texts, one after the other.
pub fn join3(a: &str, b: &str, c: &str) -> (r: String)
    ensures
        r@ == a@ + b@ + c@,
{
    let mut r = a.to_owned();
    r.append(b);
    r.append(c);
    r
}

impl Stat {
    /// The statistic with its value, in words.
    pub fn describe(self) -> (s: String)
        requires
            self.wf(),
        ensures
            s@ == stat_text(self),
    {
        match self {
            Stat::TimeElapsed(t) => join3(
                "TimeElapsed(",
                duration_debug_text(t.secs, t.subsec_nanos).as_str(),
                ")",
            ),
            Stat::PiecesLocked(n) => join3("PiecesLocked(", decimal_of(n as u128).as_str(), ")"),
            Stat::LinesCleared(n) => join3("LinesCleared(", decimal_of(n as u128).as_str(), ")"),
            Stat::PointsScored(n) => join3("PointsScored(", decimal_of(n as u128).as_str(), ")"),
        }
    }
}

impl GameOver {
    /// A limit is well-formed.
    pub open spec fn wf(self) -> bool {
        match self {
            GameOver::Limit(stat) => stat.wf(),
            _ => true,
        }
    }

    /// The way in which the game was lost, in words.
    pub fn describe(self) -> (s: String)
        requires
            self.wf(),
        ensures
            s@ == game_over_text(self),
    {
        match self {
            GameOver::LockOut => "LockOut".to_owned(),
            GameOver::BlockOut => "BlockOut".to_owned(),
            GameOver::Limit(stat) => join3("Limit(", stat.describe().as_str(), ")"),
            GameOver::Forfeit => "Forfeit".to_owned(),
        }
    }
}

impl GameResult {
    /// What the result carries is well-formed.
    pub open spec fn wf(self) -> bool {
        match self {
            GameResult::Completed(stat) => stat.wf(),
            GameResult::Lost(cause) => cause.wf(),
        }
    }

    /// Whether the game was completed.
    pub fn is_ok(&self) -> (b: bool)
        ensures
            b == (*self is Completed),
    {
        match self {
            GameResult::Completed(_) => true,
            GameResult::Lost(_) => false,
        }
    }
}

/// Something that happened in the game and can be shown to the player.
#[derive(PartialEq, Eq, PartialOrd, Ord, Hash, Clone, Debug)]
pub enum Feedback {
    /// A piece was locked.
    PieceLocked {
        /// The piece.
        piece: Piece,
    },
    /// Lines are being cleared.
    LinesClearing {
        /// The rows that are cleared.
        y_coords: Vec<usize>,
        /// How long clearing them takes.
        line_clear_start: InGameTime,
    },
    /// A piece was dropped at once.
    HardDrop {
        /// The piece as it was before.
        old_piece: Piece,
        /// The piece where it came to rest.
        new_piece: Piece,
    },
    /// Lines were cleared, possibly in a way that is worth more points.
    Accolade {
        /// Points for it.
        score_bonus: u32,
        /// How many lines were cleared together.
        lineclears: u32,
        /// How many pieces in a row have cleared lines.
        combo: u32,
        /// Whether the piece was spun into place.
        is_spin: bool,
        /// Whether the board was left empty.
        is_perfect_clear: bool,
        /// The piece that did it.
        tetromino: Tetromino,
    },
    /// The game has ended.
    GameEnded {
        /// How it ended.
        result: GameResult,
    },
    /// An internal event of the game.
    Debug(String),
    /// Any other text.
    Text(String),
}

/// A column whose place on the screen can be numbered.
pub open spec fn column_wf(x: usize) -> bool {
    26 + 2 * x <= usize::MAX
}

/// A tile in a column that can be drawn.
pub open spec fn tile_wf(tile: Tile) -> bool {
    column_wf(tile.0.0)
}

/// Tiles in columns that can be drawn.
pub open spec fn tiles_wf(tiles: Seq<Tile>) -> bool {
    forall|i: int| 0 <= i < tiles.len() ==> tile_wf(#[trigger] tiles[i])
}

impl Feedback {
    /// Tiles lie in columns that can be drawn, cleared lines at most just above the
    /// skyline, and times are well-formed.
    pub open spec fn wf(self) -> bool {
        match self {
            Feedback::PieceLocked { piece } => piece.wf(),
            Feedback::LinesClearing { y_coords, line_clear_start } => line_clear_start.wf()
                && forall|i: int|
                0 <= i < y_coords@.len() ==> #[trigger] y_coords@[i] <= SKYLINE_HEIGHT + 1,
            Feedback::HardDrop { new_piece, .. } => new_piece.wf(),
            Feedback::GameEnded { result } => result.wf(),
            _ => true,
        }
    }
}

/// The state of a game at one moment, as far as the frontend shows or records
/// it.
#[derive(PartialEq, Eq, PartialOrd, Ord, Hash, Clone, Debug)]
pub struct GameSnapshot {
    /// The time in the game.
    pub time: InGameTime,
    /// Which buttons are down, by number.
    pub buttons_pressed: [bool; 11],
    /// The pieces to come.
    pub piece_preview: Vec<Tetromino>,
    /// The piece that is held, and whether it may be swapped back in.
    pub piece_held: Option<(Tetromino, bool)>,
    /// The locked tiles.
    pub board: Board,
    /// How long a piece takes to fall by one row.
    pub fall_delay: ExtDuration,
    /// Whether the fall delay has reached its lower bound.
    pub fall_delay_lowerbound_hit: bool,
    /// How long a piece takes to lock.
    pub lock_delay: ExtDuration,
    /// How many pieces of each kind were locked.
    pub pieces_locked: [u32; 7],
    /// How many lines were cleared.
    pub lineclears: u32,
    /// The points scored.
    pub score: u32,
    /// What ends the game, and whether that completes it.
    pub end_conditions: Vec<(Stat, bool)>,
    /// Whether the lock delay never changes.
    pub lock_delay_is_constant: bool,
    /// The piece in play.
    pub piece_in_play: Option<Piece>,
    /// How the game ended, if it has.
    pub result: Option<GameResult>,
}

/// The sum of the first `k` counts.
pub open spec fn count_sum(counts: Seq<u32>, k: int) -> nat
    decreases k,
{
    if k <= 0 {
        0
    } else {
        count_sum(counts, k - 1) + counts[k - 1] as nat
    }
}

/// How many pieces were locked altogether.
pub open spec fn total_pieces(pieces_locked: Seq<u32>) -> nat {
    count_sum(pieces_locked, 7)
}

impl GameSnapshot {
    /// Times are well-formed, the pieces can be counted, and the piece in play lies
    /// in columns that can be drawn.
    pub open spec fn wf(self) -> bool {
        &&& self.time.wf()
        &&& self.fall_delay.wf()
        &&& self.lock_delay.wf()
        &&& total_pieces(self.pieces_locked@) <= u32::MAX
        &&& forall|i: int|
            0 <= i < self.end_conditions@.len() ==> (#[trigger] self.end_conditions@[i]).0.wf()
        &&& board_wf(self.board)
        &&& (self.piece_in_play matches Some(piece) ==> piece.wf())
        &&& (self.result matches Some(r) ==> r.wf())
    }
}

/// How many pieces were locked altogether.
pub fn sum_of_pieces(pieces_locked: &[u32; 7]) -> (n: u32)
    requires
        total_pieces(pieces_locked@) <= u32::MAX,
    ensures
        n == total_pieces(pieces_locked@),
{
    let mut n: u32 = 0;
    for k in 0..7
        invariant
            n == count_sum(pieces_locked@, k as int),
            total_pieces(pieces_locked@) <= u32::MAX,
    {
        proof {
            lemma_count_sum_monotonic(pieces_locked@, k + 1, 7);
        }
        n = n + pieces_locked[k];
    }
    n
}

/// Adding counts does not lower the sum.
pub proof fn lemma_count_sum_monotonic(counts: Seq<u32>, j: int, k: int)
    requires
        j <= k,
    ensures
        count_sum(counts, j) <= count_sum(counts, k),
    decreases k - j,
{
    if j < k {
        lemma_count_sum_monotonic(counts, j, k - 1);
    }
}

/// What is recorded of a game apart from how it went.
#[derive(PartialEq, Eq, PartialOrd, Ord, Hash, Debug)]
pub struct GameMetaData {
    /// When the game was started.
    pub datetime: String,
    /// The name of the game mode.
    pub title: String,
    /// The statistic by which games of the mode are compared, and whether less
    /// of it is better.
    pub comparison_stat: (Stat, bool),
}

impl Clone for GameMetaData {
    fn clone(&self) -> (r: GameMetaData)
        ensures
            r == *self,
    {
        GameMetaData {
            datetime: self.datetime.clone(),
            title: self.title.clone(),
            comparison_stat: self.comparison_stat,
        }
    }
}

// ---------------------------------------------------------------------------
// Tests for what can come from outside
// ---------------------------------------------------------------------------
impl InGameTime {
    /// Whether the part below a second is really below a second.
    pub fn is_wf(self) -> (b: bool)
        ensures
            b == self.wf(),
    {
        self.subsec_nanos < 1_000_000_000
    }
}

impl ExtDuration {
    /// Whether a finite span is well-formed.
    pub fn is_wf(self) -> (b: bool)
        ensures
            b == self.wf(),
    {
        match self {
            ExtDuration::Finite(t) => t.is_wf(),
            ExtDuration::Infinite => true,
        }
    }
}

impl Stat {
    /// Whether a time is well-formed.
    pub fn is_wf(self) -> (b: bool)
        ensures
            b == self.wf(),
    {
        match self {
            Stat::TimeElapsed(t) => t.is_wf(),
            _ => true,
        }
    }
}

impl GameResult {
    /// Whether what the result carries is well-formed.
    pub fn is_wf(self) -> (b: bool)
        ensures
            b == self.wf(),
    {
        match self {
            GameResult::Completed(stat) => stat.is_wf(),
            GameResult::Lost(GameOver::Limit(stat)) => stat.is_wf(),
            GameResult::Lost(_) => true,
        }
    }
}

impl Piece {
    /// Whether the piece's tiles lie in columns that can be drawn.
    pub fn is_wf(&self) -> (b: bool)
        ensures
            b == self.wf(),
    {
        if self.position.0 > usize::MAX - 3 || self.position.1 > usize::MAX - 3 {
            return false;
        }
        let tiles = self.tiles();
        for k in 0..4usize
            invariant
                tiles@ == self.tile_seq(),
                self.in_range(),
                forall|i: int| 0 <= i < k ==> tile_wf(#[trigger] tiles@[i]),
        {
            if tiles[k].0.0 > (usize::MAX - 26) / 2 {
                return false;
            }
        }
        true
    }
}

fn are_rows_shown(y_coords: &Vec<usize>) -> (b: bool)
    ensures
        b == forall|i: int|
            0 <= i < y_coords@.len() ==> #[trigger] y_coords@[i] <= SKYLINE_HEIGHT + 1,
{
    for k in 0..y_coords.len()
        invariant
            forall|i: int| 0 <= i < k ==> #[trigger] y_coords@[i] <= SKYLINE_HEIGHT + 1,
    {
        if y_coords[k] > SKYLINE_HEIGHT + 1 {
            return false;
        }
    }
    true
}

impl Feedback {
    /// Whether tiles lie in columns that can be drawn, cleared lines at most just above
    /// the skyline, and times are well-formed.
    pub fn is_wf(&self) -> (b: bool)
        ensures
            b == self.wf(),
    {
        match self {
            Feedback::PieceLocked { piece } => piece.is_wf(),
            Feedback::LinesClearing { y_coords, line_clear_start } => {
                are_rows_shown(y_coords) && line_clear_start.is_wf()
            },
            Feedback::HardDrop { new_piece, .. } => new_piece.is_wf(),
            Feedback::GameEnded { result } => result.is_wf(),
            _ => true,
        }
    }
}

/// Whether pieces can be counted.
pub fn is_countable(pieces_locked: &[u32; 7]) -> (b: bool)
    ensures
        b == (total_pieces(pieces_locked@) <= u32::MAX),
{
    let mut n: u64 = 0;
    for k in 0..7usize
        invariant
            n == count_sum(pieces_locked@, k as int),
            n <= k * u32::MAX,
    {
        n = n + pieces_locked[k] as u64;
    }
    n <= u32::MAX as u64
}

fn is_board_wf(board: &Board) -> (b: bool)
    ensures
        b == board_wf(*board),
{
    for y in 0..HEIGHT
        invariant
            forall|j: int, x: int|
                0 <= j < y && 0 <= x < WIDTH ==> #[trigger] board@[j]@[x] != Some(0u8),
    {
        for x in 0..WIDTH
            invariant
                0 <= y < HEIGHT,
                forall|j: int, i: int|
                    0 <= j < y && 0 <= i < WIDTH ==> #[trigger] board@[j]@[i] != Some(0u8),
                forall|i: int| 0 <= i < x ==> #[trigger] board@[y as int]@[i] != Some(0u8),
        {
            if let Some(kind) = board[y][x] {
                if kind == 0 {
                    return false;
                }
            }
        }
    }
    true
}

impl GameSnapshot {
    /// Whether times are well-formed, the pieces can be counted, tiles have a
    /// kind, and a piece in play lies in columns that can be drawn.
    pub fn is_wf(&self) -> (b: bool)
        ensures
            b == self.wf(),
    {
        for k in 0..self.end_conditions.len()
            invariant
                forall|i: int|
                    0 <= i < k ==> (#[trigger] self.end_conditions@[i]).0.wf(),
        {
            if !self.end_conditions[k].0.is_wf() {
                return false;
            }
        }
        let piece_wf = match &self.piece_in_play {
            Some(piece) => piece.is_wf(),
            None => true,
        };
        let result_wf = match self.result {
            Some(result) => result.is_wf(),
            None => true,
        };
        self.time.is_wf() && self.fall_delay.is_wf() && self.lock_delay.is_wf() && is_countable(
            &self.pieces_locked,
        ) && is_board_wf(&self.board) && piece_wf && result_wf
    }
}

} // verus!

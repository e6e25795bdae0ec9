//! The game engine, as far as the frontend calls it.
use crate::game::{
    board_wf, minos, Board, Coord, GameOver, GameResult, Orientation, Piece, Stat, Tetromino, Tile,
};
use crate::time::{ExtDuration, InGameTime};
use falling_tetromino_engine::{
    DelayParameters, ExtNonNegF64, GameOver as EngineGameOver, Stat as EngineStat,
    TetrominoGenerator,
};
use std::time::Duration;
use vstd::prelude::*;

verus! {

/// The engine's way of picking the next piece.
#[verifier::external_type_specification]
#[verifier::external_body]
pub struct ExTetrominoGenerator(falling_tetromino_engine::TetrominoGenerator);

/// The engine's non-negative number that may be infinite.
#[verifier::external_type_specification]
#[verifier::external_body]
pub struct ExExtNonNegF64(falling_tetromino_engine::ExtNonNegF64);

/// The engine's rule for how a delay shrinks during a game.
#[verifier::external_type_specification]
#[verifier::external_body]
pub struct ExDelayParameters(falling_tetromino_engine::DelayParameters);

/// `Tetromino::minos` of the engine for a tetromino that faces north: the four
/// offsets in the order of the engine's table.
#[verifier::external_body]
fn minos_by_number(number: usize) -> (r: [Coord; 4])
    requires
        number < 7,
    ensures
        r@ == minos(Tetromino::VARIANTS[number as int], Orientation::N),
{
    falling_tetromino_engine::Tetromino::VARIANTS[number].minos(
        falling_tetromino_engine::Orientation::N,
    )
}

/// Where the four minos of an upright tetromino lie.
pub fn minos_upright(tetromino: Tetromino) -> (r: [Coord; 4])
    ensures
        r@ == minos(tetromino, Orientation::N),
{
    minos_by_number(tetromino.index())
}

/// `Piece::tiles` of the engine: the offsets of the piece's minos, counted from
/// its position, each with the tile kind of its tetromino.
#[verifier::external_body]
fn piece_tiles(piece: &Piece) -> (r: [Tile; 4])
    requires
        piece.in_range(),
    ensures
        r@ == piece.tile_seq(),
{
    let engine_piece = falling_tetromino_engine::Piece {
        tetromino: falling_tetromino_engine::Tetromino::VARIANTS[piece.tetromino as usize],
        orientation: falling_tetromino_engine::Orientation::VARIANTS[piece.orientation as usize],
        position: piece.position,
    };
    engine_piece.tiles().map(|(place, kind)| (place, kind.get()))
}

/// `Piece::teleported` of the engine, straight down: the piece moved down row
/// by row for as long as it fits there.
#[verifier::external_body]
fn piece_landed(piece: &Piece, board: &Board) -> (r: Piece)
    requires
        piece.in_range(),
        board_wf(*board),
    ensures
        r == piece.landing(*board),
{
    let engine_piece = falling_tetromino_engine::Piece {
        tetromino: falling_tetromino_engine::Tetromino::VARIANTS[piece.tetromino as usize],
        orientation: falling_tetromino_engine::Orientation::VARIANTS[piece.orientation as usize],
        position: piece.position,
    };
    let engine_board = board.map(|line| line.map(|tile| tile.and_then(std::num::NonZeroU8::new)));
    let position = engine_piece.teleported(&engine_board, (0, -1)).position;
    Piece { tetromino: piece.tetromino, orientation: piece.orientation, position }
}

impl Piece {
    /// The piece's tiles.
    pub fn tiles(&self) -> (r: [Tile; 4])
        requires
            self.in_range(),
        ensures
            r@ == self.tile_seq(),
    {
        piece_tiles(self)
    }

    /// The piece moved down as far as it goes.
    pub fn landed(&self, board: &Board) -> (r: Piece)
        requires
            self.in_range(),
            board_wf(*board),
        ensures
            r == self.landing(*board),
    {
        piece_landed(self, board)
    }
}

// ---------------------------------------------------------------------------
// Times
// ---------------------------------------------------------------------------
/// `Duration::as_secs`.
pub uninterp spec fn duration_secs(d: Duration) -> u64;

/// `Duration::subsec_nanos`.
pub uninterp spec fn duration_nanos(d: Duration) -> u32;

/// The whole seconds of a duration.
pub assume_specification[ Duration::as_secs ](d: &Duration) -> (r: u64)
    ensures
        r == duration_secs(*d),
;

/// The nanoseconds of a duration below a second, of which there are fewer than
/// a whole second has.
pub assume_specification[ Duration::subsec_nanos ](d: &Duration) -> (r: u32)
    ensures
        r == duration_nanos(*d),
        r < 1_000_000_000,
;

/// A duration of the given seconds and nanoseconds, where the latter do not
/// carry over.
pub assume_specification[ Duration::new ](secs: u64, nanos: u32) -> (r: Duration)
    requires
        nanos < 1_000_000_000,
    ensures
        duration_secs(r) == secs,
        duration_nanos(r) == nanos,
;

/// The time that a duration of the engine stands for.
pub open spec fn time_value(d: Duration) -> InGameTime {
    InGameTime { secs: duration_secs(d), subsec_nanos: duration_nanos(d) }
}

/// The time that a duration of the engine stands for.
pub fn time_of(d: Duration) -> (t: InGameTime)
    ensures
        t == time_value(d),
        t.wf(),
{
    InGameTime { secs: d.as_secs(), subsec_nanos: d.subsec_nanos() }
}

/// The engine's duration for a time.
pub fn duration_of(t: InGameTime) -> (d: Duration)
    requires
        t.wf(),
    ensures
        time_value(d) == t,
{
    Duration::new(t.secs, t.subsec_nanos)
}

// ---------------------------------------------------------------------------
// Statistics and results
// ---------------------------------------------------------------------------
/// The engine's statistic with a value.
#[verifier::external_type_specification]
#[verifier::external_body]
pub struct ExEngineStat(EngineStat);

/// The engine's way in which a game was lost.
#[verifier::external_type_specification]
#[verifier::external_body]
pub struct ExEngineGameOver(EngineGameOver);

/// What a statistic of the engine says.
pub uninterp spec fn stat_value(stat: EngineStat) -> Stat;

/// What a cause of the engine for losing a game says.
pub uninterp spec fn game_over_value(cause: EngineGameOver) -> GameOver;

/// Reads a statistic of the engine, variant by variant.
#[verifier::external_body]
pub(crate) fn stat_of(stat: &EngineStat) -> (r: Stat)
    ensures
        r == stat_value(*stat),
        r.wf(),
{
    match stat {
        EngineStat::TimeElapsed(t) => Stat::TimeElapsed(
            InGameTime { secs: t.as_secs(), subsec_nanos: t.subsec_nanos() },
        ),
        EngineStat::PiecesLocked(n) => Stat::PiecesLocked(*n),
        EngineStat::LinesCleared(n) => Stat::LinesCleared(*n),
        EngineStat::PointsScored(n) => Stat::PointsScored(*n),
    }
}

/// Makes a statistic of the engine, variant by variant.
#[verifier::external_body]
pub(crate) fn engine_stat_of(stat: Stat) -> (r: EngineStat)
    requires
        stat.wf(),
    ensures
        stat_value(r) == stat,
{
    match stat {
        Stat::TimeElapsed(t) => EngineStat::TimeElapsed(Duration::new(t.secs, t.subsec_nanos)),
        Stat::PiecesLocked(n) => EngineStat::PiecesLocked(n),
        Stat::LinesCleared(n) => EngineStat::LinesCleared(n),
        Stat::PointsScored(n) => EngineStat::PointsScored(n),
    }
}

/// Reads the engine's cause for losing a game, variant by variant. In place of
/// a limit it gives the engine's statistic.
#[verifier::external_body]
fn game_over_parts(cause: &EngineGameOver) -> (r: Result<GameOver, EngineStat>)
    ensures
        game_over_value(*cause) == match r {
            Ok(plain) => plain,
            Err(stat) => GameOver::Limit(stat_value(stat)),
        },
        r matches Ok(plain) ==> plain.wf(),
{
    match cause {
        EngineGameOver::LockOut => Ok(GameOver::LockOut),
        EngineGameOver::BlockOut => Ok(GameOver::BlockOut),
        EngineGameOver::Limit(stat) => Err(*stat),
        EngineGameOver::Forfeit => Ok(GameOver::Forfeit),
    }
}

/// Reads the engine's cause for losing a game.
fn game_over_of(cause: &EngineGameOver) -> (r: GameOver)
    ensures
        r == game_over_value(*cause),
        r.wf(),
{
    match game_over_parts(cause) {
        Ok(plain) => plain,
        Err(stat) => GameOver::Limit(stat_of(&stat)),
    }
}

/// How a game ended, in the library's terms.
pub open spec fn result_value(result: Result<EngineStat, EngineGameOver>) -> GameResult {
    match result {
        Ok(stat) => GameResult::Completed(stat_value(stat)),
        Err(cause) => GameResult::Lost(game_over_value(cause)),
    }
}

/// How a game ended, in the library's terms.
pub(crate) fn result_of(result: &Result<EngineStat, EngineGameOver>) -> (r: GameResult)
    ensures
        r == result_value(*result),
        r.wf(),
{
    match result {
        Ok(stat) => GameResult::Completed(stat_of(stat)),
        Err(cause) => GameResult::Lost(game_over_of(cause)),
    }
}

// ---------------------------------------------------------------------------
// Delays and other numbers
// ---------------------------------------------------------------------------
/// A number of the engine: the bits of `ExtNonNegF64::get`.
pub uninterp spec fn number_bits(x: ExtNonNegF64) -> u64;

/// The bits of a number of the engine. Such a number is not negative, so
/// greater numbers have greater bits.
#[verifier::external_body]
pub(crate) fn bits_of(x: ExtNonNegF64) -> (r: u64)
    ensures
        r == number_bits(x),
{
    x.get().to_bits()
}

/// The bits of the number one.
pub const BITS_ONE: u64 = 0x3FF0_0000_0000_0000;

/// The bits of the number ten.
pub const BITS_TEN: u64 = 0x4024_0000_0000_0000;

/// The bits of the number eight.
pub const BITS_EIGHT: u64 = 0x4020_0000_0000_0000;

/// The bits of the number 2.5.
pub const BITS_TWO_AND_A_HALF: u64 = 0x4004_0000_0000_0000;

/// How a delay shrinks while lines are cleared.
#[derive(PartialEq, Eq, Structural, PartialOrd, Ord, Hash, Clone, Copy, Debug)]
pub struct DelayParts {
    /// The delay at the start.
    pub base_delay: ExtDuration,
    /// The bits of the factor for every line.
    pub factor_bits: u64,
    /// What is taken off for every line.
    pub subtrahend: ExtDuration,
    /// The smallest delay.
    pub lowerbound: ExtDuration,
}

/// What `base_delay`, `factor`, `subtrahend` and `lowerbound` of a
/// `DelayParameters` give.
pub uninterp spec fn delay_parts(params: DelayParameters) -> DelayParts;

/// The accessors of `DelayParameters`.
#[verifier::external_body]
pub(crate) fn delay_parts_of(params: &DelayParameters) -> (r: DelayParts)
    ensures
        r == delay_parts(*params),
        r.base_delay.wf(),
        r.subtrahend.wf(),
        r.lowerbound.wf(),
{
    let plain = |d: falling_tetromino_engine::ExtDuration| match d {
        falling_tetromino_engine::ExtDuration::Finite(t) => ExtDuration::Finite(
            InGameTime { secs: t.as_secs(), subsec_nanos: t.subsec_nanos() },
        ),
        falling_tetromino_engine::ExtDuration::Infinite => ExtDuration::Infinite,
    };
    DelayParts {
        base_delay: plain(params.base_delay()),
        factor_bits: params.factor().get().to_bits(),
        subtrahend: plain(params.subtrahend()),
        lowerbound: plain(params.lowerbound()),
    }
}

/// A span of whole milliseconds below a second.
pub open spec fn millis_span(millis: int) -> ExtDuration {
    ExtDuration::Finite(InGameTime { secs: 0, subsec_nanos: (millis * 1_000_000) as u32 })
}

/// No time at all.
pub open spec fn no_time() -> ExtDuration {
    ExtDuration::Finite(InGameTime { secs: 0, subsec_nanos: 0 })
}

/// One second.
pub open spec fn one_second() -> ExtDuration {
    ExtDuration::Finite(InGameTime { secs: 1, subsec_nanos: 0 })
}

impl DelayParts {
    /// Whether the delay stays the same whatever is cleared.
    pub open spec fn constant(self) -> bool {
        self.factor_bits == BITS_ONE && self.subtrahend == no_time()
    }

    /// A delay that stays the same.
    pub open spec fn constantly(delay: ExtDuration) -> DelayParts {
        DelayParts {
            base_delay: delay,
            factor_bits: BITS_ONE,
            subtrahend: no_time(),
            lowerbound: delay,
        }
    }
}

/// Whether the factor is one and nothing is taken off.
pub assume_specification[ DelayParameters::is_constant ](params: &DelayParameters) -> (r: bool)
    ensures
        r == delay_parts(*params).constant(),
;

/// From a second down to nothing, by the factor 0.9763 and 42 microseconds for
/// every line.
pub assume_specification[ DelayParameters::standard_fall ]() -> (r: DelayParameters)
    ensures
        delay_parts(r) == (DelayParts {
            base_delay: one_second(),
            factor_bits: 0x3FEF_3DD9_7F62_B6AE,
            subtrahend: ExtDuration::Finite(InGameTime { secs: 0, subsec_nanos: 42_000 }),
            lowerbound: no_time(),
        }),
;

/// From half a second down to a fifth of one, by two milliseconds for every
/// line.
pub assume_specification[ DelayParameters::standard_lock ]() -> (r: DelayParameters)
    ensures
        delay_parts(r) == (DelayParts {
            base_delay: millis_span(500),
            factor_bits: BITS_ONE,
            subtrahend: millis_span(2),
            lowerbound: millis_span(200),
        }),
;

/// How pieces are picked, with what the next pick depends on.
#[derive(PartialEq, Eq, PartialOrd, Ord, Hash, Clone, Copy, Debug)]
pub enum PieceGenerator {
    /// Every piece is as likely as any other.
    Uniform,
    /// Pieces are drawn from a bag.
    Stock {
        /// How many pieces of each kind are left.
        pieces_left: [u32; 7],
        /// How many pieces of each kind are put in.
        multiplicity: u32,
        /// How many pieces are left when more are put in.
        restock_threshold: u32,
    },
    /// A piece is the more likely the longer ago it came.
    Recency {
        /// How long ago each kind came.
        last_generated: [u32; 7],
        /// The bits of the exponent by which that is weighed.
        snap_bits: u64,
    },
    /// A piece is the more likely the more rarely it came.
    BalanceRelative {
        /// How much more often each kind came than the rarest.
        relative_counts: [u32; 7],
    },
}

/// What the variant and the fields of a `TetrominoGenerator` are.
pub uninterp spec fn generator_value(generator: TetrominoGenerator) -> PieceGenerator;

/// Reads the engine's way of picking pieces, variant by variant.
#[verifier::external_body]
pub(crate) fn generator_of(generator: &TetrominoGenerator) -> (r: PieceGenerator)
    ensures
        r == generator_value(*generator),
{
    match *generator {
        TetrominoGenerator::Uniform => PieceGenerator::Uniform,
        TetrominoGenerator::Stock { pieces_left, multiplicity, restock_threshold } => {
            PieceGenerator::Stock { pieces_left, multiplicity: multiplicity.get(), restock_threshold }
        },
        TetrominoGenerator::Recency { last_generated, snap } => {
            PieceGenerator::Recency { last_generated, snap_bits: snap.get().to_bits() }
        },
        TetrominoGenerator::BalanceRelative { relative_counts } => {
            PieceGenerator::BalanceRelative { relative_counts }
        },
    }
}

/// By recency, with every kind of piece equally long ago.
pub assume_specification[ <TetrominoGenerator as Default>::default ]() -> (r: TetrominoGenerator)
    ensures
        generator_value(r) == (PieceGenerator::Recency {
            last_generated: [1, 1, 1, 1, 1, 1, 1],
            snap_bits: BITS_TWO_AND_A_HALF,
        }),
;

} // verus!

//! Games that are being played by the engine: what can be seen of one, and what
//! moves it on.
use crate::button::ButtonChange;
use crate::engine::{
    delay_parts, duration_of, result_of, result_value, stat_of, stat_value, time_of, time_value,
};
use crate::game::{
    board_wf, Board, Feedback, GameOver, GameResult, GameSnapshot, Orientation, Piece, Stat,
    Tetromino,
};
use crate::readiness::{is_ready, pressed_after, ready};
use crate::renderer::FeedbackMsg;
use crate::settings::RotationSystem;
use crate::time::{ExtDuration, InGameTime};
use falling_tetromino_engine::{
    Button as EngineButton, ButtonChange as EngineButtonChange, DelayParameters, ExtNonNegF64,
    Feedback as EngineFeedback, Game, GameOver as EngineGameOver, Piece as EnginePiece,
    Stat as EngineStat, TetrominoGenerator, UpdateGameError as EngineUpdateError,
};
use std::time::Duration;
use vstd::prelude::*;

verus! {

/// A game of the engine.
#[verifier::external_type_specification]
#[verifier::external_body]
pub struct ExGame(Game);

/// The engine's piece.
#[verifier::external_type_specification]
#[verifier::external_body]
pub struct ExEnginePiece(EnginePiece);

/// The engine's message.
#[verifier::external_type_specification]
#[verifier::external_body]
pub struct ExEngineFeedback(EngineFeedback);

// ---------------------------------------------------------------------------
// What can be seen of a game
// ---------------------------------------------------------------------------
/// How much a game tells of itself.
#[derive(PartialEq, Eq, Structural, PartialOrd, Ord, Hash, Clone, Copy, Debug)]
pub enum Verbosity {
    /// Nothing.
    Silent,
    /// What is worth showing.
    Default,
    /// Everything.
    Debug,
}

/// The rules of a game.
pub struct ConfigView {
    /// How many pieces to come are known.
    pub piece_preview_count: usize,
    /// Whether a button that is down acts on a piece as it appears.
    pub allow_prespawn_actions: bool,
    /// How a piece is rotated.
    pub rotation_system: RotationSystem,
    /// How long it takes until the next piece appears.
    pub spawn_delay: InGameTime,
    /// How long a button is down until the piece moves by itself.
    pub delayed_auto_shift: InGameTime,
    /// How long it takes then between one move and the next.
    pub auto_repeat_rate: InGameTime,
    /// How the fall delay shrinks.
    pub fall_delay_params: DelayParameters,
    /// How many times faster a piece falls while it is dropped.
    pub soft_drop_divisor: ExtNonNegF64,
    /// How the lock delay shrinks.
    pub lock_delay_params: DelayParameters,
    /// Whether any button that moves a piece keeps it from locking.
    pub lenient_lock_delay_reset: bool,
    /// For how many lock delays a piece can be kept from locking.
    pub lock_reset_cap_factor: ExtNonNegF64,
    /// How long clearing lines takes.
    pub line_clear_duration: InGameTime,
    /// After how many lines the delays shrink.
    pub update_delays_every_n_lineclears: u32,
    /// What ends the game, and whether that completes it.
    pub end_conditions: Seq<(Stat, bool)>,
    /// How much the game tells of itself.
    pub feedback_verbosity: Verbosity,
}

/// Everything that can be seen of a game.
pub struct GameView {
    /// The time in the game.
    pub time: InGameTime,
    /// Since when each button is down, by number.
    pub buttons_pressed: Seq<Option<InGameTime>>,
    /// How the next piece is picked.
    pub piece_generator: TetrominoGenerator,
    /// The pieces to come.
    pub piece_preview: Seq<Tetromino>,
    /// The piece that is held, and whether it may be swapped back in.
    pub piece_held: Option<(Tetromino, bool)>,
    /// The locked tiles.
    pub board: Board,
    /// How long a piece takes to fall by one row.
    pub fall_delay: ExtDuration,
    /// After how many lines the fall delay reached its lower bound.
    pub fall_delay_lowerbound_hit: Option<u32>,
    /// How long a piece takes to lock.
    pub lock_delay: ExtDuration,
    /// How many pieces of each kind were locked.
    pub pieces_locked: [u32; 7],
    /// How many lines were cleared.
    pub lineclears: u32,
    /// How many pieces in a row have cleared lines.
    pub consecutive_line_clears: u32,
    /// The points scored.
    pub score: u32,
    /// The piece in play.
    pub piece_in_play: Option<Piece>,
    /// When something happens next of itself, unless the game has ended.
    pub next_update: Option<InGameTime>,
    /// How the game ended, if it has.
    pub result: Option<GameResult>,
    /// What the game's randomness was started with.
    pub seed: u64,
    /// How pieces were picked at the start.
    pub first_generator: TetrominoGenerator,
    /// The rules.
    pub config: ConfigView,
    /// What the game's modifiers say of themselves.
    pub modifiers: Seq<Seq<char>>,
}

/// What the accessors and the public fields of a game give.
pub uninterp spec fn observed(game: Game) -> GameView;

/// The `time` of `Game::state`.
#[verifier::external_body]
fn state_time(game: &Game) -> (r: Duration)
    ensures
        time_value(r) == observed(*game).time,
{
    game.state().time
}

/// A point in time of the engine, where there is one.
pub open spec fn maybe_time(d: Option<Duration>) -> Option<InGameTime> {
    match d {
        Some(d) => Some(time_value(d)),
        None => None,
    }
}

/// The `buttons_pressed` of `Game::state`.
#[verifier::external_body]
pub(crate) fn state_buttons_pressed(game: &Game) -> (r: [Option<Duration>; 11])
    ensures
        observed(*game).buttons_pressed == Seq::new(11, |i: int| maybe_time(r@[i])),
{
    game.state().buttons_pressed
}

/// The `piece_preview` of `Game::state`, from the front on.
#[verifier::external_body]
pub(crate) fn state_piece_preview(game: &Game) -> (r: Vec<Tetromino>)
    ensures
        r@ == observed(*game).piece_preview,
{
    game.state().piece_preview.iter().map(|t| Tetromino::VARIANTS[*t as usize]).collect()
}

/// The `piece_held` of `Game::state`.
#[verifier::external_body]
pub(crate) fn state_piece_held(game: &Game) -> (r: Option<(Tetromino, bool)>)
    ensures
        r == observed(*game).piece_held,
{
    game.state().piece_held.map(|(t, swap)| (Tetromino::VARIANTS[t as usize], swap))
}

/// The `board` of `Game::state`; the engine's kinds of tiles are never zero.
#[verifier::external_body]
pub(crate) fn state_board(game: &Game) -> (r: Board)
    ensures
        r == observed(*game).board,
        board_wf(r),
{
    game.state().board.map(|line| line.map(|tile| tile.map(|kind| kind.get())))
}

/// A span of the engine that may be infinite, given by a finite one if it is
/// finite.
pub open spec fn maybe_infinite(d: Option<Duration>) -> ExtDuration {
    match d {
        Some(d) => ExtDuration::Finite(time_value(d)),
        None => ExtDuration::Infinite,
    }
}

/// The `fall_delay`, the `lock_delay` and the number of lines at which the fall
/// delay reached its lower bound, of `Game::state`.
#[verifier::external_body]
pub(crate) fn state_delays(game: &Game) -> (r: (Option<Duration>, Option<Duration>, Option<u32>))
    ensures
        maybe_infinite(r.0) == observed(*game).fall_delay,
        maybe_infinite(r.1) == observed(*game).lock_delay,
        r.2 == observed(*game).fall_delay_lowerbound_hit,
{
    let finite = |d: falling_tetromino_engine::ExtDuration| match d {
        falling_tetromino_engine::ExtDuration::Finite(t) => Some(t),
        falling_tetromino_engine::ExtDuration::Infinite => None,
    };
    let state = game.state();
    (
        finite(state.fall_delay),
        finite(state.lock_delay),
        state.fall_delay_lowerbound_hit_at_n_lineclears,
    )
}

/// What `Game::state` has counted.
pub(crate) struct Counts {
    pub(crate) pieces_locked: [u32; 7],
    pub(crate) lineclears: u32,
    pub(crate) consecutive_line_clears: u32,
    pub(crate) score: u32,
}

/// The counters of `Game::state`.
#[verifier::external_body]
pub(crate) fn state_counts(game: &Game) -> (r: Counts)
    ensures
        r.pieces_locked == observed(*game).pieces_locked,
        r.lineclears == observed(*game).lineclears,
        r.consecutive_line_clears == observed(*game).consecutive_line_clears,
        r.score == observed(*game).score,
{
    let state = game.state();
    Counts {
        pieces_locked: state.pieces_locked,
        lineclears: state.lineclears,
        consecutive_line_clears: state.consecutive_line_clears,
        score: state.score,
    }
}

/// The `piece_generator` of `Game::state`.
#[verifier::external_body]
pub(crate) fn state_piece_generator(game: &Game) -> (r: TetrominoGenerator)
    ensures
        r == observed(*game).piece_generator,
{
    game.state().piece_generator
}

/// What the fields of a piece of the engine say.
pub uninterp spec fn piece_value(piece: EnginePiece) -> Piece;

/// The fields of a piece of the engine.
#[verifier::external_body]
pub(crate) fn piece_of(piece: &EnginePiece) -> (r: Piece)
    ensures
        r == piece_value(*piece),
{
    Piece {
        tetromino: Tetromino::VARIANTS[piece.tetromino as usize],
        orientation: Orientation::VARIANTS[piece.orientation as usize],
        position: piece.position,
    }
}

/// `Phase::piece` of `Game::phase`.
#[verifier::external_body]
pub(crate) fn phase_piece(game: &Game) -> (r: Option<EnginePiece>)
    ensures
        observed(*game).piece_in_play == match r {
            Some(piece) => Some(piece_value(piece)),
            None => None,
        },
{
    game.phase().piece().copied()
}

/// When a piece next appears, moves, falls or locks, or lines are next cleared, or
/// a limit of time that ends the game is reached, whichever comes first.
pub assume_specification[ Game::peek_next_update_time ](game: &Game) -> (r: Option<Duration>)
    ensures
        observed(*game).next_update == maybe_time(r),
;

/// How the game ended, if it has.
pub assume_specification[ Game::result ](game: &Game) -> (r: Option<
    Result<EngineStat, EngineGameOver>,
>)
    ensures
        observed(*game).result == match r {
            Some(result) => Some(result_value(result)),
            None => None,
        },
;

/// The `seed` of `Game::state_init`.
#[verifier::external_body]
fn state_init_seed(game: &Game) -> (r: u64)
    ensures
        r == observed(*game).seed,
{
    game.state_init().seed
}

/// A condition of the engine that ends a game.
pub open spec fn condition_value(c: (EngineStat, bool)) -> (Stat, bool) {
    (stat_value(c.0), c.1)
}

/// The `end_conditions` of the field `config`.
#[verifier::external_body]
fn config_end_conditions(game: &Game) -> (r: Vec<(EngineStat, bool)>)
    ensures
        observed(*game).config.end_conditions == Seq::new(
            r@.len(),
            |i: int| condition_value(r@[i]),
        ),
{
    game.config.end_conditions.clone()
}

/// The rules that decide how a game goes on.
pub(crate) struct Pace {
    pub(crate) piece_preview_count: usize,
    pub(crate) fall_delay_params: DelayParameters,
    pub(crate) lock_delay_params: DelayParameters,
    pub(crate) update_delays_every_n_lineclears: u32,
    pub(crate) lock_reset_cap_factor: ExtNonNegF64,
    pub(crate) soft_drop_divisor: ExtNonNegF64,
    pub(crate) delayed_auto_shift: Duration,
    pub(crate) auto_repeat_rate: Duration,
    pub(crate) spawn_delay: Duration,
}

/// The fields of the field `config` that decide how a game goes on.
#[verifier::external_body]
pub(crate) fn config_pace(game: &Game) -> (r: Pace)
    ensures
        r.piece_preview_count == observed(*game).config.piece_preview_count,
        r.fall_delay_params == observed(*game).config.fall_delay_params,
        r.lock_delay_params == observed(*game).config.lock_delay_params,
        r.update_delays_every_n_lineclears
            == observed(*game).config.update_delays_every_n_lineclears,
        r.lock_reset_cap_factor == observed(*game).config.lock_reset_cap_factor,
        r.soft_drop_divisor == observed(*game).config.soft_drop_divisor,
        time_value(r.delayed_auto_shift) == observed(*game).config.delayed_auto_shift,
        time_value(r.auto_repeat_rate) == observed(*game).config.auto_repeat_rate,
        time_value(r.spawn_delay) == observed(*game).config.spawn_delay,
{
    Pace {
        piece_preview_count: game.config.piece_preview_count,
        fall_delay_params: game.config.fall_delay_params,
        lock_delay_params: game.config.lock_delay_params,
        update_delays_every_n_lineclears: game.config.update_delays_every_n_lineclears,
        lock_reset_cap_factor: game.config.lock_reset_cap_factor,
        soft_drop_divisor: game.config.soft_drop_divisor,
        delayed_auto_shift: game.config.delayed_auto_shift,
        auto_repeat_rate: game.config.auto_repeat_rate,
        spawn_delay: game.config.spawn_delay,
    }
}

/// The `feedback_verbosity` of the field `config`.
#[verifier::external_body]
pub(crate) fn config_feedback_verbosity(game: &Game) -> (r: Verbosity)
    ensures
        r == observed(*game).config.feedback_verbosity,
{
    match game.config.feedback_verbosity {
        falling_tetromino_engine::FeedbackVerbosity::Silent => Verbosity::Silent,
        falling_tetromino_engine::FeedbackVerbosity::Default => Verbosity::Default,
        falling_tetromino_engine::FeedbackVerbosity::Debug => Verbosity::Debug,
    }
}

/// A game with another verbosity.
pub open spec fn with_verbosity(game: GameView, verbosity: Verbosity) -> GameView {
    GameView { config: ConfigView { feedback_verbosity: verbosity, ..game.config }, ..game }
}

/// Sets the `feedback_verbosity` of the field `config` and leaves the rest as
/// it is, and so the game as tame.
#[verifier::external_body]
pub(crate) fn set_feedback_verbosity(game: &mut Game, verbosity: Verbosity)
    ensures
        observed(*final(game)) == with_verbosity(observed(*old(game)), verbosity),
        tame(*old(game)) ==> tame(*final(game)),
{
    game.config.feedback_verbosity = match verbosity {
        Verbosity::Silent => falling_tetromino_engine::FeedbackVerbosity::Silent,
        Verbosity::Default => falling_tetromino_engine::FeedbackVerbosity::Default,
        Verbosity::Debug => falling_tetromino_engine::FeedbackVerbosity::Debug,
    };
}

// ---------------------------------------------------------------------------
// Snapshots
// ---------------------------------------------------------------------------
impl GameSnapshot {
    /// Whether the snapshot shows this state of a game.
    pub open spec fn shows(self, game: GameView) -> bool {
        &&& self.time == game.time
        &&& forall|i: int|
            0 <= i < 11 ==> (#[trigger] self.buttons_pressed@[i]) == (
            game.buttons_pressed[i] is Some)
        &&& self.piece_preview@ == game.piece_preview
        &&& self.piece_held == game.piece_held
        &&& self.board == game.board
        &&& self.fall_delay == game.fall_delay
        &&& self.fall_delay_lowerbound_hit == (game.fall_delay_lowerbound_hit is Some)
        &&& self.lock_delay == game.lock_delay
        &&& self.pieces_locked == game.pieces_locked
        &&& self.lineclears == game.lineclears
        &&& self.score == game.score
        &&& self.end_conditions@ == game.config.end_conditions
        &&& self.lock_delay_is_constant == delay_parts(game.config.lock_delay_params).constant()
        &&& self.piece_in_play == game.piece_in_play
        &&& self.result == game.result
    }

    /// The state of a game at this moment.
    pub fn of(game: &Game) -> (r: GameSnapshot)
        ensures
            r.shows(observed(*game)),
            r.time.wf(),
            r.fall_delay.wf(),
            r.lock_delay.wf(),
            board_wf(r.board),
            conditions_wf(r.end_conditions@),
            r.result matches Some(result) ==> result.wf(),
    {
        let presses = state_buttons_pressed(game);
        let mut buttons_pressed: [bool; 11] = [false; 11];
        for k in 0..11usize
            invariant
                observed(*game).buttons_pressed == Seq::new(11, |i: int| maybe_time(presses@[i])),
                forall|i: int|
                    0 <= i < k ==> (#[trigger] buttons_pressed@[i]) == (
                    observed(*game).buttons_pressed[i] is Some),
        {
            buttons_pressed[k] = presses[k].is_some();
        }
        let (fall_delay, lock_delay, hit) = state_delays(game);
        let counts = state_counts(game);
        let pace = config_pace(game);
        GameSnapshot {
            time: game_time(game),
            buttons_pressed,
            piece_preview: state_piece_preview(game),
            piece_held: state_piece_held(game),
            board: state_board(game),
            fall_delay: finite_or_infinite(fall_delay),
            fall_delay_lowerbound_hit: hit.is_some(),
            lock_delay: finite_or_infinite(lock_delay),
            pieces_locked: counts.pieces_locked,
            lineclears: counts.lineclears,
            score: counts.score,
            end_conditions: end_conditions_of(game),
            lock_delay_is_constant: pace.lock_delay_params.is_constant(),
            piece_in_play: match phase_piece(game) {
                Some(piece) => Some(piece_of(&piece)),
                None => None,
            },
            result: game_result(game),
        }
    }
}

/// The time in the game.
pub fn game_time(game: &Game) -> (t: InGameTime)
    ensures
        t == observed(*game).time,
        t.wf(),
{
    time_of(state_time(game))
}

/// How the game ended, if it has.
pub fn game_result(game: &Game) -> (r: Option<GameResult>)
    ensures
        r == observed(*game).result,
        r matches Some(result) ==> result.wf(),
{
    match game.result() {
        Some(result) => Some(result_of(&result)),
        None => None,
    }
}

/// What the game's randomness was started with.
pub fn game_seed(game: &Game) -> (seed: u64)
    ensures
        seed == observed(*game).seed,
{
    state_init_seed(game)
}

/// Conditions with well-formed times.
pub open spec fn conditions_wf(conditions: Seq<(Stat, bool)>) -> bool {
    forall|i: int| 0 <= i < conditions.len() ==> (#[trigger] conditions[i]).0.wf()
}

pub(crate) fn finite_or_infinite(d: Option<Duration>) -> (r: ExtDuration)
    ensures
        r == maybe_infinite(d),
        r.wf(),
{
    match d {
        Some(d) => ExtDuration::Finite(time_of(d)),
        None => ExtDuration::Infinite,
    }
}

pub(crate) fn end_conditions_of(game: &Game) -> (r: Vec<(Stat, bool)>)
    ensures
        r@ == observed(*game).config.end_conditions,
        conditions_wf(r@),
{
    let conditions = config_end_conditions(game);
    let mut r: Vec<(Stat, bool)> = Vec::new();
    for k in 0..conditions.len()
        invariant
            r@ == Seq::new(k as nat, |i: int| condition_value(conditions@[i])),
            conditions_wf(r@),
    {
        let stat = stat_of(&conditions[k].0);
        r.push((stat, conditions[k].1));
    }
    r
}

/// Since when a button is down.
pub fn pressed_since(game: &Game, k: usize) -> (r: Option<InGameTime>)
    requires
        k < 11,
    ensures
        r == observed(*game).buttons_pressed[k as int],
        observed(*game).buttons_pressed.len() == 11,
{
    let presses = state_buttons_pressed(game);
    match presses[k] {
        Some(d) => Some(time_of(d)),
        None => None,
    }
}

// ---------------------------------------------------------------------------
// Messages
// ---------------------------------------------------------------------------
/// A message of the engine in parts.
enum FeedbackParts {
    PieceLocked(EnginePiece),
    LinesClearing(Vec<usize>, Duration),
    HardDrop(EnginePiece, EnginePiece),
    Accolade(u32, u32, u32, bool, bool, Tetromino),
    GameEnded(Result<EngineStat, EngineGameOver>),
    Debug(String),
    Text(String),
}

/// What the variant and the fields of a message of the engine say; an internal
/// event is told by its `Debug` text.
pub uninterp spec fn feedback_value(feedback: EngineFeedback) -> Feedback;

/// A message put together from its parts.
spec fn joined_parts(parts: FeedbackParts) -> Feedback {
    match parts {
        FeedbackParts::PieceLocked(piece) => Feedback::PieceLocked { piece: piece_value(piece) },
        FeedbackParts::LinesClearing(y_coords, start) => Feedback::LinesClearing {
            y_coords,
            line_clear_start: time_value(start),
        },
        FeedbackParts::HardDrop(old_piece, new_piece) => Feedback::HardDrop {
            old_piece: piece_value(old_piece),
            new_piece: piece_value(new_piece),
        },
        FeedbackParts::Accolade(
            score_bonus,
            lineclears,
            combo,
            is_spin,
            is_perfect_clear,
            tetromino,
        ) => Feedback::Accolade {
            score_bonus,
            lineclears,
            combo,
            is_spin,
            is_perfect_clear,
            tetromino,
        },
        FeedbackParts::GameEnded(result) => Feedback::GameEnded { result: result_value(result) },
        FeedbackParts::Debug(text) => Feedback::Debug(text),
        FeedbackParts::Text(text) => Feedback::Text(text),
    }
}

/// Takes a message of the engine apart, variant by variant.
#[verifier::external_body]
fn feedback_parts(feedback: EngineFeedback) -> (r: FeedbackParts)
    ensures
        joined_parts(r) == feedback_value(feedback),
{
    match feedback {
        EngineFeedback::PieceLocked { piece } => FeedbackParts::PieceLocked(piece),
        EngineFeedback::LinesClearing { y_coords: y, line_clear_start: start } => {
            FeedbackParts::LinesClearing(y, start)
        },
        EngineFeedback::HardDrop { old_piece, new_piece } => {
            FeedbackParts::HardDrop(old_piece, new_piece)
        },
        EngineFeedback::Accolade { score_bonus: s, lineclears: l, combo: c, is_spin: i, is_perfect_clear: p, tetromino: t } => {
            FeedbackParts::Accolade(s, l, c, i, p, Tetromino::VARIANTS[t as usize])
        },
        EngineFeedback::GameEnded { result } => FeedbackParts::GameEnded(result),
        EngineFeedback::Debug(point) => FeedbackParts::Debug(format!("{point:?}")),
        EngineFeedback::Text(text) => FeedbackParts::Text(text),
    }
}

/// A message of the engine, with its time, in the library's terms.
pub open spec fn msg_value(msg: (Duration, EngineFeedback)) -> FeedbackMsg {
    (time_value(msg.0), feedback_value(msg.1))
}

/// Messages of the engine in the library's terms.
pub open spec fn msgs_value(msgs: Seq<(Duration, EngineFeedback)>) -> Seq<FeedbackMsg> {
    Seq::new(msgs.len(), |i: int| msg_value(msgs[i]))
}

fn feedback_of(feedback: EngineFeedback) -> (r: Feedback)
    ensures
        r == feedback_value(feedback),
{
    match feedback_parts(feedback) {
        FeedbackParts::PieceLocked(piece) => Feedback::PieceLocked { piece: piece_of(&piece) },
        FeedbackParts::LinesClearing(y_coords, start) => Feedback::LinesClearing {
            y_coords,
            line_clear_start: time_of(start),
        },
        FeedbackParts::HardDrop(old_piece, new_piece) => Feedback::HardDrop {
            old_piece: piece_of(&old_piece),
            new_piece: piece_of(&new_piece),
        },
        FeedbackParts::Accolade(
            score_bonus,
            lineclears,
            combo,
            is_spin,
            is_perfect_clear,
            tetromino,
        ) => Feedback::Accolade {
            score_bonus,
            lineclears,
            combo,
            is_spin,
            is_perfect_clear,
            tetromino,
        },
        FeedbackParts::GameEnded(result) => Feedback::GameEnded { result: result_of(&result) },
        FeedbackParts::Debug(text) => Feedback::Debug(text),
        FeedbackParts::Text(text) => Feedback::Text(text),
    }
}

fn msgs_of(msgs: Vec<(Duration, EngineFeedback)>) -> (r: Vec<FeedbackMsg>)
    ensures
        r@ == msgs_value(msgs@),
{
    let mut r: Vec<FeedbackMsg> = Vec::new();
    for msg in iter: msgs
        invariant
            iter.seq() == msgs@,
            r@ == Seq::new(iter.index() as nat, |i: int| msg_value(msgs@[i])),
    {
        let time = time_of(msg.0);
        r.push((time, feedback_of(msg.1)));
    }
    r
}

// ---------------------------------------------------------------------------
// Moving a game on
// ---------------------------------------------------------------------------
/// Why a game was not moved on.
#[derive(PartialEq, Eq, Structural, PartialOrd, Ord, Hash, Clone, Copy, Debug)]
pub enum UpdateGameError {
    /// The point in time lies in the game's past.
    TargetTimeInPast,
    /// The game has ended.
    GameEnded,
}

/// That a call of `Game::update` on the game `before`, with these arguments,
/// can leave the game as `after` and return these messages.
pub uninterp spec fn updates(
    before: Game,
    target: InGameTime,
    change: Option<ButtonChange>,
    after: Game,
    msgs: Seq<FeedbackMsg>,
) -> bool;

/// That the modifiers of a game stay out of the engine's way: at whatever
/// verbosity, an update of the game that is ready comes to its end without a
/// panic, and so does each that is ready after it. Modifiers are functions of
/// whoever makes them, and there is no telling from a game what they do.
pub uninterp spec fn tame(game: Game) -> bool;

/// What an update keeps of a game and what it brings about. A modifier may do
/// to a game whatever it likes, so of a game with modifiers only these are
/// known to stay the same.
pub open spec fn moved_on(
    before: GameView,
    target: InGameTime,
    change: Option<ButtonChange>,
    after: GameView,
) -> bool {
    &&& after.modifiers == before.modifiers
    &&& before.modifiers.len() == 0 ==> {
        &&& after.config == before.config
        &&& after.seed == before.seed
        &&& after.first_generator == before.first_generator
        &&& after.time.nanos() <= target.nanos()
        &&& after.result is None ==> {
            &&& after.time == target
            &&& after.buttons_pressed == pressed_after(before.buttons_pressed, target, change)
        }
    }
}

/// `Game::update`. It refuses a point in time before the game's own, and
/// otherwise any game that has ended, and leaves the game as it is; in all other
/// cases it moves the game on. Which state it comes to and what it tells of it
/// rests on the engine's arithmetic with floating-point numbers and on what the
/// game's modifiers do, which are functions of whoever put them into the game:
/// of that no more is claimed than that this call brought it about, that the game
/// stays tame, and for a game without modifiers what it leaves alone and how far
/// the clock goes.
#[verifier::external_body]
fn update(
    game: &mut Game,
    target: Duration,
    change: Option<ButtonChange>,
) -> (r: Result<Vec<(Duration, EngineFeedback)>, UpdateGameError>)
    requires
        tame(*old(game)),
        ready(observed(*old(game)), time_value(target), change) || observed(*old(game)).result
            is Some,
    ensures
        ({
            let before = observed(*old(game));
            let late = time_value(target).nanos() < before.time.nanos();
            match r {
                Err(UpdateGameError::TargetTimeInPast) => late && *final(game) == *old(game),
                Err(UpdateGameError::GameEnded) => !late && before.result is Some && *final(game)
                    == *old(game),
                Ok(msgs) => {
                    &&& !late && before.result is None
                    &&& updates(
                        *old(game),
                        time_value(target),
                        change,
                        *final(game),
                        msgs_value(msgs@),
                    )
                    &&& moved_on(before, time_value(target), change, observed(*final(game)))
                    &&& tame(*final(game))
                },
            }
        }),
{
    let change = match change {
        None => None,
        Some(ButtonChange::Press(b)) => Some(
            EngineButtonChange::Press(EngineButton::VARIANTS[b as usize]),
        ),
        Some(ButtonChange::Release(b)) => Some(
            EngineButtonChange::Release(EngineButton::VARIANTS[b as usize]),
        ),
    };
    game.update(target, change).map_err(|e| match e {
        EngineUpdateError::TargetTimeInPast => UpdateGameError::TargetTimeInPast,
        EngineUpdateError::GameEnded => UpdateGameError::GameEnded,
    })
}

/// What came of moving a game on.
#[derive(PartialEq, Eq, PartialOrd, Ord, Hash, Clone, Debug)]
pub enum Advance {
    /// It was moved on, and this is what happened.
    Updated(Vec<FeedbackMsg>),
    /// It was not moved on.
    Refused(UpdateGameError),
    /// It is in a state from which the engine may not be able to move it on.
    NotReady,
}

/// Whether this came of moving a game on.
pub open spec fn advanced(
    before: Game,
    target: InGameTime,
    change: Option<ButtonChange>,
    after: Game,
    r: Advance,
) -> bool {
    let view = observed(before);
    if target.nanos() < view.time.nanos() {
        r == Advance::Refused(UpdateGameError::TargetTimeInPast) && after == before
    } else if view.result is Some {
        r == Advance::Refused(UpdateGameError::GameEnded) && after == before
    } else if !ready(view, target, change) {
        r == Advance::NotReady && after == before
    } else {
        &&& r matches Advance::Updated(msgs)
        &&& updates(before, target, change, after, msgs@)
        &&& moved_on(view, target, change, observed(after))
        &&& tame(after)
    }
}

/// Moves a game on to a point in time, at which a button may change.
pub fn advance(game: &mut Game, target: InGameTime, change: Option<ButtonChange>) -> (r: Advance)
    requires
        tame(*old(game)),
        target.wf(),
    ensures
        advanced(*old(game), target, change, *final(game), r),
        tame(*final(game)),
{
    if target.before(game_time(game)) {
        return Advance::Refused(UpdateGameError::TargetTimeInPast);
    }
    if game_result(game).is_none() && !is_ready(game, target, change) {
        return Advance::NotReady;
    }
    match update(game, duration_of(target), change) {
        Ok(msgs) => Advance::Updated(msgs_of(msgs)),
        Err(e) => Advance::Refused(e),
    }
}

/// A game that was given up.
pub open spec fn forfeited(game: GameView) -> GameView {
    GameView {
        result: Some(GameResult::Lost(GameOver::Forfeit)),
        piece_in_play: None,
        next_update: None,
        ..game
    }
}

/// Ends the game as given up, which takes the piece out of play, and returns a
/// message of that with the game's time. An ended game is not updated any more,
/// so that none of its modifiers runs.
pub assume_specification[ Game::forfeit ](game: &mut Game) -> (r: (Duration, EngineFeedback))
    ensures
        observed(*final(game)) == forfeited(observed(*old(game))),
        tame(*final(game)),
        time_value(r.0) == observed(*old(game)).time,
        feedback_value(r.1) == (Feedback::GameEnded {
            result: GameResult::Lost(GameOver::Forfeit),
        }),
;

/// A snapshot has the time, the board, the pieces, the counts and the result of the
/// game, the delays at that time, and whether each button is down.
pub proof fn law_snapshot_is_true_to_the_game(snapshot: GameSnapshot, game: GameView, i: int)
    requires
        snapshot.shows(game),
    ensures
        snapshot.time == game.time,
        snapshot.board == game.board,
        snapshot.piece_in_play == game.piece_in_play,
        snapshot.piece_preview@ == game.piece_preview,
        snapshot.piece_held == game.piece_held,
        snapshot.pieces_locked == game.pieces_locked,
        snapshot.lineclears == game.lineclears,
        snapshot.score == game.score,
        snapshot.fall_delay == game.fall_delay,
        snapshot.lock_delay == game.lock_delay,
        snapshot.fall_delay_lowerbound_hit == (game.fall_delay_lowerbound_hit is Some),
        snapshot.end_conditions@ == game.config.end_conditions,
        snapshot.result == game.result,
        0 <= i < 11 ==> snapshot.buttons_pressed@[i] == (game.buttons_pressed[i] is Some),
{
    if 0 <= i < 11 {
        assert(snapshot.buttons_pressed@[i] == (game.buttons_pressed[i] is Some));
    }
}

/// A game that is not moved on stays as it is. A point in time before the game's own
/// is refused as such, and any other only once the game has ended.
pub proof fn law_refused_game_stays_as_it_is(
    before: Game,
    target: InGameTime,
    change: Option<ButtonChange>,
    after: Game,
    r: Advance,
)
    requires
        advanced(before, target, change, after, r),
    ensures
        !(r is Updated) ==> after == before,
        r == Advance::Refused(UpdateGameError::TargetTimeInPast) <==> target.nanos() < observed(
            before,
        ).time.nanos(),
        r == Advance::Refused(UpdateGameError::GameEnded) <==> target.nanos() >= observed(
            before,
        ).time.nanos() && observed(before).result is Some,
{
}

/// A game without modifiers that is moved on keeps its rules, its seed and its way of
/// picking pieces. Unless it ends on the way its clock is then at that point in time;
/// otherwise it is no later.
pub proof fn law_moved_game_is_at_its_target(
    before: Game,
    target: InGameTime,
    change: Option<ButtonChange>,
    after: Game,
    r: Advance,
)
    requires
        advanced(before, target, change, after, r),
        r is Updated,
        observed(before).modifiers.len() == 0,
    ensures
        observed(after).config == observed(before).config,
        observed(after).seed == observed(before).seed,
        observed(after).first_generator == observed(before).first_generator,
        observed(after).modifiers == observed(before).modifiers,
        observed(after).time.nanos() <= target.nanos(),
        observed(after).result is None ==> observed(after).time == target,
{
}

/// Giving up loses the game and takes the piece out of play; the clock, the board and
/// the counts stay as they were.
pub proof fn law_giving_up_keeps_what_was_reached(game: GameView)
    ensures
        forfeited(game).result == Some(GameResult::Lost(GameOver::Forfeit)),
        forfeited(game).piece_in_play is None,
        forfeited(game).time == game.time,
        forfeited(game).board == game.board,
        forfeited(game).pieces_locked == game.pieces_locked,
        forfeited(game).lineclears == game.lineclears,
        forfeited(game).score == game.score,
        forfeited(game).config == game.config,
{
}

} // verus!

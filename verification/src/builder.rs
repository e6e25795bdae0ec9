//! Setting up games of the engine.
use crate::button::{Button, ButtonChange};
use crate::engine::{
    delay_parts, delay_parts_of, generator_value, millis_span, number_bits, one_second, time_value,
    DelayParts, PieceGenerator, BITS_EIGHT, BITS_ONE, BITS_TEN, BITS_TWO_AND_A_HALF,
};
use crate::game::{count_sum, Board, Stat, Tetromino};
use crate::live::{condition_value, observed, tame, ConfigView, GameView, Verbosity};
use crate::readiness::{
    draws_ahead, generator_ready, greatest, left_open, lemma_greatest_exponent, locks_ahead,
    may_clear_lines, ready, right_open, PIECES_PER_UPDATE,
};
use crate::settings::RotationSystem;
use crate::spans::{is_span_computable, lemma_ordinary_product, span_computable, BITS_INFINITE};
use crate::time::{ExtDuration, InGameTime};
use falling_tetromino_engine::{
    DelayParameters, ExtNonNegF64, Game, GameBuilder, Modifier,
    RotationSystem as EngineRotationSystem, Stat as EngineStat, TetrominoGenerator,
};
use std::time::Duration;
use vstd::prelude::*;

verus! {

/// The engine's builder of games.
#[verifier::external_type_specification]
#[verifier::external_body]
pub struct ExGameBuilder(GameBuilder);

/// The engine's way of rotating a piece.
#[verifier::external_type_specification]
#[verifier::external_body]
pub struct ExEngineRotationSystem(EngineRotationSystem);

/// The engine's modifier of a game.
#[verifier::external_type_specification]
#[verifier::external_body]
pub struct ExModifier(Modifier);

/// What a builder was set up with.
pub struct BuilderView {
    /// What the randomness is started with, if that is set.
    pub seed: Option<u64>,
    /// How pieces are picked.
    pub tetromino_generator: TetrominoGenerator,
    /// The rules.
    pub config: ConfigView,
}

/// What a builder was set up with.
pub uninterp spec fn builder_content(builder: GameBuilder) -> BuilderView;

/// What the variant of a `RotationSystem` says.
pub uninterp spec fn rotation_value(system: EngineRotationSystem) -> RotationSystem;

/// The engine's variant for a way of rotating a piece.
#[verifier::external_body]
pub(crate) fn engine_rotation_of(system: RotationSystem) -> (r: EngineRotationSystem)
    ensures
        rotation_value(r) == system,
{
    match system {
        RotationSystem::Ocular => EngineRotationSystem::Ocular,
        RotationSystem::Classic => EngineRotationSystem::Classic,
        RotationSystem::Super => EngineRotationSystem::Super,
    }
}

/// A time of whole milliseconds below a second.
pub open spec fn millis_time(millis: int) -> InGameTime {
    InGameTime { secs: 0, subsec_nanos: (millis * 1_000_000) as u32 }
}

/// The rules that hold unless they are set otherwise.
pub open spec fn is_default_config(config: ConfigView) -> bool {
    &&& config.piece_preview_count == 4
    &&& config.allow_prespawn_actions
    &&& config.rotation_system == RotationSystem::Ocular
    &&& config.spawn_delay == millis_time(50)
    &&& config.delayed_auto_shift == millis_time(167)
    &&& config.auto_repeat_rate == millis_time(33)
    &&& delay_parts(config.fall_delay_params) == DelayParts::constantly(one_second())
    &&& number_bits(config.soft_drop_divisor) == BITS_TEN
    &&& delay_parts(config.lock_delay_params) == DelayParts::constantly(millis_span(500))
    &&& !config.lenient_lock_delay_reset
    &&& number_bits(config.lock_reset_cap_factor) == BITS_EIGHT
    &&& config.line_clear_duration == millis_time(200)
    &&& config.update_delays_every_n_lineclears == 10
    &&& config.end_conditions == Seq::<(Stat, bool)>::empty()
    &&& config.feedback_verbosity == Verbosity::Default
}

/// What picks pieces unless that is set otherwise.
pub open spec fn is_default_generator(generator: PieceGenerator) -> bool {
    generator == (PieceGenerator::Recency {
        last_generated: [1, 1, 1, 1, 1, 1, 1],
        snap_bits: BITS_TWO_AND_A_HALF,
    })
}

/// A builder with the default rules and no seed.
pub assume_specification[ Game::builder ]() -> (r: GameBuilder)
    ensures
        builder_content(r).seed is None,
        is_default_generator(generator_value(builder_content(r).tetromino_generator)),
        is_default_config(builder_content(r).config),
;

/// A builder with the same content.
pub assume_specification[ <GameBuilder as Clone>::clone ](builder: &GameBuilder) -> (r: GameBuilder)
    ensures
        builder_content(r) == builder_content(*builder),
;

/// A builder with other rules.
pub open spec fn with_config(builder: BuilderView, config: ConfigView) -> BuilderView {
    BuilderView { config, ..builder }
}

/// Sets the seed and nothing else, and returns the builder.
pub assume_specification[ GameBuilder::seed ](builder: &mut GameBuilder, x: u64) -> (r:
    &mut GameBuilder)
    ensures
        builder_content(*r) == (BuilderView { seed: Some(x), ..builder_content(*old(builder)) }),
        *final(builder) == *final(r),
;

/// Sets how pieces are picked and nothing else, and returns the builder.
pub assume_specification[ GameBuilder::tetromino_generator ](
    builder: &mut GameBuilder,
    x: TetrominoGenerator,
) -> (r: &mut GameBuilder)
    ensures
        builder_content(*r) == (BuilderView {
            tetromino_generator: x,
            ..builder_content(*old(builder))
        }),
        *final(builder) == *final(r),
;

/// Sets how a piece is rotated and nothing else, and returns the builder.
pub assume_specification[ GameBuilder::rotation_system ](
    builder: &mut GameBuilder,
    x: EngineRotationSystem,
) -> (r: &mut GameBuilder)
    ensures
        builder_content(*r) == with_config(
            builder_content(*old(builder)),
            (ConfigView {
                rotation_system: rotation_value(x),
                ..builder_content(*old(builder)).config
            }),
        ),
        *final(builder) == *final(r),
;

/// Sets how many pieces to come are known and nothing else, and returns the
/// builder.
pub assume_specification[ GameBuilder::piece_preview_count ](
    builder: &mut GameBuilder,
    x: usize,
) -> (r: &mut GameBuilder)
    ensures
        builder_content(*r) == with_config(
            builder_content(*old(builder)),
            (ConfigView { piece_preview_count: x, ..builder_content(*old(builder)).config }),
        ),
        *final(builder) == *final(r),
;

/// Sets how long a button is down until the piece moves by itself and nothing
/// else, and returns the builder.
pub assume_specification[ GameBuilder::delayed_auto_shift ](
    builder: &mut GameBuilder,
    x: Duration,
) -> (r: &mut GameBuilder)
    ensures
        builder_content(*r) == with_config(
            builder_content(*old(builder)),
            (ConfigView {
                delayed_auto_shift: time_value(x),
                ..builder_content(*old(builder)).config
            }),
        ),
        *final(builder) == *final(r),
;

/// Sets how long it takes between one such move and the next and nothing else,
/// and returns the builder.
pub assume_specification[ GameBuilder::auto_repeat_rate ](
    builder: &mut GameBuilder,
    x: Duration,
) -> (r: &mut GameBuilder)
    ensures
        builder_content(*r) == with_config(
            builder_content(*old(builder)),
            (ConfigView {
                auto_repeat_rate: time_value(x),
                ..builder_content(*old(builder)).config
            }),
        ),
        *final(builder) == *final(r),
;

/// Sets how many times faster a piece falls while it is dropped and nothing
/// else, and returns the builder.
pub assume_specification[ GameBuilder::soft_drop_divisor ](
    builder: &mut GameBuilder,
    x: ExtNonNegF64,
) -> (r: &mut GameBuilder)
    ensures
        builder_content(*r) == with_config(
            builder_content(*old(builder)),
            (ConfigView { soft_drop_divisor: x, ..builder_content(*old(builder)).config }),
        ),
        *final(builder) == *final(r),
;

/// Sets how long clearing lines takes and nothing else, and returns the builder.
pub assume_specification[ GameBuilder::line_clear_duration ](
    builder: &mut GameBuilder,
    x: Duration,
) -> (r: &mut GameBuilder)
    ensures
        builder_content(*r) == with_config(
            builder_content(*old(builder)),
            (ConfigView {
                line_clear_duration: time_value(x),
                ..builder_content(*old(builder)).config
            }),
        ),
        *final(builder) == *final(r),
;

/// Sets how long it takes until the next piece appears and nothing else, and
/// returns the builder.
pub assume_specification[ GameBuilder::spawn_delay ](
    builder: &mut GameBuilder,
    x: Duration,
) -> (r: &mut GameBuilder)
    ensures
        builder_content(*r) == with_config(
            builder_content(*old(builder)),
            (ConfigView { spawn_delay: time_value(x), ..builder_content(*old(builder)).config }),
        ),
        *final(builder) == *final(r),
;

/// Sets whether a button that is down acts on a piece as it appears and nothing
/// else, and returns the builder.
pub assume_specification[ GameBuilder::allow_prespawn_actions ](
    builder: &mut GameBuilder,
    x: bool,
) -> (r: &mut GameBuilder)
    ensures
        builder_content(*r) == with_config(
            builder_content(*old(builder)),
            (ConfigView { allow_prespawn_actions: x, ..builder_content(*old(builder)).config }),
        ),
        *final(builder) == *final(r),
;

/// Sets how the fall delay shrinks and nothing else, and returns the builder.
pub assume_specification[ GameBuilder::fall_delay_params ](
    builder: &mut GameBuilder,
    x: DelayParameters,
) -> (r: &mut GameBuilder)
    ensures
        builder_content(*r) == with_config(
            builder_content(*old(builder)),
            (ConfigView { fall_delay_params: x, ..builder_content(*old(builder)).config }),
        ),
        *final(builder) == *final(r),
;

/// Sets how the lock delay shrinks and nothing else, and returns the builder.
pub assume_specification[ GameBuilder::lock_delay_params ](
    builder: &mut GameBuilder,
    x: DelayParameters,
) -> (r: &mut GameBuilder)
    ensures
        builder_content(*r) == with_config(
            builder_content(*old(builder)),
            (ConfigView { lock_delay_params: x, ..builder_content(*old(builder)).config }),
        ),
        *final(builder) == *final(r),
;

/// Conditions of the engine that end a game, in the library's terms.
pub open spec fn conditions_value(conditions: Seq<(EngineStat, bool)>) -> Seq<(Stat, bool)> {
    Seq::new(conditions.len(), |i: int| condition_value(conditions[i]))
}

/// Sets what ends the game and nothing else, and returns the builder.
pub assume_specification[ GameBuilder::end_conditions ](
    builder: &mut GameBuilder,
    x: Vec<(EngineStat, bool)>,
) -> (r: &mut GameBuilder)
    ensures
        builder_content(*r) == with_config(
            builder_content(*old(builder)),
            (ConfigView {
                end_conditions: conditions_value(x@),
                ..builder_content(*old(builder)).config
            }),
        ),
        *final(builder) == *final(r),
;

// ---------------------------------------------------------------------------
// New games
// ---------------------------------------------------------------------------
/// A board without tiles.
pub open spec fn board_empty(board: Board) -> bool {
    forall|y: int, x: int| 0 <= y < 27 && 0 <= x < 10 ==> #[trigger] board@[y]@[x] is None
}

/// Whether the delays that a game starts with can be computed. The engine does
/// so with floating-point numbers, which do not tell the very longest finite
/// spans from ones that are out of range.
pub open spec fn buildable(builder: BuilderView) -> bool {
    &&& span_computable(delay_parts(builder.config.fall_delay_params).base_delay)
    &&& span_computable(delay_parts(builder.config.lock_delay_params).base_delay)
}

/// Whether a span is no longer than another.
pub open spec fn span_le(a: ExtDuration, b: ExtDuration) -> bool {
    match (a, b) {
        (_, ExtDuration::Infinite) => true,
        (ExtDuration::Infinite, ExtDuration::Finite(_)) => false,
        (ExtDuration::Finite(a), ExtDuration::Finite(b)) => a.nanos() <= b.nanos(),
    }
}

/// Whether a delay can be the one that a game starts with: the smallest one, or
/// the one at the start, which is rounded on its way through a floating-point
/// number.
pub open spec fn delay_starts(parts: DelayParts, d: ExtDuration) -> bool {
    &&& d.wf()
    &&& span_le(parts.lowerbound, d)
    &&& d == parts.lowerbound || match (parts.base_delay, d) {
        (ExtDuration::Finite(base), ExtDuration::Finite(t)) => t.secs <= base.secs + 1 + base.secs
            / 0x10_0000_0000_0000,
        (ExtDuration::Infinite, ExtDuration::Infinite) => true,
        _ => false,
    }
}

/// Whether this is a game as it comes from a builder: nothing has happened yet.
/// Where the builder has no seed the game picks one.
pub open spec fn fresh(builder: BuilderView, game: GameView) -> bool {
    &&& game.time == (InGameTime { secs: 0, subsec_nanos: 0 })
    &&& game.buttons_pressed == Seq::new(11, |i: int| None::<InGameTime>)
    &&& game.piece_generator == builder.tetromino_generator
    &&& game.piece_preview == Seq::<Tetromino>::empty()
    &&& game.piece_held is None
    &&& board_empty(game.board)
    &&& delay_starts(delay_parts(builder.config.fall_delay_params), game.fall_delay)
    &&& game.fall_delay_lowerbound_hit == if span_le(
        game.fall_delay,
        delay_parts(builder.config.fall_delay_params).lowerbound,
    ) {
        Some(0u32)
    } else {
        None
    }
    &&& delay_starts(delay_parts(builder.config.lock_delay_params), game.lock_delay)
    &&& game.pieces_locked@ == Seq::new(7, |i: int| 0u32)
    &&& game.lineclears == 0
    &&& game.consecutive_line_clears == 0
    &&& game.score == 0
    &&& game.piece_in_play is None
    &&& game.next_update == Some(InGameTime { secs: 0, subsec_nanos: 0 })
    &&& game.result is None
    &&& (builder.seed matches Some(seed) ==> game.seed == seed)
    &&& game.first_generator == builder.tetromino_generator
    &&& game.config == builder.config
}

/// Rules with which a game can be moved on from its start: enough pieces can be
/// picked, and the lock delay can be scaled.
pub open spec fn startable(builder: BuilderView) -> bool {
    let config = builder.config;
    let lock = delay_parts(config.lock_delay_params);
    &&& config.piece_preview_count <= usize::MAX / 4
    &&& forall|draws: nat|
        draws <= config.piece_preview_count + PIECES_PER_UPDATE + 2 ==> #[trigger] generator_ready(
            generator_value(builder.tetromino_generator),
            draws,
        )
    &&& number_bits(config.lock_reset_cap_factor) <= BITS_EIGHT
    &&& lock.base_delay matches ExtDuration::Finite(t) ==> t.secs < 0x0800_0000_0000_0000
    &&& lock.lowerbound matches ExtDuration::Finite(t) ==> t.secs < 0x0800_0000_0000_0000
}

/// Whether dropping a piece makes it fall faster.
pub open spec fn drops_faster(builder: BuilderView) -> bool {
    BITS_ONE < number_bits(builder.config.soft_drop_divisor) <= BITS_INFINITE
}

/// In a game that was just built no line can be cleared before a second input:
/// its board is empty and its pieces fall straight down.
proof fn lemma_fresh_game_clears_nothing(
    builder: BuilderView,
    game: GameView,
    target: InGameTime,
    change: Option<ButtonChange>,
)
    requires
        fresh(builder, game),
    ensures
        !may_clear_lines(game, target, change),
{
    assert(left_open(game.board) && right_open(game.board)) by {
        assert forall|y: int| 0 <= y < 27 implies (#[trigger] game.board@[y])@[0] is None
            && game.board@[y]@[7] is None by {}
    }
}

/// A game that was just built by such rules can be moved on to any point in time,
/// whatever button changes there; if it is the one that drops a piece, it has to
/// drop it faster.
pub proof fn lemma_fresh_game_is_ready(
    builder: BuilderView,
    game: GameView,
    target: InGameTime,
    change: Option<ButtonChange>,
)
    requires
        startable(builder),
        fresh(builder, game),
        change == Some(ButtonChange::Press(Button::DropSoft)) ==> drops_faster(builder),
    ensures
        ready(game, target, change),
{
    let factor = number_bits(builder.config.lock_reset_cap_factor);
    lemma_ordinary_product(game.lock_delay, factor);
    lemma_fresh_game_clears_nothing(builder, game, target, change);
    reveal_with_fuel(count_sum, 8);
    assert forall|k: int| 0 <= k < 7 implies #[trigger] game.pieces_locked@[k]
        + PIECES_PER_UPDATE <= u32::MAX by {}
    assert(generator_ready(
        generator_value(builder.tetromino_generator),
        draws_ahead(game, target, change),
    ));
}

/// A game that was just built can be moved on to its own beginning if the pieces
/// that appear there can be picked and pieces take time to lock.
pub proof fn lemma_fresh_game_begins(builder: BuilderView, game: GameView)
    requires
        fresh(builder, game),
        builder.config.piece_preview_count <= usize::MAX / 4,
        generator_ready(
            generator_value(builder.tetromino_generator),
            (builder.config.piece_preview_count + 1) as nat,
        ),
        BITS_ONE < number_bits(builder.config.lock_reset_cap_factor) <= BITS_EIGHT,
        delay_parts(builder.config.lock_delay_params).base_delay matches ExtDuration::Finite(t)
            && 0 < t.nanos() && t.secs < 0x0800_0000_0000_0000,
        delay_parts(builder.config.lock_delay_params).lowerbound matches ExtDuration::Finite(t)
            && 0 < t.nanos() && t.secs < 0x0800_0000_0000_0000,
    ensures
        ready(game, InGameTime { secs: 0, subsec_nanos: 0 }, None),
{
    let zero = InGameTime { secs: 0, subsec_nanos: 0 };
    let factor = number_bits(builder.config.lock_reset_cap_factor);
    lemma_ordinary_product(game.lock_delay, factor);
    lemma_fresh_game_clears_nothing(builder, game, zero, None);
    reveal_with_fuel(count_sum, 8);
    assert(locks_ahead(game, zero, None) == 0);
    assert(draws_ahead(game, zero, None) == builder.config.piece_preview_count + 1);
    assert forall|k: int| 0 <= k < 7 implies #[trigger] game.pieces_locked@[k] <= u32::MAX by {}
}

/// With the rules that hold unless they are set otherwise a game can be moved on
/// from its start, whatever button changes.
pub proof fn law_default_rules_are_startable(builder: BuilderView)
    requires
        is_default_config(builder.config),
        is_default_generator(generator_value(builder.tetromino_generator)),
    ensures
        startable(builder),
        drops_faster(builder),
{
    let generator = generator_value(builder.tetromino_generator);
    assert forall|draws: nat|
        draws <= builder.config.piece_preview_count + PIECES_PER_UPDATE
            + 2 implies #[trigger] generator_ready(generator, draws) by {
        lemma_default_generator_is_ready(generator, draws);
    }
}

/// What picks pieces unless that is set otherwise can do so many times.
pub proof fn lemma_default_generator_is_ready(generator: PieceGenerator, draws: nat)
    requires
        is_default_generator(generator),
        draws < u32::MAX,
    ensures
        generator_ready(generator, draws),
{
    reveal_with_fuel(greatest, 8);
    if draws >= 2 {
        lemma_greatest_exponent(draws);
    }
}

/// A game as it was set up, without modifiers that could get in the way. Its
/// delays are claimed up to rounding: the engine computes them with floating-point
/// numbers.
pub assume_specification[ GameBuilder::build ](builder: &GameBuilder) -> (r: Game)
    requires
        buildable(builder_content(*builder)),
    ensures
        fresh(builder_content(*builder), observed(r)),
        observed(r).modifiers == Seq::<Seq<char>>::empty(),
        tame(r),
;

/// That a modifier, put into any tame game under these rules, leaves it tame.
pub uninterp spec fn modifier_tame(modifier: Modifier, config: ConfigView) -> bool;

/// What a modifier says of itself.
pub uninterp spec fn modifier_descriptor(modifier: Modifier) -> Seq<char>;

/// `GameBuilder::build_modded` with one modifier: a game as it was set up, with
/// that modifier. It is tame if the modifier is.
#[verifier::external_body]
pub(crate) fn build_with_modifier(builder: &GameBuilder, modifier: Modifier) -> (r: Game)
    requires
        buildable(builder_content(*builder)),
    ensures
        fresh(builder_content(*builder), observed(r)),
        observed(r).modifiers == seq![modifier_descriptor(modifier)],
        modifier_tame(modifier, builder_content(*builder).config) ==> tame(r),
{
    builder.build_modded([modifier])
}

/// Adds to the field `modifiers` of a game, at its end, and leaves the rest as it
/// is. The game stays tame if the modifier is.
#[verifier::external_body]
pub(crate) fn push_modifier(game: &mut Game, modifier: Modifier)
    ensures
        observed(*final(game)) == (GameView {
            modifiers: observed(*old(game)).modifiers.push(modifier_descriptor(modifier)),
            ..observed(*old(game))
        }),
        tame(*old(game)) && modifier_tame(modifier, observed(*old(game)).config) ==> tame(
            *final(game),
        ),
{
    game.modifiers.push(modifier);
}

/// Whether these are the bits of a number that is neither infinite nor undefined.
pub open spec fn bits_finite(bits: u64) -> bool {
    bits % 0x8000_0000_0000_0000 < BITS_INFINITE
}

/// Whether the factors by which a builder's delays shrink are finite.
pub open spec fn factors_finite(builder: BuilderView) -> bool {
    &&& bits_finite(delay_parts(builder.config.fall_delay_params).factor_bits)
    &&& bits_finite(delay_parts(builder.config.lock_delay_params).factor_bits)
}

/// How a builder's delays shrink. A builder does not give out what it was set up
/// with other than through `serde`: `serde_json::to_value` writes it with its
/// field `config` and the fields `fall_delay_params` and `lock_delay_params` of
/// that, and `serde_json::from_value` reads these back as they were. Of all that
/// they hold, numbers that are not finite cannot be read back.
#[verifier::external_body]
fn builder_delays(builder: &GameBuilder) -> (r: Option<(DelayParameters, DelayParameters)>)
    ensures
        match r {
            Some((fall, lock)) => {
                let config = builder_content(*builder).config;
                &&& factors_finite(builder_content(*builder))
                &&& delay_parts(fall) == delay_parts(config.fall_delay_params)
                &&& delay_parts(lock) == delay_parts(config.lock_delay_params)
            },
            None => !factors_finite(builder_content(*builder)),
        },
{
    let value = serde_json::to_value(builder).ok()?;
    let fall = serde_json::from_value(value["config"]["fall_delay_params"].clone()).ok()?;
    let lock = serde_json::from_value(value["config"]["lock_delay_params"].clone()).ok()?;
    Some((fall, lock))
}

/// Whether it is known that the delays that a game starts with can be computed.
pub fn is_buildable(builder: &GameBuilder) -> (b: bool)
    ensures
        b == (buildable(builder_content(*builder)) && factors_finite(builder_content(*builder))),
{
    match builder_delays(builder) {
        Some((fall, lock)) => is_span_computable(delay_parts_of(&fall).base_delay)
            && is_span_computable(delay_parts_of(&lock).base_delay),
        None => false,
    }
}

/// What it takes to build a game anew.
pub open spec fn blueprint_content(game: GameView) -> BuilderView {
    BuilderView {
        seed: Some(game.seed),
        tetromino_generator: game.first_generator,
        config: game.config,
    }
}

/// Texts as sequences of characters.
pub open spec fn texts_of(texts: Seq<String>) -> Seq<Seq<char>> {
    Seq::new(texts.len(), |i: int| texts[i]@)
}

/// `Game::blueprint`: a builder with the game's rules, its seed and its first
/// way of picking pieces, and what the game's modifiers say of themselves.
#[verifier::external_body]
pub(crate) fn blueprint(game: &Game) -> (r: (GameBuilder, Vec<String>))
    ensures
        builder_content(r.0) == blueprint_content(observed(*game)),
        texts_of(r.1@) == observed(*game).modifiers,
{
    let (builder, descriptors) = game.blueprint();
    (builder, descriptors.map(str::to_owned).collect())
}

} // verus!

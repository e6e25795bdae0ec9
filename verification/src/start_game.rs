//! Starting games by the name of a mode.
use crate::application::Application;
use crate::builder::{
    build_with_modifier, buildable, builder_content, conditions_value, engine_rotation_of, fresh,
    is_default_config, lemma_default_generator_is_ready, lemma_fresh_game_begins,
    modifier_descriptor, modifier_tame, BuilderView,
};
use crate::engine::{
    delay_parts, delay_parts_of, duration_of, engine_stat_of, generator_of, generator_value,
    millis_span, DelayParts, BITS_ONE,
};
use crate::game::{join3, GameMetaData, Stat};
use crate::live::{
    advance, advanced, game_result, game_time, observed, tame, Advance, ConfigView, GameView,
};
use crate::menu::Menu;
use crate::readiness::{generator_ready, is_generator_ready, is_ready, ready};
use crate::renderer::DiffPrintRenderer;
use crate::restoration::{debug_of, text_debug};
use crate::settings::{GameplaySettings, NewGameSettings};
use crate::spans::{is_span_computable, span_computable};
use crate::text::same_text;
use crate::time::{lemma_time_by_nanos, ExtDuration, InGameTime};
use falling_tetromino_engine::{DelayParameters, Game, GameBuilder, Modifier, Stat as EngineStat};
use vstd::prelude::*;
use vstd::string::*;

verus! {

/// A mode that a game can be started in.
#[derive(PartialEq, Eq, Structural, PartialOrd, Ord, Hash, Clone, Copy, Debug)]
pub enum StartMode {
    /// Forty lines against the clock.
    FortyLines,
    /// Many lines, faster and faster.
    Marathon,
    /// As many points as possible before the clock runs out.
    TimeTrial,
    /// Pieces land at once.
    Master,
    /// Boards to be cleared.
    Puzzle,
    /// Garbage to be dug through.
    Cheese {
        /// How many lines there are.
        linelimit: Option<u32>,
        /// How many tiles a line has.
        tiles_per_line: usize,
        /// How long a piece takes to fall by one row.
        fall_delay: ExtDuration,
    },
    /// Lines to be cleared one piece after the other.
    Combo {
        /// How many lines there are.
        linelimit: Option<u32>,
        /// The rows to start with.
        startlayout: u16,
    },
    /// By the player's own rules.
    Custom,
}

/// The mode that goes by a name in small letters.
pub open spec fn mode_named(name: Seq<char>, new_game: NewGameSettings) -> Option<StartMode> {
    if name == "40lines"@ || name == "40-lines"@ || name == "sprint"@ {
        Some(StartMode::FortyLines)
    } else if name == "marathon"@ {
        Some(StartMode::Marathon)
    } else if name == "timetrial"@ || name == "time-trial"@ || name == "time_trial"@ {
        Some(StartMode::TimeTrial)
    } else if name == "master"@ {
        Some(StartMode::Master)
    } else if name == "puzzle"@ {
        Some(StartMode::Puzzle)
    } else if name == "cheese"@ {
        Some(
            StartMode::Cheese {
                linelimit: new_game.cheese_linelimit,
                tiles_per_line: new_game.cheese_tiles_per_line,
                fall_delay: new_game.cheese_fall_delay,
            },
        )
    } else if name == "combo"@ {
        Some(
            StartMode::Combo {
                linelimit: new_game.combo_linelimit,
                startlayout: new_game.combo_startlayout,
            },
        )
    } else if name == "custom"@ {
        Some(StartMode::Custom)
    } else {
        None
    }
}

/// The mode that goes by a name in small letters.
pub fn find_mode(name: &str, new_game: &NewGameSettings) -> (r: Option<StartMode>)
    ensures
        r == mode_named(name@, *new_game),
{
    if same_text(name, "40lines") || same_text(name, "40-lines") || same_text(name, "sprint") {
        Some(StartMode::FortyLines)
    } else if same_text(name, "marathon") {
        Some(StartMode::Marathon)
    } else if same_text(name, "timetrial") || same_text(name, "time-trial") || same_text(
        name,
        "time_trial",
    ) {
        Some(StartMode::TimeTrial)
    } else if same_text(name, "master") {
        Some(StartMode::Master)
    } else if same_text(name, "puzzle") {
        Some(StartMode::Puzzle)
    } else if same_text(name, "cheese") {
        Some(
            StartMode::Cheese {
                linelimit: new_game.cheese_linelimit,
                tiles_per_line: new_game.cheese_tiles_per_line,
                fall_delay: new_game.cheese_fall_delay,
            },
        )
    } else if same_text(name, "combo") {
        Some(
            StartMode::Combo {
                linelimit: new_game.combo_linelimit,
                startlayout: new_game.combo_startlayout,
            },
        )
    } else if same_text(name, "custom") {
        Some(StartMode::Custom)
    } else {
        None
    }
}

/// `str::to_lowercase`.
pub uninterp spec fn lowercase(text: Seq<char>) -> Seq<char>;

/// A text in small letters, as `str::to_lowercase` gives it: a function of the
/// text.
#[verifier::external_body]
fn lowercase_of(text: &str) -> (r: String)
    ensures
        r@ == lowercase(text@),
{
    text.to_lowercase()
}

/// What is said of a mode that does not exist.
pub fn unknown_mode_message(mode_str: &str) -> (r: String)
    ensures
        r@ == "Unknown mode: "@ + text_debug(mode_str@)
            + ". Available: 40lines, marathon, timetrial, master, puzzle, cheese, combo, custom"@,
{
    join3(
        "Unknown mode: ",
        debug_of(mode_str).as_str(),
        ". Available: 40lines, marathon, timetrial, master, puzzle, cheese, combo, custom",
    )
}

/// The default rules with the player's settings for how the game plays.
pub open spec fn is_prepared(builder: BuilderView, gameplay: GameplaySettings) -> bool {
    &&& builder.seed is None
    &&& builder.tetromino_generator == gameplay.tetromino_generator
    &&& exists|defaults: ConfigView|
        is_default_config(defaults) && builder.config == #[trigger] with_gameplay(
            defaults,
            gameplay,
        )
}

/// Rules with the player's settings for how the game plays.
pub open spec fn with_gameplay(config: ConfigView, gameplay: GameplaySettings) -> ConfigView {
    ConfigView {
        rotation_system: gameplay.rotation_system,
        piece_preview_count: gameplay.piece_preview_count,
        delayed_auto_shift: gameplay.delayed_auto_shift,
        auto_repeat_rate: gameplay.auto_repeat_rate,
        soft_drop_divisor: gameplay.soft_drop_factor,
        line_clear_duration: gameplay.line_clear_duration,
        spawn_delay: gameplay.spawn_delay,
        allow_prespawn_actions: gameplay.allow_prespawn_actions,
        ..config
    }
}

/// A builder with the player's settings for how the game plays.
pub fn prepare_builder(gameplay: &GameplaySettings) -> (builder: GameBuilder)
    requires
        gameplay.wf(),
    ensures
        is_prepared(builder_content(builder), *gameplay),
        buildable(builder_content(builder)),
{
    let mut builder = Game::builder();
    let ghost defaults = builder_content(builder).config;
    builder.rotation_system(engine_rotation_of(gameplay.rotation_system)).tetromino_generator(
        gameplay.tetromino_generator,
    ).piece_preview_count(gameplay.piece_preview_count).delayed_auto_shift(
        duration_of(gameplay.delayed_auto_shift),
    ).auto_repeat_rate(duration_of(gameplay.auto_repeat_rate)).soft_drop_divisor(
        gameplay.soft_drop_factor,
    ).line_clear_duration(duration_of(gameplay.line_clear_duration)).spawn_delay(
        duration_of(gameplay.spawn_delay),
    ).allow_prespawn_actions(gameplay.allow_prespawn_actions);
    assert(builder_content(builder).config == with_gameplay(defaults, *gameplay));
    builder
}

// ---------------------------------------------------------------------------
// Custom games
// ---------------------------------------------------------------------------
/// The lock delay that shrinks once pieces fall as fast as they can.
pub open spec fn shrinking_lock_delay() -> DelayParts {
    DelayParts {
        base_delay: millis_span(500),
        factor_bits: BITS_ONE,
        subtrahend: millis_span(2),
        lowerbound: millis_span(200),
    }
}

/// What ends a custom game.
pub open spec fn custom_end_conditions(new_game: NewGameSettings) -> Seq<(Stat, bool)> {
    match new_game.custom_win_condition {
        Some(stat) => seq![(stat, true)],
        None => Seq::empty(),
    }
}

/// A prepared builder with the player's own rules. The lock delay shrinks if the
/// fall delay does.
pub open spec fn with_custom_rules(
    prepared: BuilderView,
    new_game: NewGameSettings,
    lock_delay_params: DelayParameters,
) -> BuilderView {
    BuilderView {
        seed: new_game.custom_seed,
        config: ConfigView {
            fall_delay_params: new_game.custom_fall_delay_params,
            end_conditions: custom_end_conditions(new_game),
            lock_delay_params: if delay_parts(new_game.custom_fall_delay_params).constant() {
                prepared.config.lock_delay_params
            } else {
                lock_delay_params
            },
            ..prepared.config
        },
        ..prepared
    }
}

/// Whether a builder is set up for a custom game.
pub open spec fn is_custom(
    builder: BuilderView,
    gameplay: GameplaySettings,
    new_game: NewGameSettings,
) -> bool {
    exists|prepared: BuilderView, lock_delay_params: DelayParameters|
        {
            &&& is_prepared(prepared, gameplay)
            &&& delay_parts(lock_delay_params) == shrinking_lock_delay()
            &&& builder == #[trigger] with_custom_rules(prepared, new_game, lock_delay_params)
        }
}

/// A builder that is set up for a custom game.
pub fn custom_builder(gameplay: &GameplaySettings, new_game: &NewGameSettings) -> (builder:
    GameBuilder)
    requires
        gameplay.wf(),
        new_game.wf(),
    ensures
        is_custom(builder_content(builder), *gameplay, *new_game),
        span_computable(delay_parts(new_game.custom_fall_delay_params).base_delay) ==> buildable(
            builder_content(builder),
        ),
{
    let mut builder = prepare_builder(gameplay);
    let ghost prepared = builder_content(builder);
    builder.fall_delay_params(new_game.custom_fall_delay_params);
    let mut end_conditions: Vec<(EngineStat, bool)> = Vec::new();
    if let Some(stat) = new_game.custom_win_condition {
        end_conditions.push((engine_stat_of(stat), true));
    }
    assert(conditions_value(end_conditions@) =~= custom_end_conditions(*new_game));
    builder.end_conditions(end_conditions);
    let standard_lock = DelayParameters::standard_lock();
    if !new_game.custom_fall_delay_params.is_constant() {
        builder.lock_delay_params(standard_lock);
    }
    if let Some(seed) = new_game.custom_seed {
        builder.seed(seed);
    }
    assert(builder_content(builder) == with_custom_rules(prepared, *new_game, standard_lock));
    builder
}

// ---------------------------------------------------------------------------
// Entering games
// ---------------------------------------------------------------------------
/// What came of starting a game.
#[derive(Debug)]
pub enum StartOutcome {
    /// The screen on which the game is played.
    Play(Menu),
    /// There is no mode of that name.
    UnknownMode,
    /// The game is set up in a way that the engine may not be able to play.
    NotReady,
}

/// A renderer that has not drawn anything yet.
pub open spec fn is_new_renderer(renderer: DiffPrintRenderer) -> bool {
    &&& renderer.wf()
    &&& renderer.screen.prev@.len() == 0
    &&& renderer.screen.next@.len() == 0
    &&& renderer.screen.x_draw == 0
    &&& renderer.screen.y_draw == 0
    &&& renderer.buffered_feedback_msgs@.len() == 0
    &&& renderer.buffered_text_msgs@.len() == 0
    &&& renderer.hard_drop_tiles@.len() == 0
}

/// Whether the engine can be asked to move a game on to its own beginning. It
/// refuses a game that is beyond it or has ended, which does no harm.
pub open spec fn begins(game: GameView) -> bool {
    ||| 0 < game.time.nanos()
    ||| game.result is Some
    ||| ready(game, InGameTime { secs: 0, subsec_nanos: 0 }, None)
}

/// Whether the engine can be asked to move a game on to its own beginning.
pub fn is_beginning(game: &Game) -> (b: bool)
    ensures
        b == begins(observed(*game)),
{
    let zero = InGameTime::zero();
    proof {
        lemma_time_by_nanos(zero, InGameTime { secs: 0, subsec_nanos: 0 });
    }
    !game_time(game).is_zero() || game_result(game).is_some() || is_ready(game, zero, None)
}

/// Whether this came of entering a game: it is moved on to its own beginning, so
/// that the first piece appears, and then shown with nothing done in it yet.
pub open spec fn enters(
    game: Game,
    title: Seq<char>,
    comparison_stat: (Stat, bool),
    menu: Menu,
) -> bool {
    exists|entered: Game, r: Advance|
        {
            &&& #[trigger] advanced(
                game,
                InGameTime { secs: 0, subsec_nanos: 0 },
                None,
                entered,
                r,
            )
            &&& r != Advance::NotReady
            &&& tame(entered)
            &&& menu matches Menu::PlayGame {
                game,
                game_input_history,
                game_meta_data,
                game_renderer,
            }
            &&& *game == entered
            &&& game_input_history@.len() == 0
            &&& game_meta_data.title@ == title
            &&& game_meta_data.comparison_stat == comparison_stat
            &&& is_new_renderer(*game_renderer)
        }
}

/// Whether a character is a decimal digit.
pub open spec fn is_digit(c: char) -> bool {
    '0' <= c <= '9'
}

/// Whether a text is made like a date with hours and minutes: a year of four
/// digits, or of more with a sign, and then month, day, hours and minutes of two.
pub open spec fn is_date(text: Seq<char>) -> bool {
    let n = text.len();
    &&& n >= 16
    &&& text[n - 12] == '-' && text[n - 9] == '-' && text[n - 6] == '_' && text[n - 3] == ':'
    &&& forall|i: int|
        #![trigger text[i]]
        0 <= i < n ==> {
            ||| is_digit(text[i])
            ||| i == n - 12 || i == n - 9 || i == n - 6 || i == n - 3
            ||| n > 16 && i == 0 && text[i] == '+'
        }
}

/// The recorded date of a game that is about to be played.
pub open spec fn recorded_date(menu: Menu) -> Seq<char> {
    match menu {
        Menu::PlayGame { game_meta_data, .. } => game_meta_data.datetime@,
        _ => Seq::empty(),
    }
}

/// `chrono::Utc::now`, written with `format` as date, hours and minutes. Which
/// date it is depends on the clock alone, so that only its shape is claimed. The
/// clock is taken to be set to a time since 1970 that `chrono` can tell.
#[verifier::external_body]
fn datetime_now() -> (r: String)
    ensures
        is_date(r@),
{
    chrono::Utc::now().format("%Y-%m-%d_%H:%M").to_string()
}

/// Enters a game that was just built.
pub fn enter_game(game: Game, title: String, comparison_stat: (Stat, bool), datetime: String) -> (r:
    Menu)
    requires
        tame(game),
        begins(observed(game)),
    ensures
        enters(game, title@, comparison_stat, r),
        recorded_date(r) == datetime@,
{
    let mut game = game;
    let zero = InGameTime::zero();
    proof {
        lemma_time_by_nanos(zero, InGameTime { secs: 0, subsec_nanos: 0 });
    }
    advance(&mut game, zero, None);
    Menu::PlayGame {
        game: Box::new(game),
        game_input_history: Vec::new(),
        game_meta_data: GameMetaData { datetime, title, comparison_stat },
        game_renderer: Box::new(DiffPrintRenderer::default()),
    }
}

/// What sets up a game of a mode: its name, how its games are compared, and a
/// game of it.
pub type Preset = (String, (Stat, bool), Game);

/// Whether `preset` sets up tame games of a mode.
pub open spec fn sets_up<P: Fn(StartMode, &GameBuilder) -> Preset>(
    gameplay: GameplaySettings,
    mode: StartMode,
    preset: P,
) -> bool {
    &&& forall|builder: GameBuilder|
        is_prepared(builder_content(builder), gameplay) ==> #[trigger] preset.requires(
            (mode, &builder),
        )
    &&& forall|builder: GameBuilder, made: Preset|
        is_prepared(builder_content(builder), gameplay) && #[trigger] preset.ensures(
            (mode, &builder),
            made,
        ) ==> tame(made.2)
}

/// Whether every game of a mode that `preset` sets up can begin.
pub open spec fn sets_up_beginnings<P: Fn(StartMode, &GameBuilder) -> Preset>(
    gameplay: GameplaySettings,
    mode: StartMode,
    preset: P,
) -> bool {
    forall|builder: GameBuilder, made: Preset|
        is_prepared(builder_content(builder), gameplay) && #[trigger] preset.ensures(
            (mode, &builder),
            made,
        ) ==> begins(observed(made.2))
}

/// Whether `start_board` can put the given board in place, if there is one, and
/// leaves custom games tame.
pub open spec fn places_board<B: Fn(&String) -> Modifier>(
    gameplay: GameplaySettings,
    new_game: NewGameSettings,
    start_board: B,
) -> bool {
    new_game.custom_board matches Some(board) ==> {
        &&& start_board.requires((&board,))
        &&& forall|modifier: Modifier, builder: BuilderView|
            #![trigger start_board.ensures((&board,), modifier), is_custom(builder, gameplay, new_game)]
            start_board.ensures((&board,), modifier) && is_custom(builder, gameplay, new_game)
                ==> modifier_tame(modifier, builder.config)
    }
}

/// Whether this is a custom game as it was set up. `start_board` makes the
/// modifier that puts a given board in place.
pub open spec fn is_custom_game<B: Fn(&String) -> Modifier>(
    gameplay: GameplaySettings,
    new_game: NewGameSettings,
    start_board: B,
    game: Game,
) -> bool {
    exists|builder: BuilderView|
        {
            &&& is_custom(builder, gameplay, new_game)
            &&& #[trigger] fresh(builder, observed(game))
            &&& match new_game.custom_board {
                Some(board) => exists|modifier: Modifier|
                    {
                        &&& start_board.ensures((&board,), modifier)
                        &&& observed(game).modifiers == seq![
                            #[trigger] modifier_descriptor(modifier),
                        ]
                    },
                None => observed(game).modifiers.len() == 0,
            }
        }
}

/// Whether this came of starting a custom game.
pub open spec fn starts_custom<B: Fn(&String) -> Modifier>(
    gameplay: GameplaySettings,
    new_game: NewGameSettings,
    start_board: B,
    menu: Menu,
) -> bool {
    exists|game: Game|
        {
            &&& #[trigger] is_custom_game(gameplay, new_game, start_board, game)
            &&& enters(game, "Custom"@, (Stat::PointsScored(0), false), menu)
        }
}

/// Whether this came of starting a game of a mode that is set up by `preset`.
pub open spec fn starts_preset<P: Fn(StartMode, &GameBuilder) -> Preset>(
    gameplay: GameplaySettings,
    mode: StartMode,
    preset: P,
    menu: Menu,
) -> bool {
    exists|builder: GameBuilder, made: Preset|
        {
            &&& is_prepared(builder_content(builder), gameplay)
            &&& #[trigger] preset.ensures((mode, &builder), made)
            &&& enters(made.2, made.0@, made.1, menu)
        }
}

/// Whether this came of starting a game of the mode of that name.
pub open spec fn starts<
    P: Fn(StartMode, &GameBuilder) -> Preset,
    B: Fn(&String) -> Modifier,
>(
    name: Seq<char>,
    gameplay: GameplaySettings,
    new_game: NewGameSettings,
    preset: P,
    start_board: B,
    r: Option<Menu>,
) -> bool {
    match mode_named(name, new_game) {
        None => r is None,
        Some(StartMode::Custom) => {
            &&& r matches Some(menu)
            &&& starts_custom(gameplay, new_game, start_board, menu)
            &&& is_date(recorded_date(menu))
        },
        Some(mode) => {
            &&& r matches Some(menu)
            &&& starts_preset(gameplay, mode, preset, menu)
            &&& is_date(recorded_date(menu))
        },
    }
}

/// Whether a game of the mode of that name can be started.
pub open spec fn can_start<
    P: Fn(StartMode, &GameBuilder) -> Preset,
    B: Fn(&String) -> Modifier,
>(
    name: Seq<char>,
    gameplay: GameplaySettings,
    new_game: NewGameSettings,
    preset: P,
    start_board: B,
) -> bool {
    match mode_named(name, new_game) {
        None => true,
        Some(StartMode::Custom) => {
            &&& custom_in_range(gameplay, new_game)
            &&& places_board(gameplay, new_game, start_board)
        },
        Some(mode) => {
            &&& sets_up(gameplay, mode, preset)
            &&& sets_up_beginnings(gameplay, mode, preset)
        },
    }
}

/// The player's own settings for custom games have no say in games of any other
/// mode: neither in which mode a name stands for nor in whether a game of it can
/// be started and what comes of that.
pub proof fn law_custom_settings_count_in_custom_games_only<
    P: Fn(StartMode, &GameBuilder) -> Preset,
    B: Fn(&String) -> Modifier,
>(
    name: Seq<char>,
    gameplay: GameplaySettings,
    a: NewGameSettings,
    b: NewGameSettings,
    preset: P,
    start_board: B,
    r: Option<Menu>,
)
    requires
        name != "custom"@,
        a == (NewGameSettings {
            custom_fall_delay_params: a.custom_fall_delay_params,
            custom_win_condition: a.custom_win_condition,
            custom_seed: a.custom_seed,
            custom_board: a.custom_board,
            ..b
        }),
    ensures
        mode_named(name, a) == mode_named(name, b),
        can_start(name, gameplay, a, preset, start_board) == can_start(
            name,
            gameplay,
            b,
            preset,
            start_board,
        ),
        starts(name, gameplay, a, preset, start_board, r) == starts(
            name,
            gameplay,
            b,
            preset,
            start_board,
            r,
        ),
{
}

/// Settings with which a custom game can be started: the pieces that appear at
/// its beginning can be picked, and the fall delay can be computed.
pub open spec fn custom_in_range(gameplay: GameplaySettings, new_game: NewGameSettings) -> bool {
    &&& gameplay.piece_preview_count <= usize::MAX / 4
    &&& generator_ready(
        generator_value(gameplay.tetromino_generator),
        (gameplay.piece_preview_count + 1) as nat,
    )
    &&& span_computable(delay_parts(new_game.custom_fall_delay_params).base_delay)
}

/// Whether a custom game can be started with these settings.
pub fn is_custom_in_range(gameplay: &GameplaySettings, new_game: &NewGameSettings) -> (b: bool)
    ensures
        b == custom_in_range(*gameplay, *new_game),
{
    gameplay.piece_preview_count <= usize::MAX / 4 && is_generator_ready(
        &generator_of(&gameplay.tetromino_generator),
        gameplay.piece_preview_count as u64 + 1,
    ) && is_span_computable(delay_parts_of(&new_game.custom_fall_delay_params).base_delay)
}

/// A custom game as it was set up can be moved on to its own beginning, if the
/// settings are in range.
proof fn lemma_custom_game_begins(
    gameplay: GameplaySettings,
    new_game: NewGameSettings,
    builder: BuilderView,
    game: GameView,
)
    requires
        custom_in_range(gameplay, new_game),
        is_custom(builder, gameplay, new_game),
        fresh(builder, game),
    ensures
        ready(game, InGameTime { secs: 0, subsec_nanos: 0 }, None),
{
    lemma_fresh_game_begins(builder, game);
}

/// The default settings are in range for a custom game, so that it starts.
pub proof fn law_default_settings_are_in_range(
    gameplay: GameplaySettings,
    new_game: NewGameSettings,
    combo_startlayout: u16,
)
    requires
        gameplay.is_default(),
        new_game.is_default(combo_startlayout),
    ensures
        custom_in_range(gameplay, new_game),
{
    lemma_default_generator_is_ready(
        generator_value(gameplay.tetromino_generator),
        (gameplay.piece_preview_count + 1) as nat,
    );
}

/// Starts a custom game.
pub fn start_custom_game<B: Fn(&String) -> Modifier>(
    gameplay: &GameplaySettings,
    new_game: &NewGameSettings,
    start_board: B,
    datetime: String,
) -> (r: Menu)
    requires
        gameplay.wf(),
        new_game.wf(),
        custom_in_range(*gameplay, *new_game),
        places_board(*gameplay, *new_game, start_board),
    ensures
        starts_custom(*gameplay, *new_game, start_board, r),
        recorded_date(r) == datetime@,
{
    let builder = custom_builder(gameplay, new_game);
    let ghost content = builder_content(builder);
    assert(is_custom(content, *gameplay, *new_game));
    let game = match &new_game.custom_board {
        Some(board) => {
            let modifier = start_board(board);
            assert(modifier_tame(modifier, content.config));
            build_with_modifier(&builder, modifier)
        },
        None => builder.build(),
    };
    assert(is_custom_game(*gameplay, *new_game, start_board, game));
    proof {
        lemma_custom_game_begins(*gameplay, *new_game, content, observed(game));
    }
    enter_game(game, "Custom".to_owned(), (Stat::PointsScored(0), false), datetime)
}

impl Application {
    /// Starts a game of a mode, given by its name in letters of any size.
    /// `preset` sets up a game of any mode but the custom one, and `start_board`
    /// makes the modifier that puts a given board in place.
    pub fn build_game_from_mode_str<
        P: Fn(StartMode, &GameBuilder) -> Preset,
        B: Fn(&String) -> Modifier,
    >(&self, mode_str: &str, preset: P, start_board: B) -> (r: Option<Menu>)
        requires
            self.settings.gameplay_wf(),
            self.settings.new_game.wf(),
            can_start(
                lowercase(mode_str@),
                self.settings.active_gameplay(),
                self.settings.new_game,
                preset,
                start_board,
            ),
        ensures
            starts(
                lowercase(mode_str@),
                self.settings.active_gameplay(),
                self.settings.new_game,
                preset,
                start_board,
                r,
            ),
    {
        let gameplay = self.settings.gameplay();
        match find_mode(lowercase_of(mode_str).as_str(), &self.settings.new_game) {
            None => None,
            Some(StartMode::Custom) => Some(
                start_custom_game(gameplay, &self.settings.new_game, start_board, datetime_now()),
            ),
            Some(mode) => {
                let builder = prepare_builder(gameplay);
                let (title, comparison_stat, game) = preset(mode, &builder);
                Some(enter_game(game, title, comparison_stat, datetime_now()))
            },
        }
    }

    /// Starts a game as [`Application::build_game_from_mode_str`] does, unless it
    /// is set up in a way that the engine may not be able to play.
    pub fn build_game_if_ready<
        P: Fn(StartMode, &GameBuilder) -> Preset,
        B: Fn(&String) -> Modifier,
    >(&self, mode_str: &str, preset: P, start_board: B) -> (r: StartOutcome)
        requires
            self.settings.gameplay_wf(),
            self.settings.new_game.wf(),
            forall|mode: StartMode|
                mode != StartMode::Custom ==> #[trigger] sets_up(
                    self.settings.active_gameplay(),
                    mode,
                    preset,
                ),
            places_board(self.settings.active_gameplay(), self.settings.new_game, start_board),
        ensures
            ({
                let name = lowercase(mode_str@);
                let gameplay = self.settings.active_gameplay();
                let new_game = self.settings.new_game;
                match r {
                    StartOutcome::Play(menu) => starts(
                        name,
                        gameplay,
                        new_game,
                        preset,
                        start_board,
                        Some(menu),
                    ),
                    StartOutcome::UnknownMode => mode_named(name, new_game) is None,
                    StartOutcome::NotReady => {
                        &&& mode_named(name, new_game) is Some
                        &&& !can_start(name, gameplay, new_game, preset, start_board)
                    },
                }
            }),
    {
        let gameplay = self.settings.gameplay();
        match find_mode(lowercase_of(mode_str).as_str(), &self.settings.new_game) {
            None => StartOutcome::UnknownMode,
            Some(StartMode::Custom) => if is_custom_in_range(gameplay, &self.settings.new_game) {
                match self.build_game_from_mode_str(mode_str, preset, start_board) {
                    Some(menu) => StartOutcome::Play(menu),
                    None => StartOutcome::UnknownMode,
                }
            } else {
                StartOutcome::NotReady
            },
            Some(mode) => {
                assert(sets_up(*gameplay, mode, preset));
                let builder = prepare_builder(gameplay);
                let (title, comparison_stat, game) = preset(mode, &builder);
                if is_beginning(&game) {
                    StartOutcome::Play(enter_game(game, title, comparison_stat, datetime_now()))
                } else {
                    StartOutcome::NotReady
                }
            },
        }
    }
}

/// Each mode goes by its names and by no other text; the modes with settings of their
/// own come with what the player set for them.
pub proof fn law_modes_go_by_their_names(name: Seq<char>, new_game: NewGameSettings)
    ensures
        ({
            let mode = mode_named(name, new_game);
            &&& mode == Some(StartMode::FortyLines) <==> {
                name == "40lines"@ || name == "40-lines"@ || name == "sprint"@
            }
            &&& mode == Some(StartMode::Marathon) <==> name == "marathon"@
            &&& mode == Some(StartMode::TimeTrial) <==> {
                name == "timetrial"@ || name == "time-trial"@ || name == "time_trial"@
            }
            &&& mode == Some(StartMode::Master) <==> name == "master"@
            &&& mode == Some(StartMode::Puzzle) <==> name == "puzzle"@
            &&& mode == Some(StartMode::Custom) <==> name == "custom"@
            &&& name == "cheese"@ ==> mode == Some(
                StartMode::Cheese {
                    linelimit: new_game.cheese_linelimit,
                    tiles_per_line: new_game.cheese_tiles_per_line,
                    fall_delay: new_game.cheese_fall_delay,
                },
            )
            &&& name == "combo"@ ==> mode == Some(
                StartMode::Combo {
                    linelimit: new_game.combo_linelimit,
                    startlayout: new_game.combo_startlayout,
                },
            )
            &&& (mode matches Some(StartMode::Cheese { .. })) ==> name == "cheese"@
            &&& (mode matches Some(StartMode::Combo { .. })) ==> name == "combo"@
        }),
{
    reveal_strlit("40lines");
    reveal_strlit("40-lines");
    reveal_strlit("sprint");
    reveal_strlit("marathon");
    reveal_strlit("timetrial");
    reveal_strlit("time-trial");
    reveal_strlit("time_trial");
    reveal_strlit("master");
    reveal_strlit("puzzle");
    reveal_strlit("cheese");
    reveal_strlit("combo");
    reveal_strlit("custom");
    assert("40lines"@.len() == 7 && "40lines"@[0] == '4' && "40lines"@[1] == '0');
    assert("40-lines"@.len() == 8 && "40-lines"@[0] == '4' && "40-lines"@[1] == '0');
    assert("sprint"@.len() == 6 && "sprint"@[0] == 's' && "sprint"@[1] == 'p');
    assert("marathon"@.len() == 8 && "marathon"@[0] == 'm' && "marathon"@[1] == 'a');
    assert("timetrial"@.len() == 9 && "timetrial"@[0] == 't' && "timetrial"@[1] == 'i');
    assert("time-trial"@.len() == 10 && "time-trial"@[0] == 't' && "time-trial"@[1] == 'i');
    assert("time_trial"@.len() == 10 && "time_trial"@[0] == 't' && "time_trial"@[1] == 'i');
    assert("master"@.len() == 6 && "master"@[0] == 'm' && "master"@[1] == 'a');
    assert("puzzle"@.len() == 6 && "puzzle"@[0] == 'p' && "puzzle"@[1] == 'u');
    assert("cheese"@.len() == 6 && "cheese"@[0] == 'c' && "cheese"@[1] == 'h');
    assert("combo"@.len() == 5 && "combo"@[0] == 'c' && "combo"@[1] == 'o');
    assert("custom"@.len() == 6 && "custom"@[0] == 'c' && "custom"@[1] == 'u');
}

/// A prepared builder has every setting of the player for how the game plays.
pub proof fn law_players_settings_reach_the_builder(
    builder: BuilderView,
    gameplay: GameplaySettings,
)
    requires
        is_prepared(builder, gameplay),
    ensures
        builder.seed is None,
        builder.tetromino_generator == gameplay.tetromino_generator,
        builder.config.rotation_system == gameplay.rotation_system,
        builder.config.piece_preview_count == gameplay.piece_preview_count,
        builder.config.delayed_auto_shift == gameplay.delayed_auto_shift,
        builder.config.auto_repeat_rate == gameplay.auto_repeat_rate,
        builder.config.soft_drop_divisor == gameplay.soft_drop_factor,
        builder.config.line_clear_duration == gameplay.line_clear_duration,
        builder.config.spawn_delay == gameplay.spawn_delay,
        builder.config.allow_prespawn_actions == gameplay.allow_prespawn_actions,
{
}

/// A builder for a custom game has the player's settings for how the game plays and
/// their own rules: the seed, how the fall delay shrinks, and the one condition that
/// completes the game, if there is one. If the fall delay shrinks, the lock delay goes
/// from half a second down to a fifth.
pub proof fn law_custom_rules_reach_the_builder(
    builder: BuilderView,
    gameplay: GameplaySettings,
    new_game: NewGameSettings,
)
    requires
        is_custom(builder, gameplay, new_game),
    ensures
        builder.seed == new_game.custom_seed,
        builder.tetromino_generator == gameplay.tetromino_generator,
        builder.config.rotation_system == gameplay.rotation_system,
        builder.config.piece_preview_count == gameplay.piece_preview_count,
        builder.config.delayed_auto_shift == gameplay.delayed_auto_shift,
        builder.config.auto_repeat_rate == gameplay.auto_repeat_rate,
        builder.config.soft_drop_divisor == gameplay.soft_drop_factor,
        builder.config.line_clear_duration == gameplay.line_clear_duration,
        builder.config.spawn_delay == gameplay.spawn_delay,
        builder.config.allow_prespawn_actions == gameplay.allow_prespawn_actions,
        builder.config.fall_delay_params == new_game.custom_fall_delay_params,
        new_game.custom_win_condition is None ==> builder.config.end_conditions.len() == 0,
        new_game.custom_win_condition matches Some(stat) ==> {
            &&& builder.config.end_conditions.len() == 1
            &&& builder.config.end_conditions[0] == (stat, true)
        },
        !delay_parts(new_game.custom_fall_delay_params).constant() ==> {
            let lock = delay_parts(builder.config.lock_delay_params);
            &&& lock.base_delay == millis_span(500)
            &&& lock.lowerbound == millis_span(200)
            &&& lock.subtrahend == millis_span(2)
        },
{
}

/// A custom game that was started without a board of its own plays by the player's
/// settings and rules, from their seed if they set one, under the title of custom
/// games and with nothing done in it yet.
pub proof fn law_custom_game_plays_by_the_players_rules<B: Fn(&String) -> Modifier>(
    gameplay: GameplaySettings,
    new_game: NewGameSettings,
    start_board: B,
    menu: Menu,
)
    requires
        starts_custom(gameplay, new_game, start_board, menu),
        new_game.custom_board is None,
    ensures
        menu matches Menu::PlayGame { game, game_input_history, game_meta_data, .. } && {
            let view = observed(*game);
            &&& game_input_history@.len() == 0
            &&& game_meta_data.title@ == "Custom"@
            &&& game_meta_data.comparison_stat == (Stat::PointsScored(0), false)
            &&& (new_game.custom_seed matches Some(seed) ==> view.seed == seed)
            &&& view.config.fall_delay_params == new_game.custom_fall_delay_params
            &&& view.config.rotation_system == gameplay.rotation_system
            &&& view.config.piece_preview_count == gameplay.piece_preview_count
            &&& view.config.delayed_auto_shift == gameplay.delayed_auto_shift
            &&& view.config.auto_repeat_rate == gameplay.auto_repeat_rate
            &&& view.config.soft_drop_divisor == gameplay.soft_drop_factor
            &&& view.config.line_clear_duration == gameplay.line_clear_duration
            &&& view.config.spawn_delay == gameplay.spawn_delay
            &&& view.config.allow_prespawn_actions == gameplay.allow_prespawn_actions
            &&& view.modifiers.len() == 0
            &&& view.time == (InGameTime { secs: 0, subsec_nanos: 0 }) || view.result is Some
        },
{
    let game = choose|game: Game|
        {
            &&& #[trigger] is_custom_game(gameplay, new_game, start_board, game)
            &&& enters(game, "Custom"@, (Stat::PointsScored(0), false), menu)
        };
    let builder = choose|builder: BuilderView|
        {
            &&& is_custom(builder, gameplay, new_game)
            &&& #[trigger] fresh(builder, observed(game))
            &&& observed(game).modifiers.len() == 0
        };
    law_custom_rules_reach_the_builder(builder, gameplay, new_game);
}

} // verus!

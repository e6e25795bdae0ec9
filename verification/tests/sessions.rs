//! Sessions, savefiles and starting games.
use std::collections::HashMap;

use falling_tetromino_engine::{DelayParameters, ExtDuration as EngineExtDuration, Game, Modifier};
use tetro_tui::application::{
    are_packed, check_written, main_xy, savefile_name, Application, ExitAction, SaveState,
};
use tetro_tui::button::{Button, ButtonChange};
use tetro_tui::game::{GameMetaData, GameOver, GameResult, Stat};
use tetro_tui::input_history::CompressedInputHistory;
use tetro_tui::live::{game_seed, game_time};
use tetro_tui::menu::Menu;
use tetro_tui::restoration::{GameRestorationData, GameSave};
use tetro_tui::scores::{ScoresAndReplays, ScoresEntry, ScoresSorting};
use tetro_tui::settings::{GameplaySettings, NewGameSettings, SavefileGranularity, Settings};
use tetro_tui::start_game::{
    custom_builder, find_mode, prepare_builder, unknown_mode_message, Preset, StartMode,
    is_beginning, is_custom_in_range, StartOutcome,
};
use tetro_tui::time::{ExtDuration, InGameTime};

fn millis(ms: u64) -> InGameTime {
    InGameTime::from_millis(ms)
}

fn settings() -> Settings {
    let palettes = (0..10).map(|_| HashMap::new()).collect();
    Settings::default_with(palettes, vec![vec![]; 4], 150)
}

fn application() -> Application {
    Application::new(settings(), None, false, None, None, None)
}

fn meta() -> GameMetaData {
    GameMetaData {
        datetime: "2026-01-02_03:04".to_owned(),
        title: "Custom".to_owned(),
        comparison_stat: (Stat::PointsScored(0), false),
    }
}

fn seeded(seed: u64) -> Game {
    let mut builder = Game::builder();
    builder.seed(seed);
    builder.build()
}

fn save(inputs: Vec<(InGameTime, ButtonChange)>) -> GameSave<Vec<(InGameTime, ButtonChange)>> {
    GameSave {
        game_meta_data: meta(),
        inputs_to_load: inputs.len(),
        game_restoration_data: GameRestorationData::new(&seeded(5), inputs, Some(millis(9))),
    }
}

fn inputs() -> Vec<(InGameTime, ButtonChange)> {
    vec![
        (millis(10), ButtonChange::Press(Button::MoveLeft)),
        (millis(25), ButtonChange::Release(Button::MoveLeft)),
    ]
}

fn past_game() -> (ScoresEntry, Option<GameRestorationData<CompressedInputHistory>>) {
    let game = seeded(1);
    let data = GameRestorationData::new(&game, CompressedInputHistory::new(&inputs()), None);
    (ScoresEntry::new(&game, &meta()), Some(data))
}

#[test]
fn a_session_begins_with_defaults() {
    let app = Application::new(settings(), None, true, None, None, Some("combo".to_owned()));
    assert!(app.runtime_data.kitty_detected && app.runtime_data.kitty_assumed);
    assert_eq!(app.save_on_exit, SavefileGranularity::NoSavefile);
    assert!(app.scores_and_replays.entries.is_empty());
    assert_eq!(app.scores_and_replays.sorting, ScoresSorting::Chronological);
    assert_eq!(app.game_saves.0, 0);
    assert!(app.game_saves.1.is_empty());
    assert_eq!(app.start_mode.as_deref(), Some("combo"));
    assert_eq!(app.settings.new_game.custom_seed, None);
    assert_eq!(app.settings.new_game.custom_board, None);
}

#[test]
fn the_command_line_overrides_what_was_kept() {
    let mut kept = settings();
    kept.new_game.custom_seed = Some(1);
    kept.new_game.custom_board = Some("X".to_owned());
    kept.graphics_mut().show_fps = true;
    let state = SaveState {
        save_on_exit: SavefileGranularity::RememberSettings,
        settings: kept,
        scores_and_replays: ScoresAndReplays::default(),
        game_saves: (3, vec![]),
    };
    let app = Application::new(settings(), Some(state), false, Some(42), None, None);
    assert!(!app.runtime_data.kitty_assumed);
    assert_eq!(app.save_on_exit, SavefileGranularity::RememberSettings);
    assert!(app.settings.graphics().show_fps);
    assert_eq!(app.settings.new_game.custom_seed, Some(42));
    assert_eq!(app.settings.new_game.custom_board.as_deref(), Some("X"));
    assert_eq!(app.game_saves.0, 3);
    let app = Application::new(settings(), None, false, None, Some("  O".to_owned()), None);
    assert_eq!(app.settings.new_game.custom_board.as_deref(), Some("  O"));
    assert_eq!(app.settings.new_game.custom_seed, None);
}

#[test]
fn what_is_drawn_stands_in_the_middle() {
    assert_eq!(main_xy((80, 24)), (9, 0));
    assert_eq!(main_xy((162, 63)), (50, 20));
    assert_eq!(main_xy((61, 100)), (0, 38));
    assert_eq!(main_xy((0, 0)), (0, 0));
    assert_eq!(main_xy((u16::MAX, u16::MAX)), (32_736, 32_756));
}

#[test]
fn the_savefile_has_a_name() {
    assert_eq!(savefile_name("3.0.0"), ".tetro-tui_3.0.0_savefile.json");
}

#[test]
fn writing_less_than_everything_is_an_error() {
    assert!(check_written(10, 10).is_ok());
    assert!(check_written(0, 0).is_ok());
    assert_eq!(
        check_written(9, 10).unwrap_err(),
        "attempt to write to file consumed `n < save_str.len()` bytes"
    );
}

#[test]
fn the_savefile_is_written_or_taken_away() {
    let mut app = application();
    assert_eq!(app.exit_action(false), ExitAction::Nothing);
    assert_eq!(app.exit_action(true), ExitAction::Remove);
    app.save_on_exit = SavefileGranularity::RememberSettings;
    assert_eq!(app.exit_action(false), ExitAction::Store);
    assert_eq!(app.exit_action(true), ExitAction::Store);
}

#[test]
fn only_what_is_wished_for_is_kept() {
    for (granularity, entries, replays) in [
        (SavefileGranularity::NoSavefile, 0, 0),
        (SavefileGranularity::RememberSettings, 0, 0),
        (SavefileGranularity::RememberSettingsScores, 2, 0),
        (SavefileGranularity::RememberSettingsScoresReplays, 2, 2),
    ] {
        let mut app = application();
        app.save_on_exit = granularity;
        app.scores_and_replays.entries = vec![past_game(), past_game()];
        for _ in 0..2 {
            app.store_savefile();
            assert_eq!(app.scores_and_replays.entries.len(), entries);
            let kept = app.scores_and_replays.entries.iter().filter(|e| e.1.is_some()).count();
            assert_eq!(kept, replays);
        }
    }
}

#[test]
fn saves_are_loaded_as_they_were_stored() {
    let mut app = application();
    app.game_saves = (1, vec![save(inputs()), save(vec![])]);
    let packed = app.store_savefile();
    assert_eq!(packed.0, 1);
    assert_eq!(packed.1[0].game_restoration_data.input_history.0, vec![10 * 32 + 1, 15 * 32]);
    assert_eq!(app.game_saves.1.len(), 2);
    assert!(are_packed(&packed.1));
    let state = SaveState {
        save_on_exit: app.save_on_exit,
        settings: settings(),
        scores_and_replays: ScoresAndReplays::default(),
        game_saves: packed,
    };
    let mut other = application();
    other.load_savefile(state);
    assert_eq!(other.game_saves.0, 1);
    for (loaded, stored) in other.game_saves.1.iter().zip(app.game_saves.1.iter()) {
        assert_eq!(loaded.game_meta_data, stored.game_meta_data);
        assert_eq!(loaded.inputs_to_load, stored.inputs_to_load);
        let (a, b) = (&loaded.game_restoration_data, &stored.game_restoration_data);
        assert_eq!(a.builder, b.builder);
        assert_eq!(a.mod_descriptors, b.mod_descriptors);
        assert_eq!(a.input_history, b.input_history);
        assert_eq!(a.forfeit, b.forfeit);
    }
}

#[test]
fn saves_that_cannot_be_unpacked_are_noticed() {
    let bad = save(vec![]).map(|_| CompressedInputHistory(vec![31]));
    assert!(!are_packed(&vec![bad]));
    assert!(are_packed(&vec![]));
}

#[test]
fn modes_go_by_names() {
    let n = NewGameSettings {
        cheese_linelimit: Some(7),
        combo_linelimit: None,
        ..NewGameSettings::default_with(150)
    };
    for name in ["40lines", "40-lines", "sprint"] {
        assert_eq!(find_mode(name, &n), Some(StartMode::FortyLines));
    }
    assert_eq!(find_mode("marathon", &n), Some(StartMode::Marathon));
    for name in ["timetrial", "time-trial", "time_trial"] {
        assert_eq!(find_mode(name, &n), Some(StartMode::TimeTrial));
    }
    assert_eq!(find_mode("master", &n), Some(StartMode::Master));
    assert_eq!(find_mode("puzzle", &n), Some(StartMode::Puzzle));
    assert_eq!(
        find_mode("cheese", &n),
        Some(StartMode::Cheese {
            linelimit: Some(7),
            tiles_per_line: 9,
            fall_delay: ExtDuration::Infinite
        })
    );
    assert_eq!(
        find_mode("combo", &n),
        Some(StartMode::Combo { linelimit: None, startlayout: 150 })
    );
    assert_eq!(find_mode("custom", &n), Some(StartMode::Custom));
    for name in ["", "Custom", "40 lines", "time trial", "zen"] {
        assert_eq!(find_mode(name, &n), None);
    }
}

#[test]
fn an_unknown_mode_is_quoted() {
    assert_eq!(
        unknown_mode_message("z\"n"),
        "Unknown mode: \"z\\\"n\". Available: 40lines, marathon, timetrial, master, puzzle, cheese, combo, custom"
    );
}

#[test]
fn a_prepared_game_plays_as_set_up() {
    let gameplay = GameplaySettings {
        rotation_system: tetro_tui::settings::RotationSystem::Super,
        piece_preview_count: 2,
        delayed_auto_shift: millis(1),
        auto_repeat_rate: millis(2),
        line_clear_duration: millis(3),
        spawn_delay: millis(4),
        allow_prespawn_actions: false,
        soft_drop_factor: falling_tetromino_engine::ExtNonNegF64::MAX,
        tetromino_generator: falling_tetromino_engine::TetrominoGenerator::bag(),
    };
    let game = prepare_builder(&gameplay).build();
    assert_eq!(game.config.rotation_system, falling_tetromino_engine::RotationSystem::Super);
    assert_eq!(game.config.piece_preview_count, 2);
    assert_eq!(game.config.delayed_auto_shift.as_millis(), 1);
    assert_eq!(game.config.auto_repeat_rate.as_millis(), 2);
    assert_eq!(game.config.line_clear_duration.as_millis(), 3);
    assert_eq!(game.config.spawn_delay.as_millis(), 4);
    assert!(!game.config.allow_prespawn_actions);
    assert_eq!(game.config.soft_drop_divisor, falling_tetromino_engine::ExtNonNegF64::MAX);
    assert_eq!(
        game.state_init().tetromino_generator,
        falling_tetromino_engine::TetrominoGenerator::bag()
    );
    let default = falling_tetromino_engine::Configuration::default();
    assert_eq!(game.config.fall_delay_params, default.fall_delay_params);
    assert_eq!(game.config.lock_delay_params, default.lock_delay_params);
    assert_eq!(game.config.update_delays_every_n_lineclears, 10);
    assert_eq!(game.config.lock_reset_cap_factor.get(), 8.0);
}

#[test]
fn a_custom_game_has_its_own_rules() {
    let gameplay = GameplaySettings::default();
    let mut n = NewGameSettings::default_with(0);
    n.custom_seed = Some(77);
    n.custom_win_condition = Some(Stat::TimeElapsed(millis(2_500)));
    let game = custom_builder(&gameplay, &n).build();
    assert_eq!(game_seed(&game), 77);
    assert_eq!(game.config.fall_delay_params, DelayParameters::standard_fall());
    assert_eq!(game.config.lock_delay_params, DelayParameters::standard_lock());
    assert_eq!(
        game.config.end_conditions,
        vec![(
            falling_tetromino_engine::Stat::TimeElapsed(std::time::Duration::from_millis(2_500)),
            true
        )]
    );
    n.custom_fall_delay_params = DelayParameters::constant(EngineExtDuration::Infinite);
    n.custom_win_condition = None;
    let game = custom_builder(&gameplay, &n).build();
    assert!(game.config.lock_delay_params.is_constant());
    assert!(game.config.end_conditions.is_empty());
}

fn board_modifier(board: &String) -> Modifier {
    Modifier { descriptor: board.clone(), mod_function: Box::new(|_, _, _, _, _, _| {}) }
}

fn preset(mode: StartMode, builder: &falling_tetromino_engine::GameBuilder) -> Preset {
    let title = match mode {
        StartMode::FortyLines => "40-Lines".to_owned(),
        other => format!("{other:?}"),
    };
    (title, (Stat::TimeElapsed(InGameTime::zero()), true), builder.build())
}

#[test]
fn every_mode_is_started_by_each_of_its_names() {
    let app = application();
    for (names, title) in [
        (vec!["40lines", "40-Lines", "sprint"], "40-Lines"),
        (vec!["marathon"], "Marathon"),
        (vec!["timetrial", "time-trial", "TIME_TRIAL"], "TimeTrial"),
        (vec!["Master"], "Master"),
        (vec!["puzzle"], "Puzzle"),
        (vec!["custom"], "Custom"),
    ] {
        for name in names {
            match app.build_game_from_mode_str(name, preset, board_modifier) {
                Some(Menu::PlayGame { game_meta_data, .. }) => {
                    assert_eq!(game_meta_data.title, title);
                }
                other => panic!("{other:?}"),
            }
        }
    }
}

#[test]
fn custom_settings_count_in_custom_games_only() {
    let mut app = application();
    app.settings.new_game.custom_seed = Some(3);
    app.settings.new_game.custom_board = Some("X X".to_owned());
    app.settings.new_game.custom_win_condition = Some(Stat::LinesCleared(1));
    match app.build_game_from_mode_str("combo", preset, board_modifier) {
        Some(Menu::PlayGame { game, .. }) => {
            assert!(game.modifiers.is_empty());
            assert!(game.config.end_conditions.is_empty());
            assert!(game.config.fall_delay_params.is_constant());
        }
        other => panic!("{other:?}"),
    }
}

#[test]
fn a_mode_is_started_by_its_name() {
    let app = application();
    match app.build_game_from_mode_str("SPRINT", preset, board_modifier) {
        Some(Menu::PlayGame {
            game,
            game_input_history,
            game_meta_data,
            game_renderer,
        }) => {
            assert_eq!(game_time(&game), millis(0));
            assert!(game.phase().piece().is_some());
            assert!(game_input_history.is_empty());
            assert_eq!(game_meta_data.title, "40-Lines");
            assert_eq!(game_meta_data.comparison_stat, (Stat::TimeElapsed(millis(0)), true));
            for (i, c) in game_meta_data.datetime.chars().enumerate() {
                match i {
                    4 | 7 => assert_eq!(c, '-'),
                    10 => assert_eq!(c, '_'),
                    13 => assert_eq!(c, ':'),
                    _ => assert!(c.is_ascii_digit()),
                }
            }
            assert_eq!(game_meta_data.datetime.len(), 16);
            assert!(game_renderer.buffered_feedback_msgs.is_empty());
        }
        other => panic!("{other:?}"),
    }
    assert!(app.build_game_from_mode_str("zen", preset, board_modifier).is_none());
    assert!(matches!(
        app.build_game_if_ready("zen", preset, board_modifier),
        StartOutcome::UnknownMode
    ));
}

#[test]
fn a_custom_game_is_started_by_its_name() {
    let mut app = application();
    app.settings.new_game.custom_seed = Some(3);
    match app.build_game_from_mode_str("Custom", preset, board_modifier) {
        Some(Menu::PlayGame { game, game_meta_data, .. }) => {
            assert_eq!(game_seed(&game), 3);
            assert!(game.modifiers.is_empty());
            assert_eq!(game_meta_data.title, "Custom");
            assert_eq!(game_meta_data.comparison_stat, (Stat::PointsScored(0), false));
        }
        other => panic!("{other:?}"),
    }
    app.settings.new_game.custom_board = Some("X X".to_owned());
    match app.build_game_from_mode_str("cUSTOM", preset, board_modifier) {
        Some(Menu::PlayGame { game, .. }) => {
            assert_eq!(game.modifiers.len(), 1);
            assert_eq!(game.modifiers[0].descriptor, "X X");
        }
        other => panic!("{other:?}"),
    }
    for secs in [0x8000_0000, 0xFFFF_FFFF_FFFF_FBFF] {
        let long = EngineExtDuration::Finite(std::time::Duration::from_secs(secs));
        app.settings.new_game.custom_fall_delay_params = DelayParameters::constant(long);
        assert!(matches!(
            app.build_game_if_ready("custom", preset, board_modifier),
            StartOutcome::Play(_)
        ));
    }
    let longest = EngineExtDuration::Finite(std::time::Duration::MAX);
    app.settings.new_game.custom_fall_delay_params = DelayParameters::constant(longest);
    assert!(matches!(
        app.build_game_if_ready("custom", preset, board_modifier),
        StartOutcome::NotReady
    ));
}

#[test]
fn a_custom_game_with_a_steep_preference_is_started() {
    let mut app = application();
    for (snap, started) in [(200.0, true), (10_000.0, false)] {
        let snap = falling_tetromino_engine::ExtNonNegF64::new(snap).unwrap();
        app.settings.gameplay_mut().tetromino_generator =
            falling_tetromino_engine::TetrominoGenerator::recency_with(snap);
        let ready = is_custom_in_range(app.settings.gameplay(), &app.settings.new_game);
        assert_eq!(ready, started);
        match app.build_game_if_ready("custom", preset, board_modifier) {
            StartOutcome::Play(Menu::PlayGame { game, .. }) => {
                assert!(started);
                assert_eq!(game.state().piece_preview.len(), 4);
            }
            StartOutcome::NotReady => assert!(!started),
            other => panic!("{other:?}"),
        }
    }
}

#[test]
fn a_preset_that_cannot_begin_is_not_started() {
    let app = application();
    let dry = |mode: StartMode, builder: &falling_tetromino_engine::GameBuilder| {
        let mut builder = builder.clone();
        builder.tetromino_generator(falling_tetromino_engine::TetrominoGenerator::Stock {
            pieces_left: [0; 7],
            multiplicity: std::num::NonZeroU32::MIN,
            restock_threshold: 0,
        });
        assert!(!is_beginning(&builder.build()));
        preset(mode, &builder)
    };
    assert!(matches!(
        app.build_game_if_ready("master", dry, board_modifier),
        StartOutcome::NotReady
    ));
    let ended = |mode: StartMode, builder: &falling_tetromino_engine::GameBuilder| {
        let (title, stat, mut game) = preset(mode, builder);
        game.forfeit();
        assert!(is_beginning(&game));
        (title, stat, game)
    };
    match app.build_game_if_ready("master", ended, board_modifier) {
        StartOutcome::Play(Menu::PlayGame { game, .. }) => {
            assert_eq!(game_time(&game), millis(0));
            assert!(game.phase().piece().is_none());
        }
        other => panic!("{other:?}"),
    }
}

#[test]
fn a_game_that_cannot_be_played_is_not_started() {
    let mut app = application();
    app.settings.gameplay_mut().tetromino_generator =
        falling_tetromino_engine::TetrominoGenerator::Stock {
            pieces_left: [0; 7],
            multiplicity: std::num::NonZeroU32::MIN,
            restock_threshold: 0,
        };
    assert!(matches!(
        app.build_game_if_ready("custom", preset, board_modifier),
        StartOutcome::NotReady
    ));
}

#[test]
fn an_unfinished_game_counts_as_given_up() {
    assert_eq!(past_game().0.result, GameResult::Lost(GameOver::Forfeit));
}

//! Games of the engine: building, moving on, recording and bringing back.
use std::time::Duration;

use falling_tetromino_engine::{
    Button as EngineButton, ButtonChange as EngineButtonChange, DelayParameters,
    ExtDuration as EngineExtDuration, ExtNonNegF64, Feedback as EngineFeedback, FeedbackVerbosity,
    Game, GameBuilder, Modifier, Stat as EngineStat,
};
use tetro_tui::builder::is_buildable;
use tetro_tui::button::{Button, ButtonChange};
use tetro_tui::engine::{duration_of, time_of, PieceGenerator};
use tetro_tui::game::{Feedback, GameOver, GameResult, GameSnapshot, Stat};
use tetro_tui::live::{
    advance, game_result, game_seed, game_time, pressed_since, Advance, UpdateGameError,
};
use tetro_tui::readiness::{is_generator_ready, is_ready};
use tetro_tui::restoration::{error_messages, warn_messages, GameRestorationData};
use tetro_tui::time::{ExtDuration, InGameTime};

fn millis(ms: u64) -> InGameTime {
    InGameTime::from_millis(ms)
}

fn seeded(seed: u64) -> Game {
    let mut builder = Game::builder();
    builder.seed(seed);
    builder.build()
}

fn started(seed: u64) -> Game {
    let mut game = seeded(seed);
    assert!(matches!(advance(&mut game, millis(0), None), Advance::Updated(_)));
    game
}

#[test]
fn durations_are_times() {
    assert_eq!(time_of(Duration::new(3, 500)), InGameTime { secs: 3, subsec_nanos: 500 });
    assert_eq!(duration_of(millis(1_250)), Duration::from_millis(1_250));
}

#[test]
fn a_new_game_is_at_its_beginning() {
    let game = seeded(42);
    let shown = GameSnapshot::of(&game);
    assert_eq!(shown.time, millis(0));
    assert_eq!(shown.buttons_pressed, [false; 11]);
    assert!(shown.piece_preview.is_empty());
    assert_eq!(shown.piece_held, None);
    assert_eq!(shown.board, [[None; 10]; 27]);
    assert_eq!(shown.fall_delay, ExtDuration::Finite(millis(1_000)));
    assert_eq!(shown.lock_delay, ExtDuration::Finite(millis(500)));
    assert_eq!(shown.pieces_locked, [0; 7]);
    assert_eq!((shown.lineclears, shown.score), (0, 0));
    assert!(shown.end_conditions.is_empty());
    assert!(shown.lock_delay_is_constant);
    assert!(shown.fall_delay_lowerbound_hit);
    assert_eq!(shown.piece_in_play, None);
    assert_eq!(shown.result, None);
    assert!(shown.is_wf());
    assert_eq!(game_seed(&game), 42);
}

#[test]
fn a_snapshot_shows_what_the_engine_has() {
    let mut game = started(7);
    advance(&mut game, millis(100), Some(ButtonChange::Press(Button::HoldPiece)));
    advance(&mut game, millis(200), Some(ButtonChange::Press(Button::DropHard)));
    advance(&mut game, millis(300), None);
    let shown = GameSnapshot::of(&game);
    let state = game.state();
    assert_eq!(shown.time, millis(300));
    assert_eq!(shown.piece_preview.len(), 4);
    for (mine, theirs) in shown.piece_preview.iter().zip(state.piece_preview.iter()) {
        assert_eq!(mine.index(), *theirs as usize);
    }
    let (held, swap) = state.piece_held.unwrap();
    assert_eq!(shown.piece_held.map(|(t, s)| (t.index(), s)), Some((held as usize, swap)));
    for b in 0..11 {
        assert_eq!(shown.buttons_pressed[b], state.buttons_pressed[b].is_some());
    }
    assert!(shown.buttons_pressed[6] && shown.buttons_pressed[10]);
    assert_eq!(pressed_since(&game, 6), Some(millis(200)));
    assert_eq!(pressed_since(&game, 0), None);
    assert_eq!(shown.pieces_locked, state.pieces_locked);
    assert_eq!(shown.pieces_locked.iter().sum::<u32>(), 1);
    assert_eq!(shown.board.iter().flatten().filter(|tile| tile.is_some()).count(), 4);
    for y in 0..27 {
        for x in 0..10 {
            assert_eq!(shown.board[y][x], state.board[y][x].map(|kind| kind.get()));
        }
    }
    let piece = shown.piece_in_play.unwrap();
    let engine_piece = game.phase().piece().unwrap();
    assert_eq!(piece.position, engine_piece.position);
    assert_eq!(piece.tetromino.index(), engine_piece.tetromino as usize);
    assert_eq!(piece.orientation as usize, engine_piece.orientation as usize);
}

#[test]
fn end_conditions_and_delays_are_shown() {
    let mut builder = Game::builder();
    builder
        .end_conditions(vec![
            (EngineStat::TimeElapsed(Duration::from_millis(1_500)), true),
            (EngineStat::PiecesLocked(3), false),
            (EngineStat::LinesCleared(40), true),
            (EngineStat::PointsScored(9), false),
        ])
        .fall_delay_params(DelayParameters::constant(EngineExtDuration::Infinite))
        .lock_delay_params(DelayParameters::standard_lock());
    let shown = GameSnapshot::of(&builder.build());
    assert_eq!(
        shown.end_conditions,
        vec![
            (Stat::TimeElapsed(millis(1_500)), true),
            (Stat::PiecesLocked(3), false),
            (Stat::LinesCleared(40), true),
            (Stat::PointsScored(9), false),
        ]
    );
    assert_eq!(shown.fall_delay, ExtDuration::Infinite);
    assert!(!shown.lock_delay_is_constant);
}

#[test]
fn the_past_is_refused() {
    let mut game = started(1);
    advance(&mut game, millis(50), None);
    assert_eq!(
        advance(&mut game, millis(49), None),
        Advance::Refused(UpdateGameError::TargetTimeInPast)
    );
    assert_eq!(game_time(&game), millis(50));
}

#[test]
fn an_ended_game_is_refused() {
    let mut game = started(1);
    let (time, feedback) = game.forfeit();
    assert_eq!(time, Duration::ZERO);
    assert!(matches!(feedback, EngineFeedback::GameEnded { .. }));
    assert_eq!(game_result(&game), Some(GameResult::Lost(GameOver::Forfeit)));
    assert_eq!(
        advance(&mut game, millis(50), None),
        Advance::Refused(UpdateGameError::GameEnded)
    );
    assert_eq!(GameSnapshot::of(&game).piece_in_play, None);
}

#[test]
fn the_clock_goes_to_where_it_is_moved() {
    let mut game = started(3);
    let r = advance(&mut game, millis(10), Some(ButtonChange::Press(Button::MoveLeft)));
    assert!(matches!(r, Advance::Updated(_)));
    assert_eq!(game_time(&game), millis(10));
    assert_eq!(pressed_since(&game, 0), Some(millis(10)));
    advance(&mut game, millis(12), Some(ButtonChange::Release(Button::MoveLeft)));
    assert_eq!(pressed_since(&game, 0), None);
}

#[test]
fn a_hard_drop_is_told() {
    let mut game = started(3);
    let before = GameSnapshot::of(&game).piece_in_play.unwrap();
    match advance(&mut game, millis(10), Some(ButtonChange::Press(Button::DropHard))) {
        Advance::Updated(msgs) => {
            assert_eq!(msgs[0].0, millis(10));
            match &msgs[0].1 {
                Feedback::HardDrop { old_piece, new_piece } => {
                    assert_eq!(old_piece.tetromino, before.tetromino);
                    assert_eq!(new_piece.position.1, 0);
                    assert_eq!(*new_piece, old_piece.landed(&[[None; 10]; 27]));
                }
                other => panic!("{other:?}"),
            }
            assert!(matches!(&msgs[1].1, Feedback::PieceLocked { piece } if piece.position.1 == 0));
            assert!(msgs.iter().all(|(_, feedback)| feedback.is_wf()));
        }
        other => panic!("{other:?}"),
    }
}

#[test]
fn a_completed_game_tells_so() {
    let mut builder = Game::builder();
    builder.seed(5).end_conditions(vec![(EngineStat::TimeElapsed(Duration::from_millis(30)), true)]);
    let mut game = builder.build();
    advance(&mut game, millis(0), None);
    advance(&mut game, millis(40), None);
    match advance(&mut game, millis(60), None) {
        Advance::Updated(msgs) => {
            let expected = GameResult::Completed(Stat::TimeElapsed(millis(30)));
            assert_eq!(msgs.last().unwrap().1, Feedback::GameEnded { result: expected });
            assert_eq!(game_result(&game), Some(expected));
        }
        other => panic!("{other:?}"),
    }
}

#[test]
fn a_lost_limit_is_named() {
    let mut builder = Game::builder();
    builder.seed(5).end_conditions(vec![(EngineStat::PiecesLocked(1), false)]);
    let mut game = builder.build();
    advance(&mut game, millis(0), None);
    advance(&mut game, millis(10), Some(ButtonChange::Press(Button::DropHard)));
    assert_eq!(
        game_result(&game),
        Some(GameResult::Lost(GameOver::Limit(Stat::PiecesLocked(1))))
    );
    assert_eq!(GameOver::Limit(Stat::PiecesLocked(1)).describe(), "Limit(PiecesLocked(1))");
    assert_eq!(GameOver::LockOut.describe(), "LockOut");
    assert_eq!(GameOver::BlockOut.describe(), "BlockOut");
    assert_eq!(GameOver::Forfeit.describe(), "Forfeit");
}

#[test]
fn times_are_described_as_durations() {
    assert_eq!(Stat::TimeElapsed(millis(1_500)).describe(), "TimeElapsed(1.5s)");
    assert_eq!(Stat::LinesCleared(40).describe(), "LinesCleared(40)");
    assert_eq!(Stat::PointsScored(0).describe(), "PointsScored(0)");
}

#[test]
fn a_game_piled_up_to_the_top_is_lost() {
    let mut game = started(11);
    let mut t = 0;
    while game_result(&game).is_none() {
        t += 1_000;
        advance(&mut game, millis(t), Some(ButtonChange::Press(Button::DropHard)));
        assert!(t < 1_000_000);
    }
    assert!(matches!(
        game_result(&game),
        Some(GameResult::Lost(GameOver::BlockOut | GameOver::LockOut))
    ));
}

/// A modifier that puts a board in place once.
fn board_setter(rows: Vec<[Option<std::num::NonZeroU8>; 10]>) -> Modifier {
    let mut rows = Some(rows);
    Modifier {
        descriptor: "board".to_owned(),
        mod_function: Box::new(move |_, _, _, state, _, _| {
            if let Some(rows) = rows.take() {
                for (y, row) in rows.into_iter().enumerate() {
                    state.board[y] = row;
                }
            }
        }),
    }
}

#[test]
fn a_game_that_never_adjusts_its_delays_goes_on_until_a_line_can_be_cleared() {
    let mut builder = Game::builder();
    builder.seed(3).update_delays_every_n_lineclears(0);
    for button in [Button::MoveLeft, Button::MoveRight, Button::TeleLeft, Button::RotateRight] {
        let press = Some(ButtonChange::Press(button));
        let mut game = builder.build();
        assert!(is_ready(&game, millis(60_000), press));
        assert!(matches!(advance(&mut game, millis(5_000), press), Advance::Updated(_)));
    }
    let mut game = builder.build();
    assert!(matches!(advance(&mut game, millis(0), None), Advance::Updated(_)));
    assert!(matches!(advance(&mut game, millis(10_000), None), Advance::Updated(_)));
    assert_eq!(game.state().lineclears, 0);

    let mut row = [std::num::NonZeroU8::new(1); 10];
    for x in 3..7 {
        row[x] = None;
    }
    let mut game = builder.build_modded([board_setter(vec![row])]);
    assert!(matches!(advance(&mut game, millis(0), None), Advance::Updated(_)));
    assert!(!is_ready(&game, millis(1), Some(ButtonChange::Press(Button::RotateRight))));
    assert_eq!(
        advance(&mut game, millis(1), Some(ButtonChange::Press(Button::DropHard))),
        Advance::NotReady
    );
    assert_eq!(game_time(&game), millis(0));
    game.config.update_delays_every_n_lineclears = 10;
    assert!(is_ready(&game, millis(1), Some(ButtonChange::Press(Button::DropHard))));
}

#[test]
fn counters_are_held_against_what_an_update_can_add() {
    let mut row = [std::num::NonZeroU8::new(1); 10];
    row[4] = None;
    let near_the_end = |lineclears: u32, score: u32| {
        let mut first = true;
        let modifier = Modifier {
            descriptor: "counters".to_owned(),
            mod_function: Box::new(move |_, _, _, state, _, _| {
                if first {
                    first = false;
                    state.board[0] = row;
                    state.lineclears = lineclears;
                    state.score = score;
                }
            }),
        };
        let mut builder = Game::builder();
        builder.seed(9);
        let mut game = builder.build_modded([modifier]);
        assert!(matches!(advance(&mut game, millis(0), None), Advance::Updated(_)));
        game
    };
    let press = Some(ButtonChange::Press(Button::DropHard));
    assert!(is_ready(&near_the_end(u32::MAX - 4, 0), millis(0), press));
    assert!(!is_ready(&near_the_end(u32::MAX - 3, 0), millis(0), press));
    assert!(is_ready(&near_the_end(0, u32::MAX - 65), millis(0), press));
    assert!(!is_ready(&near_the_end(0, u32::MAX - 64), millis(0), press));
    let mut game = near_the_end(u32::MAX - 4, u32::MAX - 65);
    assert!(matches!(advance(&mut game, millis(0), press), Advance::Updated(_)));
}

#[test]
fn a_piece_pushed_both_ways_at_once_without_delays_is_not_moved_on() {
    let mut builder = Game::builder();
    builder.delayed_auto_shift(Duration::ZERO).auto_repeat_rate(Duration::ZERO);
    let mut game = builder.build();
    assert!(is_ready(&game, millis(1), Some(ButtonChange::Press(Button::MoveLeft))));
    advance(&mut game, millis(1), Some(ButtonChange::Press(Button::MoveLeft)));
    assert!(!is_ready(&game, millis(1), Some(ButtonChange::Press(Button::MoveRight))));
    assert!(is_ready(&game, millis(2), Some(ButtonChange::Press(Button::MoveRight))));
    assert!(is_ready(&game, millis(1), Some(ButtonChange::Release(Button::MoveRight))));
}

#[test]
fn a_game_in_which_nothing_happens_is_ready() {
    let mut builder = Game::builder();
    builder.delayed_auto_shift(Duration::ZERO).auto_repeat_rate(Duration::ZERO);
    let mut game = builder.build();
    let (left, right) = (Button::MoveLeft, Button::MoveRight);
    advance(&mut game, millis(1), Some(ButtonChange::Press(Button::DropHard)));
    assert_eq!(GameSnapshot::of(&game).piece_in_play, None);
    for change in [ButtonChange::Press(left), ButtonChange::Press(right)] {
        assert!(is_ready(&game, millis(2), Some(change)));
        assert!(matches!(advance(&mut game, millis(2), Some(change)), Advance::Updated(_)));
    }
    assert!(is_ready(&game, millis(40), None));
    assert!(!is_ready(&game, millis(1_000), None));
    let release = Some(ButtonChange::Release(left));
    assert!(matches!(advance(&mut game, millis(40), release), Advance::Updated(_)));
    assert!(matches!(advance(&mut game, millis(1_000), None), Advance::Updated(_)));

    let mut game = started(6);
    game.config.update_delays_every_n_lineclears = 0;
    assert!(is_ready(&game, millis(0), None));
    assert!(matches!(advance(&mut game, millis(8_000), None), Advance::Updated(_)));
}

#[test]
fn generators_that_run_dry_are_not_ready() {
    let mut builder = Game::builder();
    let empty_bag = falling_tetromino_engine::TetrominoGenerator::Stock {
        pieces_left: [0; 7],
        multiplicity: std::num::NonZeroU32::MIN,
        restock_threshold: 0,
    };
    builder.tetromino_generator(empty_bag);
    assert!(!is_ready(&builder.build(), millis(0), None));
    for generator in [
        falling_tetromino_engine::TetrominoGenerator::uniform(),
        falling_tetromino_engine::TetrominoGenerator::bag(),
        falling_tetromino_engine::TetrominoGenerator::recency(),
        falling_tetromino_engine::TetrominoGenerator::balance_relative(),
    ] {
        builder.tetromino_generator(generator);
        assert!(is_ready(&builder.build(), millis(0), None));
    }
    builder.tetromino_generator(falling_tetromino_engine::TetrominoGenerator::recency_with(
        falling_tetromino_engine::ExtNonNegF64::MAX,
    ));
    assert!(!is_ready(&builder.build(), millis(0), None));
}

#[test]
fn endless_factors_are_ready() {
    let mut builder = Game::builder();
    builder.lock_reset_cap_factor(ExtNonNegF64::MAX);
    builder.soft_drop_divisor(ExtNonNegF64::MIN);
    let press = Some(ButtonChange::Press(Button::DropSoft));
    let mut game = builder.build();
    assert!(is_ready(&game, millis(0), press));
    assert!(matches!(advance(&mut game, millis(0), press), Advance::Updated(_)));
}

#[test]
fn long_delays_are_ready_unless_their_multiple_just_does_not_fit() {
    let mut builder = Game::builder();
    for (secs, expected) in [
        (0x8000_0000, true),
        (0x1FFF_0000_0000_0000, true),
        (0x2000_0000_0000_0000, false),
        (0x2001_0000_0000_0000, true),
        (0xF000_0000_0000_0000, true),
    ] {
        let delay = Duration::from_secs(secs);
        builder.lock_delay_params(DelayParameters::constant(delay.into()));
        let mut game = builder.build();
        assert_eq!(is_ready(&game, millis(0), None), expected);
        if expected {
            assert!(matches!(advance(&mut game, millis(0), None), Advance::Updated(_)));
        }
    }
}

#[test]
fn small_divisors_are_ready_unless_the_quotient_just_does_not_fit() {
    let press = Some(ButtonChange::Press(Button::DropSoft));
    let mut builder = Game::builder();
    builder.soft_drop_divisor(ExtNonNegF64::new(1.0 / 1_099_511_627_776.0).unwrap());
    for (secs, expected) in [
        (1, true),
        (0xFF_0000, true),
        (0x100_0000, false),
        (0x101_0000, true),
        (0x8000_0000, true),
    ] {
        let delay = Duration::from_secs(secs);
        builder.fall_delay_params(DelayParameters::constant(delay.into()));
        let mut game = builder.build();
        assert!(is_ready(&game, millis(0), None));
        assert_eq!(is_ready(&game, millis(0), press), expected);
        if expected {
            assert!(matches!(advance(&mut game, millis(0), press), Advance::Updated(_)));
        }
    }
    builder.fall_delay_params(DelayParameters::standard_fall());
    assert!(is_ready(&builder.build(), millis(0), press));
}

#[test]
fn negative_numbers_are_not_ready() {
    let negative: ExtNonNegF64 = serde_json::from_str("-1.0").unwrap();
    let press = Some(ButtonChange::Press(Button::DropSoft));
    let mut builder = Game::builder();
    builder.soft_drop_divisor(negative);
    assert!(!is_ready(&builder.build(), millis(0), press));
    let mut builder = Game::builder();
    builder.lock_reset_cap_factor(negative);
    assert!(!is_ready(&builder.build(), millis(0), None));
}

#[test]
fn the_smallest_delay_counts_once_lines_can_be_cleared() {
    let mut builder = Game::builder();
    let span = Duration::from_secs(0x2000_0000_0000_0000);
    builder.lock_delay_params(
        DelayParameters::new(
            EngineExtDuration::Infinite,
            span.into(),
            1.into(),
            EngineExtDuration::ZERO,
        )
        .unwrap(),
    );
    let mut row = [std::num::NonZeroU8::new(1); 10];
    row[5] = None;
    let mut game = builder.build_modded([board_setter(vec![row])]);
    assert!(is_ready(&game, millis(0), None));
    assert!(matches!(advance(&mut game, millis(0), None), Advance::Updated(_)));
    assert!(!is_ready(&game, millis(9), Some(ButtonChange::Press(Button::DropHard))));
}

#[test]
fn delays_that_shrink_are_scaled_by_nothing_and_by_everything() {
    let mut row = [std::num::NonZeroU8::new(1); 10];
    row[5] = None;
    let mut builder = Game::builder();
    builder.seed(12);
    builder.fall_delay_params(DelayParameters::standard_fall());
    builder.lock_delay_params(DelayParameters::standard_lock());
    builder.soft_drop_divisor(ExtNonNegF64::new(0.0).unwrap());
    builder.lock_reset_cap_factor(ExtNonNegF64::MAX);
    let mut game = builder.build_modded([board_setter(vec![row])]);
    assert!(matches!(advance(&mut game, millis(0), None), Advance::Updated(_)));
    let press = Some(ButtonChange::Press(Button::DropSoft));
    assert!(is_ready(&game, millis(5), press));
    assert!(matches!(advance(&mut game, millis(5), press), Advance::Updated(_)));
}

#[test]
fn a_steep_preference_for_what_is_long_ago_is_ready_while_weights_stay_in_range() {
    let mut builder = Game::builder();
    for (snap, expected) in [(0.0, true), (127.0, true), (200.0, true), (435.0, true), (436.0, false)] {
        builder.tetromino_generator(falling_tetromino_engine::TetrominoGenerator::recency_with(
            ExtNonNegF64::new(snap).unwrap(),
        ));
        let mut game = builder.build();
        assert_eq!(is_ready(&game, millis(0), None), expected);
        if expected {
            assert!(matches!(advance(&mut game, millis(0), None), Advance::Updated(_)));
        }
    }
    for (count, expected) in [(709, true), (710, false)] {
        builder.tetromino_generator(
            falling_tetromino_engine::TetrominoGenerator::BalanceRelative {
                relative_counts: [count; 7],
            },
        );
        let mut game = builder.build();
        assert_eq!(is_ready(&game, millis(0), None), expected);
        if expected {
            assert!(matches!(advance(&mut game, millis(0), None), Advance::Updated(_)));
        }
    }
}

#[test]
fn builders_tell_whether_their_games_can_be_built() {
    let mut builder = Game::builder();
    assert!(is_buildable(&builder));
    builder.soft_drop_divisor(ExtNonNegF64::MAX);
    assert!(is_buildable(&builder));
    builder.fall_delay_params(DelayParameters::constant(
        Duration::new(0xFFFF_FFFF_FFFF_FBFF, 5).into(),
    ));
    assert!(is_buildable(&builder));
    let mut game = builder.build();
    assert!(matches!(advance(&mut game, millis(0), None), Advance::Updated(_)));
    builder.lock_delay_params(DelayParameters::constant(
        Duration::from_secs(0xFFFF_FFFF_FFFF_FC00).into(),
    ));
    assert!(!is_buildable(&builder));
    builder.lock_delay_params(DelayParameters::constant(EngineExtDuration::Infinite));
    assert!(is_buildable(&builder));
}

#[test]
fn stocks_last_for_as_many_pieces_as_are_drawn() {
    let stock = |pieces_left: [u32; 7], multiplicity: u32, restock_threshold: u32| {
        PieceGenerator::Stock { pieces_left, multiplicity, restock_threshold }
    };
    assert!(is_generator_ready(&stock([1; 7], 1, 0), 1_000_000));
    assert!(is_generator_ready(&stock([2, 0, 0, 0, 0, 0, 0], 1, 5), 2));
    assert!(!is_generator_ready(&stock([2, 0, 0, 0, 0, 0, 0], 1, 5), 3));
    assert!(is_generator_ready(&stock([9, 0, 0, 0, 0, 0, 0], u32::MAX, 2), 6));
    assert!(!is_generator_ready(&stock([9, 0, 0, 0, 0, 0, 0], u32::MAX, 2), 7));
    assert!(is_generator_ready(&stock([0; 7], 1, 0), 0));
}

/// Recognizes no modifier.
fn none_known(builder: &GameBuilder, descriptors: &Vec<String>) -> Result<(Game, Vec<String>), String> {
    Ok((builder.build(), descriptors.clone()))
}

/// Fails on any modifier.
fn none_possible(_: &GameBuilder, descriptors: &Vec<String>) -> Result<(Game, Vec<String>), String> {
    Err(format!("no {}", descriptors.len()))
}

/// A modifier that says what it would tell.
fn printer(msgs: Vec<String>) -> Modifier {
    Modifier { descriptor: msgs.join("|"), mod_function: Box::new(|_, _, _, _, _, _| {}) }
}

#[test]
fn a_record_holds_how_a_game_was_set_up() {
    let game = started(99);
    let data = GameRestorationData::new(&game, 5u8, Some(millis(3)));
    assert_eq!(data.input_history, 5);
    assert_eq!(data.forfeit, Some(millis(3)));
    assert!(data.mod_descriptors.is_empty());
    let again = data.builder.build();
    assert_eq!(game_seed(&again), 99);
    assert_eq!(again.config, game.config);
    let mapped = data.map(|n: u8| format!("{n}"));
    assert_eq!(mapped.input_history, "5");
    assert_eq!(mapped.forfeit, Some(millis(3)));
}

fn play_some(game: &mut Game) -> Vec<(InGameTime, ButtonChange)> {
    let mut inputs = Vec::new();
    let buttons =
        [Button::MoveLeft, Button::RotateRight, Button::DropHard, Button::MoveRight, Button::DropHard];
    for (i, button) in buttons.into_iter().enumerate() {
        let t = millis(100 * (i as u64 + 1));
        for change in [ButtonChange::Press(button), ButtonChange::Release(button)] {
            inputs.push((t, change));
            advance(game, t, Some(change));
        }
    }
    inputs
}

#[test]
fn a_game_comes_back_as_it_was() {
    let mut game = started(1234);
    let inputs = play_some(&mut game);
    let data = GameRestorationData::new(&game, inputs, None);
    let back = data.restore(usize::MAX, none_known, printer);
    assert_eq!(back.state(), game.state());
    assert_eq!(back.phase(), game.phase());
    assert_eq!(back.config, game.config);
    assert_eq!(game_time(&back), millis(500));
    let earlier = data.restore(4, none_known, printer);
    assert_eq!(game_time(&earlier), millis(200));
    let beginning = data.restore(0, none_known, printer);
    assert_eq!(game_time(&beginning), millis(0));
    assert_eq!(beginning.config.feedback_verbosity, FeedbackVerbosity::Default);
    assert_eq!(game_seed(&beginning), 1234);
}

#[test]
fn a_record_of_a_game_that_came_back_is_the_same() {
    let mut game = started(17);
    let inputs = play_some(&mut game);
    let data = GameRestorationData::new(&game, inputs, None);
    let back = data.restore(3, none_known, printer);
    let again = GameRestorationData::new(&back, (), None);
    assert_eq!(again.builder, data.builder);
    assert_eq!(again.mod_descriptors, data.mod_descriptors);
}

#[test]
fn a_game_that_cannot_go_on_does_not_come_back() {
    let mut builder = Game::builder();
    builder.seed(4).delayed_auto_shift(Duration::ZERO).auto_repeat_rate(Duration::ZERO);
    let data = GameRestorationData::new(
        &builder.build(),
        vec![
            (millis(5), ButtonChange::Press(Button::MoveLeft)),
            (millis(5), ButtonChange::Press(Button::MoveRight)),
        ],
        None,
    );
    assert!(data.restore_if_ready(2, none_known, printer).is_none());
    assert!(data.restore_if_ready(1, none_known, printer).is_some());
    assert!(data.restore_if_ready(0, none_known, printer).is_some());
}

#[test]
fn a_game_that_never_adjusts_its_delays_comes_back() {
    let mut builder = Game::builder();
    builder.seed(4).update_delays_every_n_lineclears(0);
    let data = GameRestorationData::new(
        &builder.build(),
        vec![(millis(7_000), ButtonChange::Press(Button::MoveLeft))],
        None,
    );
    let back = data.restore(1, none_known, printer);
    assert_eq!(game_time(&back), millis(7_000));
    assert_eq!(pressed_since(&back, 0), Some(millis(7_000)));
    assert_eq!(back.config.update_delays_every_n_lineclears, 0);
    assert!(data.restore_if_ready(9, none_known, printer).is_some());
}

#[test]
fn refused_inputs_leave_a_game_as_it_is() {
    let mut game = started(21);
    let mut inputs = play_some(&mut game);
    inputs.push((millis(1), ButtonChange::Press(Button::MoveLeft)));
    let data = GameRestorationData::new(&game, inputs, None);
    let back = data.restore(11, none_known, printer);
    assert_eq!(back.state(), game.state());
}

#[test]
fn a_modified_game_is_brought_back_with_its_modifiers() {
    let quiet = || Modifier {
        descriptor: "quiet\n[]".to_owned(),
        mod_function: Box::new(|_, _, _, _, _, _| {}),
    };
    let mut builder = Game::builder();
    builder.seed(8);
    let modded = builder.build_modded([quiet()]);
    let data = GameRestorationData::new(
        &modded,
        vec![(millis(10), ButtonChange::Press(Button::DropHard))],
        None,
    );
    assert_eq!(data.mod_descriptors, vec!["quiet\n[]".to_owned()]);
    let known = |builder: &GameBuilder, _: &Vec<String>| Ok((builder.build_modded([quiet()]), vec![]));
    let back = data.restore(1, known, printer);
    assert_eq!(game_time(&back), millis(10));
    assert_eq!(back.modifiers.len(), 1);
    assert_eq!(back.modifiers[0].descriptor, "quiet\n[]");
    assert_eq!(back.state().pieces_locked.iter().sum::<u32>(), 1);
    assert_eq!(back.config.feedback_verbosity, FeedbackVerbosity::Default);

    let warned = data.restore_if_ready(1, none_known, printer).unwrap();
    let told: Vec<&str> = warned.modifiers.iter().map(|m| m.descriptor.as_str()).collect();
    assert_eq!(told, vec!["WARNING: idk mod \"quiet\\n[]\""]);

    let failed = data.rebuild(none_possible, printer);
    let told: Vec<&str> = failed.modifiers.iter().map(|m| m.descriptor.as_str()).collect();
    assert_eq!(told, vec!["ERROR: no 1"]);
    assert_eq!(game_seed(&failed), 8);
}

#[test]
fn a_game_that_cannot_be_built_does_not_come_back() {
    let mut game = started(4);
    let inputs = play_some(&mut game);
    let mut data = GameRestorationData::new(&game, inputs, None);
    assert!(data.restore_if_ready(10, none_known, printer).is_some());
    data.builder.fall_delay_params(DelayParameters::constant(Duration::MAX.into()));
    assert!(data.restore_if_ready(10, none_known, printer).is_none());
}

#[test]
fn a_tiny_divisor_does_not_keep_a_game_from_coming_back() {
    let mut builder = Game::builder();
    builder.seed(5);
    builder.soft_drop_divisor(ExtNonNegF64::new(1.0 / 1_099_511_627_776.0).unwrap());
    let data = GameRestorationData::new(
        &builder.build(),
        vec![(millis(7), ButtonChange::Press(Button::MoveLeft))],
        None,
    );
    assert_eq!(game_time(&data.restore(1, none_known, printer)), millis(7));
}

#[test]
fn modifiers_that_are_not_known_are_named() {
    let texts = warn_messages(&vec!["a\"b".to_owned(), "c\n".to_owned()]);
    assert_eq!(texts, vec!["WARNING: idk mod \"a\\\"b\"", "WARNING: idk mod \"c\\n\""]);
    assert!(warn_messages(&vec![]).is_empty());
    assert_eq!(error_messages("no such thing"), vec!["ERROR: no such thing"]);
}

#[test]
fn internal_events_are_told_in_words() {
    let mut builder = Game::builder();
    builder.seed(2).feedback_verbosity(FeedbackVerbosity::Debug);
    let mut game = builder.build();
    match advance(&mut game, millis(0), None) {
        Advance::Updated(msgs) => {
            assert!(msgs.iter().any(|(_, f)| *f == Feedback::Debug("PieceSpawned".to_owned())));
        }
        other => panic!("{other:?}"),
    }
    let mut direct = builder.build();
    let expected = direct
        .update(Duration::ZERO, Some(EngineButtonChange::Press(EngineButton::MoveLeft)))
        .unwrap();
    let mut wrapped = builder.build();
    match advance(&mut wrapped, millis(0), Some(ButtonChange::Press(Button::MoveLeft))) {
        Advance::Updated(msgs) => assert_eq!(msgs.len(), expected.len()),
        other => panic!("{other:?}"),
    }
    assert_eq!(wrapped.state(), direct.state());
}

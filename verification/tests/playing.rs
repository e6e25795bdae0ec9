//! What follows from what the player does.
use std::collections::HashMap;

use falling_tetromino_engine::{Game, GameBuilder, Modifier};
use tetro_tui::application::Application;
use tetro_tui::button::{Button, ButtonChange};
use tetro_tui::game::{Feedback, GameMetaData, GameOver, GameResult, Stat};
use tetro_tui::input_history::CompressedInputHistory;
use tetro_tui::keys::{KeyCode, KeyEvent, KeyEventKind, KeyModifiers};
use tetro_tui::live::{advance, game_result, game_time, pressed_since};
use tetro_tui::menu::{Menu, MenuUpdate};
use tetro_tui::play_game::{
    closing_rows, countdown_xy, find_key_meaning, input_time, next_frame_time, play_button,
    play_frame, release_buttons, PlayKey, PlayStep, COUNTDOWN,
};
use tetro_tui::renderer::DiffPrintRenderer;
use tetro_tui::settings::Settings;
use tetro_tui::time::InGameTime;

fn millis(ms: u64) -> InGameTime {
    InGameTime::from_millis(ms)
}

fn nanos(n: u128) -> InGameTime {
    InGameTime::from_nanos(n)
}

fn started(seed: u64) -> Game {
    let mut builder = Game::builder();
    builder.seed(seed);
    let mut game = builder.build();
    advance(&mut game, millis(0), None);
    game
}

fn none_known(
    builder: &GameBuilder,
    descriptors: &Vec<String>,
) -> Result<(Game, Vec<String>), String> {
    Ok((builder.build(), descriptors.clone()))
}

fn printer(msgs: Vec<String>) -> Modifier {
    Modifier { descriptor: msgs.join("|"), mod_function: Box::new(|_, _, _, _, _, _| {}) }
}

fn application() -> Application {
    let palettes = (0..10).map(|_| HashMap::new()).collect();
    let settings = Settings::default_with(palettes, vec![vec![]; 4], 0);
    Application::new(settings, None, false, None, None, None)
}

fn meta() -> GameMetaData {
    GameMetaData {
        datetime: "2026-01-02_03:04".to_owned(),
        title: "Marathon".to_owned(),
        comparison_stat: (Stat::PointsScored(0), false),
    }
}

#[test]
fn inputs_count_in_whole_milliseconds_and_never_too_early() {
    assert_eq!(input_time(millis(0), millis(100), millis(7)), millis(107));
    assert_eq!(input_time(millis(0), millis(100), nanos(7_000_001)), millis(108));
    assert_eq!(input_time(nanos(500_000_001), millis(100), millis(7)), millis(501));
    assert_eq!(input_time(millis(107), millis(100), millis(7)), millis(107));
    let late = InGameTime { secs: u64::MAX, subsec_nanos: 0 };
    let kept = (u64::MAX as u128 * 1_000 % (1 << 64)) as u64;
    assert_eq!(input_time(millis(0), late, millis(0)), millis(kept));
}

#[test]
fn frames_that_were_missed_are_skipped() {
    let interval = millis(33);
    assert_eq!(next_frame_time(millis(0), interval, millis(0)), millis(33));
    assert_eq!(next_frame_time(millis(33), interval, millis(66)), millis(66));
    assert_eq!(next_frame_time(millis(33), interval, nanos(66_000_001)), millis(99));
    assert_eq!(next_frame_time(millis(0), interval, millis(1_000)), millis(1_023));
    assert_eq!(next_frame_time(millis(50), millis(0), millis(50)), millis(50));
}

#[test]
fn keys_mean_things_only_with_their_modifiers() {
    let key = |code, bits, kind| {
        find_key_meaning(KeyEvent { code, modifiers: KeyModifiers { bits }, kind })
    };
    let press = KeyEventKind::Press;
    assert_eq!(key(KeyCode::Esc, 0, press), PlayKey::Pause);
    assert_eq!(key(KeyCode::Esc, 63, press), PlayKey::Pause);
    assert_eq!(key(KeyCode::Esc, 0, KeyEventKind::Repeat), PlayKey::Ignore);
    for (small, capital, meaning) in [
        ('c', 'C', PlayKey::Quit),
        ('d', 'D', PlayKey::Forfeit),
        ('s', 'S', PlayKey::Save),
        ('e', 'E', PlayKey::StoreSeed),
    ] {
        assert_eq!(key(KeyCode::Char(small), 2, press), meaning);
        assert_eq!(key(KeyCode::Char(capital), 2, press), meaning);
        assert_eq!(key(KeyCode::Char(small), 0, press), PlayKey::Ignore);
        assert_eq!(key(KeyCode::Char(small), 6, press), PlayKey::Ignore);
        assert_eq!(key(KeyCode::Char(small), 2, KeyEventKind::Release), PlayKey::Ignore);
    }
    assert_eq!(key(KeyCode::Char('b'), 6, press), PlayKey::Blindfold);
    assert_eq!(key(KeyCode::Char('B'), 7, press), PlayKey::Blindfold);
    assert_eq!(key(KeyCode::Char('b'), 2, press), PlayKey::Ignore);
    assert_eq!(key(KeyCode::Char('b'), 4, press), PlayKey::Ignore);
    assert_eq!(key(KeyCode::Enter, 2, press), PlayKey::Ignore);
}

fn play(
    kitty: bool,
    game: &mut Game,
    inputs: &mut Vec<(InGameTime, ButtonChange)>,
    renderer: &mut DiffPrintRenderer,
    since: InGameTime,
    kind: KeyEventKind,
) -> PlayStep {
    play_button(kitty, game, inputs, renderer, millis(0), since, Button::DropHard, kind)
}

#[test]
fn enhanced_keys_go_down_and_up() {
    let (mut game, mut inputs, mut renderer) = (started(1), vec![], DiffPrintRenderer::default());
    let step = play(true, &mut game, &mut inputs, &mut renderer, millis(20), KeyEventKind::Press);
    assert!(matches!(step, PlayStep::KeepWaiting));
    assert_eq!(inputs, vec![(millis(20), ButtonChange::Press(Button::DropHard))]);
    assert_eq!(pressed_since(&game, 6), Some(millis(20)));
    assert!(matches!(renderer.buffered_feedback_msgs[0].1, Feedback::HardDrop { .. }));
    let step = play(true, &mut game, &mut inputs, &mut renderer, millis(30), KeyEventKind::Repeat);
    assert!(matches!(step, PlayStep::KeepWaiting));
    assert_eq!(inputs.len(), 1);
    assert_eq!(game_time(&game), millis(20));
    play(true, &mut game, &mut inputs, &mut renderer, nanos(39_000_001), KeyEventKind::Release);
    assert_eq!(inputs[1], (millis(40), ButtonChange::Release(Button::DropHard)));
    assert_eq!(pressed_since(&game, 6), None);
}

#[test]
fn plain_keys_go_down_and_up_at_once() {
    let (mut game, mut inputs, mut renderer) = (started(1), vec![], DiffPrintRenderer::default());
    play(false, &mut game, &mut inputs, &mut renderer, millis(20), KeyEventKind::Repeat);
    assert_eq!(
        inputs,
        vec![
            (millis(20), ButtonChange::Press(Button::DropHard)),
            (millis(20), ButtonChange::Release(Button::DropHard)),
        ]
    );
    assert_eq!(pressed_since(&game, 6), None);
    let step = play(false, &mut game, &mut inputs, &mut renderer, millis(30), KeyEventKind::Release);
    assert!(matches!(step, PlayStep::KeepWaiting));
    assert_eq!(inputs.len(), 2);
}

#[test]
fn buttons_of_an_ended_game_are_recorded_but_do_nothing() {
    let (mut game, mut inputs, mut renderer) = (started(1), vec![], DiffPrintRenderer::default());
    game.forfeit();
    let step = play(false, &mut game, &mut inputs, &mut renderer, millis(20), KeyEventKind::Press);
    assert!(matches!(step, PlayStep::StopWaiting));
    assert_eq!(inputs.len(), 1);
    assert_eq!(game_time(&game), millis(0));
    assert!(renderer.buffered_feedback_msgs.is_empty());
}

#[test]
fn a_game_that_cannot_go_on_is_stuck() {
    let mut builder = Game::builder();
    builder.tetromino_generator(falling_tetromino_engine::TetrominoGenerator::Stock {
        pieces_left: [0; 7],
        multiplicity: std::num::NonZeroU32::MIN,
        restock_threshold: 0,
    });
    let (mut game, mut inputs, mut renderer) =
        (builder.build(), vec![], DiffPrintRenderer::default());
    let step = play(true, &mut game, &mut inputs, &mut renderer, millis(20), KeyEventKind::Press);
    assert!(matches!(step, PlayStep::Stuck));
    assert!(matches!(
        play_frame(&mut game, &mut renderer, millis(0), millis(20)),
        PlayStep::Stuck
    ));
}

#[test]
fn frames_move_the_game_on() {
    let (mut game, mut renderer) = (started(1), DiffPrintRenderer::default());
    let step = play_frame(&mut game, &mut renderer, millis(5), nanos(1_234_567));
    assert!(matches!(step, PlayStep::KeepWaiting));
    assert_eq!(game_time(&game), nanos(6_234_567));
    let step = play_frame(&mut game, &mut renderer, millis(5), millis(0));
    assert!(matches!(step, PlayStep::KeepWaiting));
    assert_eq!(game_time(&game), nanos(6_234_567));
    game.forfeit();
    assert!(matches!(
        play_frame(&mut game, &mut renderer, millis(5), millis(90)),
        PlayStep::KeepWaiting
    ));
}

fn press_key(
    app: &mut Application,
    game: &mut Game,
    inputs: &Vec<(InGameTime, ButtonChange)>,
    renderer: &mut DiffPrintRenderer,
    code: KeyCode,
    bits: u8,
) -> PlayStep {
    let event = KeyEvent { code, modifiers: KeyModifiers { bits }, kind: KeyEventKind::Press };
    app.play_key(game, inputs, &meta(), renderer, event)
}

fn last_text(renderer: &DiffPrintRenderer) -> (InGameTime, String) {
    match renderer.buffered_feedback_msgs.last() {
        Some((time, Feedback::Text(text))) => (*time, text.clone()),
        other => panic!("{other:?}"),
    }
}

#[test]
fn keys_leave_the_game() {
    let (mut app, mut game, mut renderer) = (application(), started(1), DiffPrintRenderer::default());
    let step = press_key(&mut app, &mut game, &vec![], &mut renderer, KeyCode::Esc, 0);
    assert!(matches!(step, PlayStep::Leave(MenuUpdate::Push(Menu::Pause))));
    let step = press_key(&mut app, &mut game, &vec![], &mut renderer, KeyCode::Char('c'), 2);
    assert!(matches!(step, PlayStep::Leave(MenuUpdate::Push(Menu::Quit))));
    let step = press_key(&mut app, &mut game, &vec![], &mut renderer, KeyCode::Char('x'), 0);
    assert!(matches!(step, PlayStep::KeepWaiting));
    assert!(renderer.buffered_feedback_msgs.is_empty());
    assert!(game_result(&game).is_none());
}

#[test]
fn a_game_can_be_given_up() {
    let (mut app, mut game, mut renderer) = (application(), started(1), DiffPrintRenderer::default());
    advance(&mut game, millis(33), None);
    let step = press_key(&mut app, &mut game, &vec![], &mut renderer, KeyCode::Char('d'), 2);
    assert!(matches!(step, PlayStep::Restart));
    assert_eq!(game_result(&game), Some(GameResult::Lost(GameOver::Forfeit)));
    assert_eq!(last_text(&renderer), (millis(33), "Forfeit Game!".to_owned()));
}

#[test]
fn a_game_can_be_put_aside_and_brought_back() {
    let (mut app, mut game, mut renderer) = (application(), started(55), DiffPrintRenderer::default());
    let mut inputs = vec![];
    play(true, &mut game, &mut inputs, &mut renderer, millis(20), KeyEventKind::Press);
    play(true, &mut game, &mut inputs, &mut renderer, millis(90), KeyEventKind::Release);
    let step = press_key(&mut app, &mut game, &inputs, &mut renderer, KeyCode::Char('S'), 2);
    assert!(matches!(step, PlayStep::KeepWaiting));
    assert_eq!(last_text(&renderer), (millis(90), "(Savepoint stored!)".to_owned()));
    assert_eq!(app.game_saves.0, 0);
    assert_eq!(app.game_saves.1.len(), 1);
    let save = &app.game_saves.1[0];
    assert_eq!(save.game_meta_data, meta());
    assert_eq!(save.inputs_to_load, 2);
    assert_eq!(save.game_restoration_data.input_history, inputs);
    assert_eq!(save.game_restoration_data.forfeit, None);
    let back = save.game_restoration_data.restore(save.inputs_to_load, none_known, printer);
    assert_eq!(back.state(), game.state());
    game.forfeit();
    press_key(&mut app, &mut game, &inputs, &mut renderer, KeyCode::Char('s'), 2);
    assert_eq!(app.game_saves.1[0].game_restoration_data.forfeit, Some(millis(90)));
}

#[test]
fn the_seed_can_be_kept() {
    let (mut app, mut game, mut renderer) = (application(), started(9_001), DiffPrintRenderer::default());
    press_key(&mut app, &mut game, &vec![], &mut renderer, KeyCode::Char('e'), 2);
    assert_eq!(app.settings.new_game.custom_seed, Some(9_001));
    assert_eq!(last_text(&renderer), (millis(0), "(Seed stored: 9001)".to_owned()));
}

#[test]
fn blindfolds_go_on_and_off() {
    let (mut app, mut game, mut renderer) = (application(), started(1), DiffPrintRenderer::default());
    press_key(&mut app, &mut game, &vec![], &mut renderer, KeyCode::Char('b'), 6);
    assert!(app.settings.graphics().blindfolded);
    assert_eq!(last_text(&renderer).1, "Blindfolded! [Ctrl+Alt+B]");
    press_key(&mut app, &mut game, &vec![], &mut renderer, KeyCode::Char('b'), 6);
    assert!(!app.settings.graphics().blindfolded);
    assert_eq!(last_text(&renderer).1, "Blindfolds removed [Ctrl+Alt+B]");
}

#[test]
fn an_ended_game_is_put_on_record() {
    let (mut app, mut game, mut renderer) = (application(), started(2), DiffPrintRenderer::default());
    let mut inputs = vec![];
    assert!(app.finish_game(&game, &inputs, &meta()).is_none());
    assert!(app.scores_and_replays.entries.is_empty());
    play(true, &mut game, &mut inputs, &mut renderer, millis(20), KeyEventKind::Press);
    game.forfeit();
    match app.finish_game(&game, &inputs, &meta()) {
        Some(MenuUpdate::Push(Menu::GameOver(entry))) => {
            assert_eq!(entry.result, GameResult::Lost(GameOver::Forfeit));
            assert_eq!(entry.time_elapsed, millis(20));
            assert_eq!(*entry, app.scores_and_replays.entries[0].0);
        }
        other => panic!("{other:?}"),
    }
    let data = app.scores_and_replays.entries[0].1.as_ref().unwrap();
    assert_eq!(data.forfeit, Some(millis(20)));
    assert_eq!(data.input_history.decompress(), inputs);

    let mut builder = Game::builder();
    builder.end_conditions(vec![(falling_tetromino_engine::Stat::LinesCleared(0), true)]);
    let mut done = builder.build();
    advance(&mut done, millis(0), None);
    match app.finish_game(&done, &vec![], &meta()) {
        Some(MenuUpdate::Push(Menu::GameComplete(entry))) => {
            assert_eq!(entry.result, GameResult::Completed(Stat::LinesCleared(0)));
        }
        other => panic!("{other:?}"),
    }
    assert_eq!(app.scores_and_replays.entries.len(), 2);
    assert_eq!(app.scores_and_replays.entries[1].1.as_ref().unwrap().forfeit, None);
}

#[test]
fn no_button_stays_down() {
    let (mut game, mut inputs, mut renderer) = (started(3), vec![], DiffPrintRenderer::default());
    advance(&mut game, millis(10), Some(ButtonChange::Press(Button::MoveLeft)));
    advance(&mut game, nanos(20_500_000), Some(ButtonChange::Press(Button::HoldPiece)));
    let step = release_buttons(&mut game, &mut inputs, &mut renderer);
    assert!(matches!(step, PlayStep::KeepWaiting));
    assert!((0..11).all(|b| pressed_since(&game, b).is_none()));
    assert_eq!(game_time(&game), millis(21));
    assert_eq!(
        inputs,
        vec![
            (millis(21), ButtonChange::Release(Button::MoveLeft)),
            (millis(21), ButtonChange::Release(Button::HoldPiece)),
        ]
    );
    assert_eq!(CompressedInputHistory::new(&inputs).decompress(), inputs);
    release_buttons(&mut game, &mut inputs, &mut renderer);
    assert_eq!(inputs.len(), 2);
}

#[test]
fn inputs_are_recorded_in_order() {
    let (mut game, mut inputs, mut renderer) = (started(1), vec![], DiffPrintRenderer::default());
    for (i, ms) in [20, 20, 19, 45, 40].into_iter().enumerate() {
        let kind = if i % 2 == 0 { KeyEventKind::Press } else { KeyEventKind::Release };
        play(true, &mut game, &mut inputs, &mut renderer, millis(ms), kind);
    }
    release_buttons(&mut game, &mut inputs, &mut renderer);
    let times: Vec<_> = inputs.iter().map(|(t, _)| *t).collect();
    assert_eq!(times, [20, 20, 20, 45, 45, 45].map(millis));
}

#[test]
fn other_keys_do_without_slots() {
    let (mut app, mut game, mut renderer) = (application(), started(1), DiffPrintRenderer::default());
    app.settings.graphics_slots.clear();
    app.settings.keybinds_slots.clear();
    press_key(&mut app, &mut game, &vec![], &mut renderer, KeyCode::Char('e'), 2);
    assert_eq!(app.settings.new_game.custom_seed, Some(1));
}

#[test]
fn letting_go_stops_when_the_game_has_ended() {
    let (mut game, mut inputs, mut renderer) = (started(3), vec![], DiffPrintRenderer::default());
    advance(&mut game, millis(10), Some(ButtonChange::Press(Button::MoveLeft)));
    advance(&mut game, millis(10), Some(ButtonChange::Press(Button::MoveRight)));
    game.forfeit();
    let step = release_buttons(&mut game, &mut inputs, &mut renderer);
    assert!(matches!(step, PlayStep::StopWaiting));
    assert_eq!(inputs.len(), 1);
}

#[test]
fn the_countdown_stands_in_the_middle() {
    assert_eq!(COUNTDOWN, ["3", "2", "1", "GO!"]);
    assert_eq!(countdown_xy((9, 0), 1), (40, 11));
    assert_eq!(countdown_xy((9, 0), 3), (39, 11));
    assert_eq!(countdown_xy((0, 5), 100), (0, 16));
}

#[test]
fn the_terminal_is_cleared_row_by_row() {
    assert_eq!(closing_rows(true, 3), vec![0, 1, 2]);
    assert_eq!(closing_rows(false, 3), vec![2, 1, 0]);
    assert!(closing_rows(false, 0).is_empty());
}

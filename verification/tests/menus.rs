//! Menus, the screens at the end of a game and about the program.
use std::collections::HashMap;

use tetro_tui::about::{about_key, about_screen, AboutStep, ABOUT_COUNT, ABOUT_LINES, MAX_SCROLL};
use tetro_tui::application::Application;
use tetro_tui::game::{GameMetaData, GameOver, GameResult, Stat};
use tetro_tui::game_ended::{game_ended_key, game_ended_screen, selected_menu, EndStep, EndTexts};
use tetro_tui::keys::{KeyCode, KeyEvent, KeyEventKind, KeyModifiers};
use tetro_tui::menu::{Menu, MenuStack, MenuUpdate};
use tetro_tui::scores::ScoresEntry;
use tetro_tui::settings::Settings;
use tetro_tui::time::{ExtDuration, InGameTime};

fn millis(ms: u64) -> InGameTime {
    InGameTime::from_millis(ms)
}

fn entry(title: &str, result: GameResult) -> ScoresEntry {
    ScoresEntry {
        game_meta_data: GameMetaData {
            datetime: "2026-01-02_03:04".to_owned(),
            title: title.to_owned(),
            comparison_stat: (Stat::TimeElapsed(millis(0)), true),
        },
        result,
        time_elapsed: millis(61_500),
        lineclears: 40,
        points_scored: 123,
        pieces_locked: [1, 2, 3, 4, 5, 6, 7],
        fall_delay_reached: ExtDuration::Finite(millis(500)),
        lock_delay_reached: None,
    }
}

const DONE: GameResult = GameResult::Completed(Stat::LinesCleared(40));

fn names(stack: &MenuStack) -> Vec<String> {
    stack.menus.iter().map(|menu| menu.name()).collect()
}

#[test]
fn menus_have_names() {
    assert_eq!(Menu::Title.name(), "Title Screen");
    assert_eq!(Menu::NewGame.name(), "New Game");
    assert_eq!(Menu::Pause.name(), "Pause");
    assert_eq!(Menu::Settings.name(), "Settings");
    assert_eq!(Menu::AdjustGraphics.name(), "Adjust Graphics");
    assert_eq!(Menu::AdjustKeybinds.name(), "Adjust Keybinds");
    assert_eq!(Menu::AdjustGameplay.name(), "Adjust Gameplay");
    assert_eq!(Menu::GameOver(Box::new(entry("x", DONE))).name(), "Game Over");
    assert_eq!(Menu::GameComplete(Box::new(entry("x", DONE))).name(), "Game Completed");
    assert_eq!(Menu::ScoresAndReplays.name(), "Scores and Replays");
    assert_eq!(Menu::About.name(), "About");
    assert_eq!(Menu::Quit.name(), "Quit");
    let game = falling_tetromino_engine::Game::builder().build();
    let data = tetro_tui::restoration::GameRestorationData::new(&game, vec![], None);
    let meta = entry("Marathon", DONE).game_meta_data;
    let play = Menu::PlayGame {
        game: Box::new(game),
        game_input_history: vec![],
        game_meta_data: meta.clone(),
        game_renderer: Box::default(),
    };
    assert_eq!(play.name(), "Playing Game (Marathon)");
    let replay = Menu::ReplayGame {
        game_restoration_data: Box::new(data),
        game_meta_data: meta,
        replay_length: millis(5),
        game_renderer: Box::default(),
    };
    assert_eq!(replay.name(), "Replaying Game (Marathon)");
}

#[test]
fn going_back_leads_to_where_one_came_from() {
    let mut stack = MenuStack::new(None);
    assert_eq!(names(&stack), vec!["Title Screen"]);
    stack.change(MenuUpdate::Push(Menu::Settings));
    stack.change(MenuUpdate::Push(Menu::AdjustGraphics));
    assert_eq!(names(&stack), vec!["Title Screen", "Settings", "Adjust Graphics"]);
    stack.change(MenuUpdate::Pop);
    assert_eq!(names(&stack), vec!["Title Screen", "Settings"]);
    stack.change(MenuUpdate::Pop);
    stack.change(MenuUpdate::Pop);
    stack.change(MenuUpdate::Pop);
    assert_eq!(names(&stack), vec!["Title Screen"]);
}

#[test]
fn some_menus_leave_nothing_to_return_to() {
    let mut stack = MenuStack::new(Some(Menu::About));
    stack.change(MenuUpdate::Push(Menu::NewGame));
    stack.change(MenuUpdate::Push(Menu::GameOver(Box::new(entry("x", DONE)))));
    assert_eq!(names(&stack), vec!["Game Over"]);
    stack.change(MenuUpdate::Pop);
    assert_eq!(names(&stack), vec!["Game Over"]);
    stack.change(MenuUpdate::Push(Menu::Pause));
    stack.change(MenuUpdate::Push(Menu::Title));
    assert_eq!(names(&stack), vec!["Title Screen"]);
    stack.change(MenuUpdate::Push(Menu::GameComplete(Box::new(entry("x", DONE)))));
    assert_eq!(names(&stack), vec!["Game Completed"]);
}

#[test]
fn quitting_shows_no_menu() {
    let mut stack = MenuStack::new(None);
    assert!(matches!(stack.shown(), Some(Menu::Title)));
    stack.change(MenuUpdate::Push(Menu::Quit));
    assert!(stack.shown().is_none());
    assert!(MenuStack { menus: vec![] }.shown().is_none());
}

#[test]
fn the_shown_menu_can_be_changed() {
    let mut stack = MenuStack::new(None);
    stack.change(MenuUpdate::Push(Menu::Pause));
    *stack.shown().unwrap() = Menu::About;
    assert_eq!(names(&stack), vec!["Title Screen", "About"]);
}

fn key(code: KeyCode, bits: u8, kind: KeyEventKind) -> KeyEvent {
    KeyEvent { code, modifiers: KeyModifiers { bits }, kind }
}

fn press(code: KeyCode) -> KeyEvent {
    key(code, 0, KeyEventKind::Press)
}

#[test]
fn the_lines_about_the_program_scroll() {
    let screen = about_screen("1.2.3", 0, (10, 5));
    assert_eq!(screen.scroll, 0);
    assert_eq!(screen.lines.len(), 21);
    assert_eq!(screen.lines[0], (10, 6, format!("{:^62}", "- About Tetro TUI 1.2.3 -")));
    assert_eq!(screen.lines[1], (10, 7, " ".repeat(62)));
    assert_eq!(
        screen.lines[2],
        (10, 8, format!("{:^62}", "https://github.com/Strophox/tetro-tui"))
    );
    assert_eq!(screen.lines[20].1, 26);
    assert_eq!(
        screen.footer,
        (10, 27, format!("{:^62}", "[Up/Down to scroll, Esc to return]"))
    );
    let last = about_screen("1.2.3", 1_000, (0, 0));
    assert_eq!(last.scroll, MAX_SCROLL);
    assert_eq!(last.lines[20].2, format!("{:^62}", "License: MIT"));
    assert_eq!(ABOUT_LINES[ABOUT_COUNT - 1], "License: MIT");
    assert_eq!(ABOUT_COUNT + 1 - 21, MAX_SCROLL);
}

#[test]
fn every_line_about_the_program_can_be_seen() {
    for n in 1..=ABOUT_COUNT {
        let wanted = format!("{:^62}", ABOUT_LINES[n - 1]);
        let seen = (0..=MAX_SCROLL).any(|scroll| {
            about_screen("x", scroll, (0, 0)).lines.iter().any(|line| line.2 == wanted)
        });
        assert!(seen);
    }
}

fn scrolled(scroll: usize, event: KeyEvent) -> Option<usize> {
    match about_key(scroll, event) {
        AboutStep::Scroll(n) => Some(n),
        AboutStep::Leave(_) => None,
    }
}

#[test]
fn keys_scroll_and_leave() {
    assert_eq!(scrolled(3, press(KeyCode::Up)), Some(2));
    assert_eq!(scrolled(0, press(KeyCode::Char('k'))), Some(0));
    assert_eq!(scrolled(3, key(KeyCode::Down, 0, KeyEventKind::Repeat)), Some(4));
    assert_eq!(scrolled(usize::MAX, press(KeyCode::Char('J'))), Some(usize::MAX));
    assert_eq!(scrolled(3, key(KeyCode::Up, 0, KeyEventKind::Release)), Some(3));
    assert_eq!(scrolled(3, press(KeyCode::Enter)), Some(3));
    for code in [
        KeyCode::Esc,
        KeyCode::Backspace,
        KeyCode::Char('q'),
        KeyCode::Char('Q'),
        KeyCode::Char('b'),
        KeyCode::Char('B'),
    ] {
        assert!(matches!(about_key(3, press(code)), AboutStep::Leave(MenuUpdate::Pop)));
        assert_eq!(scrolled(3, key(code, 0, KeyEventKind::Repeat)), Some(3));
    }
    let quit = key(KeyCode::Char('c'), 2, KeyEventKind::Repeat);
    assert!(matches!(about_key(3, quit), AboutStep::Leave(MenuUpdate::Push(Menu::Quit))));
    assert_eq!(scrolled(3, key(KeyCode::Char('c'), 3, KeyEventKind::Press)), Some(3));
}

fn texts() -> EndTexts {
    EndTexts {
        time_elapsed: "1:01.50".to_owned(),
        pieces_locked: "1o 2i".to_owned(),
        gravity: "2.0Hz".to_owned(),
    }
}

fn rows(entry: &ScoresEntry, is_pb: bool, selected: usize) -> Vec<(u16, u16, String)> {
    game_ended_screen(entry, is_pb, selected, &texts(), (3, 2))
        .into_iter()
        .map(|(x, y, text)| {
            assert_eq!(text.chars().count(), 62);
            (x, y, text.trim().to_owned())
        })
        .collect()
}

#[test]
fn a_completed_game_is_announced() {
    let rule = "──────────────────────────";
    let expected: Vec<(u16, u16, String)> = [
        (6, "++ Game Completed (40-Lines) ++"),
        (7, "*** NEW PERSONAL BEST! ***"),
        (8, rule),
        (9, "Time elapsed: 1:01.50"),
        (10, "Lines: 40"),
        (11, "Score: 123"),
        (12, "Pieces: 1o 2i"),
        (13, "Gravity: 2.0Hz"),
        (14, rule),
        (16, "New Game"),
        (17, ">> Settings <<"),
        (18, "Scores and Replays"),
        (19, "Quit"),
    ]
    .into_iter()
    .map(|(y, text)| (3, y, text.to_owned()))
    .collect();
    assert_eq!(rows(&entry("40-Lines", DONE), true, 1), expected);
}

#[test]
fn a_lost_game_is_announced() {
    let lost = GameResult::Lost(GameOver::Limit(Stat::TimeElapsed(millis(180_000))));
    let mut e = entry("Custom", lost);
    e.lock_delay_reached = Some(ExtDuration::Finite(InGameTime { secs: 0, subsec_nanos: 321_999_999 }));
    let shown = rows(&e, false, 0);
    assert_eq!(shown[0].2, "-- Game Over (Custom) by: Limit(TimeElapsed(180s)) --");
    assert_eq!((shown[1].1, shown[1].2.chars().next()), (8, Some('─')));
    assert_eq!((shown[7].1, shown[7].2.as_str()), (14, "Lock delay: 321ms"));
    assert_eq!((shown[9].1, shown[9].2.as_str()), (17, ">> New Game <<"));
    e.result = GameResult::Lost(GameOver::Forfeit);
    assert_eq!(rows(&e, false, 0)[0].2, "-- Game Over (Custom) by: Forfeit --");
}

fn chosen(selected: usize, event: KeyEvent) -> Option<usize> {
    match game_ended_key(selected, event) {
        EndStep::Select(n) => Some(n),
        EndStep::Leave(_) => None,
    }
}

#[test]
fn the_selection_goes_round() {
    assert_eq!(chosen(0, press(KeyCode::Up)), Some(3));
    assert_eq!(chosen(3, press(KeyCode::Down)), Some(0));
    assert_eq!(chosen(1, press(KeyCode::Char('K'))), Some(0));
    assert_eq!(chosen(1, press(KeyCode::Char('j'))), Some(2));
    assert_eq!(chosen(1, press(KeyCode::Char('x'))), Some(1));
    for n in 0..4 {
        let below = chosen(n, press(KeyCode::Down)).unwrap();
        assert_eq!(chosen(below, press(KeyCode::Up)), Some(n));
    }
}

#[test]
fn the_selected_menu_is_entered() {
    for (n, name) in ["New Game", "Settings", "Scores and Replays", "Quit"].iter().enumerate() {
        assert_eq!(selected_menu(n).name(), *name);
        for code in [KeyCode::Enter, KeyCode::Char('e'), KeyCode::Char('E')] {
            match game_ended_key(n, press(code)) {
                EndStep::Leave(MenuUpdate::Push(menu)) => assert_eq!(menu.name(), *name),
                other => panic!("{other:?}"),
            }
        }
    }
    assert!(matches!(
        game_ended_key(0, press(KeyCode::Esc)),
        EndStep::Leave(MenuUpdate::Pop)
    ));
    assert!(matches!(
        game_ended_key(0, key(KeyCode::Char('C'), 2, KeyEventKind::Press)),
        EndStep::Leave(MenuUpdate::Push(Menu::Quit))
    ));
}

fn application() -> Application {
    let palettes = (0..10).map(|_| HashMap::new()).collect();
    let settings = Settings::default_with(palettes, vec![vec![]; 4], 0);
    Application::new(settings, None, false, None, None, None)
}

#[test]
fn a_completed_puzzle_unlocks_the_experimental_mode() {
    let mut app = application();
    assert!(app.acknowledge_game(&entry("40-Lines", DONE)));
    assert!(!app.settings.new_game.experimental_mode_unlocked);
    assert!(!app.acknowledge_game(&entry("Puzzle", GameResult::Lost(GameOver::LockOut))));
    assert!(!app.settings.new_game.experimental_mode_unlocked);
    assert!(app.acknowledge_game(&entry("Puzzle", DONE)));
    assert!(app.settings.new_game.experimental_mode_unlocked);
    app.acknowledge_game(&entry("40-Lines", DONE));
    assert!(app.settings.new_game.experimental_mode_unlocked);
}

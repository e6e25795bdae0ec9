//! Frames of a game.
use std::collections::HashMap;

use tetro_tui::color::Color;
use tetro_tui::game::{
    Feedback, GameMetaData, GameOver, GameResult, GameSnapshot, Orientation, Piece, Stat,
    Tetromino,
};
use tetro_tui::hud::{KeybindsLegend, RenderTexts};
use tetro_tui::renderer::DiffPrintRenderer;
use tetro_tui::screen::{Cell, DrawCommand};
use tetro_tui::settings::{Glyphset, Settings};
use tetro_tui::time::{ExtDuration, InGameTime};

fn millis(ms: u64) -> InGameTime {
    InGameTime::from_millis(ms)
}

fn palette(n: u8) -> HashMap<u8, Color> {
    let mut palette: HashMap<u8, Color> =
        (1..8).map(|kind| (kind, Color::AnsiValue(16 * n + kind))).collect();
    palette.insert(253, Color::DarkGrey);
    palette.insert(254, Color::Grey);
    palette.insert(255, Color::White);
    palette
}

fn settings(glyphset: Glyphset) -> Settings {
    let mut settings =
        Settings::default_with((0..10).map(palette).collect(), vec![vec![]; 4], 0);
    settings.graphics_mut().glyphset = glyphset;
    settings.graphics_mut().palette_active_lockedtiles = 5;
    settings
}

fn snapshot() -> GameSnapshot {
    GameSnapshot {
        time: millis(10_000),
        buttons_pressed: [false; 11],
        piece_preview: vec![],
        piece_held: None,
        board: [[None; 10]; 27],
        fall_delay: ExtDuration::Finite(millis(1_000)),
        fall_delay_lowerbound_hit: false,
        lock_delay: ExtDuration::Finite(millis(500)),
        pieces_locked: [1, 2, 0, 0, 0, 0, 0],
        lineclears: 7,
        score: 42,
        end_conditions: vec![],
        lock_delay_is_constant: false,
        piece_in_play: None,
        result: None,
    }
}

fn texts() -> RenderTexts {
    RenderTexts {
        time: "00:10.000".to_owned(),
        time_left: "01:00.000".to_owned(),
        gravity: "1.00Hz".to_owned(),
        pps: "0.30".to_owned(),
        replay: None,
        buttons: "lrLRAsH|<>h".chars().map(|c| c.to_string()).collect(),
        tets_small: ["oo", "iiii", "ss", "zz", "tt", "ll", "jj"].map(str::to_owned).to_vec(),
        tets_mini: "OISZTLJ".chars().map(|c| c.to_string()).collect(),
    }
}

fn meta() -> GameMetaData {
    GameMetaData {
        datetime: "now".to_owned(),
        title: "Marathon".to_owned(),
        comparison_stat: (Stat::PointsScored(0), false),
    }
}

struct Terminal {
    cells: Vec<Vec<Cell>>,
}

impl Terminal {
    fn new() -> Terminal {
        Terminal { cells: vec![vec![('?', None); 90]; 40] }
    }

    fn show(&mut self, cmds: &Vec<DrawCommand>) {
        for cmd in cmds {
            match *cmd {
                DrawCommand::ClearAll => self.cells = vec![vec![(' ', None); 90]; 40],
                DrawCommand::Put { c, x, y } | DrawCommand::PutReset { c, x, y } => {
                    self.cells[y as usize][x as usize] = (c, None)
                }
                DrawCommand::PutColored { c, color, x, y } => {
                    self.cells[y as usize][x as usize] = (c, Some(color))
                }
                DrawCommand::BeginUpdate | DrawCommand::EndUpdate | DrawCommand::Home => {}
            }
        }
    }

    fn line(&self, y: usize) -> String {
        let text: String = self.cells[y].iter().map(|cell| cell.0).collect();
        text.trim_end().to_owned()
    }

    fn at(&self, x: usize, y: usize, len: usize) -> (String, Option<Color>) {
        let cells = &self.cells[y][x..x + len];
        assert!(cells.iter().all(|cell| cell.1 == cells[0].1));
        (cells.iter().map(|cell| cell.0).collect(), cells[0].1)
    }
}

fn draw(
    renderer: &mut DiffPrintRenderer,
    terminal: &mut Terminal,
    game: &GameSnapshot,
    settings: &Settings,
    texts: &RenderTexts,
    legend: &KeybindsLegend,
    frames: &Vec<Option<usize>>,
    rerender: Option<(u16, u16)>,
) {
    assert!(renderer.is_renderable(game, settings, legend, texts, frames));
    let cmds = renderer.render(game, &meta(), settings, legend, texts, frames, rerender);
    terminal.show(&cmds.unwrap());
    renderer.flushed();
}

fn first_frame(game: &GameSnapshot, settings: &Settings, texts: &RenderTexts) -> Terminal {
    let mut renderer = DiffPrintRenderer::default();
    let mut terminal = Terminal::new();
    draw(&mut renderer, &mut terminal, game, settings, texts, &vec![], &vec![], Some((0, 0)));
    terminal
}

#[test]
fn the_fixed_part_is_drawn() {
    let t = first_frame(&snapshot(), &settings(Glyphset::Unicode), &texts());
    assert_eq!(t.line(0), "");
    assert_eq!(t.line(1), "                         ╓╶╶╶╶╶╶╶╶╶╶╶╶╶╶╶╶╶╶╶╶╥─────mode─────┐");
    assert_eq!(t.line(2), "                         ║                    ║   Marathon   │");
    assert_eq!(t.line(3), "  STATS                  ║                    ╟──────────────┘");
    assert_eq!(t.line(5), " Time:  00:10.000        ║                    ║");
    assert_eq!(t.line(6), " Lines: 7                ║                    ║");
    assert_eq!(t.line(7), " Score: 42               ║                    ║");
    assert_eq!(t.line(8), "                         ║                    ║");
    assert_eq!(t.line(9), " Gravity: 1.00Hz         ║                    ║");
    assert_eq!(t.line(10), "                         ║                    ║");
    assert_eq!(t.line(11), " PPS: 0.30               ║                    ║");
    assert_eq!(t.line(22), "                      ░▒▓█▀▀▀▀▀▀▀▀▀▀▀▀▀▀▀▀▀▀▀▀█▓▒░");
    assert_eq!(t.line(23), "");
}

#[test]
fn other_sets_of_characters_can_be_used() {
    let t = first_frame(&snapshot(), &settings(Glyphset::ASCII), &texts());
    assert_eq!(t.line(1), "                         |- - - - - - - - - - +-----mode-----+");
    assert_eq!(t.line(22), "                        ~#====================#~");
    let t = first_frame(&snapshot(), &settings(Glyphset::Electronika60), &texts());
    assert_eq!(t.line(1), "                                                    mode:");
    assert_eq!(t.line(2), "                        <! . . . . . . . . . .!>   Marathon");
    assert_eq!(t.line(22), "                        <!====================!>");
    assert_eq!(t.line(23), "                          \\/\\/\\/\\/\\/\\/\\/\\/\\/\\/");
}

#[test]
fn long_titles_widen_their_box() {
    let mut renderer = DiffPrintRenderer::default();
    let mut terminal = Terminal::new();
    let mut meta = meta();
    meta.title = "A very long title".to_owned();
    let cmds = renderer.render(
        &snapshot(),
        &meta,
        &settings(Glyphset::Unicode),
        &vec![],
        &texts(),
        &vec![],
        Some((3, 2)),
    );
    terminal.show(&cmds.unwrap());
    assert_eq!(
        terminal.line(4),
        "                            ║                    ║A very long title│"
    );
}

#[test]
fn what_is_left_to_do_is_shown() {
    let mut game = snapshot();
    let settings = settings(Glyphset::Unicode);
    for (stat, title, value) in [
        (Stat::TimeElapsed(millis(70_000)), "Time left:", "01:00.000"),
        (Stat::PiecesLocked(10), "Pieces left:", "7"),
        (Stat::LinesCleared(40), "Lines left:", "33"),
        (Stat::PointsScored(40), "Points left:", "0"),
    ] {
        game.end_conditions = vec![(Stat::LinesCleared(1), false), (stat, true)];
        let t = first_frame(&game, &settings, &texts());
        assert_eq!(&t.line(5), &format!(" Time:  00:10.000        ║                    ║  {title}"));
        assert_eq!(&t.line(6), &format!(" Lines: 7                ║                    ║    {value}"));
    }
    game.fall_delay_lowerbound_hit = true;
    let t = first_frame(&game, &settings, &texts());
    assert_eq!(t.line(10), " Lock delay: 500ms       ║                    ║");
    game.lock_delay_is_constant = true;
    let t = first_frame(&game, &settings, &texts());
    assert_eq!(t.line(10), "                         ║                    ║");
}

#[test]
fn tiles_lie_where_they_belong() {
    let mut game = snapshot();
    game.board[0][0] = Some(1);
    game.board[20][9] = Some(3);
    game.board[21][5] = Some(3);
    game.piece_in_play = Some(Piece {
        tetromino: Tetromino::T,
        orientation: Orientation::N,
        position: (3, 18),
    });
    let mut s = settings(Glyphset::Unicode);
    let t = first_frame(&game, &s, &texts());
    assert_eq!(t.at(26, 21, 2), ("██".to_owned(), Some(Color::AnsiValue(81))));
    assert_eq!(t.at(44, 1, 2), ("██".to_owned(), Some(Color::AnsiValue(83))));
    assert_eq!(t.at(36, 0, 2), ("  ".to_owned(), None));
    assert_eq!(t.at(32, 3, 6), ("▓▓▓▓▓▓".to_owned(), Some(Color::AnsiValue(53))));
    assert_eq!(t.at(34, 2, 2), ("▓▓".to_owned(), Some(Color::AnsiValue(53))));
    assert_eq!(t.at(32, 21, 6), ("░░░░░░".to_owned(), Some(Color::AnsiValue(53))));
    assert_eq!(t.at(34, 20, 2), ("░░".to_owned(), Some(Color::AnsiValue(53))));
    s.graphics_mut().show_shadow_piece = false;
    s.graphics_mut().blindfolded = true;
    let t = first_frame(&game, &s, &texts());
    assert_eq!(t.at(26, 21, 2), ("  ".to_owned(), None));
    assert_eq!(t.at(32, 21, 2), ("  ".to_owned(), None));
    assert_eq!(t.at(32, 3, 2).0, "▓▓");
}

#[test]
fn pieces_to_come_and_the_held_one_are_shown() {
    let mut game = snapshot();
    game.piece_preview = vec![
        Tetromino::O,
        Tetromino::I,
        Tetromino::S,
        Tetromino::Z,
        Tetromino::T,
        Tetromino::L,
    ];
    game.piece_held = Some((Tetromino::J, true));
    let t = first_frame(&game, &settings(Glyphset::ASCII), &texts());
    assert_eq!(t.at(52, 10, 4), ("[][]".to_owned(), Some(Color::AnsiValue(49))));
    assert_eq!(t.at(52, 9, 4), ("[][]".to_owned(), Some(Color::AnsiValue(49))));
    assert_eq!(t.at(49, 13, 4), ("iiii".to_owned(), Some(Color::AnsiValue(50))));
    assert_eq!(t.at(54, 13, 2), ("ss".to_owned(), Some(Color::AnsiValue(51))));
    assert_eq!(t.at(57, 13, 2), ("zz".to_owned(), Some(Color::AnsiValue(52))));
    assert_eq!(t.at(50, 15, 1), ("T".to_owned(), Some(Color::AnsiValue(53))));
    assert_eq!(t.at(52, 15, 1), ("L".to_owned(), Some(Color::AnsiValue(54))));
    assert_eq!(t.at(20, 2, 2), ("jj".to_owned(), Some(Color::AnsiValue(55))));
    assert_eq!(t.at(18, 1, 7).0, "+-hold-");
    assert_eq!(t.at(47, 8, 15).0, "-----next-----+");
    game.piece_held = Some((Tetromino::J, false));
    game.piece_preview = vec![Tetromino::I];
    let t = first_frame(&game, &settings(Glyphset::ASCII), &texts());
    assert_eq!(t.at(20, 2, 2), ("jj".to_owned(), Some(Color::Grey)));
    assert_eq!(t.at(50, 10, 8), ("[][][][]".to_owned(), Some(Color::AnsiValue(50))));
    assert_eq!(t.at(49, 13, 2).0, "  ");
}

#[test]
fn keybinds_and_buttons_are_shown() {
    let legend: KeybindsLegend = vec![
        ("←→".to_owned(), "move".to_owned()),
        ("a very long list of keys".to_owned(), "rotate".to_owned()),
    ];
    let mut s = settings(Glyphset::Unicode);
    s.graphics_mut().show_button_state = true;
    let mut game = snapshot();
    game.buttons_pressed[0] = true;
    let mut renderer = DiffPrintRenderer::default();
    let mut t = Terminal::new();
    draw(&mut renderer, &mut t, &game, &s, &texts(), &legend, &vec![], Some((0, 0)));
    assert_eq!(t.at(1, 16, 24).0, "              ←→ move   ");
    assert_eq!(t.at(1, 17, 24).0, "a very long list rotate ");
    assert_eq!(t.line(17)[t.line(17).find('(').unwrap()..], *"(lsr LAR H h <|>)");
    assert_eq!(t.at(48, 17, 1), ("(".to_owned(), None));
    assert_eq!(t.at(49, 17, 1), ("l".to_owned(), Some(Color::White)));
    assert_eq!(t.at(50, 17, 1), ("s".to_owned(), Some(Color::DarkGrey)));
    assert_eq!(t.at(64, 17, 1), (")".to_owned(), None));
}

#[test]
fn replays_are_marked() {
    let mut with_replay = texts();
    with_replay.replay = Some(("1.50".to_owned(), "02:00.000".to_owned()));
    let t = first_frame(&snapshot(), &settings(Glyphset::Unicode), &with_replay);
    assert_eq!(t.at(1, 1, 16).0, "(Viewing REPLAY)");
    assert_eq!(t.at(1, 11, 18).0, "Replay speed: 1.50");
    assert_eq!(t.at(1, 12, 20).0, "Total time 02:00.000");
    assert_eq!(t.at(48, 17, 1).0, "(");
}

#[test]
fn a_dropped_piece_leaves_a_trail_that_fades() {
    let s = settings(Glyphset::Unicode);
    let mut game = snapshot();
    let piece = Piece { tetromino: Tetromino::I, orientation: Orientation::N, position: (0, 17) };
    let mut renderer = DiffPrintRenderer::default();
    let mut t = Terminal::new();
    renderer.push_game_feedback_msgs(vec![(
        millis(10_000),
        Feedback::HardDrop { old_piece: piece, new_piece: piece },
    )]);
    draw(&mut renderer, &mut t, &game, &s, &texts(), &vec![], &vec![None], Some((0, 0)));
    assert_eq!(renderer.hard_drop_tiles.len(), 12);
    assert!(renderer.buffered_feedback_msgs.is_empty());
    game.time = millis(10_049);
    draw(&mut renderer, &mut t, &game, &s, &texts(), &vec![], &vec![], None);
    assert_eq!(t.at(26, 4, 2), ("@@".to_owned(), Some(Color::AnsiValue(50))));
    assert_eq!(t.at(26, 3, 2).0, "@@");
    assert_eq!(t.at(26, 2, 2).0, "$$");
    game.time = millis(10_239);
    draw(&mut renderer, &mut t, &game, &s, &texts(), &vec![], &vec![], None);
    assert_eq!(t.at(26, 4, 2).0, "..");
    assert_eq!(t.at(26, 2, 2), ("  ".to_owned(), None));
    game.time = millis(10_240);
    draw(&mut renderer, &mut t, &game, &s, &texts(), &vec![], &vec![], None);
    assert!(renderer.hard_drop_tiles.is_empty());
    assert_eq!(t.at(26, 4, 2), ("  ".to_owned(), None));
}

#[test]
fn a_locked_piece_flashes() {
    let mut s = settings(Glyphset::Unicode);
    let mut game = snapshot();
    let piece = Piece { tetromino: Tetromino::O, orientation: Orientation::N, position: (4, 0) };
    let mut renderer = DiffPrintRenderer::default();
    let mut t = Terminal::new();
    renderer.push_game_feedback_msgs(vec![(millis(9_900), Feedback::PieceLocked { piece })]);
    draw(&mut renderer, &mut t, &game, &s, &texts(), &vec![], &vec![None], Some((0, 0)));
    assert_eq!(t.at(34, 21, 4), ("░░░░".to_owned(), Some(Color::White)));
    assert_eq!(t.at(34, 20, 4).0, "░░░░");
    assert_eq!(renderer.buffered_feedback_msgs.len(), 1);
    game.time = millis(10_075);
    draw(&mut renderer, &mut t, &game, &s, &texts(), &vec![], &vec![None], None);
    assert!(renderer.buffered_feedback_msgs.is_empty());
    assert_eq!(t.at(34, 21, 4).0, "    ");
    s.graphics_mut().show_effects = false;
    renderer.push_game_feedback_msgs(vec![(millis(10_075), Feedback::PieceLocked { piece })]);
    draw(&mut renderer, &mut t, &game, &s, &texts(), &vec![], &vec![None], None);
    assert!(renderer.buffered_feedback_msgs.is_empty());
    assert_eq!(t.at(34, 21, 4).0, "    ");
}

#[test]
fn cleared_lines_are_animated() {
    let s = settings(Glyphset::Unicode);
    let game = snapshot();
    let clearing = |ms| Feedback::LinesClearing {
        y_coords: vec![1, 21],
        line_clear_start: millis(ms),
    };
    let mut renderer = DiffPrintRenderer::default();
    let mut t = Terminal::new();
    renderer.push_game_feedback_msgs(vec![
        (millis(9_900), clearing(200)),
        (millis(9_900), Feedback::Text("x".to_owned())),
    ]);
    assert_eq!(
        renderer.line_clear_progress(game.time),
        vec![Some((millis(100), millis(200))), None]
    );
    draw(&mut renderer, &mut t, &game, &s, &texts(), &vec![], &vec![Some(5), None], Some((0, 0)));
    assert_eq!(t.at(26, 20, 20), ("     ██████████     ".to_owned(), Some(Color::White)));
    assert_eq!(t.at(26, 0, 20).0, "     ██████████     ");
    assert_eq!(renderer.buffered_feedback_msgs.len(), 1);
    draw(&mut renderer, &mut t, &game, &s, &texts(), &vec![], &vec![None], None);
    assert!(renderer.buffered_feedback_msgs.is_empty());
    renderer.push_game_feedback_msgs(vec![(millis(10_000), clearing(0))]);
    draw(&mut renderer, &mut t, &game, &s, &texts(), &vec![], &vec![Some(0)], None);
    assert!(renderer.buffered_feedback_msgs.is_empty());
}

fn accolade(lineclears: u32, combo: u32, is_spin: bool, is_perfect_clear: bool) -> Feedback {
    Feedback::Accolade {
        score_bonus: 15,
        lineclears,
        combo,
        is_spin,
        is_perfect_clear,
        tetromino: Tetromino::T,
    }
}

#[test]
fn messages_are_shown_for_a_while_the_latest_first() {
    let s = settings(Glyphset::Unicode);
    let mut game = snapshot();
    let mut renderer = DiffPrintRenderer::default();
    let mut t = Terminal::new();
    let result = |result| Feedback::GameEnded { result };
    renderer.push_game_feedback_msgs(vec![
        (millis(5_001), accolade(1, 1, false, false)),
        (millis(6_000), accolade(4, 3, true, true)),
        (millis(7_000), Feedback::Text("hello".to_owned())),
        (millis(8_000), Feedback::Debug("PieceFell".to_owned())),
        (millis(9_000), result(GameResult::Completed(Stat::LinesCleared(1)))),
        (millis(10_000), result(GameResult::Lost(GameOver::Limit(Stat::PiecesLocked(2))))),
        (millis(10_000), accolade(22, 1, false, false)),
    ]);
    draw(&mut renderer, &mut t, &game, &s, &texts(), &vec![], &vec![None; 7], Some((0, 0)));
    let shown: Vec<String> = (18..26).map(|y| t.line(y).chars().skip(49).collect()).collect();
    assert_eq!(
        shown,
        vec![
            "+15 Unreachable",
            "Limit(PiecesLocked(2))...",
            "Game Complete!",
            "PieceFell",
            "hello",
            "+15 Perfect T-Spin Quadruple #3.",
            "+15 Single",
            "",
        ]
    );
    game.time = millis(10_001);
    draw(&mut renderer, &mut t, &game, &s, &texts(), &vec![], &vec![], None);
    assert_eq!(renderer.buffered_text_msgs.len(), 6);
    draw(&mut renderer, &mut t, &game, &s, &texts(), &vec![], &vec![], None);
    let last: String = t.line(24).chars().skip(49).collect();
    assert_eq!(last, "");
}

#[test]
fn a_frame_counts_as_shown_only_once_it_is() {
    let (game, s) = (snapshot(), settings(Glyphset::Unicode));
    let mut renderer = DiffPrintRenderer::default();
    let render = |renderer: &mut DiffPrintRenderer| {
        renderer.render(&game, &meta(), &s, &vec![], &texts(), &vec![], None).unwrap()
    };
    let first = render(&mut renderer);
    assert!(renderer.screen.prev.is_empty());
    assert_eq!(render(&mut renderer), first);
    renderer.flushed();
    assert!(!renderer.screen.prev.is_empty());
    assert_eq!(render(&mut renderer).len(), 3);
}

#[test]
fn frames_that_do_not_fit_are_not_drawn() {
    let mut renderer = DiffPrintRenderer::default();
    let r = renderer.render(
        &snapshot(),
        &meta(),
        &settings(Glyphset::Unicode),
        &vec![],
        &texts(),
        &vec![],
        Some((65_500, 0)),
    );
    assert!(r.is_none());
}

#[test]
fn frames_that_cannot_be_rendered_are_noticed() {
    let renderer = DiffPrintRenderer::default();
    let s = settings(Glyphset::Unicode);
    let ok = |game: &GameSnapshot, texts: &RenderTexts, legend: &KeybindsLegend, frames: &Vec<Option<usize>>| {
        renderer.is_renderable(game, &s, legend, texts, frames)
    };
    assert!(ok(&snapshot(), &texts(), &vec![], &vec![]));
    assert!(!ok(&snapshot(), &texts(), &vec![], &vec![None]));
    let mut few = texts();
    few.tets_mini.pop();
    assert!(!ok(&snapshot(), &few, &vec![], &vec![]));
    let wide = vec![("x".to_owned(), "d".repeat(23))];
    assert!(!ok(&snapshot(), &texts(), &wide, &vec![]));
    let mut many = snapshot();
    many.pieces_locked = [u32::MAX; 7];
    assert!(!ok(&many, &texts(), &vec![], &vec![]));
    let mut zero = snapshot();
    zero.board[3][3] = Some(0);
    assert!(!ok(&zero, &texts(), &vec![], &vec![]));
    let mut tall = DiffPrintRenderer::default();
    tall.push_game_feedback_msgs(vec![(
        millis(0),
        Feedback::LinesClearing { y_coords: vec![22], line_clear_start: millis(1) },
    )]);
    assert!(!tall.is_renderable(&snapshot(), &s, &vec![], &texts(), &vec![None]));
}

#[test]
fn only_what_is_shown_matters() {
    let renderer = DiffPrintRenderer::default();
    let mut s = settings(Glyphset::Unicode);
    s.keybinds_slots.clear();
    s.gameplay_slots.clear();
    assert!(renderer.is_renderable(&snapshot(), &s, &vec![], &texts(), &vec![]));
    first_frame(&snapshot(), &s, &texts());
    s.graphics_slots.clear();
    assert!(!renderer.is_renderable(&snapshot(), &s, &vec![], &texts(), &vec![]));
}

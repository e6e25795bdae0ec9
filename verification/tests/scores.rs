//! Scores of past games.
use falling_tetromino_engine::{DelayParameters, Game};
use tetro_tui::button::{Button, ButtonChange};
use tetro_tui::game::{GameMetaData, GameOver, GameResult, Stat};
use tetro_tui::live::advance;
use tetro_tui::scores::{PastGame, ScoresAndReplays, ScoresEntry, ScoresSorting};
use tetro_tui::time::{ExtDuration, InGameTime};

fn millis(ms: u64) -> InGameTime {
    InGameTime::from_millis(ms)
}

const DONE: GameResult = GameResult::Completed(Stat::LinesCleared(40));
const LOST: GameResult = GameResult::Lost(GameOver::BlockOut);

fn entry(datetime: &str, title: &str, stat: (Stat, bool), result: GameResult) -> ScoresEntry {
    ScoresEntry {
        game_meta_data: GameMetaData {
            datetime: datetime.to_owned(),
            title: title.to_owned(),
            comparison_stat: stat,
        },
        result,
        time_elapsed: millis(0),
        lineclears: 0,
        points_scored: 0,
        pieces_locked: [0; 7],
        fall_delay_reached: ExtDuration::Infinite,
        lock_delay_reached: None,
    }
}

fn timed(datetime: &str, ms: u64) -> PastGame {
    let stat = (Stat::TimeElapsed(millis(0)), true);
    (ScoresEntry { time_elapsed: millis(ms), ..entry(datetime, "40-Lines", stat, DONE) }, None)
}

fn scored(datetime: &str, points: u32, result: GameResult) -> PastGame {
    let stat = (Stat::PointsScored(0), false);
    (ScoresEntry { points_scored: points, ..entry(datetime, "Marathon", stat, result) }, None)
}

fn listed(games: Vec<PastGame>, sorting: ScoresSorting) -> Vec<String> {
    let mut scores = ScoresAndReplays { sorting, entries: games };
    match sorting {
        ScoresSorting::Chronological => scores.sort_past_games_chronologically(),
        ScoresSorting::Semantic => scores.sort_past_games_semantically(),
    }
    assert_eq!(scores.sorting, sorting);
    scores.entries.iter().map(|(e, _)| e.game_meta_data.datetime.clone()).collect()
}

#[test]
fn the_latest_games_come_first() {
    let games = vec![
        timed("2024-01-01_10:00", 5),
        timed("2025-01-01_10:00", 9),
        timed("2024-12-01_10:00", 7),
    ];
    assert_eq!(
        listed(games, ScoresSorting::Chronological),
        vec!["2025-01-01_10:00", "2024-12-01_10:00", "2024-01-01_10:00"]
    );
}

#[test]
fn the_best_games_of_a_mode_come_first() {
    let games = vec![
        scored("a", 10, DONE),
        timed("b", 9_000),
        scored("c", 99, LOST),
        scored("d", 30, DONE),
        timed("e", 4_000),
        scored("f", 5, LOST),
    ];
    assert_eq!(
        listed(games, ScoresSorting::Semantic),
        vec!["e", "b", "d", "a", "c", "f"]
    );
}

#[test]
fn equal_games_stay_as_they_stood() {
    let games = vec![timed("b", 3), timed("a", 3), timed("c", 2), timed("d", 3)];
    assert_eq!(listed(games, ScoresSorting::Semantic), vec!["c", "b", "a", "d"]);
    let games = vec![timed("x", 3), timed("x", 1), timed("x", 2)];
    let mut scores = ScoresAndReplays { sorting: ScoresSorting::Chronological, entries: games };
    scores.sort_past_games_chronologically();
    let times: Vec<_> = scores.entries.iter().map(|(e, _)| e.time_elapsed).collect();
    assert_eq!(times, vec![millis(3), millis(1), millis(2)]);
}

#[test]
fn pieces_are_compared_kind_by_kind() {
    let stat = (Stat::PiecesLocked(0), true);
    let with = |datetime: &str, pieces_locked: [u32; 7]| {
        (ScoresEntry { pieces_locked, ..entry(datetime, "Cheese", stat, DONE) }, None)
    };
    let games = vec![
        with("a", [1, 0, 0, 0, 0, 0, 0]),
        with("b", [0, 9, 9, 9, 9, 9, 9]),
        with("c", [0, 9, 9, 9, 9, 9, 8]),
    ];
    assert_eq!(listed(games, ScoresSorting::Semantic), vec!["c", "b", "a"]);
}

#[test]
fn sorting_loses_no_game() {
    for sorting in [ScoresSorting::Chronological, ScoresSorting::Semantic] {
        let games: Vec<PastGame> = (0..20u32)
            .map(|i| scored(&format!("{}", i * 7 % 20), i * 3 % 7, if i % 3 == 0 { LOST } else { DONE }))
            .collect();
        let mut names = listed(games, sorting);
        names.sort();
        let mut expected: Vec<String> = (0..20u32).map(|i| format!("{i}")).collect();
        expected.sort();
        assert_eq!(names, expected);
    }
}

#[test]
fn contradicting_comparisons_lose_no_game() {
    let up = (Stat::LinesCleared(0), true);
    let down = (Stat::LinesCleared(0), false);
    let with = |datetime: &str, stat, lineclears| {
        (ScoresEntry { lineclears, ..entry(datetime, "Custom", stat, DONE) }, None)
    };
    let games = vec![with("a", up, 3), with("b", down, 2), with("c", up, 1)];
    let mut names = listed(games, ScoresSorting::Semantic);
    names.sort();
    assert_eq!(names, vec!["a", "b", "c"]);
}

fn is_best(games: Vec<PastGame>, e: &ScoresEntry) -> bool {
    let scores = ScoresAndReplays { sorting: ScoresSorting::default(), entries: games };
    assert!(scores.is_comparable(e));
    scores.is_personal_best(e)
}

#[test]
fn the_first_completed_game_of_a_mode_is_a_best() {
    let (e, _) = timed("now", 5_000);
    assert!(is_best(vec![], &e));
    assert!(is_best(vec![scored("x", 9, DONE)], &e));
    let lost = ScoresEntry { result: LOST, ..timed("then", 10).0 };
    assert!(is_best(vec![(lost, None)], &e));
}

#[test]
fn a_best_is_at_least_as_good_as_all_others() {
    let (e, _) = timed("now", 5_000);
    assert!(is_best(vec![timed("a", 5_000), timed("b", 6_000)], &e));
    assert!(!is_best(vec![timed("a", 4_999), timed("b", 6_000)], &e));
    let sub = ScoresEntry { time_elapsed: InGameTime { secs: 5, subsec_nanos: 999_999 }, ..timed("n", 0).0 };
    assert!(is_best(vec![timed("a", 5_000)], &sub));
    let (p, _) = scored("now", 50, DONE);
    assert!(is_best(vec![scored("a", 50, DONE), scored("b", 90, LOST)], &p));
    assert!(!is_best(vec![scored("a", 51, DONE)], &p));
}

#[test]
fn a_lost_game_is_no_best() {
    let (e, _) = scored("now", 1_000, LOST);
    assert!(!is_best(vec![], &e));
}

#[test]
fn pieces_count_together_for_a_best() {
    let stat = (Stat::PiecesLocked(0), true);
    let with = |pieces_locked: [u32; 7]| ScoresEntry {
        pieces_locked,
        ..entry("d", "Cheese", stat, DONE)
    };
    assert!(is_best(vec![(with([0, 5, 0, 0, 0, 0, 0]), None)], &with([4, 0, 0, 0, 0, 0, 0])));
    assert!(!is_best(vec![(with([0, 3, 0, 0, 0, 0, 0]), None)], &with([0, 0, 0, 0, 0, 0, 4])));
}

#[test]
fn bests_stay_bests_when_sorted() {
    let games = || vec![timed("a", 3), timed("b", 2), timed("c", 9), timed("d", 2)];
    let mut scores = ScoresAndReplays { sorting: ScoresSorting::Semantic, entries: games() };
    scores.sort_past_games_semantically();
    for (e, _) in games() {
        assert_eq!(scores.is_personal_best(&e), e.time_elapsed == millis(2));
    }
}

#[test]
fn too_many_pieces_cannot_be_compared() {
    let many = [u32::MAX, 1, 0, 0, 0, 0, 0];
    let pieces = (Stat::PiecesLocked(0), true);
    let lines = (Stat::LinesCleared(0), true);
    let with = |title: &str, stat, result, pieces_locked| ScoresEntry {
        pieces_locked,
        ..entry("a", title, stat, result)
    };
    let past = |e: ScoresEntry| ScoresAndReplays {
        sorting: ScoresSorting::default(),
        entries: vec![(e, None)],
    };
    let few = [1, 2, 3, 0, 0, 0, 0];
    let scores = past(with("Cheese", pieces, DONE, many));
    assert!(with("Cheese", pieces, DONE, many).is_wf());
    assert!(!scores.is_comparable(&with("Cheese", pieces, DONE, few)));
    assert!(!scores.is_comparable(&with("Combo", pieces, DONE, many)));
    assert!(scores.is_comparable(&with("Combo", pieces, DONE, few)));
    assert!(scores.is_comparable(&with("Cheese", pieces, LOST, many)));
    assert!(scores.is_comparable(&with("Cheese", lines, DONE, many)));
    assert!(scores.is_personal_best(&with("Cheese", lines, DONE, many)));
    assert!(!scores.is_personal_best(&with("Cheese", pieces, LOST, many)));
    assert!(past(with("Cheese", pieces, LOST, many)).is_comparable(&with("Cheese", pieces, DONE, few)));
}

#[test]
fn a_game_is_scored_as_it_went() {
    let meta = GameMetaData {
        datetime: "2026-01-02_03:04".to_owned(),
        title: "Custom".to_owned(),
        comparison_stat: (Stat::PointsScored(0), false),
    };
    let mut builder = Game::builder();
    builder.seed(6);
    let mut game = builder.build();
    advance(&mut game, millis(0), None);
    advance(&mut game, millis(70), Some(ButtonChange::Press(Button::DropHard)));
    let e = ScoresEntry::new(&game, &meta);
    assert_eq!(e.game_meta_data, meta);
    assert_eq!(e.result, GameResult::Lost(GameOver::Forfeit));
    assert_eq!(e.time_elapsed, millis(70));
    assert_eq!(e.pieces_locked.iter().sum::<u32>(), 1);
    assert_eq!((e.lineclears, e.points_scored), (0, 0));
    assert_eq!(e.fall_delay_reached, ExtDuration::Finite(millis(1_000)));
    assert_eq!(e.lock_delay_reached, None);
    assert_eq!(e.clone(), e);

    builder.lock_delay_params(DelayParameters::standard_lock());
    let e = ScoresEntry::new(&builder.build(), &meta);
    assert_eq!(e.lock_delay_reached, Some(ExtDuration::Finite(millis(500))));
    builder.fall_delay_params(DelayParameters::standard_fall());
    let e = ScoresEntry::new(&builder.build(), &meta);
    assert_eq!(e.lock_delay_reached, None);
}

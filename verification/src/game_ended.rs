//! The screen at the end of a game.
use crate::about::{
    ends_program, is_program_end, is_way_back, is_way_down, is_way_up, leads_back, leads_down,
    leads_up, stands_at, PlacedText,
};
use crate::application::{Application, H_MAIN, W_MAIN};
use crate::game::{game_over_text, join3, GameResult};
use crate::keys::{is_letter, types_letter, KeyCode, KeyEvent, KeyEventKind};
use crate::menu::{menu_name, Menu, MenuUpdate};
use crate::scores::{comparable, personal_best, ScoresEntry};
use crate::settings::{NewGameSettings, Settings};
use crate::text::{center, decimal, decimal_of, same_text};
use vstd::prelude::*;
use vstd::string::*;

verus! {

/// How many menus there are to go on to.
pub const SELECTION_COUNT: usize = 4;

/// The menus to go on to.
pub open spec fn selection(i: int) -> Menu {
    if i == 0 {
        Menu::NewGame
    } else if i == 1 {
        Menu::Settings
    } else if i == 2 {
        Menu::ScoresAndReplays
    } else {
        Menu::Quit
    }
}

/// The menus to go on to.
pub fn selected_menu(i: usize) -> (r: Menu)
    requires
        i < SELECTION_COUNT,
    ensures
        r == selection(i as int),
{
    if i == 0 {
        Menu::NewGame
    } else if i == 1 {
        Menu::Settings
    } else if i == 2 {
        Menu::ScoresAndReplays
    } else {
        Menu::Quit
    }
}

impl Application {
    /// Whether a game that has just ended is a personal best. A puzzle that was
    /// completed unlocks the experimental mode.
    pub fn acknowledge_game(&mut self, entry: &ScoresEntry) -> (is_pb: bool)
        requires
            comparable(old(self).scores_and_replays.entries@, *entry),
        ensures
            is_pb == personal_best(old(self).scores_and_replays.entries@, *entry),
            *final(self) == (Application {
                settings: Settings {
                    new_game: NewGameSettings {
                        experimental_mode_unlocked: old(
                            self,
                        ).settings.new_game.experimental_mode_unlocked || (entry.result
                            is Completed && entry.game_meta_data.title@ == "Puzzle"@),
                        ..old(self).settings.new_game
                    },
                    ..old(self).settings
                },
                ..*old(self)
            }),
    {
        let is_pb = self.scores_and_replays.is_personal_best(entry);
        if entry.result.is_ok() && same_text(entry.game_meta_data.title.as_str(), "Puzzle") {
            self.settings.new_game.experimental_mode_unlocked = true;
        }
        is_pb
    }
}

// ---------------------------------------------------------------------------
// What is drawn
// ---------------------------------------------------------------------------
/// Numbers of a game in words.
#[derive(Debug)]
pub struct EndTexts {
    /// How long it took.
    pub time_elapsed: String,
    /// How many pieces of each kind were locked.
    pub pieces_locked: String,
    /// How fast pieces fell at the end.
    pub gravity: String,
}

/// What is said of how a game ended.
pub open spec fn end_title(entry: ScoresEntry) -> Seq<char> {
    let title = entry.game_meta_data.title@;
    match entry.result {
        GameResult::Completed(_) => "++ Game Completed ("@ + title + ") ++"@,
        GameResult::Lost(cause) => "-- Game Over ("@ + title + (") by: "@ + game_over_text(cause)
            + " --"@),
    }
}

/// What is said of how a game went, line by line.
pub open spec fn end_stats(entry: ScoresEntry, texts: EndTexts) -> Seq<Seq<char>> {
    let stats = seq![
        "Time elapsed: "@ + texts.time_elapsed@,
        "Lines: "@ + decimal(entry.lineclears as nat),
        "Score: "@ + decimal(entry.points_scored as nat),
        "Pieces: "@ + texts.pieces_locked@,
        "Gravity: "@ + texts.gravity@,
    ];
    match entry.lock_delay_reached {
        Some(delay) => stats.push(
            "Lock delay: "@ + decimal(delay.saturated().millis()) + "ms"@,
        ),
        None => stats,
    }
}

/// How a menu to go on to is shown.
pub open spec fn shown_name(i: int, selected: int) -> Seq<char> {
    if i == selected {
        ">> "@ + menu_name(selection(i)) + " <<"@
    } else {
        menu_name(selection(i))
    }
}

/// A line across.
pub open spec fn rule() -> Seq<char> {
    "──────────────────────────"@
}

/// The rows below the middle, with what is said in them, in the order in which
/// they are drawn.
pub open spec fn end_rows(
    entry: ScoresEntry,
    is_pb: bool,
    selected: int,
    texts: EndTexts,
) -> Seq<(int, Seq<char>)> {
    let stats = end_stats(entry, texts);
    let n = stats.len() as int;
    seq![(0, end_title(entry))] + (if is_pb {
        seq![(1, "*** NEW PERSONAL BEST! ***"@)]
    } else {
        seq![]
    }) + seq![(2, rule())] + Seq::new(stats.len(), |i: int| (3 + i, stats[i])) + seq![
        (3 + n, rule()),
    ] + Seq::new(
        SELECTION_COUNT as nat,
        |i: int| (3 + n + 2 + i, shown_name(i, selected)),
    )
}

/// The row that others are counted from.
pub const TOP_ROW: u16 = 4;

/// Whether texts stand where they are to be drawn.
pub open spec fn placed_rows(
    placed: Seq<PlacedText>,
    main: (u16, u16),
    rows: Seq<(int, Seq<char>)>,
) -> bool {
    &&& placed.len() == rows.len()
    &&& forall|i: int|
        0 <= i < placed.len() ==> stands_at(
            #[trigger] placed[i],
            main.0 as int,
            main.1 + TOP_ROW + rows[i].0,
            rows[i].1,
        )
}

fn place_row(
    placed: &mut Vec<PlacedText>,
    main: (u16, u16),
    row: u16,
    text: &str,
    rows: Ghost<Seq<(int, Seq<char>)>>,
)
    requires
        placed_rows(old(placed)@, main, rows@),
        main.1 + TOP_ROW + row <= u16::MAX,
    ensures
        placed_rows(final(placed)@, main, rows@.push((row as int, text@))),
{
    let text = center(text, ' ', W_MAIN as usize);
    placed.push((main.0, main.1 + TOP_ROW + row, text));
}

/// How a game went, line by line.
fn stat_lines(entry: &ScoresEntry, texts: &EndTexts) -> (r: Vec<String>)
    ensures
        r@.len() == end_stats(*entry, *texts).len(),
        forall|i: int| 0 <= i < r@.len() ==> (#[trigger] r@[i])@ == end_stats(*entry, *texts)[i],
{
    let mut r: Vec<String> = Vec::new();
    r.push(join3("Time elapsed: ", texts.time_elapsed.as_str(), ""));
    r.push(join3("Lines: ", decimal_of(entry.lineclears as u128).as_str(), ""));
    r.push(join3("Score: ", decimal_of(entry.points_scored as u128).as_str(), ""));
    r.push(join3("Pieces: ", texts.pieces_locked.as_str(), ""));
    r.push(join3("Gravity: ", texts.gravity.as_str(), ""));
    proof {
        reveal_strlit("");
    }
    if let Some(delay) = entry.lock_delay_reached {
        r.push(
            join3(
                "Lock delay: ",
                decimal_of(delay.saturating_duration().as_millis()).as_str(),
                "ms",
            ),
        );
    }
    r
}

/// What is drawn, given which menu is selected.
pub fn game_ended_screen(
    entry: &ScoresEntry,
    is_pb: bool,
    selected: usize,
    texts: &EndTexts,
    main: (u16, u16),
) -> (placed: Vec<PlacedText>)
    requires
        entry.wf(),
        main.1 + H_MAIN <= u16::MAX,
    ensures
        placed_rows(placed@, main, end_rows(*entry, is_pb, selected as int, *texts)),
{
    let mut placed: Vec<PlacedText> = Vec::new();
    let ghost mut rows: Seq<(int, Seq<char>)> = Seq::empty();
    let title = entry.game_meta_data.title.as_str();
    let end = match entry.result {
        GameResult::Completed(_) => join3("++ Game Completed (", title, ") ++"),
        GameResult::Lost(cause) => {
            let by = join3(") by: ", cause.describe().as_str(), " --");
            join3("-- Game Over (", title, by.as_str())
        },
    };
    place_row(&mut placed, main, 0, end.as_str(), Ghost(rows));
    proof {
        rows = rows.push((0, end@));
    }
    if is_pb {
        place_row(&mut placed, main, 1, "*** NEW PERSONAL BEST! ***", Ghost(rows));
        proof {
            rows = rows.push((1, "*** NEW PERSONAL BEST! ***"@));
        }
    }
    place_row(&mut placed, main, 2, "──────────────────────────", Ghost(rows));
    proof {
        rows = rows.push((2, rule()));
    }
    let ghost head = rows;
    let ghost all_stats = end_stats(*entry, *texts);
    let stats = stat_lines(entry, texts);
    let n: usize = stats.len();
    for i in 0..n
        invariant
            n == stats@.len(),
            n == all_stats.len(),
            n <= 6,
            main.1 + H_MAIN <= u16::MAX,
            forall|i: int| 0 <= i < stats@.len() ==> (#[trigger] stats@[i])@ == all_stats[i],
            placed_rows(placed@, main, rows),
            rows == head + Seq::new(i as nat, |i: int| (3 + i, all_stats[i])),
    {
        place_row(&mut placed, main, 3 + i as u16, stats[i].as_str(), Ghost(rows));
        proof {
            rows = rows.push((3 + i, all_stats[i as int]));
        }
    }
    place_row(&mut placed, main, 3 + n as u16, "──────────────────────────", Ghost(rows));
    proof {
        rows = rows.push((3 + n, rule()));
    }
    let ghost body = rows;
    for i in 0..SELECTION_COUNT
        invariant
            n <= 6,
            main.1 + H_MAIN <= u16::MAX,
            placed_rows(placed@, main, rows),
            rows == body + Seq::new(
                i as nat,
                |i: int| (3 + n + 2 + i, shown_name(i, selected as int)),
            ),
    {
        let name = selected_menu(i).name();
        let text = if i == selected {
            join3(">> ", name.as_str(), " <<")
        } else {
            name
        };
        place_row(&mut placed, main, 3 + n as u16 + 2 + i as u16, text.as_str(), Ghost(rows));
        proof {
            rows = rows.push((3 + n + 2 + i, shown_name(i as int, selected as int)));
        }
    }
    placed
}

// ---------------------------------------------------------------------------
// Keys
// ---------------------------------------------------------------------------
/// What follows from a key.
#[derive(Debug)]
pub enum EndStep {
    /// The screen is left.
    Leave(MenuUpdate),
    /// This menu is selected.
    Select(usize),
}

/// Whether a key picks the selected menu.
pub open spec fn picks(event: KeyEvent) -> bool {
    event.kind == KeyEventKind::Press && (event.code == KeyCode::Enter || types_letter(
        event.code,
        'e',
        'E',
    ))
}

/// The menu above a selected one; above the first is the last.
pub open spec fn menu_above(selected: int) -> int {
    (selected + SELECTION_COUNT - 1) % SELECTION_COUNT as int
}

/// The menu below a selected one; below the last is the first.
pub open spec fn menu_below(selected: int) -> int {
    (selected + 1) % SELECTION_COUNT as int
}

/// What follows from a key, given which menu is selected. From the last menu the
/// selection goes on to the first, and the other way round.
pub fn game_ended_key(selected: usize, event: KeyEvent) -> (r: EndStep)
    requires
        selected < SELECTION_COUNT,
    ensures
        r == if ends_program(event) {
            EndStep::Leave(MenuUpdate::Push(Menu::Quit))
        } else if leads_back(event) {
            EndStep::Leave(MenuUpdate::Pop)
        } else if picks(event) {
            EndStep::Leave(MenuUpdate::Push(selection(selected as int)))
        } else if leads_up(event) {
            EndStep::Select(menu_above(selected as int) as usize)
        } else if leads_down(event) {
            EndStep::Select(menu_below(selected as int) as usize)
        } else {
            EndStep::Select(selected)
        },
{
    if is_program_end(event) {
        EndStep::Leave(MenuUpdate::Push(Menu::Quit))
    } else if is_way_back(event) {
        EndStep::Leave(MenuUpdate::Pop)
    } else if event.kind == KeyEventKind::Press && (event.code == KeyCode::Enter || is_letter(
        event.code,
        'e',
        'E',
    )) {
        EndStep::Leave(MenuUpdate::Push(selected_menu(selected)))
    } else if is_way_up(event) {
        EndStep::Select((selected + SELECTION_COUNT - 1) % SELECTION_COUNT)
    } else if is_way_down(event) {
        EndStep::Select((selected + 1) % SELECTION_COUNT)
    } else {
        EndStep::Select(selected)
    }
}

/// Going up undoes going down, and the other way round.
pub proof fn law_up_undoes_down(selected: int)
    requires
        0 <= selected < SELECTION_COUNT,
    ensures
        menu_above(menu_below(selected)) == selected,
        menu_below(menu_above(selected)) == selected,
{
}

/// What is said of a game tells its lines, its points and its time behind their names,
/// its title, whether it was completed, and that it is a personal best if and only if
/// it is one.
pub proof fn law_end_of_a_game_tells_how_it_went(
    entry: ScoresEntry,
    is_pb: bool,
    selected: int,
    texts: EndTexts,
)
    requires
        0 <= selected < 4,
    ensures
        ({
            let rows = end_rows(entry, is_pb, selected, texts);
            &&& rows.contains((3int, "Time elapsed: "@ + texts.time_elapsed@))
            &&& rows.contains((4int, "Lines: "@ + decimal(entry.lineclears as nat)))
            &&& rows.contains((5int, "Score: "@ + decimal(entry.points_scored as nat)))
            &&& rows.contains((6int, "Pieces: "@ + texts.pieces_locked@))
            &&& rows.contains((7int, "Gravity: "@ + texts.gravity@))
            &&& entry.result is Completed ==> rows.contains(
                (0int, "++ Game Completed ("@ + entry.game_meta_data.title@ + ") ++"@),
            )
            &&& is_pb <==> exists|i: int| 0 <= i < rows.len() && (#[trigger] rows[i]).0 == 1
            &&& is_pb ==> rows.contains((1int, "*** NEW PERSONAL BEST! ***"@))
        }),
{
    let rows = end_rows(entry, is_pb, selected, texts);
    let stats = end_stats(entry, texts);
    let at: int = if is_pb {
        3
    } else {
        2
    };
    assert forall|i: int| 0 <= i < stats.len() implies rows[at + i] == (
        3 + i,
        #[trigger] stats[i],
    ) by {}
    assert(rows[at] == (3int, stats[0]));
    assert(rows[at + 1] == (4int, stats[1]));
    assert(rows[at + 2] == (5int, stats[2]));
    assert(rows[at + 3] == (6int, stats[3]));
    assert(rows[at + 4] == (7int, stats[4]));
    assert(rows[0] == (0int, end_title(entry)));
    if is_pb {
        assert(rows[1] == (1int, "*** NEW PERSONAL BEST! ***"@));
    }
}

/// The menus to go on to stand below each other in their order, and the selected one,
/// which is the one that is picked, is the one that is marked.
pub proof fn law_selected_menu_is_the_one_marked(
    entry: ScoresEntry,
    is_pb: bool,
    selected: int,
    texts: EndTexts,
    i: int,
)
    requires
        0 <= selected < 4,
        0 <= i < 4,
    ensures
        ({
            let rows = end_rows(entry, is_pb, selected, texts);
            let name = if i == 0 {
                "New Game"@
            } else if i == 1 {
                "Settings"@
            } else if i == 2 {
                "Scores and Replays"@
            } else {
                "Quit"@
            };
            &&& menu_name(selection(i)) == name
            &&& rows[rows.len() - 4 + i].1 == if i == selected {
                ">> "@ + name + " <<"@
            } else {
                name
            }
            &&& rows[rows.len() - 4 + i].0 == rows[rows.len() - 4].0 + i
        }),
{
}

/// Going down and up the menus goes from one to the next and, at either end, around to
/// the other.
pub proof fn law_selection_goes_around(selected: int)
    requires
        0 <= selected < 4,
    ensures
        menu_below(selected) == if selected == 3 {
            0
        } else {
            selected + 1
        },
        menu_above(selected) == if selected == 0 {
            3
        } else {
            selected - 1
        },
{
}

/// Enter and E pick the selected menu when they go down, and at no other time.
pub proof fn law_enter_picks(event: KeyEvent)
    ensures
        event.kind == KeyEventKind::Press && event.code == KeyCode::Enter ==> picks(event),
        event.kind == KeyEventKind::Press && event.code == KeyCode::Char('e') ==> picks(event),
        event.kind == KeyEventKind::Press && event.code == KeyCode::Char('E') ==> picks(event),
        event.kind != KeyEventKind::Press ==> !picks(event),
        picks(event) ==> !ends_program(event) && !leads_back(event) && !leads_up(event)
            && !leads_down(event),
{
}

/// Every text stands in its row, counted from the fifth row of what is drawn on, and
/// none of them anywhere else.
pub proof fn law_rows_stand_below_each_other(
    placed: Seq<PlacedText>,
    main: (u16, u16),
    rows: Seq<(int, Seq<char>)>,
    i: int,
)
    requires
        placed_rows(placed, main, rows),
        0 <= i < rows.len(),
    ensures
        placed.len() == rows.len(),
        placed[i].0 == main.0,
        placed[i].1 == main.1 + 4 + rows[i].0,
        rows[i].1.len() <= 62 ==> placed[i].2@.len() == 62 && forall|k: int|
            0 <= k < rows[i].1.len() ==> placed[i].2@[(62 - rows[i].1.len()) / 2 + k]
                == #[trigger] rows[i].1[k],
{
    assert(stands_at(placed[i], main.0 as int, main.1 + TOP_ROW + rows[i].0, rows[i].1));
}

} // verus!

//! What the program is about.
use crate::application::{H_MAIN, W_MAIN};
use crate::game::join3;
use crate::keys::{is_letter, types_letter, KeyCode, KeyEvent, KeyEventKind};
use crate::menu::{Menu, MenuUpdate};
use crate::text::{center, centered};
use vstd::prelude::*;
use vstd::string::*;

verus! {

/// How many lines there are below the first.
pub const ABOUT_COUNT: usize = 77;

/// The lines below the first.
pub const ABOUT_LINES: [&'static str; 77] = [
    "",
    "https://github.com/Strophox/tetro-tui",
    "A terminal-based falling-block stacking game.",
    "",
    "────────── Controls ──────────",
    "",
    "[Esc] Pause    [Ctrl+D] Forfeit",
    "[Ctrl+S] Store savepoint",
    "[Ctrl+E] Store seed",
    "[Ctrl+Alt+B] Toggle blindfold",
    "",
    "────────── Pieces ──────────",
    "",
    "I ▄▄▄▄    O ██    T ▄█▄",
    "S ▄█▀     Z ▀█▄",
    "L ▄▄█     J █▄▄",
    "",
    "All 7 standard tetrominoes, drawn from",
    "a shuffled bag (each appears once per",
    "bag of 7). Hold a piece with [Hold].",
    "",
    "──────── Game Modes ────────",
    "",
    "40-Lines  Clear 40 lines as fast as",
    "          you can. Best: lowest time.",
    "",
    "Marathon  Clear 150 lines with",
    "          increasing gravity.",
    "          Best: highest score.",
    "",
    "Time Trial  3 minutes, constant",
    "            gravity. Score as much",
    "            as possible.",
    "",
    "Master    Instant gravity (20G).",
    "          Pieces land immediately.",
    "          150 lines to clear.",
    "",
    "Puzzle    Pre-set board layouts.",
    "          Clear them all!",
    "",
    "Cheese    Board filled with garbage",
    "          lines. Dig through them",
    "          using the fewest pieces.",
    "",
    "Combo     Pre-set board for chaining",
    "          consecutive line clears.",
    "",
    "Custom    Configure your own rules:",
    "          gravity, win condition,",
    "          seed, and starting board.",
    "",
    "────────── Scoring ──────────",
    "",
    "Score = (Perfect?4:1) * (Spin?2:1)",
    "      * (Lines*2 - 1) + (Combo - 1)",
    "",
    "\"Perfect\" = board fully empty after",
    "the line clear (4x multiplier).",
    "All spins count, not just T-spins.",
    "Combos add bonus points per chain.",
    "",
    "──────── Glossary ────────",
    "",
    "PPS   Pieces Per Second - how fast",
    "      you place pieces.",
    "DAS   Delayed Auto Shift - delay",
    "      before held key auto-repeats.",
    "ARR   Auto Repeat Rate - speed of",
    "      auto-repeat once DAS fires.",
    "20G   Instant gravity. Pieces fall",
    "      to the bottom immediately.",
    "",
    "────────── Credits ──────────",
    "",
    "Created by Strophox",
    "License: MIT",
];

/// How many lines are shown together.
pub const VISIBLE_LINES: usize = 21;

/// How far the lines can be scrolled.
pub const MAX_SCROLL: usize = 57;

/// Text at a place of the terminal.
pub type PlacedText = (u16, u16, String);

/// The text of a line.
pub open spec fn about_text(version: Seq<char>, n: int) -> Seq<char> {
    if n == 0 {
        "- About Tetro TUI "@ + version + " -"@
    } else {
        ABOUT_LINES[n - 1]@
    }
}

/// How far the lines are scrolled at most.
pub open spec fn clamped(scroll: int) -> int {
    if scroll < MAX_SCROLL {
        scroll
    } else {
        MAX_SCROLL as int
    }
}

/// Whether a text stands at a place, in the middle of the width that is drawn
/// on.
pub open spec fn stands_at(placed: PlacedText, x: int, y: int, text: Seq<char>) -> bool {
    placed.0 == x && placed.1 == y && placed.2@ == centered(text, ' ', W_MAIN as nat)
}

/// What is drawn.
#[derive(PartialEq, Eq, PartialOrd, Ord, Hash, Debug)]
pub struct AboutScreen {
    /// How far the lines are scrolled.
    pub scroll: usize,
    /// The lines that are shown.
    pub lines: Vec<PlacedText>,
    /// What is said about keys below them, in italics.
    pub footer: PlacedText,
}

/// What is drawn, given how far the player wants to scroll.
pub fn about_screen(version: &str, scroll: usize, main: (u16, u16)) -> (r: AboutScreen)
    requires
        main.1 + H_MAIN <= u16::MAX,
    ensures
        r.scroll == clamped(scroll as int),
        r.lines@.len() == VISIBLE_LINES,
        forall|i: int|
            0 <= i < VISIBLE_LINES ==> stands_at(
                #[trigger] r.lines@[i],
                main.0 as int,
                main.1 + 1 + i,
                about_text(version@, clamped(scroll as int) + i),
            ),
        stands_at(
            r.footer,
            main.0 as int,
            main.1 + H_MAIN - 1,
            "[Up/Down to scroll, Esc to return]"@,
        ),
{
    let (x_main, y_main) = main;
    let scroll: usize = if scroll < MAX_SCROLL {
        scroll
    } else {
        MAX_SCROLL
    };
    let mut lines: Vec<PlacedText> = Vec::new();
    for i in 0..VISIBLE_LINES
        invariant
            main == (x_main, y_main),
            main.1 + H_MAIN <= u16::MAX,
            scroll <= MAX_SCROLL,
            lines@.len() == i,
            forall|j: int|
                0 <= j < i ==> stands_at(
                    #[trigger] lines@[j],
                    main.0 as int,
                    main.1 + 1 + j,
                    about_text(version@, scroll + j),
                ),
    {
        let n: usize = scroll + i;
        let text = if n == 0 {
            center(join3("- About Tetro TUI ", version, " -").as_str(), ' ', W_MAIN as usize)
        } else {
            center(ABOUT_LINES[n - 1], ' ', W_MAIN as usize)
        };
        lines.push((x_main, y_main + 1 + i as u16, text));
    }
    AboutScreen {
        scroll,
        lines,
        footer: (
            x_main,
            y_main + H_MAIN - 1,
            center("[Up/Down to scroll, Esc to return]", ' ', W_MAIN as usize),
        ),
    }
}

/// What follows from a key.
#[derive(Debug)]
pub enum AboutStep {
    /// The screen is left.
    Leave(MenuUpdate),
    /// The lines are scrolled to here, as far as they go.
    Scroll(usize),
}

/// Whether a key goes down or stays down.
pub open spec fn goes_or_stays_down(kind: KeyEventKind) -> bool {
    kind == KeyEventKind::Press || kind == KeyEventKind::Repeat
}

/// Whether a key ends the program.
pub open spec fn ends_program(event: KeyEvent) -> bool {
    types_letter(event.code, 'c', 'C') && event.modifiers.only_control() && goes_or_stays_down(
        event.kind,
    )
}

/// Whether a key leads back.
pub open spec fn leads_back(event: KeyEvent) -> bool {
    event.kind == KeyEventKind::Press && (event.code == KeyCode::Esc || event.code
        == KeyCode::Backspace || types_letter(event.code, 'q', 'Q') || types_letter(
        event.code,
        'b',
        'B',
    ))
}

/// Whether a key leads up.
pub open spec fn leads_up(event: KeyEvent) -> bool {
    goes_or_stays_down(event.kind) && (event.code == KeyCode::Up || types_letter(
        event.code,
        'k',
        'K',
    ))
}

/// Whether a key leads down.
pub open spec fn leads_down(event: KeyEvent) -> bool {
    goes_or_stays_down(event.kind) && (event.code == KeyCode::Down || types_letter(
        event.code,
        'j',
        'J',
    ))
}

/// Whether a key ends the program.
pub fn is_program_end(event: KeyEvent) -> (b: bool)
    ensures
        b == ends_program(event),
{
    is_letter(event.code, 'c', 'C') && event.modifiers.is_only_control() && (event.kind
        == KeyEventKind::Press || event.kind == KeyEventKind::Repeat)
}

/// Whether a key leads back.
pub fn is_way_back(event: KeyEvent) -> (b: bool)
    ensures
        b == leads_back(event),
{
    event.kind == KeyEventKind::Press && (event.code == KeyCode::Esc || event.code
        == KeyCode::Backspace || is_letter(event.code, 'q', 'Q') || is_letter(
        event.code,
        'b',
        'B',
    ))
}

/// Whether a key leads up.
pub fn is_way_up(event: KeyEvent) -> (b: bool)
    ensures
        b == leads_up(event),
{
    (event.kind == KeyEventKind::Press || event.kind == KeyEventKind::Repeat) && (event.code
        == KeyCode::Up || is_letter(event.code, 'k', 'K'))
}

/// Whether a key leads down.
pub fn is_way_down(event: KeyEvent) -> (b: bool)
    ensures
        b == leads_down(event),
{
    (event.kind == KeyEventKind::Press || event.kind == KeyEventKind::Repeat) && (event.code
        == KeyCode::Down || is_letter(event.code, 'j', 'J'))
}

/// What follows from a key, given how far the lines are scrolled.
pub fn about_key(scroll: usize, event: KeyEvent) -> (r: AboutStep)
    ensures
        r == if ends_program(event) {
            AboutStep::Leave(MenuUpdate::Push(Menu::Quit))
        } else if leads_back(event) {
            AboutStep::Leave(MenuUpdate::Pop)
        } else if leads_up(event) {
            AboutStep::Scroll(
                if scroll == 0 {
                    0
                } else {
                    (scroll - 1) as usize
                },
            )
        } else if leads_down(event) {
            AboutStep::Scroll(
                if scroll == usize::MAX {
                    usize::MAX
                } else {
                    (scroll + 1) as usize
                },
            )
        } else {
            AboutStep::Scroll(scroll)
        },
{
    if is_program_end(event) {
        AboutStep::Leave(MenuUpdate::Push(Menu::Quit))
    } else if is_way_back(event) {
        AboutStep::Leave(MenuUpdate::Pop)
    } else if is_way_up(event) {
        AboutStep::Scroll(scroll.saturating_sub(1))
    } else if is_way_down(event) {
        AboutStep::Scroll(scroll.saturating_add(1))
    } else {
        AboutStep::Scroll(scroll)
    }
}

/// Every line can be brought into view.
pub proof fn law_every_line_can_be_seen(n: int) -> (scroll: int)
    requires
        0 <= n <= ABOUT_COUNT,
    ensures
        0 <= scroll,
        clamped(scroll) <= n < clamped(scroll) + VISIBLE_LINES,
{
    if n < VISIBLE_LINES {
        0
    } else {
        n - VISIBLE_LINES + 1
    }
}

/// A key that is let go does nothing, and no key does two things at once but for
/// control and C, which types no letter that leads anywhere.
pub proof fn law_a_key_leads_one_way(event: KeyEvent)
    ensures
        event.kind == KeyEventKind::Release ==> !ends_program(event) && !leads_back(event)
            && !leads_up(event) && !leads_down(event),
        !(ends_program(event) && leads_back(event)),
        !(ends_program(event) && leads_up(event)),
        !(ends_program(event) && leads_down(event)),
        !(leads_back(event) && leads_up(event)),
        !(leads_back(event) && leads_down(event)),
        !(leads_up(event) && leads_down(event)),
{
}

/// The arrow keys lead up and down for as long as they are down; escape and backspace
/// lead back when they go down; and control and C end the program.
pub proof fn law_where_keys_lead(event: KeyEvent)
    ensures
        event.kind != KeyEventKind::Release ==> {
            &&& event.code == KeyCode::Up ==> leads_up(event)
            &&& event.code == KeyCode::Down ==> leads_down(event)
            &&& event.code == KeyCode::Char('k') ==> leads_up(event)
            &&& event.code == KeyCode::Char('j') ==> leads_down(event)
            &&& event.code == KeyCode::Char('c') && event.modifiers.bits == 2 ==> ends_program(
                event,
            )
        },
        event.kind == KeyEventKind::Press ==> {
            &&& event.code == KeyCode::Esc ==> leads_back(event)
            &&& event.code == KeyCode::Backspace ==> leads_back(event)
            &&& event.code == KeyCode::Char('q') ==> leads_back(event)
            &&& event.code == KeyCode::Char('b') ==> leads_back(event)
        },
        event.kind == KeyEventKind::Repeat ==> !leads_back(event),
        event.modifiers.bits != 2 ==> !ends_program(event),
{
}

/// The lines are scrolled as far as was asked for, but never further than to the last
/// page of them.
pub proof fn law_scrolling_stops_at_the_last_page(scroll: int)
    ensures
        clamped(scroll) <= scroll,
        clamped(scroll) <= 57,
        scroll <= 57 ==> clamped(scroll) == scroll,
        scroll > 57 ==> clamped(scroll) == 57,
{
}

/// The version of the program stands in the first line and nowhere else.
pub proof fn law_version_stands_in_the_first_line(a: Seq<char>, b: Seq<char>, n: int)
    ensures
        n == 0 ==> about_text(a, n) == "- About Tetro TUI "@ + a + " -"@,
        n > 0 ==> about_text(a, n) == about_text(b, n),
{
}

/// A text that stands at a place takes up the whole width from there on, with half of
/// what it leaves free on its left.
pub proof fn law_text_stands_in_the_middle(
    placed: PlacedText,
    x: int,
    y: int,
    text: Seq<char>,
    i: int,
)
    requires
        stands_at(placed, x, y, text),
        text.len() <= 62,
        0 <= i < text.len(),
    ensures
        placed.0 == x,
        placed.1 == y,
        placed.2@.len() == 62,
        placed.2@[(62 - text.len()) / 2 + i] == text[i],
{
}

} // verus!

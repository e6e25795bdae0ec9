//! The fixed part of the game's screen: titles, statistics and frames.
use crate::settings::Glyphset;
use crate::text::{center, centered, left_aligned, push_left_aligned};
use vstd::prelude::*;
use vstd::string::*;

verus! {

/// The texts of the fixed part of the screen.
#[derive(Clone, Debug)]
pub struct FrameText {
    /// The name of the game mode.
    pub title: String,
    /// How wide the name of the game mode is drawn.
    pub width: usize,
    /// The time in the game.
    pub time: String,
    /// What is counted down.
    pub endcond_title: String,
    /// The value that is counted down.
    pub endcond_value: String,
    /// The lines cleared.
    pub lines: String,
    /// The points scored.
    pub score: String,
    /// How fast pieces fall.
    pub gravity: String,
    /// How long pieces take to lock.
    pub lock_delay: String,
    /// How fast pieces are placed.
    pub pps: String,
    /// Whether a piece is held.
    pub hold: bool,
    /// Whether there are pieces to come.
    pub next: bool,
}

/// The texts of the fixed part of the screen.
pub struct FrameTextView {
    /// The name of the game mode.
    pub title: Seq<char>,
    /// How wide the name of the game mode is drawn.
    pub width: nat,
    /// The time in the game.
    pub time: Seq<char>,
    /// What is counted down.
    pub endcond_title: Seq<char>,
    /// The value that is counted down.
    pub endcond_value: Seq<char>,
    /// The lines cleared.
    pub lines: Seq<char>,
    /// The points scored.
    pub score: Seq<char>,
    /// How fast pieces fall.
    pub gravity: Seq<char>,
    /// How long pieces take to lock.
    pub lock_delay: Seq<char>,
    /// How fast pieces are placed.
    pub pps: Seq<char>,
    /// Whether a piece is held.
    pub hold: bool,
    /// Whether there are pieces to come.
    pub next: bool,
}

impl View for FrameText {
    type V = FrameTextView;

    open spec fn view(&self) -> FrameTextView {
        FrameTextView {
            title: self.title@,
            width: self.width as nat,
            time: self.time@,
            endcond_title: self.endcond_title@,
            endcond_value: self.endcond_value@,
            lines: self.lines@,
            score: self.score@,
            gravity: self.gravity@,
            lock_delay: self.lock_delay@,
            pps: self.pps@,
            hold: self.hold,
            next: self.next,
        }
    }
}

/// The texts in a list.
pub open spec fn lines_view(lines: Seq<String>) -> Seq<Seq<char>> {
    Seq::new(lines.len(), |i: int| lines[i]@)
}

/// Five texts, one after the other.
pub open spec fn joined(
    a: Seq<char>,
    b: Seq<char>,
    c: Seq<char>,
    d: Seq<char>,
    e: Seq<char>,
) -> Seq<char> {
    a + b + c + d + e
}

/// One of two texts.
pub open spec fn either(first: bool, a: Seq<char>, b: Seq<char>) -> Seq<char> {
    if first {
        a
    } else {
        b
    }
}

fn join5(a: &str, b: &str, c: &str, d: &str, e: &str) -> (r: String)
    ensures
        r@ == joined(a@, b@, c@, d@, e@),
{
    let mut r = a.to_owned();
    r.append(b);
    r.append(c);
    r.append(d);
    r.append(e);
    r
}

fn either_text<'a>(first: bool, a: &'a str, b: &'a str) -> (r: &'a str)
    ensures
        r@ == either(first, a@, b@),
{
    if first {
        a
    } else {
        b
    }
}

fn left(s: &str, width: usize) -> (r: String)
    ensures
        r@ == left_aligned(s@, width as nat),
{
    let mut r = String::new();
    push_left_aligned(&mut r, s, width);
    r
}

/// The lines in the characters of [`Glyphset::Electronika60`].
pub open spec fn electronika60_lines(t: FrameTextView) -> Seq<Seq<char>> {
    seq![
        "                                                              "@,
        joined("                                                "@, centered("mode:"@, ' ', t.width), " "@, ""@, ""@),
        joined("                        <! . . . . . . . . . .!>"@, centered(t.title, ' ', t.width), " "@, ""@, ""@),
        joined("  STATS                 <! . . . . . . . . . .!>"@, centered(""@, ' ', t.width), " "@, ""@, ""@),
        "                        <! . . . . . . . . . .!>              "@,
        joined(" Time:  "@, left_aligned(t.time, 16), "<! . . . . . . . . . .!> "@, t.endcond_title, ""@),
        joined(" Lines: "@, left_aligned(t.lines, 16), "<! . . . . . . . . . .!>   "@, t.endcond_value, ""@),
        joined(" Score: "@, left_aligned(t.score, 16), "<! . . . . . . . . . .!>              "@, ""@, ""@),
        "                        <! . . . . . . . . . .!>              "@,
        joined(" Gravity: "@, left_aligned(t.gravity, 14), "<! . . . . . . . . . .!>              "@, ""@, ""@),
        joined(" "@, left_aligned(t.lock_delay, 23), "<! . . . . . . . . . .!>              "@, ""@, ""@),
        joined(" PPS: "@, left_aligned(t.pps, 18), "<! . . . . . . . . . .!>              "@, ""@, ""@),
        "                        <! . . . . . . . . . .!>              "@,
        "                        <! . . . . . . . . . .!>              "@,
        "  KEYBINDS              <! . . . . . . . . . .!>              "@,
        "                        <! . . . . . . . . . .!>              "@,
        "                        <! . . . . . . . . . .!>              "@,
        "                        <! . . . . . . . . . .!>              "@,
        "                        <! . . . . . . . . . .!>              "@,
        "                        <! . . . . . . . . . .!>              "@,
        "                        <! . . . . . . . . . .!>              "@,
        "                        <! . . . . . . . . . .!>              "@,
        "                        <!====================!>              "@,
        "                          \\/\\/\\/\\/\\/\\/\\/\\/\\/\\/                "@,
    ]
}

fn electronika60_screen(t: &FrameText) -> (lines: Vec<String>)
    ensures
        lines_view(lines@) == electronika60_lines(t@),
{
    let lines: Vec<String> = vec![
        "                                                              ".to_owned(),
        join5("                                                ", center("mode:", ' ', t.width).as_str(), " ", "", ""),
        join5("                        <! . . . . . . . . . .!>", center(t.title.as_str(), ' ', t.width).as_str(), " ", "", ""),
        join5("  STATS                 <! . . . . . . . . . .!>", center("", ' ', t.width).as_str(), " ", "", ""),
        "                        <! . . . . . . . . . .!>              ".to_owned(),
        join5(" Time:  ", left(t.time.as_str(), 16).as_str(), "<! . . . . . . . . . .!> ", t.endcond_title.as_str(), ""),
        join5(" Lines: ", left(t.lines.as_str(), 16).as_str(), "<! . . . . . . . . . .!>   ", t.endcond_value.as_str(), ""),
        join5(" Score: ", left(t.score.as_str(), 16).as_str(), "<! . . . . . . . . . .!>              ", "", ""),
        "                        <! . . . . . . . . . .!>              ".to_owned(),
        join5(" Gravity: ", left(t.gravity.as_str(), 14).as_str(), "<! . . . . . . . . . .!>              ", "", ""),
        join5(" ", left(t.lock_delay.as_str(), 23).as_str(), "<! . . . . . . . . . .!>              ", "", ""),
        join5(" PPS: ", left(t.pps.as_str(), 18).as_str(), "<! . . . . . . . . . .!>              ", "", ""),
        "                        <! . . . . . . . . . .!>              ".to_owned(),
        "                        <! . . . . . . . . . .!>              ".to_owned(),
        "  KEYBINDS              <! . . . . . . . . . .!>              ".to_owned(),
        "                        <! . . . . . . . . . .!>              ".to_owned(),
        "                        <! . . . . . . . . . .!>              ".to_owned(),
        "                        <! . . . . . . . . . .!>              ".to_owned(),
        "                        <! . . . . . . . . . .!>              ".to_owned(),
        "                        <! . . . . . . . . . .!>              ".to_owned(),
        "                        <! . . . . . . . . . .!>              ".to_owned(),
        "                        <! . . . . . . . . . .!>              ".to_owned(),
        "                        <!====================!>              ".to_owned(),
        "                          \\/\\/\\/\\/\\/\\/\\/\\/\\/\\/                ".to_owned(),
    ];
    lines
}

/// The lines in the characters of [`Glyphset::ASCII`].
pub open spec fn ascii_lines(t: FrameTextView) -> Seq<Seq<char>> {
    seq![
        "                                                              "@,
        joined("                  "@, either(t.hold, "+-hold-"@, "       "@), "|- - - - - - - - - - +"@, centered("mode"@, '-', t.width), "+"@),
        joined("                  "@, either(t.hold, "| "@, "  "@), "     |                    |"@, centered(t.title, ' ', t.width), "|"@),
        joined("  STATS           "@, either(t.hold, "+------"@, "       "@), "|                    +"@, centered(""@, '-', t.width), "+"@),
        " ----------              |                    |               "@,
        joined(" Time:  "@, left_aligned(t.time, 17), "|                    |  "@, t.endcond_title, ""@),
        joined(" Lines: "@, left_aligned(t.lines, 17), "|                    |    "@, t.endcond_value, ""@),
        joined(" Score: "@, left_aligned(t.score, 17), "|                    |               "@, ""@, ""@),
        joined("                         |                    |"@, either(t.next, "-----next-----+"@, "               "@), ""@, ""@, ""@),
        joined(" Gravity: "@, left_aligned(t.gravity, 15), "|                    |             "@, either(t.next, " |"@, "  "@), ""@),
        joined(" "@, left_aligned(t.lock_delay, 24), "|                    |             "@, either(t.next, " |"@, "  "@), ""@),
        joined(" PPS: "@, left_aligned(t.pps, 19), "|                    |"@, either(t.next, "--------------+"@, "               "@), ""@),
        "                         |                    |               "@,
        "                         |                    |               "@,
        "  KEYBINDS               |                    |               "@,
        " ----------              |                    |               "@,
        "                         |                    |               "@,
        "                         |                    |               "@,
        "                         |                    |               "@,
        "                         |                    |               "@,
        "                         |                    |               "@,
        "                         |                    |               "@,
        "                        ~#====================#~              "@,
    ]
}

fn ascii_screen(t: &FrameText) -> (lines: Vec<String>)
    ensures
        lines_view(lines@) == ascii_lines(t@),
{
    let lines: Vec<String> = vec![
        "                                                              ".to_owned(),
        join5("                  ", either_text(t.hold, "+-hold-", "       "), "|- - - - - - - - - - +", center("mode", '-', t.width).as_str(), "+"),
        join5("                  ", either_text(t.hold, "| ", "  "), "     |                    |", center(t.title.as_str(), ' ', t.width).as_str(), "|"),
        join5("  STATS           ", either_text(t.hold, "+------", "       "), "|                    +", center("", '-', t.width).as_str(), "+"),
        " ----------              |                    |               ".to_owned(),
        join5(" Time:  ", left(t.time.as_str(), 17).as_str(), "|                    |  ", t.endcond_title.as_str(), ""),
        join5(" Lines: ", left(t.lines.as_str(), 17).as_str(), "|                    |    ", t.endcond_value.as_str(), ""),
        join5(" Score: ", left(t.score.as_str(), 17).as_str(), "|                    |               ", "", ""),
        join5("                         |                    |", either_text(t.next, "-----next-----+", "               "), "", "", ""),
        join5(" Gravity: ", left(t.gravity.as_str(), 15).as_str(), "|                    |             ", either_text(t.next, " |", "  "), ""),
        join5(" ", left(t.lock_delay.as_str(), 24).as_str(), "|                    |             ", either_text(t.next, " |", "  "), ""),
        join5(" PPS: ", left(t.pps.as_str(), 19).as_str(), "|                    |", either_text(t.next, "--------------+", "               "), ""),
        "                         |                    |               ".to_owned(),
        "                         |                    |               ".to_owned(),
        "  KEYBINDS               |                    |               ".to_owned(),
        " ----------              |                    |               ".to_owned(),
        "                         |                    |               ".to_owned(),
        "                         |                    |               ".to_owned(),
        "                         |                    |               ".to_owned(),
        "                         |                    |               ".to_owned(),
        "                         |                    |               ".to_owned(),
        "                         |                    |               ".to_owned(),
        "                        ~#====================#~              ".to_owned(),
    ];
    lines
}

/// The lines in the characters of [`Glyphset::Unicode`].
pub open spec fn unicode_lines(t: FrameTextView) -> Seq<Seq<char>> {
    seq![
        "                                                              "@,
        joined("                  "@, either(t.hold, "┌─hold─"@, "       "@), "╓╶╶╶╶╶╶╶╶╶╶╶╶╶╶╶╶╶╶╶╶╥"@, centered("mode"@, '─', t.width), "┐"@),
        joined("                  "@, either(t.hold, "│ "@, "  "@), "     ║                    ║"@, centered(t.title, ' ', t.width), "│"@),
        joined("  STATS           "@, either(t.hold, "└──────"@, "       "@), "║                    ╟"@, centered(""@, '─', t.width), "┘"@),
        " ─────────╴              ║                    ║               "@,
        joined(" Time:  "@, left_aligned(t.time, 17), "║                    ║  "@, t.endcond_title, ""@),
        joined(" Lines: "@, left_aligned(t.lines, 17), "║                    ║    "@, t.endcond_value, ""@),
        joined(" Score: "@, left_aligned(t.score, 17), "║                    ║               "@, ""@, ""@),
        joined("                         ║                    ║"@, either(t.next, "─────next─────┐"@, "               "@), ""@, ""@, ""@),
        joined(" Gravity: "@, left_aligned(t.gravity, 15), "║                    ║             "@, either(t.next, " │"@, "  "@), ""@),
        joined(" "@, left_aligned(t.lock_delay, 24), "║                    ║             "@, either(t.next, " │"@, "  "@), ""@),
        joined(" PPS: "@, left_aligned(t.pps, 19), "║                    ║"@, either(t.next, "──────────────┘"@, "               "@), ""@),
        "                         ║                    ║               "@,
        "                         ║                    ║               "@,
        "  KEYBINDS               ║                    ║               "@,
        " ─────────╴              ║                    ║               "@,
        "                         ║                    ║               "@,
        "                         ║                    ║               "@,
        "                         ║                    ║               "@,
        "                         ║                    ║               "@,
        "                         ║                    ║               "@,
        "                         ║                    ║               "@,
        "                      ░▒▓█▀▀▀▀▀▀▀▀▀▀▀▀▀▀▀▀▀▀▀▀█▓▒░            "@,
    ]
}

fn unicode_screen(t: &FrameText) -> (lines: Vec<String>)
    ensures
        lines_view(lines@) == unicode_lines(t@),
{
    let lines: Vec<String> = vec![
        "                                                              ".to_owned(),
        join5("                  ", either_text(t.hold, "┌─hold─", "       "), "╓╶╶╶╶╶╶╶╶╶╶╶╶╶╶╶╶╶╶╶╶╥", center("mode", '─', t.width).as_str(), "┐"),
        join5("                  ", either_text(t.hold, "│ ", "  "), "     ║                    ║", center(t.title.as_str(), ' ', t.width).as_str(), "│"),
        join5("  STATS           ", either_text(t.hold, "└──────", "       "), "║                    ╟", center("", '─', t.width).as_str(), "┘"),
        " ─────────╴              ║                    ║               ".to_owned(),
        join5(" Time:  ", left(t.time.as_str(), 17).as_str(), "║                    ║  ", t.endcond_title.as_str(), ""),
        join5(" Lines: ", left(t.lines.as_str(), 17).as_str(), "║                    ║    ", t.endcond_value.as_str(), ""),
        join5(" Score: ", left(t.score.as_str(), 17).as_str(), "║                    ║               ", "", ""),
        join5("                         ║                    ║", either_text(t.next, "─────next─────┐", "               "), "", "", ""),
        join5(" Gravity: ", left(t.gravity.as_str(), 15).as_str(), "║                    ║             ", either_text(t.next, " │", "  "), ""),
        join5(" ", left(t.lock_delay.as_str(), 24).as_str(), "║                    ║             ", either_text(t.next, " │", "  "), ""),
        join5(" PPS: ", left(t.pps.as_str(), 19).as_str(), "║                    ║", either_text(t.next, "──────────────┘", "               "), ""),
        "                         ║                    ║               ".to_owned(),
        "                         ║                    ║               ".to_owned(),
        "  KEYBINDS               ║                    ║               ".to_owned(),
        " ─────────╴              ║                    ║               ".to_owned(),
        "                         ║                    ║               ".to_owned(),
        "                         ║                    ║               ".to_owned(),
        "                         ║                    ║               ".to_owned(),
        "                         ║                    ║               ".to_owned(),
        "                         ║                    ║               ".to_owned(),
        "                         ║                    ║               ".to_owned(),
        "                      ░▒▓█▀▀▀▀▀▀▀▀▀▀▀▀▀▀▀▀▀▀▀▀█▓▒░            ".to_owned(),
    ];
    lines
}

/// The lines of the fixed part of the screen.
pub open spec fn base_lines(glyphset: Glyphset, t: FrameTextView) -> Seq<Seq<char>> {
    match glyphset {
        Glyphset::Electronika60 => electronika60_lines(t),
        Glyphset::ASCII => ascii_lines(t),
        Glyphset::Unicode => unicode_lines(t),
    }
}

/// Whether a line begins with a name and then a value.
pub open spec fn begins_with(line: Seq<char>, name: Seq<char>, value: Seq<char>) -> bool {
    &&& name.len() + value.len() <= line.len()
    &&& forall|i: int| 0 <= i < name.len() ==> #[trigger] line[i] == name[i]
    &&& forall|i: int| 0 <= i < value.len() ==> #[trigger] line[name.len() + i] == value[i]
}

/// Whether a line ends with a text.
pub open spec fn ends_with(line: Seq<char>, text: Seq<char>) -> bool {
    &&& text.len() <= line.len()
    &&& forall|i: int|
        0 <= i < text.len() ==> #[trigger] line[line.len() - text.len() + i] == text[i]
}

/// Whether a line has a text somewhere in it.
pub open spec fn holds(line: Seq<char>, text: Seq<char>) -> bool {
    exists|k: int| #[trigger] holds_from(line, text, k)
}

/// Whether a line has a text from some place on.
pub open spec fn holds_from(line: Seq<char>, text: Seq<char>, k: int) -> bool {
    &&& 0 <= k
    &&& k + text.len() <= line.len()
    &&& forall|i: int| 0 <= i < text.len() ==> #[trigger] line[k + i] == text[i]
}

/// Whether lines tell of the time, the lines, the points, the gravity and the pieces
/// per second, each in a row of its own behind its name, and of the mode and what is
/// counted down.
pub open spec fn rows_tell(lines: Seq<Seq<char>>, t: FrameTextView) -> bool {
    &&& lines.len() > 11
    &&& begins_with(lines[5], " Time:  "@, t.time)
    &&& begins_with(lines[6], " Lines: "@, t.lines)
    &&& begins_with(lines[7], " Score: "@, t.score)
    &&& begins_with(lines[9], " Gravity: "@, t.gravity)
    &&& begins_with(lines[10], " "@, t.lock_delay)
    &&& begins_with(lines[11], " PPS: "@, t.pps)
    &&& ends_with(lines[5], t.endcond_title)
    &&& ends_with(lines[6], t.endcond_value)
    &&& holds(lines[2], t.title)
}

proof fn lemma_joined_begins(
    a: Seq<char>,
    b: Seq<char>,
    width: nat,
    c: Seq<char>,
    d: Seq<char>,
    e: Seq<char>,
)
    ensures
        begins_with(joined(a, left_aligned(b, width), c, d, e), a, b),
{
    let line = joined(a, left_aligned(b, width), c, d, e);
    assert forall|i: int| 0 <= i < a.len() implies #[trigger] line[i] == a[i] by {}
    assert forall|i: int| 0 <= i < b.len() implies #[trigger] line[a.len() + i] == b[i] by {}
}

proof fn lemma_joined_ends(a: Seq<char>, b: Seq<char>, c: Seq<char>, d: Seq<char>)
    ensures
        ends_with(joined(a, b, c, d, ""@), d),
{
    reveal_strlit("");
    let line = joined(a, b, c, d, ""@);
    let k = (a + b + c).len();
    assert forall|i: int| 0 <= i < d.len() implies #[trigger] line[line.len() - d.len() + i]
        == d[i] by {
        assert(line.len() - d.len() == k);
    }
}

proof fn lemma_centered_held(
    before: Seq<char>,
    text: Seq<char>,
    fill: char,
    width: nat,
    after: Seq<char>,
)
    ensures
        holds(before + centered(text, fill, width) + after, text),
{
    let line = before + centered(text, fill, width) + after;
    let k = before.len() + crate::text::missing(text.len(), width) / 2;
    assert forall|i: int| 0 <= i < text.len() implies #[trigger] line[k + i] == text[i] by {}
    assert(holds_from(line, text, k as int));
}

proof fn lemma_electronika60_rows(t: FrameTextView)
    ensures
        rows_tell(electronika60_lines(t), t),
{
    let lines = electronika60_lines(t);
    assert(lines[5] == joined(" Time:  "@, left_aligned(t.time, 16), "<! . . . . . . . . . .!> "@, t.endcond_title, ""@));
    lemma_joined_begins(" Time:  "@, t.time, 16, "<! . . . . . . . . . .!> "@, t.endcond_title, ""@);
    assert(lines[6] == joined(" Lines: "@, left_aligned(t.lines, 16), "<! . . . . . . . . . .!>   "@, t.endcond_value, ""@));
    lemma_joined_begins(" Lines: "@, t.lines, 16, "<! . . . . . . . . . .!>   "@, t.endcond_value, ""@);
    assert(lines[7] == joined(" Score: "@, left_aligned(t.score, 16), "<! . . . . . . . . . .!>              "@, ""@, ""@));
    lemma_joined_begins(" Score: "@, t.score, 16, "<! . . . . . . . . . .!>              "@, ""@, ""@);
    assert(lines[9] == joined(" Gravity: "@, left_aligned(t.gravity, 14), "<! . . . . . . . . . .!>              "@, ""@, ""@));
    lemma_joined_begins(" Gravity: "@, t.gravity, 14, "<! . . . . . . . . . .!>              "@, ""@, ""@);
    assert(lines[11] == joined(" PPS: "@, left_aligned(t.pps, 18), "<! . . . . . . . . . .!>              "@, ""@, ""@));
    lemma_joined_begins(" PPS: "@, t.pps, 18, "<! . . . . . . . . . .!>              "@, ""@, ""@);
    assert(lines[10] == joined(" "@, left_aligned(t.lock_delay, 23), "<! . . . . . . . . . .!>              "@, ""@, ""@));
    lemma_joined_begins(" "@, t.lock_delay, 23, "<! . . . . . . . . . .!>              "@, ""@, ""@);
    lemma_joined_ends(" Time:  "@, left_aligned(t.time, 16), "<! . . . . . . . . . .!> "@, t.endcond_title);
    lemma_joined_ends(" Lines: "@, left_aligned(t.lines, 16), "<! . . . . . . . . . .!>   "@, t.endcond_value);
    assert(lines[2] == joined("                        <! . . . . . . . . . .!>"@, centered(t.title, ' ', t.width), " "@, ""@, ""@));
    lemma_centered_held("                        <! . . . . . . . . . .!>"@, t.title, ' ', t.width, " "@ + ""@ + ""@);
    assert(lines[2] =~= "                        <! . . . . . . . . . .!>"@ + centered(t.title, ' ', t.width) + (" "@ + ""@ + ""@));
}

proof fn lemma_ascii_rows(t: FrameTextView)
    ensures
        rows_tell(ascii_lines(t), t),
{
    let lines = ascii_lines(t);
    assert(lines[5] == joined(" Time:  "@, left_aligned(t.time, 17), "|                    |  "@, t.endcond_title, ""@));
    lemma_joined_begins(" Time:  "@, t.time, 17, "|                    |  "@, t.endcond_title, ""@);
    assert(lines[6] == joined(" Lines: "@, left_aligned(t.lines, 17), "|                    |    "@, t.endcond_value, ""@));
    lemma_joined_begins(" Lines: "@, t.lines, 17, "|                    |    "@, t.endcond_value, ""@);
    assert(lines[7] == joined(" Score: "@, left_aligned(t.score, 17), "|                    |               "@, ""@, ""@));
    lemma_joined_begins(" Score: "@, t.score, 17, "|                    |               "@, ""@, ""@);
    assert(lines[9] == joined(" Gravity: "@, left_aligned(t.gravity, 15), "|                    |             "@, either(t.next, " |"@, "  "@), ""@));
    lemma_joined_begins(" Gravity: "@, t.gravity, 15, "|                    |             "@, either(t.next, " |"@, "  "@), ""@);
    assert(lines[11] == joined(" PPS: "@, left_aligned(t.pps, 19), "|                    |"@, either(t.next, "--------------+"@, "               "@), ""@));
    lemma_joined_begins(" PPS: "@, t.pps, 19, "|                    |"@, either(t.next, "--------------+"@, "               "@), ""@);
    assert(lines[10] == joined(" "@, left_aligned(t.lock_delay, 24), "|                    |             "@, either(t.next, " |"@, "  "@), ""@));
    lemma_joined_begins(" "@, t.lock_delay, 24, "|                    |             "@, either(t.next, " |"@, "  "@), ""@);
    lemma_joined_ends(" Time:  "@, left_aligned(t.time, 17), "|                    |  "@, t.endcond_title);
    lemma_joined_ends(" Lines: "@, left_aligned(t.lines, 17), "|                    |    "@, t.endcond_value);
    assert(lines[2] == joined("                  "@, either(t.hold, "| "@, "  "@), "     |                    |"@, centered(t.title, ' ', t.width), "|"@));
    lemma_centered_held("                  "@ + either(t.hold, "| "@, "  "@) + "     |                    |"@, t.title, ' ', t.width, "|"@);
}

proof fn lemma_unicode_rows(t: FrameTextView)
    ensures
        rows_tell(unicode_lines(t), t),
{
    let lines = unicode_lines(t);
    assert(lines[5] == joined(" Time:  "@, left_aligned(t.time, 17), "║                    ║  "@, t.endcond_title, ""@));
    lemma_joined_begins(" Time:  "@, t.time, 17, "║                    ║  "@, t.endcond_title, ""@);
    assert(lines[6] == joined(" Lines: "@, left_aligned(t.lines, 17), "║                    ║    "@, t.endcond_value, ""@));
    lemma_joined_begins(" Lines: "@, t.lines, 17, "║                    ║    "@, t.endcond_value, ""@);
    assert(lines[7] == joined(" Score: "@, left_aligned(t.score, 17), "║                    ║               "@, ""@, ""@));
    lemma_joined_begins(" Score: "@, t.score, 17, "║                    ║               "@, ""@, ""@);
    assert(lines[9] == joined(" Gravity: "@, left_aligned(t.gravity, 15), "║                    ║             "@, either(t.next, " │"@, "  "@), ""@));
    lemma_joined_begins(" Gravity: "@, t.gravity, 15, "║                    ║             "@, either(t.next, " │"@, "  "@), ""@);
    assert(lines[11] == joined(" PPS: "@, left_aligned(t.pps, 19), "║                    ║"@, either(t.next, "──────────────┘"@, "               "@), ""@));
    lemma_joined_begins(" PPS: "@, t.pps, 19, "║                    ║"@, either(t.next, "──────────────┘"@, "               "@), ""@);
    assert(lines[10] == joined(" "@, left_aligned(t.lock_delay, 24), "║                    ║             "@, either(t.next, " │"@, "  "@), ""@));
    lemma_joined_begins(" "@, t.lock_delay, 24, "║                    ║             "@, either(t.next, " │"@, "  "@), ""@);
    lemma_joined_ends(" Time:  "@, left_aligned(t.time, 17), "║                    ║  "@, t.endcond_title);
    lemma_joined_ends(" Lines: "@, left_aligned(t.lines, 17), "║                    ║    "@, t.endcond_value);
    assert(lines[2] == joined("                  "@, either(t.hold, "│ "@, "  "@), "     ║                    ║"@, centered(t.title, ' ', t.width), "│"@));
    lemma_centered_held("                  "@ + either(t.hold, "│ "@, "  "@) + "     ║                    ║"@, t.title, ' ', t.width, "│"@);
}

/// Whatever the characters, the fixed part of the screen has the time behind
/// "Time:", the lines behind "Lines:", the points behind "Score:", the gravity
/// behind "Gravity:" and the pieces per second behind "PPS:"; it has the mode, and
/// what is counted down at the end of its rows.
pub proof fn law_values_stand_behind_their_names(glyphset: Glyphset, t: FrameTextView)
    ensures
        rows_tell(base_lines(glyphset, t), t),
{
    match glyphset {
        Glyphset::Electronika60 => lemma_electronika60_rows(t),
        Glyphset::ASCII => lemma_ascii_rows(t),
        Glyphset::Unicode => lemma_unicode_rows(t),
    }
}

/// Builds the lines of the fixed part of the screen.
pub fn base_screen(glyphset: Glyphset, t: &FrameText) -> (lines: Vec<String>)
    ensures
        lines_view(lines@) == base_lines(glyphset, t@),
{
    match glyphset {
        Glyphset::Electronika60 => electronika60_screen(t),
        Glyphset::ASCII => ascii_screen(t),
        Glyphset::Unicode => unicode_screen(t),
    }
}

/// A box around the held piece, and one around the next, is drawn while there is such a
/// piece and not otherwise, in the characters that have boxes.
pub proof fn law_boxes_are_drawn_around_what_is_there(glyphset: Glyphset, t: FrameTextView)
    requires
        glyphset != Glyphset::Electronika60,
    ensures
        base_lines(glyphset, t)[1].len() > 24,
        base_lines(glyphset, t)[1].subrange(20, 24) == if t.hold {
            "hold"@
        } else {
            "    "@
        },
        base_lines(glyphset, t)[8].len() > 56,
        base_lines(glyphset, t)[8].subrange(52, 56) == if t.next {
            "next"@
        } else {
            "    "@
        },
{
    reveal_strlit("hold");
    reveal_strlit("next");
    reveal_strlit("    ");
    reveal_strlit("                  ");
    reveal_strlit("       ");
    reveal_strlit("               ");
    reveal_strlit("+-hold-");
    reveal_strlit("┌─hold─");
    reveal_strlit("-----next-----+");
    reveal_strlit("─────next─────┐");
    reveal_strlit("                         |                    |");
    reveal_strlit("                         ║                    ║");
    reveal_strlit("|- - - - - - - - - - +");
    reveal_strlit("╓╶╶╶╶╶╶╶╶╶╶╶╶╶╶╶╶╶╶╶╶╥");
    let lines = base_lines(glyphset, t);
    assert(lines[1].subrange(20, 24) =~= if t.hold {
        "hold"@
    } else {
        "    "@
    });
    assert(lines[8].subrange(52, 56) =~= if t.next {
        "next"@
    } else {
        "    "@
    });
}

} // verus!

//! A screen of characters that is redrawn by printing only what changed.
use crate::color::Color;
use crate::text::chars_of;
use vstd::prelude::*;

verus! {

/// A character on the screen, with its color if it has one of its own.
pub type Cell = (char, Option<Color>);

/// Something for the terminal to do.
#[derive(PartialEq, Eq, Structural, Clone, Copy, Debug)]
pub enum DrawCommand {
    /// Hold back what is drawn until [`DrawCommand::EndUpdate`].
    BeginUpdate,
    /// Show what was drawn since [`DrawCommand::BeginUpdate`].
    EndUpdate,
    /// Erase the whole terminal.
    ClearAll,
    /// Print a character in the terminal's current style.
    Put {
        /// The character.
        c: char,
        /// Its column.
        x: u16,
        /// Its row.
        y: u16,
    },
    /// Print a character in a color.
    PutColored {
        /// The character.
        c: char,
        /// Its color.
        color: Color,
        /// Its column.
        x: u16,
        /// Its row.
        y: u16,
    },
    /// Print a character and take away the color that its place had.
    PutReset {
        /// The character.
        c: char,
        /// Its column.
        x: u16,
        /// Its row.
        y: u16,
    },
    /// Move the cursor to the upper left corner.
    Home,
}

/// A place where nothing was drawn.
pub open spec fn blank() -> Cell {
    (' ', None)
}

/// The rows of a buffer.
pub open spec fn grid(rows: Seq<Vec<Cell>>) -> Seq<Seq<Cell>> {
    Seq::new(rows.len(), |y: int| rows[y]@)
}

/// A row, or an empty one where there is none.
pub open spec fn row_at(g: Seq<Seq<Cell>>, y: int) -> Seq<Cell> {
    if 0 <= y < g.len() {
        g[y]
    } else {
        Seq::empty()
    }
}

/// The cell in a column, if there is one.
pub open spec fn cell_at(row: Seq<Cell>, x: int) -> Option<Cell> {
    if 0 <= x < row.len() {
        Some(row[x])
    } else {
        None
    }
}

/// What a grid shows in a place.
pub open spec fn shown(g: Seq<Seq<Cell>>, x: int, y: int) -> Cell {
    match cell_at(row_at(g, y), x) {
        Some(cell) => cell,
        None => blank(),
    }
}

/// The larger of two numbers.
pub open spec fn larger(a: nat, b: nat) -> nat {
    if a < b {
        b
    } else {
        a
    }
}

/// Text as uncolored cells.
pub open spec fn plain_row(s: Seq<char>) -> Seq<Cell> {
    Seq::new(s.len(), |x: int| (s[x], None))
}

/// A row with text written over it from column `x` on, after filling it up to
/// there with blanks.
pub open spec fn painted_row(
    row: Seq<Cell>,
    s: Seq<char>,
    color: Option<Color>,
    x: int,
) -> Seq<Cell> {
    Seq::new(
        larger(row.len(), (x + s.len()) as nat),
        |i: int|
            if x <= i < x + s.len() {
                (s[i - x], color)
            } else if i < row.len() {
                row[i]
            } else {
                blank()
            },
    )
}

/// A grid with text written over row `y` from column `x` on, after adding as
/// many rows as that takes. Empty text leaves the grid as it is, and so does
/// text beyond the rows and columns that can be numbered.
pub open spec fn painted(
    g: Seq<Seq<Cell>>,
    s: Seq<char>,
    color: Option<Color>,
    x: int,
    y: int,
) -> Seq<Seq<Cell>> {
    if s.len() == 0 || x + s.len() > usize::MAX || y >= usize::MAX {
        g
    } else {
        Seq::new(
            larger(g.len(), (y + 1) as nat),
            |j: int|
                if j == y {
                    painted_row(row_at(g, j), s, color, x)
                } else {
                    row_at(g, j)
                },
        )
    }
}

/// Whether every cell, drawn at an offset, has coordinates a terminal knows.
pub open spec fn fits(g: Seq<Seq<Cell>>, x_draw: int, y_draw: int) -> bool {
    forall|y: int|
        0 <= y < g.len() && (#[trigger] g[y]).len() > 0 ==> x_draw + g[y].len() <= 65_536 && y_draw
            + y <= 65_535
}

/// What turns one cell into another in place `(x, y)`: nothing where they are
/// the same, and an explicit reset where a color goes away.
pub open spec fn cell_command(prev: Option<Cell>, next: Option<Cell>, x: u16, y: u16) -> Option<
    DrawCommand,
> {
    match (prev, next) {
        (None, None) => None,
        (None, Some(n)) => if n.1 is Some {
            Some(DrawCommand::PutColored { c: n.0, color: n.1->0, x, y })
        } else {
            Some(DrawCommand::Put { c: n.0, x, y })
        },
        (Some(p), None) => if p.1 is Some {
            Some(DrawCommand::PutReset { c: ' ', x, y })
        } else {
            Some(DrawCommand::Put { c: ' ', x, y })
        },
        (Some(p), Some(n)) => if p == n {
            None
        } else if n.1 is Some {
            Some(DrawCommand::PutColored { c: n.0, color: n.1->0, x, y })
        } else if p.1 is Some {
            Some(DrawCommand::PutReset { c: n.0, x, y })
        } else {
            Some(DrawCommand::Put { c: n.0, x, y })
        },
    }
}

/// The command in a list of its own, or an empty list.
pub open spec fn listed(cmd: Option<DrawCommand>) -> Seq<DrawCommand> {
    match cmd {
        Some(c) => seq![c],
        None => Seq::empty(),
    }
}

/// What it takes to turn the first `k` columns of a row into those of another,
/// from left to right.
pub open spec fn row_updates(
    prev: Seq<Cell>,
    next: Seq<Cell>,
    x_draw: int,
    y: int,
    k: nat,
) -> Seq<DrawCommand>
    decreases k,
{
    if k == 0 {
        Seq::empty()
    } else {
        row_updates(prev, next, x_draw, y, (k - 1) as nat) + listed(
            cell_command(
                cell_at(prev, k - 1),
                cell_at(next, k - 1),
                (x_draw + k - 1) as u16,
                y as u16,
            ),
        )
    }
}

/// What it takes to turn the first `k` rows of a grid into those of another,
/// from top to bottom.
pub open spec fn grid_updates(
    prev: Seq<Seq<Cell>>,
    next: Seq<Seq<Cell>>,
    x_draw: int,
    y_draw: int,
    k: nat,
) -> Seq<DrawCommand>
    decreases k,
{
    if k == 0 {
        Seq::empty()
    } else {
        grid_updates(prev, next, x_draw, y_draw, (k - 1) as nat) + row_updates(
            row_at(prev, k - 1),
            row_at(next, k - 1),
            x_draw,
            y_draw + k - 1,
            larger(row_at(prev, k - 1).len(), row_at(next, k - 1).len()),
        )
    }
}

/// Everything that is sent to the terminal to replace one frame by the next. A
/// frame without rows stands for a terminal of which nothing is known.
pub open spec fn frame_commands(
    prev: Seq<Seq<Cell>>,
    next: Seq<Seq<Cell>>,
    x_draw: int,
    y_draw: int,
) -> Seq<DrawCommand> {
    let opening = if prev.len() == 0 {
        seq![DrawCommand::BeginUpdate, DrawCommand::ClearAll]
    } else {
        seq![DrawCommand::BeginUpdate]
    };
    opening + grid_updates(prev, next, x_draw, y_draw, larger(prev.len(), next.len()))
        + seq![DrawCommand::Home, DrawCommand::EndUpdate]
}

/// A buffer for the frame that the terminal shows and the one to show next.
#[derive(PartialEq, Eq, PartialOrd, Ord, Hash, Clone, Debug, Default)]
pub struct TerminalScreenBuffer {
    /// The frame that the terminal shows; without rows if that is not known.
    pub prev: Vec<Vec<Cell>>,
    /// The frame to show next.
    pub next: Vec<Vec<Cell>>,
    /// The terminal's column of the leftmost character.
    pub x_draw: usize,
    /// The terminal's row of the topmost character.
    pub y_draw: usize,
}

impl TerminalScreenBuffer {
    /// The frame that the terminal shows.
    pub open spec fn prev_grid(self) -> Seq<Seq<Cell>> {
        grid(self.prev@)
    }

    /// The frame to show next.
    pub open spec fn next_grid(self) -> Seq<Seq<Cell>> {
        grid(self.next@)
    }

    /// Whether both frames lie within the coordinates that a terminal knows.
    pub open spec fn in_range(self) -> bool {
        &&& fits(self.prev_grid(), self.x_draw as int, self.y_draw as int)
        &&& fits(self.next_grid(), self.x_draw as int, self.y_draw as int)
    }

    /// An empty buffer.
    pub fn new() -> (r: TerminalScreenBuffer)
        ensures
            r.prev@.len() == 0,
            r.next@.len() == 0,
            r.x_draw == 0,
            r.y_draw == 0,
    {
        TerminalScreenBuffer { prev: Vec::new(), next: Vec::new(), x_draw: 0, y_draw: 0 }
    }

    /// Forgets what the terminal shows and draws from a new corner on.
    pub fn buffer_reset(&mut self, pos: (usize, usize))
        ensures
            final(self).prev@.len() == 0,
            final(self).next == old(self).next,
            final(self).x_draw == pos.0,
            final(self).y_draw == pos.1,
    {
        self.prev.clear();
        self.x_draw = pos.0;
        self.y_draw = pos.1;
    }

    /// Starts the next frame with lines of uncolored text.
    pub fn buffer_from(&mut self, base_screen: &Vec<String>)
        ensures
            final(self).next_grid() == Seq::new(
                base_screen@.len(),
                |y: int| plain_row(base_screen@[y]@),
            ),
            final(self).prev == old(self).prev,
            final(self).x_draw == old(self).x_draw,
            final(self).y_draw == old(self).y_draw,
    {
        let mut next: Vec<Vec<Cell>> = Vec::new();
        for y in 0..base_screen.len()
            invariant
                next@.len() == y,
                forall|j: int| 0 <= j < y ==> (#[trigger] next@[j])@ == plain_row(base_screen@[j]@),
        {
            let chars = chars_of(base_screen[y].as_str());
            let mut row: Vec<Cell> = Vec::new();
            for x in 0..chars.len()
                invariant
                    row@ == plain_row(chars@).take(x as int),
            {
                row.push((chars[x], None));
            }
            next.push(row);
        }
        self.next = next;
    }

    /// Writes text over the next frame.
    pub fn buffer_str(&mut self, s: &str, fg_color: Option<Color>, pos: (usize, usize))
        ensures
            final(self).next_grid() == painted(
                old(self).next_grid(),
                s@,
                fg_color,
                pos.0 as int,
                pos.1 as int,
            ),
            final(self).prev == old(self).prev,
            final(self).x_draw == old(self).x_draw,
            final(self).y_draw == old(self).y_draw,
    {
        let (x, y) = pos;
        let chars = chars_of(s);
        if chars.len() == 0 || chars.len() > usize::MAX - x || y == usize::MAX {
            return;
        }
        let ghost g = self.next_grid();
        while self.next.len() <= y
            invariant
                y < usize::MAX,
                self.next@.len() >= g.len(),
                self.next@.len() <= larger(g.len(), (y + 1) as nat),
                forall|j: int| 0 <= j < self.next@.len() ==> (#[trigger] self.next@[j])@ == row_at(g, j),
                self.prev == old(self).prev,
                self.x_draw == old(self).x_draw,
                self.y_draw == old(self).y_draw,
            decreases y + 1 - self.next@.len(),
        {
            self.next.push(Vec::new());
        }
        let row: &mut Vec<Cell> = &mut self.next[y];
        let ghost before = row@;
        while row.len() < x + chars.len()
            invariant
                x + chars@.len() <= usize::MAX,
                row@.len() >= before.len(),
                row@.len() <= larger(before.len(), (x + chars@.len()) as nat),
                forall|i: int|
                    0 <= i < row@.len() ==> #[trigger] row@[i] == if i < before.len() {
                        before[i]
                    } else {
                        blank()
                    },
            decreases x + chars@.len() - row@.len(),
        {
            row.push((' ', None));
        }
        let ghost wide = row@;
        for k in 0..chars.len()
            invariant
                x + chars@.len() <= usize::MAX,
                row@.len() == wide.len(),
                row@.len() >= x + chars@.len(),
                forall|i: int|
                    0 <= i < row@.len() ==> #[trigger] row@[i] == if x <= i < x + k {
                        (chars@[i - x], fg_color)
                    } else {
                        wide[i]
                    },
        {
            row[x + k] = (chars[k], fg_color);
        }
        assert(row@ =~= painted_row(before, s@, fg_color, x as int));
    }

    /// Whether both frames lie within the coordinates that a terminal knows.
    pub fn is_in_range(&self) -> (b: bool)
        ensures
            b == self.in_range(),
    {
        Self::rows_fit(&self.prev, self.x_draw, self.y_draw) && Self::rows_fit(
            &self.next,
            self.x_draw,
            self.y_draw,
        )
    }

    fn rows_fit(rows: &Vec<Vec<Cell>>, x_draw: usize, y_draw: usize) -> (b: bool)
        ensures
            b == fits(grid(rows@), x_draw as int, y_draw as int),
    {
        for y in 0..rows.len()
            invariant
                forall|j: int|
                    0 <= j < y && (#[trigger] grid(rows@)[j]).len() > 0 ==> x_draw + grid(
                        rows@,
                    )[j].len() <= 65_536 && y_draw + j <= 65_535,
        {
            let len: usize = rows[y].len();
            if len > 0 && (x_draw > 65_536 || len > 65_536 - x_draw || y_draw > 65_535 || y > 65_535
                - y_draw) {
                assert(grid(rows@)[y as int].len() == len);
                return false;
            }
        }
        true
    }

    /// What turns the frame that the terminal shows into the next one. As long
    /// as the terminal has not done all of it, the frames stay as they are.
    pub fn flush_commands(&self) -> (cmds: Vec<DrawCommand>)
        requires
            self.in_range(),
        ensures
            cmds@ == frame_commands(
                self.prev_grid(),
                self.next_grid(),
                self.x_draw as int,
                self.y_draw as int,
            ),
    {
        let mut cmds: Vec<DrawCommand> = Vec::new();
        let ghost p = self.prev_grid();
        let ghost n = self.next_grid();
        cmds.push(DrawCommand::BeginUpdate);
        if self.prev.is_empty() {
            cmds.push(DrawCommand::ClearAll);
        }
        let ghost opening = cmds@;
        let height: usize = if self.prev.len() < self.next.len() {
            self.next.len()
        } else {
            self.prev.len()
        };
        for y in 0..height
            invariant
                self.in_range(),
                p == self.prev_grid(),
                n == self.next_grid(),
                height == larger(p.len(), n.len()),
                cmds@ == opening + grid_updates(
                    p,
                    n,
                    self.x_draw as int,
                    self.y_draw as int,
                    y as nat,
                ),
        {
            self.push_row_updates(&mut cmds, y);
        }
        cmds.push(DrawCommand::Home);
        cmds.push(DrawCommand::EndUpdate);
        cmds
    }

    /// Makes the next frame the one that the terminal shows, once it does.
    pub fn flushed(&mut self)
        ensures
            final(self).prev == old(self).next,
            final(self).next@.len() == 0,
            final(self).x_draw == old(self).x_draw,
            final(self).y_draw == old(self).y_draw,
    {
        self.prev.clear();
        std::mem::swap(&mut self.prev, &mut self.next);
    }

    /// Appends what turns one row into its next state.
    fn push_row_updates(&self, cmds: &mut Vec<DrawCommand>, y: usize)
        requires
            self.in_range(),
            y < larger(self.prev@.len(), self.next@.len()),
        ensures
            final(cmds)@ == old(cmds)@ + row_updates(
                row_at(self.prev_grid(), y as int),
                row_at(self.next_grid(), y as int),
                self.x_draw as int,
                self.y_draw + y,
                larger(
                    row_at(self.prev_grid(), y as int).len(),
                    row_at(self.next_grid(), y as int).len(),
                ),
            ),
    {
        let ghost before = cmds@;
        let ghost p = row_at(self.prev_grid(), y as int);
        let ghost n = row_at(self.next_grid(), y as int);
        let w_prev: usize = if y < self.prev.len() {
            self.prev[y].len()
        } else {
            0
        };
        let w_next: usize = if y < self.next.len() {
            self.next[y].len()
        } else {
            0
        };
        let width: usize = if w_prev < w_next {
            w_next
        } else {
            w_prev
        };
        for x in 0..width
            invariant
                y < larger(self.prev@.len(), self.next@.len()),
                p == row_at(self.prev_grid(), y as int),
                n == row_at(self.next_grid(), y as int),
                w_prev == p.len(),
                w_next == n.len(),
                width == larger(p.len(), n.len()),
                width > 0 ==> self.x_draw + width <= 65_536 && self.y_draw + y <= 65_535,
                cmds@ == before + row_updates(p, n, self.x_draw as int, self.y_draw + y, x as nat),
        {
            let prev: Option<Cell> = if x < w_prev {
                Some(self.prev[y][x])
            } else {
                None
            };
            let next: Option<Cell> = if x < w_next {
                Some(self.next[y][x])
            } else {
                None
            };
            if let Some(cmd) = turn_cell(
                prev,
                next,
                (self.x_draw + x) as u16,
                (self.y_draw + y) as u16,
            ) {
                cmds.push(cmd);
            }
        }
    }
}

/// What turns one cell into another.
fn turn_cell(prev: Option<Cell>, next: Option<Cell>, x: u16, y: u16) -> (cmd: Option<DrawCommand>)
    ensures
        cmd == cell_command(prev, next, x, y),
{
    match (prev, next) {
        (None, None) => None,
        (None, Some((c, Some(color)))) => Some(DrawCommand::PutColored { c, color, x, y }),
        (None, Some((c, None))) => Some(DrawCommand::Put { c, x, y }),
        (Some((_, Some(_))), None) => Some(DrawCommand::PutReset { c: ' ', x, y }),
        (Some((_, None)), None) => Some(DrawCommand::Put { c: ' ', x, y }),
        (Some((c_prev, col_prev)), Some((c_next, col_next))) => {
            let unchanged = c_prev == c_next && match (col_prev, col_next) {
                (None, None) => true,
                (Some(a), Some(b)) => a == b,
                _ => false,
            };
            if unchanged {
                None
            } else if let Some(color) = col_next {
                Some(DrawCommand::PutColored { c: c_next, color, x, y })
            } else if col_prev.is_some() {
                Some(DrawCommand::PutReset { c: c_next, x, y })
            } else {
                Some(DrawCommand::Put { c: c_next, x, y })
            }
        },
    }
}

/// What a terminal shows in each place.
pub type Display = spec_fn(int, int) -> Cell;

/// What a terminal shows after it has done one thing.
pub open spec fn done(d: Display, cmd: DrawCommand) -> Display {
    match cmd {
        DrawCommand::ClearAll => |x: int, y: int| blank(),
        DrawCommand::Put { c, x: px, y: py } => |x: int, y: int|
            if x == px && y == py {
                (c, None)
            } else {
                d(x, y)
            },
        DrawCommand::PutReset { c, x: px, y: py } => |x: int, y: int|
            if x == px && y == py {
                (c, None)
            } else {
                d(x, y)
            },
        DrawCommand::PutColored { c, color, x: px, y: py } => |x: int, y: int|
            if x == px && y == py {
                (c, Some(color))
            } else {
                d(x, y)
            },
        _ => d,
    }
}

/// What a terminal shows after it has done several things in turn.
pub open spec fn all_done(d: Display, cmds: Seq<DrawCommand>) -> Display
    decreases cmds.len(),
{
    if cmds.len() == 0 {
        d
    } else {
        done(all_done(d, cmds.drop_last()), cmds.last())
    }
}

/// Doing two lists of things in turn is doing the one, then the other.
proof fn lemma_all_done_concat(d: Display, a: Seq<DrawCommand>, b: Seq<DrawCommand>)
    ensures
        all_done(d, a + b) == all_done(all_done(d, a), b),
    decreases b.len(),
{
    if b.len() == 0 {
    } else {
        lemma_all_done_concat(d, a, b.drop_last());
        assert((a + b).drop_last() =~= a + b.drop_last());
    }
}

/// Turning cells of one row changes these places to what the next row shows
/// there, and nothing else.
proof fn lemma_row_done(
    d: Display,
    prev: Seq<Cell>,
    next: Seq<Cell>,
    x_draw: int,
    y: int,
    k: nat,
)
    requires
        0 <= x_draw,
        k <= larger(prev.len(), next.len()),
        k > 0 ==> x_draw + k <= 65_536 && 0 <= y <= 65_535,
        forall|x: int| 0 <= x < k ==> #[trigger] d(x_draw + x, y) == shown(seq![prev], x, 0),
    ensures
        forall|x: int|
            0 <= x < k ==> #[trigger] all_done(d, row_updates(prev, next, x_draw, y, k))(
                x_draw + x,
                y,
            ) == shown(seq![next], x, 0),
        forall|x: int, v: int|
            !(x_draw <= x < x_draw + k && v == y) ==> #[trigger] all_done(
                d,
                row_updates(prev, next, x_draw, y, k),
            )(x, v) == d(x, v),
    decreases k,
{
    if k > 0 {
        let j = (k - 1) as nat;
        let r = row_updates(prev, next, x_draw, y, j);
        lemma_row_done(d, prev, next, x_draw, y, j);
        let cmd = cell_command(
            cell_at(prev, j as int),
            cell_at(next, j as int),
            (x_draw + j) as u16,
            y as u16,
        );
        lemma_all_done_concat(d, r, listed(cmd));
        if let Some(c) = cmd {
            reveal_with_fuel(all_done, 2);
        }
    }
}

/// Turning rows of a grid changes these rows to what the next grid shows there,
/// and nothing else.
proof fn lemma_grid_done(
    d: Display,
    prev: Seq<Seq<Cell>>,
    next: Seq<Seq<Cell>>,
    x_draw: int,
    y_draw: int,
    k: nat,
)
    requires
        0 <= x_draw,
        0 <= y_draw,
        fits(prev, x_draw, y_draw),
        fits(next, x_draw, y_draw),
        k <= larger(prev.len(), next.len()),
        forall|x: int, y: int|
            0 <= x && 0 <= y ==> #[trigger] d(x_draw + x, y_draw + y) == shown(prev, x, y),
    ensures
        ({
            let e = all_done(d, grid_updates(prev, next, x_draw, y_draw, k));
            &&& forall|x: int, y: int|
                0 <= x && 0 <= y ==> #[trigger] e(x_draw + x, y_draw + y) == if y < k {
                    shown(next, x, y)
                } else {
                    shown(prev, x, y)
                }
            &&& forall|x: int, y: int|
                !(x_draw <= x && y_draw <= y) ==> #[trigger] e(x, y) == d(x, y)
        }),
    decreases k,
{
    if k > 0 {
        let j = k - 1;
        let g = grid_updates(prev, next, x_draw, y_draw, j as nat);
        lemma_grid_done(d, prev, next, x_draw, y_draw, j as nat);
        let e = all_done(d, g);
        let p = row_at(prev, j);
        let n = row_at(next, j);
        let w = larger(p.len(), n.len());
        let r = row_updates(p, n, x_draw, y_draw + j, w);
        lemma_row_done(e, p, n, x_draw, y_draw + j, w);
        lemma_all_done_concat(d, g, r);
    }
}

/// A terminal that shows one frame shows the next one after it has done what
/// replaces the one by the other; a frame of which nothing is known is first
/// erased. Nothing above or to the left of the frame changes otherwise.
pub proof fn law_frame_commands_show_next(
    d: Display,
    prev: Seq<Seq<Cell>>,
    next: Seq<Seq<Cell>>,
    x_draw: int,
    y_draw: int,
)
    requires
        0 <= x_draw,
        0 <= y_draw,
        fits(prev, x_draw, y_draw),
        fits(next, x_draw, y_draw),
        prev.len() > 0 ==> forall|x: int, y: int|
            0 <= x && 0 <= y ==> #[trigger] d(x_draw + x, y_draw + y) == shown(prev, x, y),
    ensures
        ({
            let e = all_done(d, frame_commands(prev, next, x_draw, y_draw));
            &&& forall|x: int, y: int|
                0 <= x && 0 <= y ==> #[trigger] e(x_draw + x, y_draw + y) == shown(next, x, y)
            &&& forall|x: int, y: int|
                !(x_draw <= x && y_draw <= y) ==> #[trigger] e(x, y) == if prev.len() == 0 {
                    blank()
                } else {
                    d(x, y)
                }
        }),
{
    let opening = if prev.len() == 0 {
        seq![DrawCommand::BeginUpdate, DrawCommand::ClearAll]
    } else {
        seq![DrawCommand::BeginUpdate]
    };
    let k = larger(prev.len(), next.len());
    let updates = grid_updates(prev, next, x_draw, y_draw, k);
    let closing = seq![DrawCommand::Home, DrawCommand::EndUpdate];
    lemma_all_done_concat(d, opening + updates, closing);
    lemma_all_done_concat(d, opening, updates);
    let o = all_done(d, opening);
    reveal_with_fuel(all_done, 3);
    lemma_grid_done(o, prev, next, x_draw, y_draw, k);
}

/// Whether a command prints a character somewhere.
pub open spec fn prints(cmd: DrawCommand) -> bool {
    cmd is Put || cmd is PutColored || cmd is PutReset
}

/// Whether a command prints a character in a place.
pub open spec fn prints_at(cmd: DrawCommand, col: int, row: int) -> bool {
    match cmd {
        DrawCommand::Put { x, y, .. } => x == col && y == row,
        DrawCommand::PutColored { x, y, .. } => x == col && y == row,
        DrawCommand::PutReset { x, y, .. } => x == col && y == row,
        _ => false,
    }
}

proof fn lemma_row_prints(
    prev: Seq<Cell>,
    next: Seq<Cell>,
    x_draw: int,
    y: int,
    k: nat,
    col: int,
    row: int,
)
    requires
        0 <= x_draw,
        k > 0 ==> x_draw + k <= 65_536 && 0 <= y <= 65_535,
        row == y ==> cell_at(prev, col - x_draw) == cell_at(next, col - x_draw),
    ensures
        forall|i: int|
            0 <= i < row_updates(prev, next, x_draw, y, k).len() ==> prints(
                #[trigger] row_updates(prev, next, x_draw, y, k)[i],
            ) && !prints_at(row_updates(prev, next, x_draw, y, k)[i], col, row),
    decreases k,
{
    if k > 0 {
        lemma_row_prints(prev, next, x_draw, y, (k - 1) as nat, col, row);
        let rest = row_updates(prev, next, x_draw, y, (k - 1) as nat);
        let all = row_updates(prev, next, x_draw, y, k);
        assert forall|i: int| 0 <= i < all.len() implies prints(#[trigger] all[i]) && !prints_at(
            all[i],
            col,
            row,
        ) by {
            if i < rest.len() {
                assert(all[i] == rest[i]);
            }
        }
    }
}

proof fn lemma_grid_prints(
    prev: Seq<Seq<Cell>>,
    next: Seq<Seq<Cell>>,
    x_draw: int,
    y_draw: int,
    k: nat,
    col: int,
    row: int,
)
    requires
        0 <= x_draw,
        0 <= y_draw,
        fits(prev, x_draw, y_draw),
        fits(next, x_draw, y_draw),
        cell_at(row_at(prev, row - y_draw), col - x_draw) == cell_at(
            row_at(next, row - y_draw),
            col - x_draw,
        ),
    ensures
        forall|i: int|
            0 <= i < grid_updates(prev, next, x_draw, y_draw, k).len() ==> prints(
                #[trigger] grid_updates(prev, next, x_draw, y_draw, k)[i],
            ) && !prints_at(grid_updates(prev, next, x_draw, y_draw, k)[i], col, row),
    decreases k,
{
    if k > 0 {
        let y = k - 1;
        lemma_grid_prints(prev, next, x_draw, y_draw, y as nat, col, row);
        let (p, n) = (row_at(prev, y), row_at(next, y));
        let w = larger(p.len(), n.len());
        lemma_row_prints(p, n, x_draw, y_draw + y, w, col, row);
        let rest = grid_updates(prev, next, x_draw, y_draw, y as nat);
        let line = row_updates(p, n, x_draw, y_draw + y, w);
        let all = grid_updates(prev, next, x_draw, y_draw, k);
        assert forall|i: int| 0 <= i < all.len() implies prints(#[trigger] all[i]) && !prints_at(
            all[i],
            col,
            row,
        ) by {
            if i < rest.len() {
                assert(all[i] == rest[i]);
            } else {
                assert(all[i] == line[i - rest.len()]);
            }
        }
    }
}

/// Of one frame to the next only places are drawn that have changed: none that is the
/// same in both, be it inside or outside of them.
pub proof fn law_unchanged_places_are_not_drawn(
    prev: Seq<Seq<Cell>>,
    next: Seq<Seq<Cell>>,
    x_draw: int,
    y_draw: int,
    x: int,
    y: int,
    i: int,
)
    requires
        0 <= x_draw,
        0 <= y_draw,
        fits(prev, x_draw, y_draw),
        fits(next, x_draw, y_draw),
        cell_at(row_at(prev, y), x) == cell_at(row_at(next, y), x),
        0 <= i < frame_commands(prev, next, x_draw, y_draw).len(),
    ensures
        !prints_at(frame_commands(prev, next, x_draw, y_draw)[i], x_draw + x, y_draw + y),
{
    let k = larger(prev.len(), next.len());
    let updates = grid_updates(prev, next, x_draw, y_draw, k);
    lemma_grid_prints(prev, next, x_draw, y_draw, k, x_draw + x, y_draw + y);
    let n: int = if prev.len() == 0 {
        2
    } else {
        1
    };
    if n <= i < n + updates.len() {
        assert(frame_commands(prev, next, x_draw, y_draw)[i] == updates[i - n]);
    }
}

/// What is sent for a frame begins and ends as an update that the terminal shows at
/// once, with the cursor out of the way; and everything is erased exactly if it is not
/// known what the terminal shows.
pub proof fn law_frame_is_one_update(
    prev: Seq<Seq<Cell>>,
    next: Seq<Seq<Cell>>,
    x_draw: int,
    y_draw: int,
)
    requires
        0 <= x_draw,
        0 <= y_draw,
        fits(prev, x_draw, y_draw),
        fits(next, x_draw, y_draw),
    ensures
        ({
            let cmds = frame_commands(prev, next, x_draw, y_draw);
            &&& cmds.len() >= 3
            &&& cmds[0] == DrawCommand::BeginUpdate
            &&& cmds[cmds.len() - 2] == DrawCommand::Home
            &&& cmds.last() == DrawCommand::EndUpdate
            &&& cmds.contains(DrawCommand::ClearAll) <==> prev.len() == 0
            &&& prev.len() == 0 ==> cmds[1] == DrawCommand::ClearAll
        }),
{
    let cmds = frame_commands(prev, next, x_draw, y_draw);
    let k = larger(prev.len(), next.len());
    let updates = grid_updates(prev, next, x_draw, y_draw, k);
    lemma_grid_prints(prev, next, x_draw, y_draw, k, x_draw - 1, y_draw);
    if prev.len() == 0 {
        assert(cmds[1] == DrawCommand::ClearAll);
    } else {
        assert forall|i: int| 0 <= i < cmds.len() implies #[trigger] cmds[i]
            != DrawCommand::ClearAll by {
            if 1 <= i < 1 + updates.len() {
                assert(cmds[i] == updates[i - 1]);
            }
        }
    }
}

} // verus!

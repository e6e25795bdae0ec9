//! Whether it is known that the engine can move a game on: what one update can come
//! to, and where the engine's counting and picking of pieces stays in range.
use crate::button::{Button, ButtonChange};
use crate::engine::{
    bits_of, delay_parts, delay_parts_of, generator_of, generator_value, number_bits, time_of,
    DelayParts, PieceGenerator, BITS_ONE,
};
use crate::game::{count_sum, total_pieces, Board, Piece, Stat};
use crate::live::{
    config_pace, end_conditions_of, finite_or_infinite, observed, phase_piece, piece_of,
    pressed_since, state_board, state_counts, state_delays, state_piece_generator, state_piece_held,
    state_piece_preview, ConfigView, GameView,
};
use crate::spans::{
    delay_computable, delay_scales, is_delay_computable, is_delay_scalable, is_scalable, scales,
    Scaling, BITS_INFINITE,
};
use crate::time::InGameTime;
use falling_tetromino_engine::Game;
use vstd::arithmetic::power2::{lemma_pow2_pos, lemma_pow2_unfold, pow2};
use vstd::prelude::*;

verus! {

// ---------------------------------------------------------------------------
// Buttons
// ---------------------------------------------------------------------------
/// Whether both buttons that move a piece sideways went down at the same time.
pub open spec fn tied(buttons_pressed: Seq<Option<InGameTime>>) -> bool {
    buttons_pressed[0] is Some && buttons_pressed[0] == buttons_pressed[1]
}

/// Which way pieces are pushed: to where the button went down last.
pub open spec fn heading(buttons_pressed: Seq<Option<InGameTime>>) -> int {
    match (buttons_pressed[0], buttons_pressed[1]) {
        (Some(left), Some(right)) => if left.nanos() < right.nanos() {
            1
        } else if left.nanos() > right.nanos() {
            -1
        } else {
            0
        },
        (Some(_), None) => -1,
        (None, Some(_)) => 1,
        (None, None) => 0,
    }
}

/// Since when each button is down after a change.
pub open spec fn pressed_after(
    buttons_pressed: Seq<Option<InGameTime>>,
    at: InGameTime,
    change: Option<ButtonChange>,
) -> Seq<Option<InGameTime>> {
    match change {
        Some(ButtonChange::Press(b)) => buttons_pressed.update(b.number(), Some(at)),
        Some(ButtonChange::Release(b)) => buttons_pressed.update(b.number(), None),
        None => buttons_pressed,
    }
}

/// Whether a button is down at some point of an update.
pub open spec fn held_down(game: GameView, button: Button, change: Option<ButtonChange>) -> bool {
    game.buttons_pressed[button.number()] is Some || change == Some(ButtonChange::Press(button))
}

// ---------------------------------------------------------------------------
// Pieces and lines
// ---------------------------------------------------------------------------
/// How many lines one update can clear at most. Pieces appear away from both
/// outermost columns, and while no button changes they move to one side only. So
/// a line is cleared only where the outermost column of the other side was filled
/// already, or is by the piece in play: 27 rows and four tiles, once before a
/// button changes and once after it.
pub const LINES_PER_UPDATE: u32 = 62;

/// More pieces than one update can lock: the board has 270 places, and every
/// cleared line frees ten of them for pieces of four tiles.
pub const PIECES_PER_UPDATE: u32 = 250;

/// How many points a cleared line brings at most: two, twice as many for a spin,
/// and four times as many for an empty board.
pub const POINTS_PER_LINE: u32 = 16;

/// Whether nothing happens of itself up to a point in time.
pub open spec fn quiet_until(game: GameView, target: InGameTime) -> bool {
    game.next_update matches Some(t) && target.nanos() < t.nanos()
}

/// The lesser of two numbers.
pub open spec fn lesser(a: nat, b: nat) -> nat {
    if a < b {
        a
    } else {
        b
    }
}

/// How long a piece takes at least to lock after it appeared, unless a button
/// makes it. A piece that can be kept from locking for no longer than one lock
/// delay may lock at once.
pub open spec fn least_lock_nanos(game: GameView) -> nat {
    let lock = delay_parts(game.config.lock_delay_params);
    if number_bits(game.config.lock_reset_cap_factor) <= BITS_ONE {
        0
    } else {
        lesser(
            game.lock_delay.saturated().nanos(),
            lesser(lock.base_delay.saturated().nanos(), lock.lowerbound.saturated().nanos()),
        )
    }
}

/// How many pieces can lock of themselves in an update: the one in play when
/// something next happens, or else the next one after it had time to lock, and
/// from then on one whenever there was time for another to appear and lock.
pub open spec fn self_locking(
    next_update: Option<InGameTime>,
    in_play: bool,
    lock_nanos: nat,
    spawn_nanos: nat,
    target: InGameTime,
) -> nat {
    match next_update {
        None => 0,
        Some(t) => {
            let first = t.nanos() + if in_play {
                0
            } else {
                lock_nanos
            };
            if target.nanos() < t.nanos() {
                0
            } else if target == InGameTime::longest() || lock_nanos + spawn_nanos == 0 {
                PIECES_PER_UPDATE as nat
            } else if target.nanos() < first {
                0
            } else {
                lesser(
                    PIECES_PER_UPDATE as nat,
                    1 + ((target.nanos() - first) as nat) / (lock_nanos + spawn_nanos),
                )
            }
        },
    }
}

/// How many pieces one update can lock at most: those that lock of themselves and
/// one that a button makes lock, and where neither locking nor appearing takes any
/// time, as many as fit the board.
pub open spec fn locks_ahead(
    game: GameView,
    target: InGameTime,
    change: Option<ButtonChange>,
) -> nat {
    let lock_nanos = least_lock_nanos(game);
    let spawn_nanos = game.config.spawn_delay.nanos();
    let alone = self_locking(
        game.next_update,
        game.piece_in_play is Some,
        lock_nanos,
        spawn_nanos,
        target,
    );
    if change is None {
        alone
    } else if lock_nanos + spawn_nanos == 0 || target == InGameTime::longest() {
        PIECES_PER_UPDATE as nat
    } else {
        lesser(PIECES_PER_UPDATE as nat, alone + 1)
    }
}

/// How many pieces one update can draw at most: those that are missing from the
/// preview, one that appears first, one after every locked piece, and one in
/// place of a piece that is the first to be held.
pub open spec fn draws_ahead(
    game: GameView,
    target: InGameTime,
    change: Option<ButtonChange>,
) -> nat {
    let missing = if game.config.piece_preview_count > game.piece_preview.len() {
        (game.config.piece_preview_count - game.piece_preview.len()) as nat
    } else {
        0
    };
    let first: nat = if game.piece_in_play is None {
        1
    } else {
        0
    };
    let held: nat = if game.piece_held is None && held_down(game, Button::HoldPiece, change) {
        1
    } else {
        0
    };
    missing + first + locks_ahead(game, target, change) + held
}

/// How many of the first `k` places of a row are filled.
pub open spec fn row_fill(board: Board, y: int, k: int) -> nat
    decreases k,
{
    if k <= 0 {
        0
    } else {
        row_fill(board, y, k - 1) + if board@[y]@[k - 1] is Some {
            1nat
        } else {
            0nat
        }
    }
}

/// How many of the lowest `k` rows are filled.
pub open spec fn full_rows(board: Board, k: int) -> nat
    decreases k,
{
    if k <= 0 {
        0
    } else {
        full_rows(board, k - 1) + if row_fill(board, k - 1, 10) == 10 {
            1nat
        } else {
            0nat
        }
    }
}

/// How many lines can be cleared: the filled ones, and four by every piece that
/// locks.
pub open spec fn lines_ahead(board: Board, locks: nat) -> nat {
    lesser(LINES_PER_UPDATE as nat, full_rows(board, 27) + 4 * locks)
}

/// How many points can be scored. Every piece that clears lines brings one more
/// for each that did so before it without a break.
pub open spec fn points_ahead(series: nat, locks: nat) -> nat {
    let pieces = lesser(LINES_PER_UPDATE as nat, locks);
    POINTS_PER_LINE as nat * lesser(LINES_PER_UPDATE as nat, 4 * locks) + pieces * (series
        + pieces)
}

/// Whether no row can be filled by so many pieces, of which each has at most four
/// tiles in a row.
pub open spec fn rows_stay_open(board: Board, locks: nat) -> bool {
    forall|y: int| 0 <= y < 27 ==> #[trigger] row_fill(board, y, 10) + 4 * locks < 10
}

/// Whether every row has an open place among the two leftmost ones.
pub open spec fn left_open(board: Board) -> bool {
    forall|y: int|
        0 <= y < 27 ==> (#[trigger] board@[y])@[0] is None || board@[y]@[1] is None
}

/// Whether every row has an open place among the three rightmost ones.
pub open spec fn right_open(board: Board) -> bool {
    forall|y: int|
        0 <= y < 27 ==> (#[trigger] board@[y])@[7] is None || board@[y]@[8] is None
            || board@[y]@[9] is None
}

/// Whether a piece lies in these columns.
pub open spec fn lies_within(piece: Piece, low: usize, high: usize) -> bool {
    &&& piece.in_range()
    &&& forall|i: int| 0 <= i < 4 ==> low <= (#[trigger] piece.tile_seq()[i]).0.0 <= high
}

/// Whether a change of a button rotates a piece.
pub open spec fn rotates(change: Option<ButtonChange>) -> bool {
    change matches Some(ButtonChange::Press(b)) && (b == Button::RotateLeft || b
        == Button::RotateRight || b == Button::RotateAround)
}

/// Whether no piece can come into the two leftmost columns: they appear in the
/// five columns in the middle, the one in play is to the right, and none is moved
/// to the left.
pub open spec fn keeps_from_left(
    game: GameView,
    target: InGameTime,
    change: Option<ButtonChange>,
) -> bool {
    &&& game.piece_in_play matches Some(piece) ==> lies_within(piece, 2, 9)
    &&& heading(game.buttons_pressed) != -1
    &&& heading(pressed_after(game.buttons_pressed, target, change)) != -1
    &&& change != Some(ButtonChange::Press(Button::TeleLeft))
    &&& !rotates(change)
}

/// Whether no piece can come into the three rightmost columns.
pub open spec fn keeps_from_right(
    game: GameView,
    target: InGameTime,
    change: Option<ButtonChange>,
) -> bool {
    &&& game.piece_in_play matches Some(piece) ==> lies_within(piece, 0, 6)
    &&& heading(game.buttons_pressed) != 1
    &&& heading(pressed_after(game.buttons_pressed, target, change)) != 1
    &&& change != Some(ButtonChange::Press(Button::TeleRight))
    &&& !rotates(change)
}

/// Whether pieces fall straight down the five columns in the middle until a button
/// changes. What that does to one of them, and to those after it, brings pieces to
/// one side only.
pub open spec fn falls_straight(game: GameView) -> bool {
    &&& game.piece_in_play matches Some(piece) ==> lies_within(piece, 2, 6)
    &&& heading(game.buttons_pressed) == 0
}

/// Whether an update may clear lines. It clears none where no row is filled and
/// too few pieces lock to fill one, nor where every row keeps an open place on one
/// side.
pub open spec fn may_clear_lines(
    game: GameView,
    target: InGameTime,
    change: Option<ButtonChange>,
) -> bool {
    &&& !rows_stay_open(game.board, locks_ahead(game, target, change))
    &&& !(left_open(game.board) && keeps_from_left(game, target, change))
    &&& !(right_open(game.board) && keeps_from_right(game, target, change))
    &&& !(left_open(game.board) && right_open(game.board) && falls_straight(game))
}

// ---------------------------------------------------------------------------
// Picking pieces
// ---------------------------------------------------------------------------
/// The greatest count whose weight is more than nothing when pieces are picked
/// by how much more often than others they came: the exponential function of the
/// next one is out of range.
pub const GREATEST_WEIGHED: u32 = 709;

/// The bits of a number from 16 up to below 1024.
pub open spec fn count_bits(n: nat) -> nat {
    if n >= 512 {
        0x4080_0000_0000_0000 + ((n - 512) as nat) * 0x800_0000_0000
    } else if n >= 256 {
        0x4070_0000_0000_0000 + ((n - 256) as nat) * 0x1000_0000_0000
    } else if n >= 128 {
        0x4060_0000_0000_0000 + ((n - 128) as nat) * 0x2000_0000_0000
    } else if n >= 64 {
        0x4050_0000_0000_0000 + ((n - 64) as nat) * 0x4000_0000_0000
    } else if n >= 32 {
        0x4040_0000_0000_0000 + ((n - 32) as nat) * 0x8000_0000_0000
    } else {
        0x4030_0000_0000_0000 + ((n - 16) as nat) * 0x1_0000_0000_0000
    }
}

/// How many binary digits a number has.
pub open spec fn bit_length(n: nat) -> nat
    decreases n,
{
    if n == 0 {
        0
    } else {
        1 + bit_length(n / 2)
    }
}

/// A number, squared so many times over.
pub open spec fn squared(n: nat, times: nat) -> nat
    decreases times,
{
    if times == 0 {
        n
    } else {
        squared(n, (times - 1) as nat) * squared(n, (times - 1) as nat)
    }
}

/// How many times a number can be squared over and still fit 128 bits.
pub open spec fn squarings(n: nat) -> nat {
    if n < 16 {
        5
    } else if n < 256 {
        4
    } else if n < 65_536 {
        3
    } else {
        2
    }
}

/// A whole exponent, close to the greatest, with which a number stays within two
/// to the power of 1021, so that seven such powers can be added up: the binary
/// digits of a high power of the number tell.
pub open spec fn greatest_exponent(n: nat) -> nat {
    1021 * pow2(squarings(n)) / bit_length(squared(n, squarings(n)))
}

/// The greatest of seven counts.
pub open spec fn greatest(counts: Seq<u32>, k: int) -> nat
    decreases k,
{
    if k <= 0 {
        0
    } else if counts[k - 1] > greatest(counts, k - 1) {
        counts[k - 1] as nat
    } else {
        greatest(counts, k - 1)
    }
}

/// Whether pieces can be picked so many times: each time some kind has a weight,
/// and all weights together are in range.
pub open spec fn generator_ready(generator: PieceGenerator, draws: nat) -> bool {
    ||| draws == 0
    ||| match generator {
        PieceGenerator::Uniform => true,
        PieceGenerator::Stock { pieces_left, multiplicity, restock_threshold } => {
            let left = total_pieces(pieces_left@);
            &&& 0 < left <= u32::MAX
            &&& {
                ||| draws <= left && (left <= restock_threshold || restock_threshold + draws < left)
                ||| {
                    &&& restock_threshold < left
                    &&& 0 < multiplicity
                    &&& restock_threshold + 7 * multiplicity <= u32::MAX
                }
            }
        },
        PieceGenerator::Recency { last_generated, snap_bits } => {
            let seen = greatest(last_generated@, 7);
            let longest = (seen + draws - 1) as nat;
            &&& 0 < seen || snap_bits == 0
            &&& longest < u32::MAX
            &&& snap_bits <= BITS_INFINITE
            &&& longest >= 2 ==> snap_bits <= count_bits(greatest_exponent(longest))
        },
        PieceGenerator::BalanceRelative { relative_counts } => exists|i: int|
            0 <= i < 7 && #[trigger] relative_counts@[i] <= GREATEST_WEIGHED,
    }
}

// ---------------------------------------------------------------------------
// Whether the engine can go on
// ---------------------------------------------------------------------------
/// Whether some condition holds the pieces locked against a limit.
pub open spec fn pieces_limited(conditions: Seq<(Stat, bool)>) -> bool {
    exists|i: int| 0 <= i < conditions.len() && (#[trigger] conditions[i]).0 is PiecesLocked
}

/// Whether the pieces can be counted after some more of them: each kind, and all
/// together where that decides about the end of the game.
pub open spec fn pieces_countable(game: GameView, more: nat) -> bool {
    &&& forall|k: int| 0 <= k < 7 ==> #[trigger] game.pieces_locked@[k] + more <= u32::MAX
    &&& pieces_limited(game.config.end_conditions) ==> total_pieces(game.pieces_locked@) + more
        <= u32::MAX
}

/// Whether lines can be cleared: they and their points can be counted, and what
/// the delays shrink to can be computed and scaled.
pub open spec fn lines_ready(
    game: GameView,
    target: InGameTime,
    change: Option<ButtonChange>,
) -> bool {
    let locks = locks_ahead(game, target, change);
    let fall = delay_parts(game.config.fall_delay_params);
    let lock = delay_parts(game.config.lock_delay_params);
    let lines = game.lineclears as nat + lines_ahead(game.board, locks);
    &&& game.config.update_delays_every_n_lineclears > 0
    &&& lines <= u32::MAX
    &&& game.score + points_ahead(game.consecutive_line_clears as nat, locks) <= u32::MAX
    &&& (game.fall_delay_lowerbound_hit matches Some(n) ==> n <= game.lineclears)
    &&& delay_computable(fall, lines)
    &&& delay_computable(lock, lines)
    &&& held_down(game, Button::DropSoft, change) ==> delay_scales(
        fall,
        Scaling::Over,
        number_bits(game.config.soft_drop_divisor),
    )
    &&& delay_scales(lock, Scaling::Times, number_bits(game.config.lock_reset_cap_factor))
}

/// Whether the delays of a game can be scaled; the fall delay is divided only
/// while a piece is dropped faster. Numbers that are negative or undefined do not
/// occur in the engine unless they are read in from elsewhere.
pub open spec fn delays_ready(game: GameView, change: Option<ButtonChange>) -> bool {
    let divisor = number_bits(game.config.soft_drop_divisor);
    let factor = number_bits(game.config.lock_reset_cap_factor);
    &&& held_down(game, Button::DropSoft, change) ==> divisor <= BITS_INFINITE && scales(
        game.fall_delay,
        Scaling::Over,
        divisor,
    )
    &&& factor <= BITS_INFINITE
    &&& scales(game.lock_delay, Scaling::Times, factor)
}

/// Whether the clock moves on between two moves of a piece that is pushed both
/// ways at once.
pub open spec fn moves_apart(config: ConfigView, target: InGameTime) -> bool {
    &&& config.delayed_auto_shift.nanos() > 0 || config.auto_repeat_rate.nanos() > 0
    &&& target != InGameTime::longest()
}

/// Whether a piece that is pushed both ways at once does not keep the clock from
/// moving: it is not pushed so when it may move.
pub open spec fn pushes_ready(
    game: GameView,
    target: InGameTime,
    change: Option<ButtonChange>,
) -> bool {
    ||| moves_apart(game.config, target)
    ||| {
        &&& quiet_until(game, target) || !tied(game.buttons_pressed)
        &&& !tied(pressed_after(game.buttons_pressed, target, change))
    }
}

/// Whether it is known that the engine can move a tame game on to a point in time,
/// whichever pieces it picks on the way. Where nothing happens there but for a
/// button that no piece is moved by, it can; otherwise there must be no span or
/// count out of range, no division by zero, pieces to pick, and the clock must go
/// on.
pub open spec fn ready(game: GameView, target: InGameTime, change: Option<ButtonChange>) -> bool {
    ||| {
        &&& quiet_until(game, target)
        &&& change is None || game.piece_in_play is None
        &&& pieces_countable(game, 0)
    }
    ||| {
        &&& game.config.piece_preview_count <= usize::MAX / 4
        &&& generator_ready(
            generator_value(game.piece_generator),
            draws_ahead(game, target, change),
        )
        &&& pieces_countable(game, locks_ahead(game, target, change))
        &&& delays_ready(game, change)
        &&& may_clear_lines(game, target, change) ==> lines_ready(game, target, change)
        &&& pushes_ready(game, target, change)
    }
}

// ---------------------------------------------------------------------------
// Tests
// ---------------------------------------------------------------------------
/// The bits of a number from 16 up to below 1024.
fn bits_of_count(n: u64) -> (bits: u64)
    requires
        16 <= n < 1024,
    ensures
        bits == count_bits(n as nat),
{
    if n >= 512 {
        0x4080_0000_0000_0000 + (n - 512) * 0x800_0000_0000
    } else if n >= 256 {
        0x4070_0000_0000_0000 + (n - 256) * 0x1000_0000_0000
    } else if n >= 128 {
        0x4060_0000_0000_0000 + (n - 128) * 0x2000_0000_0000
    } else if n >= 64 {
        0x4050_0000_0000_0000 + (n - 64) * 0x4000_0000_0000
    } else if n >= 32 {
        0x4040_0000_0000_0000 + (n - 32) * 0x8000_0000_0000
    } else {
        0x4030_0000_0000_0000 + (n - 16) * 0x1_0000_0000_0000
    }
}

/// How many binary digits a number has.
fn count_digits(n: u128) -> (len: u64)
    ensures
        len == bit_length(n as nat),
        len <= 128,
    decreases n,
{
    proof {
        lemma_bit_length_bounds(n as nat, 128);
        lemma_power_128();
        reveal_with_fuel(bit_length, 2);
    }
    if n == 0 {
        0
    } else {
        1 + count_digits(n / 2)
    }
}

proof fn lemma_power_128()
    ensures
        pow2(128) == 0x1_0000_0000_0000_0000 * 0x1_0000_0000_0000_0000,
{
    vstd::arithmetic::power2::lemma2_to64_rest();
    vstd::arithmetic::power2::lemma_pow2_adds(64, 64);
}

/// Numbers below a power of two have no more digits than its exponent, and others
/// have more.
pub proof fn lemma_bit_length_bounds(n: nat, k: nat)
    ensures
        n < pow2(k) ==> bit_length(n) <= k,
        n >= pow2(k) ==> bit_length(n) > k,
    decreases k,
{
    lemma_pow2_pos(k);
    if k == 0 {
        vstd::arithmetic::power2::lemma2_to64();
    } else {
        lemma_pow2_unfold(k);
        lemma_bit_length_bounds(n / 2, (k - 1) as nat);
    }
}

/// A number whose digits double with every squaring.
pub open spec fn round_bound(n: nat) -> nat {
    if n < 16 {
        16
    } else if n < 256 {
        256
    } else if n < 65_536 {
        65_536
    } else {
        0x1_0000_0000
    }
}

/// A number, squared so many times over.
fn square_up(n: u128, times: u64) -> (r: u128)
    requires
        n < 0x1_0000_0000,
        times == squarings(n as nat),
    ensures
        r == squared(n as nat, times as nat),
{
    let mut r: u128 = n;
    for i in 0..times
        invariant
            n < 0x1_0000_0000,
            times == squarings(n as nat),
            r == squared(n as nat, i as nat),
    {
        proof {
            lemma_squared_grows(n as nat, round_bound(n as nat), i as nat);
            lemma_square_bounds(n as nat, i as nat);
            assert(r * r < 0x1_0000_0000_0000_0000 * 0x1_0000_0000_0000_0000) by (nonlinear_arith)
                requires
                    r < 0x1_0000_0000_0000_0000,
            ;
        }
        r = r * r;
    }
    r
}

/// Squares that fit 64 bits.
proof fn lemma_square_bounds(n: nat, times: nat)
    requires
        times < squarings(n),
    ensures
        squared(round_bound(n), times) <= 0x1_0000_0000_0000_0000,
{
    let b = round_bound(n);
    assert(squared(b, 0) == b);
    assert(times == 0 || times == 1 || times == 2 || times == 3 || times == 4);
    assert(squared(b, 1) == b * b);
    if b == 16 {
        assert(squared(b, 2) == 256nat * 256nat);
        assert(squared(b, 3) == 65_536nat * 65_536nat);
        assert(squared(b, 4) == 0x1_0000_0000nat * 0x1_0000_0000nat);
    } else if b == 256 {
        assert(squared(b, 2) == 65_536nat * 65_536nat);
        assert(squared(b, 3) == 0x1_0000_0000nat * 0x1_0000_0000nat);
    } else if b == 65_536 {
        assert(squared(b, 2) == 0x1_0000_0000nat * 0x1_0000_0000nat);
    }
}

/// Squaring a number from two on over and over gives at least as high a power of
/// two.
proof fn lemma_squared_at_least(n: nat, times: nat)
    requires
        n >= 2,
    ensures
        squared(n, times) >= pow2(pow2(times)),
    decreases times,
{
    vstd::arithmetic::power2::lemma2_to64();
    if times > 0 {
        let t = (times - 1) as nat;
        lemma_squared_at_least(n, t);
        lemma_pow2_unfold(times);
        vstd::arithmetic::power2::lemma_pow2_adds(pow2(t), pow2(t));
        let a = squared(n, t);
        let b = pow2(pow2(t));
        assert(a * a >= b * b) by (nonlinear_arith)
            requires
                a >= b,
        ;
    }
}

/// A number of 32 bits that is squared over fits 128 bits.
proof fn lemma_squared_fits(n: nat)
    requires
        2 <= n < 0x1_0000_0000,
    ensures
        squared(n, squarings(n)) < 0x1_0000_0000_0000_0000 * 0x1_0000_0000_0000_0000,
{
    let t = (squarings(n) - 1) as nat;
    lemma_square_bounds(n, t);
    lemma_squared_grows(n, round_bound(n), t);
    let s = squared(n, t);
    assert(s * s < 0x1_0000_0000_0000_0000 * 0x1_0000_0000_0000_0000) by (nonlinear_arith)
        requires
            s < 0x1_0000_0000_0000_0000,
            0 <= s,
    ;
}

proof fn lemma_squared_grows(a: nat, b: nat, times: nat)
    requires
        a < b,
    ensures
        squared(a, times) < squared(b, times),
    decreases times,
{
    if times > 0 {
        let t = (times - 1) as nat;
        lemma_squared_grows(a, b, t);
        let x = squared(a, t);
        let y = squared(b, t);
        assert(x * x < y * y) by (nonlinear_arith)
            requires
                0 <= x < y,
        ;
    }
}

/// The exponents that are found lie between 31 and 1021.
pub proof fn lemma_greatest_exponent(n: nat)
    requires
        2 <= n < 0x1_0000_0000,
    ensures
        31 <= greatest_exponent(n) <= 1021,
        1 <= bit_length(squared(n, squarings(n))) <= 128,
        n < 16 ==> greatest_exponent(n) >= 255,
{
    let times = squarings(n);
    let k = pow2(times);
    vstd::arithmetic::power2::lemma2_to64();
    lemma_squared_at_least(n, times);
    lemma_squared_fits(n);
    lemma_power_128();
    lemma_bit_length_bounds(squared(n, times), k);
    lemma_bit_length_bounds(squared(n, times), 128);
    let len = bit_length(squared(n, times));
    assert(1021 * k / len <= 1021) by (nonlinear_arith)
        requires
            k < len,
            k > 0,
    ;
    assert(1021 * k / len >= 31 * 1) by (nonlinear_arith)
        requires
            len <= 128,
            k >= 4,
            len > 0,
    ;
    if n < 16 {
        assert(1021 * k / len >= 255) by (nonlinear_arith)
            requires
                len <= 128,
                k == 32,
                len > 0,
        ;
    }
}

fn find_greatest_exponent(n: u64) -> (e: u64)
    requires
        2 <= n < 0x1_0000_0000,
    ensures
        e == greatest_exponent(n as nat),
        31 <= e <= 1021,
{
    let (times, k): (u64, u64) = if n < 16 {
        (5, 32)
    } else if n < 256 {
        (4, 16)
    } else if n < 65_536 {
        (3, 8)
    } else {
        (2, 4)
    };
    proof {
        lemma_greatest_exponent(n as nat);
        vstd::arithmetic::power2::lemma2_to64();
    }
    1021 * k / count_digits(square_up(n as u128, times))
}

/// The greatest of seven counts.
fn greatest_of(counts: &[u32; 7]) -> (n: u32)
    ensures
        n == greatest(counts@, 7),
{
    let mut n: u32 = 0;
    for k in 0..7usize
        invariant
            n == greatest(counts@, k as int),
    {
        if counts[k] > n {
            n = counts[k];
        }
    }
    n
}

/// The sum of seven counts.
fn sum_of_counts(counts: &[u32; 7]) -> (n: u64)
    ensures
        n == total_pieces(counts@),
        n <= 7 * u32::MAX,
{
    let mut n: u64 = 0;
    for k in 0..7usize
        invariant
            n == count_sum(counts@, k as int),
            n <= k * u32::MAX,
    {
        n = n + counts[k] as u64;
    }
    n
}

/// Whether pieces can be picked so many times.
pub fn is_generator_ready(generator: &PieceGenerator, draws: u64) -> (b: bool)
    requires
        draws <= u64::MAX / 2,
    ensures
        b == generator_ready(*generator, draws as nat),
{
    if draws == 0 {
        return true;
    }
    match generator {
        PieceGenerator::Uniform => true,
        PieceGenerator::Stock { pieces_left, multiplicity, restock_threshold } => {
            let left: u64 = sum_of_counts(pieces_left);
            let threshold: u64 = *restock_threshold as u64;
            let lasts = draws <= left && (left <= threshold || threshold + draws < left);
            let refills = threshold < left && *multiplicity > 0 && threshold + 7
                * *multiplicity as u64 <= u32::MAX as u64;
            0 < left && left <= u32::MAX as u64 && (lasts || refills)
        },
        PieceGenerator::Recency { last_generated, snap_bits } => {
            let seen: u32 = greatest_of(last_generated);
            let longest: u64 = seen as u64 + draws - 1;
            if longest >= u32::MAX as u64 || *snap_bits > BITS_INFINITE {
                return false;
            }
            (0 < seen || *snap_bits == 0) && (longest < 2 || *snap_bits <= bits_of_count(
                find_greatest_exponent(longest),
            ))
        },
        PieceGenerator::BalanceRelative { relative_counts } => {
            let mut found = false;
            for k in 0..7usize
                invariant
                    found == exists|i: int|
                        0 <= i < k && #[trigger] relative_counts@[i] <= GREATEST_WEIGHED,
            {
                if relative_counts[k] <= GREATEST_WEIGHED {
                    assert(relative_counts@[k as int] <= GREATEST_WEIGHED);
                    found = true;
                }
            }
            found
        },
    }
}

fn is_tied(left: Option<InGameTime>, right: Option<InGameTime>) -> (b: bool)
    ensures
        b == (left is Some && left == right),
{
    match (left, right) {
        (Some(l), Some(r)) => l == r,
        _ => false,
    }
}

fn press_after(
    pressed: Option<InGameTime>,
    button: Button,
    at: InGameTime,
    change: Option<ButtonChange>,
) -> (r: Option<InGameTime>)
    ensures
        r == match change {
            Some(ButtonChange::Press(b)) => if b == button {
                Some(at)
            } else {
                pressed
            },
            Some(ButtonChange::Release(b)) => if b == button {
                None
            } else {
                pressed
            },
            None => pressed,
        },
{
    match change {
        Some(ButtonChange::Press(b)) => if b == button {
            Some(at)
        } else {
            pressed
        },
        Some(ButtonChange::Release(b)) => if b == button {
            None
        } else {
            pressed
        },
        None => pressed,
    }
}

fn is_held_down(game: &Game, button: Button, change: Option<ButtonChange>) -> (b: bool)
    ensures
        b == held_down(observed(*game), button, change),
{
    pressed_since(game, button.index() as usize).is_some() || is_press(change, button)
}

fn is_quiet_until(game: &Game, target: InGameTime) -> (b: bool)
    ensures
        b == quiet_until(observed(*game), target),
{
    match game.peek_next_update_time() {
        Some(d) => target.as_nanos() < time_of(d).as_nanos(),
        None => false,
    }
}

fn is_longest(t: InGameTime) -> (b: bool)
    ensures
        b == (t == InGameTime::longest()),
{
    t.secs == u64::MAX && t.subsec_nanos == 999_999_999
}

fn least(a: u128, b: u128) -> (r: u128)
    ensures
        r == lesser(a as nat, b as nat),
{
    if a < b {
        a
    } else {
        b
    }
}

fn find_least_lock_nanos(game: &Game) -> (n: u128)
    ensures
        n == least_lock_nanos(observed(*game)),
        n <= 0x1_0000_0000_0000_0000_0000_0000,
{
    let pace = config_pace(game);
    if bits_of(pace.lock_reset_cap_factor) <= BITS_ONE {
        return 0;
    }
    let (_, lock_delay, _) = state_delays(game);
    let lock: DelayParts = delay_parts_of(&pace.lock_delay_params);
    least(
        finite_or_infinite(lock_delay).saturating_duration().as_nanos(),
        least(
            lock.base_delay.saturating_duration().as_nanos(),
            lock.lowerbound.saturating_duration().as_nanos(),
        ),
    )
}

fn find_self_locking(
    next_update: Option<InGameTime>,
    in_play: bool,
    lock_nanos: u128,
    spawn_nanos: u128,
    target: InGameTime,
) -> (n: u32)
    requires
        lock_nanos <= 0x1_0000_0000_0000_0000_0000_0000,
        spawn_nanos <= 0x1_0000_0000_0000_0000_0000_0000,
    ensures
        n == self_locking(
            next_update,
            in_play,
            lock_nanos as nat,
            spawn_nanos as nat,
            target,
        ),
        n <= PIECES_PER_UPDATE,
{
    match next_update {
        None => 0,
        Some(t) => {
            let first: u128 = t.as_nanos() + if in_play {
                0
            } else {
                lock_nanos
            };
            let end: u128 = target.as_nanos();
            if end < t.as_nanos() {
                0
            } else if is_longest(target) || lock_nanos + spawn_nanos == 0 {
                PIECES_PER_UPDATE
            } else if end < first {
                0
            } else {
                least(PIECES_PER_UPDATE as u128, 1 + (end - first) / (lock_nanos + spawn_nanos))
                    as u32
            }
        },
    }
}

fn find_locks_ahead(game: &Game, target: InGameTime, change: Option<ButtonChange>) -> (n: u32)
    ensures
        n == locks_ahead(observed(*game), target, change),
        n <= PIECES_PER_UPDATE,
{
    let lock_nanos: u128 = find_least_lock_nanos(game);
    let spawn_nanos: u128 = time_of(config_pace(game).spawn_delay).as_nanos();
    let next_update = match game.peek_next_update_time() {
        Some(d) => Some(time_of(d)),
        None => None,
    };
    let alone: u32 = find_self_locking(
        next_update,
        phase_piece(game).is_some(),
        lock_nanos,
        spawn_nanos,
        target,
    );
    if change.is_none() {
        alone
    } else if lock_nanos + spawn_nanos == 0 || is_longest(target) {
        PIECES_PER_UPDATE
    } else if alone + 1 < PIECES_PER_UPDATE {
        alone + 1
    } else {
        PIECES_PER_UPDATE
    }
}

fn find_draws_ahead(
    game: &Game,
    target: InGameTime,
    change: Option<ButtonChange>,
) -> (n: u64)
    requires
        observed(*game).config.piece_preview_count <= usize::MAX / 4,
    ensures
        n == draws_ahead(observed(*game), target, change),
        n <= u64::MAX / 2,
{
    let previewed: usize = state_piece_preview(game).len();
    let missing: usize = config_pace(game).piece_preview_count.saturating_sub(previewed);
    let first: u64 = if phase_piece(game).is_none() {
        1
    } else {
        0
    };
    let held: u64 = if state_piece_held(game).is_none() && is_held_down(
        game,
        Button::HoldPiece,
        change,
    ) {
        1
    } else {
        0
    };
    missing as u64 + first + find_locks_ahead(game, target, change) as u64 + held
}

fn count_row_fill(board: &Board, y: usize) -> (n: u32)
    requires
        y < 27,
    ensures
        n == row_fill(*board, y as int, 10),
        n <= 10,
{
    let mut n: u32 = 0;
    for x in 0..10usize
        invariant
            y < 27,
            n == row_fill(*board, y as int, x as int),
            n <= x,
    {
        if board[y][x].is_some() {
            n = n + 1;
        }
    }
    n
}

fn is_rows_stay_open(board: &Board, locks: u32) -> (b: bool)
    requires
        locks <= PIECES_PER_UPDATE,
    ensures
        b == rows_stay_open(*board, locks as nat),
{
    for y in 0..27usize
        invariant
            locks <= PIECES_PER_UPDATE,
            forall|j: int| 0 <= j < y ==> #[trigger] row_fill(*board, j, 10) + 4 * locks < 10,
    {
        if count_row_fill(board, y) + 4 * locks >= 10 {
            return false;
        }
    }
    true
}

fn is_left_open(board: &Board) -> (b: bool)
    ensures
        b == left_open(*board),
{
    for y in 0..27usize
        invariant
            forall|j: int|
                0 <= j < y ==> (#[trigger] board@[j])@[0] is None || board@[j]@[1] is None,
    {
        if board[y][0].is_some() && board[y][1].is_some() {
            assert(board@[y as int]@[0] is Some);
            return false;
        }
    }
    true
}

fn is_right_open(board: &Board) -> (b: bool)
    ensures
        b == right_open(*board),
{
    for y in 0..27usize
        invariant
            forall|j: int|
                0 <= j < y ==> (#[trigger] board@[j])@[7] is None || board@[j]@[8] is None
                    || board@[j]@[9] is None,
    {
        if board[y][7].is_some() && board[y][8].is_some() && board[y][9].is_some() {
            assert(board@[y as int]@[7] is Some);
            return false;
        }
    }
    true
}

fn is_piece_within(game: &Game, low: usize, high: usize) -> (b: bool)
    ensures
        b == (observed(*game).piece_in_play matches Some(piece) ==> lies_within(
            piece,
            low,
            high,
        )),
{
    match phase_piece(game) {
        None => true,
        Some(piece) => {
            let piece = piece_of(&piece);
            if piece.position.0 > usize::MAX - 3 || piece.position.1 > usize::MAX - 3 {
                return false;
            }
            let tiles = piece.tiles();
            for k in 0..4usize
                invariant
                    observed(*game).piece_in_play == Some(piece),
                    piece.in_range(),
                    tiles@ == piece.tile_seq(),
                    forall|i: int| 0 <= i < k ==> low <= (#[trigger] tiles@[i]).0.0 <= high,
            {
                if tiles[k].0.0 < low || tiles[k].0.0 > high {
                    assert(!(low <= piece.tile_seq()[k as int].0.0 <= high));
                    return false;
                }
            }
            true
        },
    }
}

fn find_heading(left: Option<InGameTime>, right: Option<InGameTime>) -> (h: i8)
    ensures
        forall|buttons: Seq<Option<InGameTime>>|
            buttons[0] == left && buttons[1] == right ==> h == #[trigger] heading(buttons),
{
    match (left, right) {
        (Some(l), Some(r)) => {
            let a: u128 = l.as_nanos();
            let b: u128 = r.as_nanos();
            if a < b {
                1
            } else if a > b {
                -1
            } else {
                0
            }
        },
        (Some(_), None) => -1,
        (None, Some(_)) => 1,
        (None, None) => 0,
    }
}

fn is_rotation(change: Option<ButtonChange>) -> (b: bool)
    ensures
        b == rotates(change),
{
    match change {
        Some(ButtonChange::Press(b)) => b == Button::RotateLeft || b == Button::RotateRight || b
            == Button::RotateAround,
        _ => false,
    }
}

fn is_press(change: Option<ButtonChange>, button: Button) -> (r: bool)
    ensures
        r == (change == Some(ButtonChange::Press(button))),
{
    match change {
        Some(ButtonChange::Press(b)) => b == button,
        _ => false,
    }
}

fn may_lines_be_cleared(
    game: &Game,
    target: InGameTime,
    change: Option<ButtonChange>,
) -> (b: bool)
    ensures
        b == may_clear_lines(observed(*game), target, change),
{
    let board = state_board(game);
    if is_rows_stay_open(&board, find_locks_ahead(game, target, change)) {
        return false;
    }
    let left = pressed_since(game, 0);
    let right = pressed_since(game, 1);
    let before: i8 = find_heading(left, right);
    let after: i8 = find_heading(
        press_after(left, Button::MoveLeft, target, change),
        press_after(right, Button::MoveRight, target, change),
    );
    let left_stays = is_piece_within(game, 2, 9) && before != -1 && after != -1 && !is_press(
        change,
        Button::TeleLeft,
    ) && !is_rotation(change);
    let right_stays = is_piece_within(game, 0, 6) && before != 1 && after != 1 && !is_press(
        change,
        Button::TeleRight,
    ) && !is_rotation(change);
    let straight = is_piece_within(game, 2, 6) && before == 0;
    let left_free = is_left_open(&board);
    let right_free = is_right_open(&board);
    !(left_free && left_stays) && !(right_free && right_stays) && !(left_free && right_free
        && straight)
}

fn is_pieces_limited(conditions: &Vec<(Stat, bool)>) -> (b: bool)
    ensures
        b == pieces_limited(conditions@),
{
    for k in 0..conditions.len()
        invariant
            forall|i: int| 0 <= i < k ==> !((#[trigger] conditions@[i]).0 is PiecesLocked),
    {
        if let Stat::PiecesLocked(_) = conditions[k].0 {
            assert(conditions@[k as int].0 is PiecesLocked);
            return true;
        }
    }
    false
}

fn is_pieces_countable(game: &Game, more: u32) -> (b: bool)
    ensures
        b == pieces_countable(observed(*game), more as nat),
{
    let counts = state_counts(game);
    for k in 0..7usize
        invariant
            counts.pieces_locked == observed(*game).pieces_locked,
            forall|i: int| 0 <= i < k ==> #[trigger] counts.pieces_locked@[i] + more <= u32::MAX,
    {
        if counts.pieces_locked[k] > u32::MAX - more {
            assert(observed(*game).pieces_locked@[k as int] + more > u32::MAX);
            return false;
        }
    }
    let total: u64 = sum_of_counts(&counts.pieces_locked);
    total + more as u64 <= u32::MAX as u64 || !is_pieces_limited(&end_conditions_of(game))
}

fn count_full_rows(board: &Board) -> (n: u32)
    ensures
        n == full_rows(*board, 27),
        n <= 27,
{
    let mut n: u32 = 0;
    for y in 0..27usize
        invariant
            n == full_rows(*board, y as int),
            n <= y,
    {
        if count_row_fill(board, y) == 10 {
            n = n + 1;
        }
    }
    n
}

fn lower(a: u32, b: u32) -> (r: u32)
    ensures
        r == lesser(a as nat, b as nat),
{
    if a < b {
        a
    } else {
        b
    }
}

fn is_lines_ready(game: &Game, target: InGameTime, change: Option<ButtonChange>) -> (b: bool)
    ensures
        b == lines_ready(observed(*game), target, change),
{
    let counts = state_counts(game);
    let pace = config_pace(game);
    let (_, _, hit) = state_delays(game);
    let hit_ready = match hit {
        Some(n) => n <= counts.lineclears,
        None => true,
    };
    let locks: u32 = find_locks_ahead(game, target, change);
    let more: u32 = lower(LINES_PER_UPDATE, count_full_rows(&state_board(game)) + 4 * locks);
    let pieces: u64 = lower(LINES_PER_UPDATE, locks) as u64;
    let series: u64 = counts.consecutive_line_clears as u64;
    assert(pieces * (series + pieces) <= 62 * 0x1_0000_0100) by (nonlinear_arith)
        requires
            pieces <= 62,
            series <= u32::MAX,
    ;
    let points: u64 = (POINTS_PER_LINE * lower(LINES_PER_UPDATE, 4 * locks)) as u64 + pieces * (
    series + pieces);
    if pace.update_delays_every_n_lineclears == 0 || counts.lineclears > u32::MAX - more
        || counts.score as u64 + points > u32::MAX as u64 || !hit_ready {
        return false;
    }
    let lines: u32 = counts.lineclears + more;
    let fall = delay_parts_of(&pace.fall_delay_params);
    let lock = delay_parts_of(&pace.lock_delay_params);
    is_delay_computable(&fall, lines) && is_delay_computable(&lock, lines) && (!is_held_down(
        game,
        Button::DropSoft,
        change,
    ) || is_delay_scalable(&fall, Scaling::Over, bits_of(pace.soft_drop_divisor)))
        && is_delay_scalable(&lock, Scaling::Times, bits_of(pace.lock_reset_cap_factor))
}

fn is_delays_ready(game: &Game, change: Option<ButtonChange>) -> (b: bool)
    ensures
        b == delays_ready(observed(*game), change),
{
    let pace = config_pace(game);
    let (fall_delay, lock_delay, _) = state_delays(game);
    let divisor: u64 = bits_of(pace.soft_drop_divisor);
    let factor: u64 = bits_of(pace.lock_reset_cap_factor);
    if is_held_down(game, Button::DropSoft, change) && !(divisor <= BITS_INFINITE && is_scalable(
        finite_or_infinite(fall_delay),
        Scaling::Over,
        divisor,
    )) {
        return false;
    }
    factor <= BITS_INFINITE && is_scalable(
        finite_or_infinite(lock_delay),
        Scaling::Times,
        factor,
    )
}

fn is_pushes_ready(game: &Game, target: InGameTime, change: Option<ButtonChange>) -> (b: bool)
    ensures
        b == pushes_ready(observed(*game), target, change),
{
    let pace = config_pace(game);
    let still = time_of(pace.delayed_auto_shift).is_zero() && time_of(
        pace.auto_repeat_rate,
    ).is_zero();
    let left = pressed_since(game, 0);
    let right = pressed_since(game, 1);
    let left_after = press_after(left, Button::MoveLeft, target, change);
    let right_after = press_after(right, Button::MoveRight, target, change);
    (!still && !is_longest(target)) || ((is_quiet_until(game, target) || !is_tied(left, right))
        && !is_tied(left_after, right_after))
}

/// Whether it is known that the engine can move a tame game on to a point in time.
pub fn is_ready(game: &Game, target: InGameTime, change: Option<ButtonChange>) -> (b: bool)
    ensures
        b == ready(observed(*game), target, change),
{
    if is_quiet_until(game, target) && (change.is_none() || phase_piece(game).is_none())
        && is_pieces_countable(game, 0) {
        return true;
    }
    if config_pace(game).piece_preview_count > usize::MAX / 4 {
        return false;
    }
    let draws: u64 = find_draws_ahead(game, target, change);
    is_generator_ready(&generator_of(&state_piece_generator(game)), draws)
        && is_pieces_countable(game, find_locks_ahead(game, target, change)) && is_delays_ready(
        game,
        change,
    ) && (!may_lines_be_cleared(game, target, change) || is_lines_ready(
        game,
        target,
        change,
    ))
        && is_pushes_ready(game, target, change)
}

} // verus!

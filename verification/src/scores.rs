//! Scores of past games.
use crate::engine::delay_parts;
use crate::game::{
    is_countable, sum_of_pieces, total_pieces, GameMetaData, GameOver, GameResult, GameSnapshot,
    Stat,
};
use crate::input_history::CompressedInputHistory;
use crate::live::{observed, GameView};
use crate::restoration::GameRestorationData;
use crate::text::{
    law_first_difference_decides, lemma_text_antisymmetric, lemma_text_total, lemma_text_transitive,
    lesser_from, same_text, text_le, text_not_after,
};
use crate::time::{ExtDuration, InGameTime};
use falling_tetromino_engine::Game;
use vstd::prelude::*;
use vstd::string::*;

verus! {

/// How a past game went.
#[derive(PartialEq, Eq, PartialOrd, Ord, Hash, Debug)]
pub struct ScoresEntry {
    /// What is recorded of the game apart from how it went.
    pub game_meta_data: GameMetaData,
    /// How it ended.
    pub result: GameResult,
    /// How long it took.
    pub time_elapsed: InGameTime,
    /// How many lines were cleared.
    pub lineclears: u32,
    /// The points scored.
    pub points_scored: u32,
    /// How many pieces of each kind were locked.
    pub pieces_locked: [u32; 7],
    /// How long a piece took to fall by one row at the end.
    pub fall_delay_reached: ExtDuration,
    /// How long a piece took to lock at the end, if that had begun to shrink.
    pub lock_delay_reached: Option<ExtDuration>,
}

impl Clone for ScoresEntry {
    fn clone(&self) -> (r: ScoresEntry)
        ensures
            r == *self,
    {
        ScoresEntry {
            game_meta_data: self.game_meta_data.clone(),
            result: self.result,
            time_elapsed: self.time_elapsed,
            lineclears: self.lineclears,
            points_scored: self.points_scored,
            pieces_locked: self.pieces_locked,
            fall_delay_reached: self.fall_delay_reached,
            lock_delay_reached: self.lock_delay_reached,
        }
    }
}

/// How a game went, as far as it got. A game that has not ended counts as given
/// up.
pub open spec fn score_of(game: GameView, meta: GameMetaData) -> ScoresEntry {
    ScoresEntry {
        game_meta_data: meta,
        result: match game.result {
            Some(result) => result,
            None => GameResult::Lost(GameOver::Forfeit),
        },
        time_elapsed: game.time,
        lineclears: game.lineclears,
        points_scored: game.score,
        pieces_locked: game.pieces_locked,
        fall_delay_reached: game.fall_delay,
        lock_delay_reached: if game.fall_delay_lowerbound_hit is Some && !delay_parts(
            game.config.lock_delay_params,
        ).constant() {
            Some(game.lock_delay)
        } else {
            None
        },
    }
}

impl ScoresEntry {
    /// Times are well-formed.
    pub open spec fn wf(self) -> bool {
        &&& self.result.wf()
        &&& self.time_elapsed.wf()
        &&& self.fall_delay_reached.wf()
        &&& (self.lock_delay_reached matches Some(d) ==> d.wf())
    }

    /// How a game went, as far as it got.
    pub fn new(game: &Game, game_meta_data: &GameMetaData) -> (r: ScoresEntry)
        ensures
            r == score_of(observed(*game), *game_meta_data),
            r.lineclears == observed(*game).lineclears,
            r.points_scored == observed(*game).score,
            r.time_elapsed == observed(*game).time,
            r.pieces_locked == observed(*game).pieces_locked,
            r.wf(),
    {
        ScoresEntry::of_snapshot(&GameSnapshot::of(game), game_meta_data)
    }

    /// How a game went, as far as a snapshot of it shows.
    pub fn of_snapshot(game: &GameSnapshot, game_meta_data: &GameMetaData) -> (r: ScoresEntry)
        ensures
            r == (ScoresEntry {
                game_meta_data: *game_meta_data,
                result: match game.result {
                    Some(result) => result,
                    None => GameResult::Lost(GameOver::Forfeit),
                },
                time_elapsed: game.time,
                lineclears: game.lineclears,
                points_scored: game.score,
                pieces_locked: game.pieces_locked,
                fall_delay_reached: game.fall_delay,
                lock_delay_reached: if game.fall_delay_lowerbound_hit
                    && !game.lock_delay_is_constant {
                    Some(game.lock_delay)
                } else {
                    None
                },
            }),
    {
        ScoresEntry {
            game_meta_data: game_meta_data.clone(),
            time_elapsed: game.time,
            pieces_locked: game.pieces_locked,
            lineclears: game.lineclears,
            fall_delay_reached: game.fall_delay,
            lock_delay_reached: if game.fall_delay_lowerbound_hit && !game.lock_delay_is_constant {
                Some(game.lock_delay)
            } else {
                None
            },
            points_scored: game.score,
            result: match game.result {
                Some(result) => result,
                None => GameResult::Lost(GameOver::Forfeit),
            },
        }
    }
}

/// The entry of a game says of it what the game itself does: its time, its lines,
/// its points, its pieces and its delays, each under its own name; and how it
/// ended, where a game that has not counts as given up.
pub proof fn law_entry_tells_how_the_game_went(game: GameView, meta: GameMetaData)
    ensures
        ({
            let entry = score_of(game, meta);
            &&& entry.game_meta_data == meta
            &&& entry.time_elapsed == game.time
            &&& entry.lineclears == game.lineclears
            &&& entry.points_scored == game.score
            &&& forall|k: int|
                0 <= k < 7 ==> #[trigger] entry.pieces_locked@[k] == game.pieces_locked@[k]
            &&& entry.fall_delay_reached == game.fall_delay
            &&& (game.result matches Some(result) ==> entry.result == result)
            &&& game.result is None ==> entry.result == GameResult::Lost(GameOver::Forfeit)
            &&& entry.lock_delay_reached is Some <==> {
                let lock = delay_parts(game.config.lock_delay_params);
                &&& game.fall_delay_lowerbound_hit is Some
                &&& !(lock.factor_bits == 0x3FF0_0000_0000_0000 && lock.subtrahend
                    == ExtDuration::Finite(InGameTime { secs: 0, subsec_nanos: 0 }))
            }
            &&& (entry.lock_delay_reached matches Some(delay) ==> delay == game.lock_delay)
        }),
{
}

/// The entry of a game is the one of any snapshot of it.
pub proof fn law_entry_of_snapshot_is_entry_of_game(
    game: GameView,
    snapshot: GameSnapshot,
    meta: GameMetaData,
    entry: ScoresEntry,
)
    requires
        snapshot.shows(game),
        entry.game_meta_data == meta,
        entry.result == match snapshot.result {
            Some(result) => result,
            None => GameResult::Lost(GameOver::Forfeit),
        },
        entry.time_elapsed == snapshot.time,
        entry.lineclears == snapshot.lineclears,
        entry.points_scored == snapshot.score,
        entry.pieces_locked == snapshot.pieces_locked,
        entry.fall_delay_reached == snapshot.fall_delay,
        entry.lock_delay_reached == if snapshot.fall_delay_lowerbound_hit
            && !snapshot.lock_delay_is_constant {
            Some(snapshot.lock_delay)
        } else {
            None
        },
    ensures
        entry == score_of(game, meta),
{
}

/// The order in which past games are listed.
#[derive(PartialEq, Eq, Structural, PartialOrd, Ord, Hash, Clone, Copy, Debug)]
pub enum ScoresSorting {
    /// The latest first.
    Chronological,
    /// By mode, then completed games first, then the best first.
    Semantic,
}

impl Default for ScoresSorting {
    fn default() -> (r: ScoresSorting)
        ensures
            r == ScoresSorting::Chronological,
    {
        ScoresSorting::Chronological
    }
}

/// A past game: how it went and what it takes to bring it back.
pub type PastGame = (ScoresEntry, Option<GameRestorationData<CompressedInputHistory>>);

/// Past games.
#[derive(Debug)]
pub struct ScoresAndReplays {
    /// The order in which they are listed.
    pub sorting: ScoresSorting,
    /// The games.
    pub entries: Vec<PastGame>,
}

impl Default for ScoresAndReplays {
    fn default() -> (r: ScoresAndReplays)
        ensures
            r.sorting == ScoresSorting::Chronological,
            r.entries@.len() == 0,
    {
        ScoresAndReplays { sorting: ScoresSorting::default(), entries: Vec::new() }
    }
}

// ---------------------------------------------------------------------------
// Order
// ---------------------------------------------------------------------------
/// Whether counts `a` come before counts `b`: by the first place from `k` on in
/// which they differ.
pub open spec fn counts_less(a: Seq<u32>, b: Seq<u32>, k: int) -> bool
    decreases 7 - k,
{
    if k >= 7 {
        false
    } else {
        a[k] < b[k] || (a[k] == b[k] && counts_less(a, b, k + 1))
    }
}

/// Whether a game has less of a statistic than another.
pub open spec fn stat_less(stat: Stat, a: ScoresEntry, b: ScoresEntry) -> bool {
    match stat {
        Stat::TimeElapsed(_) => a.time_elapsed.nanos() < b.time_elapsed.nanos(),
        Stat::PiecesLocked(_) => counts_less(a.pieces_locked@, b.pieces_locked@, 0),
        Stat::LinesCleared(_) => a.lineclears < b.lineclears,
        Stat::PointsScored(_) => a.points_scored < b.points_scored,
    }
}

/// Whether a game is listed strictly after another. The statistic that decides
/// between games of a mode is the one of `a`.
pub open spec fn listed_after(sorting: ScoresSorting, a: ScoresEntry, b: ScoresEntry) -> bool {
    match sorting {
        ScoresSorting::Chronological => !text_le(
            b.game_meta_data.datetime@,
            a.game_meta_data.datetime@,
        ),
        ScoresSorting::Semantic => {
            let (stat, less_is_better) = a.game_meta_data.comparison_stat;
            ||| !text_le(a.game_meta_data.title@, b.game_meta_data.title@)
            ||| a.game_meta_data.title@ == b.game_meta_data.title@ && {
                ||| a.result is Lost && b.result is Completed
                ||| (a.result is Lost <==> b.result is Lost) && if less_is_better {
                    stat_less(stat, b, a)
                } else {
                    stat_less(stat, a, b)
                }
            }
        },
    }
}

/// Whether the order has no contradictions among some games: no two are each
/// listed after the other, and what is not listed after a game is not listed
/// after any game that is not listed before that one.
pub open spec fn consistent(sorting: ScoresSorting, games: Seq<PastGame>) -> bool {
    &&& forall|i: int, j: int|
        #![trigger games[i], games[j]]
        0 <= i < games.len() && 0 <= j < games.len() ==> !(listed_after(
            sorting,
            games[i].0,
            games[j].0,
        ) && listed_after(sorting, games[j].0, games[i].0))
    &&& forall|i: int, j: int, k: int|
        #![trigger games[i], games[j], games[k]]
        0 <= i < games.len() && 0 <= j < games.len() && 0 <= k < games.len() && !listed_after(
            sorting,
            games[i].0,
            games[j].0,
        ) && !listed_after(sorting, games[j].0, games[k].0) ==> !listed_after(
            sorting,
            games[i].0,
            games[k].0,
        )
}

/// Whether `from` says where each game in `after` stood in `before`, so that
/// each of the latter has exactly one place in the former.
pub open spec fn rearranged(before: Seq<PastGame>, after: Seq<PastGame>, from: Seq<int>) -> bool {
    &&& after.len() == before.len()
    &&& from.len() == before.len()
    &&& forall|i: int|
        0 <= i < from.len() ==> 0 <= #[trigger] from[i] < before.len() && after[i]
            == before[from[i]]
    &&& forall|i: int, j: int|
        0 <= i < j < from.len() ==> #[trigger] from[i] != #[trigger] from[j]
}

/// Whether games stand in order, and those that the order does not tell apart
/// stand as they stood before.
pub open spec fn stands_sorted(
    sorting: ScoresSorting,
    after: Seq<PastGame>,
    from: Seq<int>,
) -> bool {
    forall|i: int, j: int|
        #![trigger after[i], after[j]]
        0 <= i < j < after.len() ==> {
            &&& !listed_after(sorting, after[i].0, after[j].0)
            &&& !listed_after(sorting, after[j].0, after[i].0) ==> from[i] < from[j]
        }
}

/// Whether `after` is `before` put in order. Where the order has contradictions
/// the games may come out in any order, but none is lost or doubled.
pub open spec fn sorted_from(
    sorting: ScoresSorting,
    before: Seq<PastGame>,
    after: Seq<PastGame>,
) -> bool {
    exists|from: Seq<int>|
        {
            &&& #[trigger] rearranged(before, after, from)
            &&& consistent(sorting, before) ==> stands_sorted(sorting, after, from)
        }
}

fn is_counts_less(a: &[u32; 7], b: &[u32; 7]) -> (r: bool)
    ensures
        r == counts_less(a@, b@, 0),
{
    let mut k: usize = 0;
    while k < 7
        invariant
            k <= 7,
            counts_less(a@, b@, 0) == counts_less(a@, b@, k as int),
        decreases 7 - k,
    {
        if a[k] != b[k] {
            return a[k] < b[k];
        }
        k = k + 1;
    }
    false
}

fn is_stat_less(stat: Stat, a: &ScoresEntry, b: &ScoresEntry) -> (r: bool)
    requires
        a.time_elapsed.wf(),
        b.time_elapsed.wf(),
    ensures
        r == stat_less(stat, *a, *b),
{
    match stat {
        Stat::TimeElapsed(_) => a.time_elapsed.before(b.time_elapsed),
        Stat::PiecesLocked(_) => is_counts_less(&a.pieces_locked, &b.pieces_locked),
        Stat::LinesCleared(_) => a.lineclears < b.lineclears,
        Stat::PointsScored(_) => a.points_scored < b.points_scored,
    }
}

fn is_listed_after(sorting: ScoresSorting, a: &ScoresEntry, b: &ScoresEntry) -> (r: bool)
    requires
        a.time_elapsed.wf(),
        b.time_elapsed.wf(),
    ensures
        r == listed_after(sorting, *a, *b),
{
    match sorting {
        ScoresSorting::Chronological => !text_not_after(
            b.game_meta_data.datetime.as_str(),
            a.game_meta_data.datetime.as_str(),
        ),
        ScoresSorting::Semantic => {
            let title_a = a.game_meta_data.title.as_str();
            let title_b = b.game_meta_data.title.as_str();
            if !text_not_after(title_a, title_b) {
                return true;
            }
            if !same_text(title_a, title_b) {
                return false;
            }
            let ok_a = a.result.is_ok();
            let ok_b = b.result.is_ok();
            if ok_a != ok_b {
                return ok_b;
            }
            let (stat, less_is_better) = a.game_meta_data.comparison_stat;
            if less_is_better {
                is_stat_less(stat, b, a)
            } else {
                is_stat_less(stat, a, b)
            }
        },
    }
}

/// Games whose times are well-formed.
pub open spec fn times_wf(games: Seq<PastGame>) -> bool {
    forall|i: int| 0 <= i < games.len() ==> (#[trigger] games[i]).0.time_elapsed.wf()
}

/// Puts games in order.
fn sort_games(sorting: ScoresSorting, games: Vec<PastGame>) -> (r: Vec<PastGame>)
    requires
        times_wf(games@),
    ensures
        sorted_from(sorting, games@, r@),
        times_wf(r@),
{
    let ghost before = games@;
    let mut sorted: Vec<PastGame> = Vec::new();
    let ghost mut from: Seq<int> = Seq::empty();
    for game in iter: games
        invariant
            iter.seq() == before,
            games@ == before,
            times_wf(before),
            times_wf(sorted@),
            sorted@.len() == iter.index(),
            from.len() == iter.index(),
            forall|i: int|
                0 <= i < from.len() ==> 0 <= #[trigger] from[i] < iter.index() && sorted@[i]
                    == before[from[i]],
            forall|i: int, j: int|
                0 <= i < j < from.len() ==> #[trigger] from[i] != #[trigger] from[j],
            consistent(sorting, before) ==> stands_sorted(sorting, sorted@, from),
    {
        let ghost n = iter.index() as int;
        let ghost was = sorted@;
        let ghost from_was = from;
        let mut pos: usize = sorted.len();
        while pos > 0 && is_listed_after(sorting, &sorted[pos - 1].0, &game.0)
            invariant
                pos <= sorted@.len(),
                sorted@ == was,
                times_wf(sorted@),
                game.0.time_elapsed.wf(),
                forall|i: int|
                    pos <= i < was.len() ==> listed_after(sorting, (#[trigger] was[i]).0, game.0),
            decreases pos,
        {
            pos = pos - 1;
        }
        let ghost p = pos as int;
        sorted.insert(pos, game);
        proof {
            from = from.insert(p, n);
            assert forall|i: int| 0 <= i < from.len() implies 0 <= #[trigger] from[i] < n + 1
                && sorted@[i] == before[from[i]] by {}
            if consistent(sorting, before) {
                lemma_inserted_in_order(sorting, before, was, from_was, game, n, p);
            }
        }
    }
    assert(rearranged(before, sorted@, from));
    sorted
}

/// A game inserted behind every game that it is not listed after, and before
/// those that are listed after it, leaves games in order.
proof fn lemma_inserted_in_order(
    sorting: ScoresSorting,
    before: Seq<PastGame>,
    was: Seq<PastGame>,
    from: Seq<int>,
    game: PastGame,
    n: int,
    p: int,
)
    requires
        consistent(sorting, before),
        0 <= n < before.len(),
        game == before[n],
        was.len() == from.len(),
        forall|i: int|
            0 <= i < from.len() ==> 0 <= #[trigger] from[i] < n && was[i] == before[from[i]],
        stands_sorted(sorting, was, from),
        0 <= p <= was.len(),
        forall|i: int| p <= i < was.len() ==> listed_after(sorting, (#[trigger] was[i]).0, game.0),
        p > 0 ==> !listed_after(sorting, was[p - 1].0, game.0),
    ensures
        stands_sorted(sorting, was.insert(p, game), from.insert(p, n)),
{
    let now = was.insert(p, game);
    let from_now = from.insert(p, n);
    assert forall|i: int, j: int|
        #![trigger now[i], now[j]]
        0 <= i < j < now.len() implies {
        &&& !listed_after(sorting, now[i].0, now[j].0)
        &&& !listed_after(sorting, now[j].0, now[i].0) ==> from_now[i] < from_now[j]
    } by {
        if j == p {
            if i < p - 1 {
                let a = before[from[i]];
            }
        } else if i == p {
            let a = before[from[j - 1]];
        }
    }
}

impl ScoresAndReplays {
    /// Games whose times are well-formed.
    pub open spec fn wf(self) -> bool {
        times_wf(self.entries@)
    }

    /// Puts the latest games first.
    pub fn sort_past_games_chronologically(&mut self)
        requires
            old(self).wf(),
        ensures
            final(self).wf(),
            sorted_from(ScoresSorting::Chronological, old(self).entries@, final(self).entries@),
            final(self).sorting == old(self).sorting,
    {
        let mut games: Vec<PastGame> = Vec::new();
        std::mem::swap(&mut games, &mut self.entries);
        self.entries = sort_games(ScoresSorting::Chronological, games);
    }

    /// Puts games of the same mode together, completed ones first, and the best
    /// of those first.
    pub fn sort_past_games_semantically(&mut self)
        requires
            old(self).wf(),
        ensures
            final(self).wf(),
            sorted_from(ScoresSorting::Semantic, old(self).entries@, final(self).entries@),
            final(self).sorting == old(self).sorting,
    {
        let mut games: Vec<PastGame> = Vec::new();
        std::mem::swap(&mut games, &mut self.entries);
        self.entries = sort_games(ScoresSorting::Semantic, games);
    }
}

/// The order by time has no contradictions.
pub proof fn law_chronological_order_is_consistent(games: Seq<PastGame>)
    ensures
        consistent(ScoresSorting::Chronological, games),
{
    let sorting = ScoresSorting::Chronological;
    assert forall|i: int, j: int|
        #![trigger games[i], games[j]]
        0 <= i < games.len() && 0 <= j < games.len() implies !(listed_after(
        sorting,
        games[i].0,
        games[j].0,
    ) && listed_after(sorting, games[j].0, games[i].0)) by {
        lemma_text_total(
            games[i].0.game_meta_data.datetime@,
            games[j].0.game_meta_data.datetime@,
        );
    }
    assert forall|i: int, j: int, k: int|
        #![trigger games[i], games[j], games[k]]
        0 <= i < games.len() && 0 <= j < games.len() && 0 <= k < games.len() && !listed_after(
            sorting,
            games[i].0,
            games[j].0,
        ) && !listed_after(sorting, games[j].0, games[k].0) implies !listed_after(
        sorting,
        games[i].0,
        games[k].0,
    ) by {
        lemma_text_transitive(
            games[k].0.game_meta_data.datetime@,
            games[j].0.game_meta_data.datetime@,
            games[i].0.game_meta_data.datetime@,
        );
    }
}

/// Whether two statistics are of the same kind.
pub open spec fn same_kind(a: Stat, b: Stat) -> bool {
    match a {
        Stat::TimeElapsed(_) => b is TimeElapsed,
        Stat::PiecesLocked(_) => b is PiecesLocked,
        Stat::LinesCleared(_) => b is LinesCleared,
        Stat::PointsScored(_) => b is PointsScored,
    }
}

/// Whether all games of the same mode are compared in the same way.
pub open spec fn compared_alike(games: Seq<PastGame>) -> bool {
    forall|i: int, j: int|
        #![trigger games[i], games[j]]
        0 <= i < games.len() && 0 <= j < games.len() && games[i].0.game_meta_data.title@
            == games[j].0.game_meta_data.title@ ==> {
            &&& same_kind(
                games[i].0.game_meta_data.comparison_stat.0,
                games[j].0.game_meta_data.comparison_stat.0,
            )
            &&& games[i].0.game_meta_data.comparison_stat.1
                == games[j].0.game_meta_data.comparison_stat.1
        }
}

proof fn lemma_counts_asymmetric(a: Seq<u32>, b: Seq<u32>, k: int)
    ensures
        !(counts_less(a, b, k) && counts_less(b, a, k)),
    decreases 7 - k,
{
    if k < 7 {
        lemma_counts_asymmetric(a, b, k + 1);
    }
}

proof fn lemma_counts_not_less_transitive(a: Seq<u32>, b: Seq<u32>, c: Seq<u32>, k: int)
    requires
        !counts_less(a, b, k),
        !counts_less(b, c, k),
    ensures
        !counts_less(a, c, k),
    decreases 7 - k,
{
    if k < 7 && a[k] == b[k] && b[k] == c[k] {
        lemma_counts_not_less_transitive(a, b, c, k + 1);
    }
}

/// If games of the same mode are compared in the same way, the order by mode
/// and success has no contradictions.
pub proof fn law_semantic_order_is_consistent(games: Seq<PastGame>)
    requires
        compared_alike(games),
    ensures
        consistent(ScoresSorting::Semantic, games),
{
    let sorting = ScoresSorting::Semantic;
    assert forall|i: int, j: int|
        #![trigger games[i], games[j]]
        0 <= i < games.len() && 0 <= j < games.len() implies !(listed_after(
        sorting,
        games[i].0,
        games[j].0,
    ) && listed_after(sorting, games[j].0, games[i].0)) by {
        let (a, b) = (games[i].0, games[j].0);
        lemma_text_total(a.game_meta_data.title@, b.game_meta_data.title@);
        lemma_counts_asymmetric(a.pieces_locked@, b.pieces_locked@, 0);
    }
    assert forall|i: int, j: int, k: int|
        #![trigger games[i], games[j], games[k]]
        0 <= i < games.len() && 0 <= j < games.len() && 0 <= k < games.len() && !listed_after(
            sorting,
            games[i].0,
            games[j].0,
        ) && !listed_after(sorting, games[j].0, games[k].0) implies !listed_after(
        sorting,
        games[i].0,
        games[k].0,
    ) by {
        let (a, b, c) = (games[i].0, games[j].0, games[k].0);
        let (ta, tb, tc) = (
            a.game_meta_data.title@,
            b.game_meta_data.title@,
            c.game_meta_data.title@,
        );
        lemma_text_transitive(ta, tb, tc);
        if ta == tc {
            lemma_text_antisymmetric(ta, tb);
            let (pa, pb, pc) = (a.pieces_locked@, b.pieces_locked@, c.pieces_locked@);
            if !counts_less(pa, pb, 0) && !counts_less(pb, pc, 0) {
                lemma_counts_not_less_transitive(pa, pb, pc, 0);
            }
            if !counts_less(pc, pb, 0) && !counts_less(pb, pa, 0) {
                lemma_counts_not_less_transitive(pc, pb, pa, 0);
            }
        }
    }
}

proof fn lemma_rearranged_same_games(
    before: Seq<PastGame>,
    after: Seq<PastGame>,
    from: Seq<int>,
)
    requires
        rearranged(before, after, from),
    ensures
        after.to_multiset() =~= before.to_multiset(),
    decreases before.len(),
{
    broadcast use vstd::seq_lib::group_to_multiset_ensures;

    let n = before.len() as int;
    if n == 0 {
    } else {
        let m = from[n - 1];
        let rest = before.remove(m);
        let rest_after = after.drop_last();
        let rest_from = Seq::new(
            (n - 1) as nat,
            |i: int|
                if from[i] > m {
                    from[i] - 1
                } else {
                    from[i]
                },
        );
        lemma_rearranged_same_games(rest, rest_after, rest_from);
        assert(rest_after.push(after.last()) =~= after);
        assert(before.to_multiset().count(before[m]) > 0) by {
        }
    }
}

/// Putting games in order loses none and doubles none.
pub proof fn law_sorting_keeps_games(
    sorting: ScoresSorting,
    before: Seq<PastGame>,
    after: Seq<PastGame>,
)
    requires
        sorted_from(sorting, before, after),
    ensures
        after.to_multiset() =~= before.to_multiset(),
{
    let from = choose|from: Seq<int>|
        {
            &&& #[trigger] rearranged(before, after, from)
            &&& consistent(sorting, before) ==> stands_sorted(sorting, after, from)
        };
    lemma_rearranged_same_games(before, after, from);
}

/// In the order by time no game stands before a later one: its date, as a whole
/// text, is the same or has the greater character where the two first differ.
pub proof fn law_latest_games_come_first(before: Seq<PastGame>, after: Seq<PastGame>, i: int, j: int)
    requires
        sorted_from(ScoresSorting::Chronological, before, after),
        0 <= i < j < after.len(),
    ensures
        exists|k: int|
            lesser_from(
                after[j].0.game_meta_data.datetime@,
                after[i].0.game_meta_data.datetime@,
                k,
            ),
{
    law_chronological_order_is_consistent(before);
    let a = after[i].0.game_meta_data.datetime@;
    let b = after[j].0.game_meta_data.datetime@;
    law_first_difference_decides(b, a);
}

/// In the order by time, games of the same date stand as they stood before, and
/// every game stands in one place.
pub proof fn law_games_of_one_date_keep_their_order(before: Seq<PastGame>, after: Seq<PastGame>)
    requires
        sorted_from(ScoresSorting::Chronological, before, after),
    ensures
        exists|from: Seq<int>|
            {
                &&& #[trigger] from.len() == before.len() == after.len()
                &&& forall|i: int|
                    0 <= i < from.len() ==> 0 <= #[trigger] from[i] < before.len() && after[i]
                        == before[from[i]]
                &&& forall|i: int, j: int|
                    0 <= i < j < from.len() ==> {
                        &&& #[trigger] from[i] != #[trigger] from[j]
                        &&& after[i].0.game_meta_data.datetime@
                            == after[j].0.game_meta_data.datetime@ ==> from[i] < from[j]
                    }
            },
{
    law_chronological_order_is_consistent(before);
    let from = choose|from: Seq<int>|
        {
            &&& #[trigger] rearranged(before, after, from)
            &&& consistent(ScoresSorting::Chronological, before) ==> stands_sorted(
                ScoresSorting::Chronological,
                after,
                from,
            )
        };
    assert(from.len() == before.len());
    assert forall|i: int, j: int| 0 <= i < j < from.len() implies {
        &&& #[trigger] from[i] != #[trigger] from[j]
        &&& after[i].0.game_meta_data.datetime@ == after[j].0.game_meta_data.datetime@ ==> from[i]
            < from[j]
    } by {
        let a = after[i].0.game_meta_data.datetime@;
        lemma_text_total(a, a);
        assert(!listed_after(ScoresSorting::Chronological, after[i].0, after[j].0));
    }
}

/// In the order by mode, games stand by the name of their mode, completed ones
/// before lost ones; and of those the better one first, by the statistic of its
/// mode.
pub proof fn law_modes_stand_together_and_better_games_first(
    before: Seq<PastGame>,
    after: Seq<PastGame>,
    i: int,
    j: int,
)
    requires
        sorted_from(ScoresSorting::Semantic, before, after),
        compared_alike(before),
        0 <= i < j < after.len(),
    ensures
        ({
            let (a, b) = (after[i].0, after[j].0);
            let (title_a, title_b) = (a.game_meta_data.title@, b.game_meta_data.title@);
            let (stat, less_is_better) = a.game_meta_data.comparison_stat;
            &&& exists|k: int| lesser_from(title_a, title_b, k)
            &&& title_a == title_b ==> {
                &&& !(a.result is Lost && b.result is Completed)
                &&& (a.result is Lost) == (b.result is Lost) ==> match (stat, less_is_better) {
                    (Stat::TimeElapsed(_), true) => a.time_elapsed.nanos()
                        <= b.time_elapsed.nanos(),
                    (Stat::TimeElapsed(_), false) => a.time_elapsed.nanos()
                        >= b.time_elapsed.nanos(),
                    (Stat::LinesCleared(_), true) => a.lineclears <= b.lineclears,
                    (Stat::LinesCleared(_), false) => a.lineclears >= b.lineclears,
                    (Stat::PointsScored(_), true) => a.points_scored <= b.points_scored,
                    (Stat::PointsScored(_), false) => a.points_scored >= b.points_scored,
                    (Stat::PiecesLocked(_), true) => first_count_decides(
                        a.pieces_locked@,
                        b.pieces_locked@,
                    ),
                    (Stat::PiecesLocked(_), false) => first_count_decides(
                        b.pieces_locked@,
                        a.pieces_locked@,
                    ),
                }
            }
        }),
{
    law_semantic_order_is_consistent(before);
    let (a, b) = (after[i].0, after[j].0);
    law_first_difference_decides(a.game_meta_data.title@, b.game_meta_data.title@);
    lemma_first_count(a.pieces_locked@, b.pieces_locked@, 0);
    lemma_first_count(b.pieces_locked@, a.pieces_locked@, 0);
}

/// Whether seven counts are the same as others, or less in the first place in
/// which they differ.
pub open spec fn first_count_decides(a: Seq<u32>, b: Seq<u32>) -> bool {
    forall|k: int|
        0 <= k < 7 && (forall|m: int| 0 <= m < k ==> #[trigger] a[m] == b[m]) ==> #[trigger] a[k]
            <= b[k]
}

proof fn lemma_first_count(a: Seq<u32>, b: Seq<u32>, from: int)
    requires
        0 <= from <= 7,
    ensures
        !counts_less(b, a, from) ==> forall|k: int|
            from <= k < 7 && (forall|m: int| from <= m < k ==> #[trigger] a[m] == b[m])
                ==> #[trigger] a[k] <= b[k],
    decreases 7 - from,
{
    if from < 7 {
        lemma_first_count(a, b, from + 1);
        if !counts_less(b, a, from) {
            assert forall|k: int|
                from <= k < 7 && (forall|m: int| from <= m < k ==> #[trigger] a[m]
                    == b[m]) implies #[trigger] a[k] <= b[k] by {
                if k > from {
                    assert(a[from] == b[from]);
                }
            }
        }
    }
}

// ---------------------------------------------------------------------------
// Personal bests
// ---------------------------------------------------------------------------
/// A number of milliseconds as a signed number of 64 bits, the bits above which
/// are cut off.
pub open spec fn signed_millis(millis: nat) -> int {
    let low = millis % 0x1_0000_0000_0000_0000;
    if low < 0x8000_0000_0000_0000 {
        low as int
    } else {
        low - 0x1_0000_0000_0000_0000
    }
}

/// How much a game has of a statistic.
pub open spec fn measured(stat: Stat, entry: ScoresEntry) -> int {
    match stat {
        Stat::TimeElapsed(_) => signed_millis(entry.time_elapsed.millis()),
        Stat::PiecesLocked(_) => total_pieces(entry.pieces_locked@) as int,
        Stat::LinesCleared(_) => entry.lineclears as int,
        Stat::PointsScored(_) => entry.points_scored as int,
    }
}

/// Whether a game is one that a completed game has to stand up to: a completed
/// one of the same mode.
pub open spec fn rivals(entry: ScoresEntry, other: ScoresEntry) -> bool {
    other.result is Completed && other.game_meta_data.title@ == entry.game_meta_data.title@
}

/// Whether a game is at least as good as another, by its own statistic.
pub open spec fn as_good_as(entry: ScoresEntry, other: ScoresEntry) -> bool {
    let (stat, less_is_better) = entry.game_meta_data.comparison_stat;
    if less_is_better {
        measured(stat, entry) <= measured(stat, other)
    } else {
        measured(stat, entry) >= measured(stat, other)
    }
}

/// Whether a game is a personal best: completed, and at least as good as every
/// completed game of its mode.
pub open spec fn personal_best(games: Seq<PastGame>, entry: ScoresEntry) -> bool {
    &&& entry.result is Completed
    &&& forall|i: int|
        0 <= i < games.len() && rivals(entry, (#[trigger] games[i]).0) ==> as_good_as(
            entry,
            games[i].0,
        )
}

/// How much a game has of a statistic.
fn measure(stat: Stat, entry: &ScoresEntry) -> (r: i64)
    requires
        stat is PiecesLocked ==> total_pieces(entry.pieces_locked@) <= u32::MAX,
    ensures
        r == measured(stat, *entry),
{
    match stat {
        Stat::TimeElapsed(_) => {
            let low: u128 = entry.time_elapsed.as_millis() % 0x1_0000_0000_0000_0000;
            if low < 0x8000_0000_0000_0000 {
                low as i64
            } else {
                (low as i128 - 0x1_0000_0000_0000_0000) as i64
            }
        },
        Stat::PiecesLocked(_) => sum_of_pieces(&entry.pieces_locked) as i64,
        Stat::LinesCleared(_) => entry.lineclears as i64,
        Stat::PointsScored(_) => entry.points_scored as i64,
    }
}

/// Whether a game can be held against past ones: where it is about pieces, its own
/// and those of the games that it is held against can be counted.
pub open spec fn comparable(games: Seq<PastGame>, entry: ScoresEntry) -> bool {
    entry.result is Completed && entry.game_meta_data.comparison_stat.0 is PiecesLocked ==> {
        &&& total_pieces(entry.pieces_locked@) <= u32::MAX
        &&& forall|i: int|
            0 <= i < games.len() && rivals(entry, (#[trigger] games[i]).0) ==> total_pieces(
                games[i].0.pieces_locked@,
            ) <= u32::MAX
    }
}

impl ScoresAndReplays {
    /// Whether a game is a personal best.
    pub fn is_personal_best(&self, entry: &ScoresEntry) -> (r: bool)
        requires
            comparable(self.entries@, *entry),
        ensures
            r == personal_best(self.entries@, *entry),
    {
        if !entry.result.is_ok() {
            return false;
        }
        let (stat, less_is_better) = entry.game_meta_data.comparison_stat;
        let current: i64 = measure(stat, entry);
        for k in 0..self.entries.len()
            invariant
                comparable(self.entries@, *entry),
                entry.result is Completed,
                (stat, less_is_better) == entry.game_meta_data.comparison_stat,
                current == measured(stat, *entry),
                forall|i: int|
                    0 <= i < k && rivals(*entry, (#[trigger] self.entries@[i]).0) ==> as_good_as(
                        *entry,
                        self.entries@[i].0,
                    ),
        {
            let other: &ScoresEntry = &self.entries[k].0;
            if other.result.is_ok() && same_text(
                other.game_meta_data.title.as_str(),
                entry.game_meta_data.title.as_str(),
            ) {
                let value: i64 = measure(stat, other);
                let good = if less_is_better {
                    current <= value
                } else {
                    current >= value
                };
                if !good {
                    return false;
                }
            }
        }
        true
    }
}

/// How much of a statistic two games have, as far as times fit 63 bits in
/// milliseconds: whether the first has at most as much as the second.
pub open spec fn at_most(stat: Stat, a: ScoresEntry, b: ScoresEntry) -> bool {
    match stat {
        Stat::TimeElapsed(_) => a.time_elapsed.nanos() / 1_000_000 <= b.time_elapsed.nanos()
            / 1_000_000,
        Stat::PiecesLocked(_) => a.pieces_locked@[0] + a.pieces_locked@[1] + a.pieces_locked@[2]
            + a.pieces_locked@[3] + a.pieces_locked@[4] + a.pieces_locked@[5] + a.pieces_locked@[6]
            <= b.pieces_locked@[0] + b.pieces_locked@[1] + b.pieces_locked@[2]
            + b.pieces_locked@[3] + b.pieces_locked@[4] + b.pieces_locked@[5] + b.pieces_locked@[6],
        Stat::LinesCleared(_) => a.lineclears <= b.lineclears,
        Stat::PointsScored(_) => a.points_scored <= b.points_scored,
    }
}

/// A game is a personal best exactly if it was completed and no completed game of
/// the same mode has less of the statistic of which less is better, or more of one
/// of which more is.
pub proof fn law_best_stands_up_to_every_rival(games: Seq<PastGame>, entry: ScoresEntry)
    requires
        entry.time_elapsed.secs < u64::MAX / 2_000,
        forall|i: int|
            0 <= i < games.len() ==> (#[trigger] games[i]).0.time_elapsed.secs < u64::MAX / 2_000,
        entry.time_elapsed.wf(),
        times_wf(games),
    ensures
        personal_best(games, entry) <==> {
            &&& entry.result is Completed
            &&& forall|i: int|
                0 <= i < games.len() && (#[trigger] games[i]).0.result is Completed
                    && games[i].0.game_meta_data.title@ == entry.game_meta_data.title@ ==> {
                    let (stat, less_is_better) = entry.game_meta_data.comparison_stat;
                    if less_is_better {
                        at_most(stat, entry, games[i].0)
                    } else {
                        at_most(stat, games[i].0, entry)
                    }
                }
        },
{
    assert forall|i: int| 0 <= i < games.len() implies as_good_as(entry, (#[trigger] games[i]).0)
        == {
        let (stat, less_is_better) = entry.game_meta_data.comparison_stat;
        if less_is_better {
            at_most(stat, entry, games[i].0)
        } else {
            at_most(stat, games[i].0, entry)
        }
    } by {
        assert(games[i].0.time_elapsed.wf());
        let stat = entry.game_meta_data.comparison_stat.0;
        lemma_measured(stat, entry);
        lemma_measured(stat, games[i].0);
    }
}

proof fn lemma_measured(stat: Stat, e: ScoresEntry)
    requires
        e.time_elapsed.wf(),
        e.time_elapsed.secs < u64::MAX / 2_000,
    ensures
        stat is TimeElapsed ==> measured(stat, e) == e.time_elapsed.nanos() / 1_000_000,
        stat is PiecesLocked ==> measured(stat, e) == e.pieces_locked@[0] + e.pieces_locked@[1]
            + e.pieces_locked@[2] + e.pieces_locked@[3] + e.pieces_locked@[4] + e.pieces_locked@[5]
            + e.pieces_locked@[6],
{
    reveal_with_fuel(crate::game::count_sum, 8);
    let millis = e.time_elapsed.millis();
    assert(millis < 0x8000_0000_0000_0000);
    assert(millis % 0x1_0000_0000_0000_0000 == millis);
}

/// The first completed game of a mode is a personal best.
pub proof fn law_first_completed_game_is_best(games: Seq<PastGame>, entry: ScoresEntry)
    requires
        entry.result is Completed,
        forall|i: int| 0 <= i < games.len() ==> !rivals(entry, (#[trigger] games[i]).0),
    ensures
        personal_best(games, entry),
{
}

/// Of two personal bests of a mode that are compared in the same way, neither is
/// better than the other.
pub proof fn law_bests_are_equal(games: Seq<PastGame>, a: int, b: int)
    requires
        0 <= a < games.len(),
        0 <= b < games.len(),
        personal_best(games, games[a].0),
        personal_best(games, games[b].0),
        games[a].0.game_meta_data.title@ == games[b].0.game_meta_data.title@,
        games[a].0.game_meta_data.comparison_stat == games[b].0.game_meta_data.comparison_stat,
    ensures
        measured(games[a].0.game_meta_data.comparison_stat.0, games[a].0) == measured(
            games[a].0.game_meta_data.comparison_stat.0,
            games[b].0,
        ),
{
}

/// Putting games in order does not change which games are personal bests.
pub proof fn law_sorting_keeps_bests(
    sorting: ScoresSorting,
    before: Seq<PastGame>,
    after: Seq<PastGame>,
    entry: ScoresEntry,
)
    requires
        sorted_from(sorting, before, after),
    ensures
        personal_best(after, entry) == personal_best(before, entry),
{
    law_sorting_keeps_games(sorting, before, after);
    after.to_multiset_ensures();
    before.to_multiset_ensures();
    if personal_best(before, entry) {
        assert forall|i: int|
            0 <= i < after.len() && rivals(entry, (#[trigger] after[i]).0) implies as_good_as(
            entry,
            after[i].0,
        ) by {
            assert(before.to_multiset().count(after[i]) > 0);
            let j = choose|j: int| 0 <= j < before.len() && before[j] == after[i];
        }
    }
    if personal_best(after, entry) {
        assert forall|i: int|
            0 <= i < before.len() && rivals(entry, (#[trigger] before[i]).0) implies as_good_as(
            entry,
            before[i].0,
        ) by {
            assert(after.to_multiset().count(before[i]) > 0);
            let j = choose|j: int| 0 <= j < after.len() && after[j] == before[i];
        }
    }
}

// ---------------------------------------------------------------------------
// Tests for what can come from outside
// ---------------------------------------------------------------------------
impl ScoresEntry {
    /// Whether times are well-formed.
    pub fn is_wf(&self) -> (b: bool)
        ensures
            b == self.wf(),
    {
        let lock_delay_wf = match self.lock_delay_reached {
            Some(d) => d.is_wf(),
            None => true,
        };
        self.result.is_wf() && self.time_elapsed.is_wf() && self.fall_delay_reached.is_wf()
            && lock_delay_wf
    }
}

impl ScoresAndReplays {
    /// Whether a game can be held against the past ones.
    pub fn is_comparable(&self, entry: &ScoresEntry) -> (b: bool)
        ensures
            b == comparable(self.entries@, *entry),
    {
        if !entry.result.is_ok() {
            return true;
        }
        match entry.game_meta_data.comparison_stat.0 {
            Stat::PiecesLocked(_) => {},
            _ => {
                return true;
            },
        }
        if !is_countable(&entry.pieces_locked) {
            return false;
        }
        for k in 0..self.entries.len()
            invariant
                entry.result is Completed,
                entry.game_meta_data.comparison_stat.0 is PiecesLocked,
                total_pieces(entry.pieces_locked@) <= u32::MAX,
                forall|i: int|
                    0 <= i < k && rivals(*entry, (#[trigger] self.entries@[i]).0) ==> total_pieces(
                        self.entries@[i].0.pieces_locked@,
                    ) <= u32::MAX,
        {
            let other: &ScoresEntry = &self.entries[k].0;
            if other.result.is_ok() && same_text(
                other.game_meta_data.title.as_str(),
                entry.game_meta_data.title.as_str(),
            ) && !is_countable(&other.pieces_locked) {
                assert(rivals(*entry, self.entries@[k as int].0));
                return false;
            }
        }
        true
    }
}

} // verus!

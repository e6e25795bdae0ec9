//! Playing a game: what follows from what the player does, and when.
use crate::application::{keeps_when_packed, Application, H_MAIN, W_MAIN};
use crate::builder::{blueprint_content, builder_content, texts_of};
use crate::button::{lemma_variants_numbered, Button, ButtonChange};
use crate::game::{join3, Feedback, GameMetaData, GameOver, GameResult};
use crate::input_history::{
    compressed, decompressed, history_wf, law_decompress_inverts_compress, time_of_nanos, CompressedInputHistory, UncompressedInputHistory,
};
use crate::keys::{is_letter, types_letter, KeyCode, KeyEvent, KeyEventKind};
use crate::live::{
    advance, advanced, forfeited, game_result, game_seed, game_time, observed, pressed_since, tame,
    updates, Advance, UpdateGameError,
};
use crate::menu::{Menu, MenuUpdate};
use crate::readiness::{pressed_after, ready};
use crate::renderer::{DiffPrintRenderer, FeedbackMsg};
use crate::restoration::{in_order, GameRestorationData, GameSave};
use crate::scores::{score_of, PastGame, ScoresEntry};
use crate::settings::{GraphicsSettings, NewGameSettings, Settings};
use crate::text::{decimal, decimal_of};
use crate::time::{lemma_time_by_nanos, max_nanos, InGameTime, NANOS_PER_MILLI};
use falling_tetromino_engine::Game;
use vstd::prelude::*;
use vstd::string::*;

verus! {

// ---------------------------------------------------------------------------
// Times
// ---------------------------------------------------------------------------
/// How many milliseconds it takes to cover some nanoseconds.
pub open spec fn millis_up(nanos: nat) -> nat {
    if nanos % NANOS_PER_MILLI as nat == 0 {
        nanos / NANOS_PER_MILLI as nat
    } else {
        nanos / NANOS_PER_MILLI as nat + 1
    }
}

/// How many nanoseconds into the game an input counts: when it was made, but not
/// in the game's past, in whole milliseconds of which 64 bits are kept.
pub open spec fn input_nanos(game: InGameTime, entered: InGameTime, since: InGameTime) -> nat {
    let intended = entered.nanos() + since.nanos();
    let reached = if game.nanos() < intended {
        intended
    } else {
        game.nanos()
    };
    (millis_up(reached) % 0x1_0000_0000_0000_0000) * NANOS_PER_MILLI as nat
}

/// The time at which an input counts, given the game's time, its time when the
/// player entered it, and how long after that the input was made.
pub fn input_time(game: InGameTime, entered: InGameTime, since: InGameTime) -> (t: InGameTime)
    requires
        game.wf(),
        entered.wf(),
        since.wf(),
        entered.nanos() + since.nanos() <= max_nanos(),
    ensures
        t.wf(),
        t.nanos() == input_nanos(game, entered, since),
{
    let nanos: u128 = game.later(entered.saturating_add(since)).as_nanos();
    let millis: u128 = nanos / NANOS_PER_MILLI + if nanos % NANOS_PER_MILLI == 0 {
        0
    } else {
        1
    };
    InGameTime::from_millis((millis % 0x1_0000_0000_0000_0000) as u64)
}

/// An input counts neither in the game's past nor before it was made, less than
/// a millisecond late, and in whole milliseconds, as long as these fit 64 bits.
pub proof fn law_input_is_on_time(game: InGameTime, entered: InGameTime, since: InGameTime)
    requires
        millis_up(game.nanos()) <= u64::MAX,
        millis_up(entered.nanos() + since.nanos()) <= u64::MAX,
    ensures
        game.nanos() <= input_nanos(game, entered, since),
        entered.nanos() + since.nanos() <= input_nanos(game, entered, since),
        input_nanos(game, entered, since) < game.nanos() + NANOS_PER_MILLI || input_nanos(
            game,
            entered,
            since,
        ) < entered.nanos() + since.nanos() + NANOS_PER_MILLI,
        input_nanos(game, entered, since) % NANOS_PER_MILLI as nat == 0,
{
    let intended = entered.nanos() + since.nanos();
    let reached = if game.nanos() < intended {
        intended
    } else {
        game.nanos()
    };
    assert(millis_up(reached) % 0x1_0000_0000_0000_0000 == millis_up(reached));
}

/// Whether every input was made at a whole number of milliseconds, so that
/// packing loses nothing of it.
pub open spec fn all_whole_millis(h: Seq<(InGameTime, ButtonChange)>) -> bool {
    forall|k: int| 0 <= k < h.len() ==> (#[trigger] h[k]).0.is_whole_millis()
}

/// When the last of some inputs was made.
pub open spec fn last_nanos(h: Seq<(InGameTime, ButtonChange)>) -> nat {
    if h.len() == 0 {
        0
    } else {
        h.last().0.nanos()
    }
}

/// As long as times fit 64 bits in milliseconds, an input comes after those before
/// it, if those are not ahead of the game. So do the buttons that are let go of.
pub proof fn law_inputs_stay_in_order(
    inputs: Seq<(InGameTime, ButtonChange)>,
    game: InGameTime,
    entered: InGameTime,
    since: InGameTime,
)
    requires
        last_nanos(inputs) <= game.nanos(),
        millis_up(game.nanos()) <= u64::MAX,
        millis_up(entered.nanos() + since.nanos()) <= u64::MAX,
    ensures
        last_nanos(inputs) <= input_nanos(game, entered, since),
        last_nanos(inputs) <= release_nanos(game),
{
    law_input_is_on_time(game, entered, since);
}

/// Whether a frame lies a whole number of intervals, at least one, after the
/// previous one, and is the first such that is not yet missed.
pub open spec fn is_next_frame(previous: nat, interval: nat, now: nat, frame: nat) -> bool {
    exists|n: nat|
        {
            &&& n >= 1
            &&& frame == previous + #[trigger] spans(n, interval)
            &&& n == 1 || previous + spans((n - 1) as nat, interval) < now
            &&& frame >= now
        }
}

/// Some intervals together.
pub open spec fn spans(n: nat, interval: nat) -> nat {
    n * interval
}

/// When the next frame is due that is not yet missed.
pub fn next_frame_time(previous: InGameTime, interval: InGameTime, now: InGameTime) -> (t:
    InGameTime)
    requires
        previous.wf(),
        interval.wf(),
        now.wf(),
        interval.nanos() > 0 || previous.nanos() >= now.nanos(),
        previous.nanos() + interval.nanos() <= max_nanos(),
        now.nanos() + interval.nanos() <= max_nanos(),
    ensures
        t.wf(),
        is_next_frame(previous.nanos(), interval.nanos(), now.nanos(), t.nanos()),
{
    let start: u128 = previous.as_nanos();
    let step: u128 = interval.as_nanos();
    let target: u128 = now.as_nanos();
    if start + step >= target {
        assert(spans(1, step as nat) == step);
        return InGameTime::from_nanos(start + step);
    }
    let gap: u128 = target - start;
    let n: u128 = (gap - 1) / step + 1;
    proof {
        assert((gap - 1) / (step as int) * step <= gap - 1 < (gap - 1) / (step as int) * step
            + step) by (nonlinear_arith)
            requires
                step > 0,
                gap >= 1,
        ;
        assert(spans(n as nat, step as nat) == (gap - 1) / (step as int) * step + step)
            by (nonlinear_arith)
            requires
                n == (gap - 1) / (step as int) + 1,
                step > 0,
                gap >= 1,
        ;
        assert(spans((n - 1) as nat, step as nat) == (gap - 1) / (step as int) * step)
            by (nonlinear_arith)
            requires
                n == (gap - 1) / (step as int) + 1,
                step > 0,
                gap >= 1,
        ;
        assert(n * step == spans(n as nat, step as nat));
    }
    InGameTime::from_nanos(start + n * step)
}

/// Frames never come early, and none that is due is skipped: an interval before
/// the next frame lies the previous one or a frame that is already missed.
pub proof fn law_frames_catch_up(previous: nat, interval: nat, now: nat, frame: nat)
    requires
        is_next_frame(previous, interval, now, frame),
    ensures
        frame >= now,
        frame >= previous + interval,
        frame == previous + interval || frame - interval < now,
{
    let n = choose|n: nat|
        {
            &&& n >= 1
            &&& frame == previous + #[trigger] spans(n, interval)
            &&& n == 1 || previous + spans((n - 1) as nat, interval) < now
            &&& frame >= now
        };
    assert(spans(n, interval) == spans((n - 1) as nat, interval) + interval) by (nonlinear_arith)
        requires
            n >= 1,
    ;
    if n == 1 {
        assert(spans(n, interval) == interval) by (nonlinear_arith)
            requires
                n == 1,
        ;
    }
}

// ---------------------------------------------------------------------------
// Buttons
// ---------------------------------------------------------------------------
/// How it goes on after something that the player did.
#[derive(Debug)]
pub enum PlayStep {
    /// The next input is awaited.
    KeepWaiting,
    /// The next frame is drawn.
    StopWaiting,
    /// It is looked again whether the game has ended.
    Restart,
    /// The game is left.
    Leave(MenuUpdate),
    /// The game is in a state from which it may not be able to go on.
    Stuck,
}

/// A renderer that has taken in messages.
pub open spec fn told(
    before: DiffPrintRenderer,
    msgs: Seq<FeedbackMsg>,
    after: DiffPrintRenderer,
) -> bool {
    &&& after.screen == before.screen
    &&& after.buffered_text_msgs == before.buffered_text_msgs
    &&& after.hard_drop_tiles == before.hard_drop_tiles
    &&& after.buffered_feedback_msgs@ == before.buffered_feedback_msgs@ + msgs
}

/// How it goes on after the game was moved on, and what is told of that.
pub open spec fn follows(
    before: DiffPrintRenderer,
    r: Advance,
    after: DiffPrintRenderer,
    step: PlayStep,
) -> bool {
    match r {
        Advance::Updated(msgs) => told(before, msgs@, after) && step == PlayStep::KeepWaiting,
        Advance::Refused(UpdateGameError::GameEnded) => after == before && step
            == PlayStep::StopWaiting,
        Advance::Refused(UpdateGameError::TargetTimeInPast) => after == before && step
            == PlayStep::Stuck,
        Advance::NotReady => after == before && step == PlayStep::Stuck,
    }
}

/// The game, the inputs made in it and what draws it.
pub struct Playing {
    /// The game.
    pub game: Game,
    /// The inputs.
    pub inputs: Seq<(InGameTime, ButtonChange)>,
    /// What draws the game.
    pub renderer: DiffPrintRenderer,
}

/// Whether this came of one change of a button.
pub open spec fn changes(
    before: Playing,
    t: InGameTime,
    change: ButtonChange,
    after: Playing,
    step: PlayStep,
) -> bool {
    &&& after.inputs == before.inputs.push((t, change))
    &&& exists|r: Advance|
        #[trigger] advanced(before.game, t, Some(change), after.game, r) && follows(
            before.renderer,
            r,
            after.renderer,
            step,
        )
}

/// Makes one change of a button.
fn change_button(
    game: &mut Game,
    inputs: &mut UncompressedInputHistory,
    renderer: &mut DiffPrintRenderer,
    t: InGameTime,
    change: ButtonChange,
) -> (step: PlayStep)
    requires
        tame(*old(game)),
        t.wf(),
    ensures
        tame(*final(game)),
        changes(
            Playing { game: *old(game), inputs: old(inputs)@, renderer: *old(renderer) },
            t,
            change,
            Playing { game: *final(game), inputs: final(inputs)@, renderer: *final(renderer) },
            step,
        ),
        final(inputs)@ == old(inputs)@.push((t, change)),
{
    inputs.push((t, change));
    let r = advance(game, t, Some(change));
    let ghost outcome = r;
    let step = match r {
        Advance::Updated(msgs) => {
            renderer.push_game_feedback_msgs(msgs);
            PlayStep::KeepWaiting
        },
        Advance::Refused(UpdateGameError::GameEnded) => PlayStep::StopWaiting,
        Advance::Refused(UpdateGameError::TargetTimeInPast) => PlayStep::Stuck,
        Advance::NotReady => PlayStep::Stuck,
    };
    proof {
        let before = Playing { game: *old(game), inputs: old(inputs)@, renderer: *old(renderer) };
        let after = Playing { game: *game, inputs: inputs@, renderer: *renderer };
        assert(after.inputs == before.inputs.push((t, change)));
        assert(advanced(before.game, t, Some(change), after.game, outcome));
        assert(follows(before.renderer, outcome, after.renderer, step));
        assert(changes(before, t, change, after, step));
    }
    step
}

/// Whether this came of what happened to the key of a button. A terminal that
/// tells when keys come up is taken at its word; with any other, a key that goes
/// down stands for a button that goes down and up again at once.
pub open spec fn plays_button(
    kitty_assumed: bool,
    before: Playing,
    t: InGameTime,
    button: Button,
    kind: KeyEventKind,
    after: Playing,
    step: PlayStep,
) -> bool {
    if kitty_assumed {
        match kind {
            KeyEventKind::Press => changes(before, t, ButtonChange::Press(button), after, step),
            KeyEventKind::Repeat => after == before && step == PlayStep::KeepWaiting,
            KeyEventKind::Release => changes(before, t, ButtonChange::Release(button), after, step),
        }
    } else if kind == KeyEventKind::Release {
        after == before && step == PlayStep::KeepWaiting
    } else {
        exists|middle: Playing, first: PlayStep|
            {
                &&& #[trigger] changes(before, t, ButtonChange::Press(button), middle, first)
                &&& if first == PlayStep::KeepWaiting {
                    changes(middle, t, ButtonChange::Release(button), after, step)
                } else {
                    after == middle && step == first
                }
            }
    }
}

/// Plays a button, given what happened to its key and how long after the player
/// entered the game.
pub fn play_button(
    kitty_assumed: bool,
    game: &mut Game,
    inputs: &mut UncompressedInputHistory,
    renderer: &mut DiffPrintRenderer,
    entered: InGameTime,
    since: InGameTime,
    button: Button,
    kind: KeyEventKind,
) -> (step: PlayStep)
    requires
        tame(*old(game)),
        entered.wf(),
        since.wf(),
        entered.nanos() + since.nanos() <= max_nanos(),
    ensures
        tame(*final(game)),
        exists|t: InGameTime|
            {
                &&& t.wf()
                &&& t.nanos() == input_nanos(observed(*old(game)).time, entered, since)
                &&& #[trigger] plays_button(
                    kitty_assumed,
                    Playing { game: *old(game), inputs: old(inputs)@, renderer: *old(renderer) },
                    t,
                    button,
                    kind,
                    Playing {
                        game: *final(game),
                        inputs: final(inputs)@,
                        renderer: *final(renderer),
                    },
                    step,
                )
            },
        all_whole_millis(old(inputs)@) ==> all_whole_millis(final(inputs)@),
        in_order(old(inputs)@) && last_nanos(old(inputs)@) <= input_nanos(
            observed(*old(game)).time,
            entered,
            since,
        ) ==> in_order(final(inputs)@),
{
    let ghost before = Playing { game: *game, inputs: inputs@, renderer: *renderer };
    let t = input_time(game_time(game), entered, since);
    if kitty_assumed {
        let change = match kind {
            KeyEventKind::Press => ButtonChange::Press(button),
            KeyEventKind::Repeat => {
                assert(plays_button(
                    kitty_assumed,
                    before,
                    t,
                    button,
                    kind,
                    before,
                    PlayStep::KeepWaiting,
                ));
                return PlayStep::KeepWaiting;
            },
            KeyEventKind::Release => ButtonChange::Release(button),
        };
        let step = change_button(game, inputs, renderer, t, change);
        let ghost after = Playing { game: *game, inputs: inputs@, renderer: *renderer };
        assert(plays_button(kitty_assumed, before, t, button, kind, after, step));
        return step;
    }
    if kind == KeyEventKind::Release {
        assert(plays_button(
            kitty_assumed,
            before,
            t,
            button,
            kind,
            before,
            PlayStep::KeepWaiting,
        ));
        return PlayStep::KeepWaiting;
    }
    let first = change_button(game, inputs, renderer, t, ButtonChange::Press(button));
    let ghost middle = Playing { game: *game, inputs: inputs@, renderer: *renderer };
    assert(changes(before, t, ButtonChange::Press(button), middle, first));
    match first {
        PlayStep::KeepWaiting => {
            let step = change_button(game, inputs, renderer, t, ButtonChange::Release(button));
            let ghost after = Playing { game: *game, inputs: inputs@, renderer: *renderer };
            assert(plays_button(kitty_assumed, before, t, button, kind, after, step));
            step
        },
        _ => {
            assert(plays_button(kitty_assumed, before, t, button, kind, middle, first));
            first
        },
    }
}

/// Whether a game takes a change of a button at a time: it has not ended, the time
/// does not lie in its past, and the engine can move it on.
pub open spec fn takes(game: Game, t: InGameTime, change: ButtonChange) -> bool {
    &&& observed(game).result is None
    &&& observed(game).time.nanos() <= t.nanos()
    &&& ready(observed(game), t, Some(change))
}

/// A change of a button is recorded whatever comes of it. A game that takes it is
/// moved on by exactly that change, to that time, and what it tells is passed on
/// behind what was told before; any other game stays as it is and tells nothing.
pub proof fn law_change_is_recorded_and_made(
    before: Playing,
    t: InGameTime,
    change: ButtonChange,
    after: Playing,
    step: PlayStep,
)
    requires
        changes(before, t, change, after, step),
    ensures
        after.inputs.len() == before.inputs.len() + 1,
        after.inputs.last() == (t, change),
        forall|i: int|
            0 <= i < before.inputs.len() ==> #[trigger] after.inputs[i] == before.inputs[i],
        takes(before.game, t, change) <==> step == PlayStep::KeepWaiting,
        takes(before.game, t, change) ==> exists|msgs: Seq<FeedbackMsg>|
            {
                &&& #[trigger] updates(before.game, t, Some(change), after.game, msgs)
                &&& after.renderer.buffered_feedback_msgs@
                    == before.renderer.buffered_feedback_msgs@ + msgs
                &&& after.renderer.buffered_text_msgs == before.renderer.buffered_text_msgs
                &&& after.renderer.hard_drop_tiles == before.renderer.hard_drop_tiles
                &&& after.renderer.screen == before.renderer.screen
            },
        !takes(before.game, t, change) ==> after.game == before.game && after.renderer
            == before.renderer,
        step == PlayStep::StopWaiting <==> {
            &&& observed(before.game).time.nanos() <= t.nanos()
            &&& observed(before.game).result is Some
        },
{
    let r = choose|r: Advance|
        #[trigger] advanced(before.game, t, Some(change), after.game, r) && follows(
            before.renderer,
            r,
            after.renderer,
            step,
        );
    if let Advance::Updated(msgs) = r {
        assert(updates(before.game, t, Some(change), after.game, msgs@));
    }
}

/// In a game without modifiers that a change of a button does not end, the clock
/// goes to the time of the change, the button is down from then on or up, and
/// every other button is as it was.
pub proof fn law_change_moves_its_button_only(
    before: Playing,
    t: InGameTime,
    change: ButtonChange,
    after: Playing,
    step: PlayStep,
    b: Button,
)
    requires
        changes(before, t, change, after, step),
        takes(before.game, t, change),
        observed(before.game).modifiers.len() == 0,
        observed(before.game).buttons_pressed.len() == 11,
        observed(after.game).result is None,
    ensures
        observed(after.game).time == t,
        observed(after.game).modifiers.len() == 0,
        observed(after.game).buttons_pressed.len() == 11,
        change == ButtonChange::Press(b) ==> observed(after.game).buttons_pressed[b.number()]
            == Some(t),
        change == ButtonChange::Release(b) ==> observed(
            after.game,
        ).buttons_pressed[b.number()] is None,
        change != ButtonChange::Press(b) && change != ButtonChange::Release(b) ==> observed(
            after.game,
        ).buttons_pressed[b.number()] == observed(before.game).buttons_pressed[b.number()],
{
    let r = choose|r: Advance|
        #[trigger] advanced(before.game, t, Some(change), after.game, r) && follows(
            before.renderer,
            r,
            after.renderer,
            step,
        );
    lemma_variants_numbered(b, 0);
    lemma_variants_numbered(change.button(), 0);
    assert(observed(after.game).buttons_pressed == pressed_after(
        observed(before.game).buttons_pressed,
        t,
        Some(change),
    ));
}

/// On a terminal that does not tell when keys come up, a key that goes down or
/// repeats stands for a button that goes down and comes up again at once: if the
/// game takes the press, exactly these two changes are recorded, both at the same
/// time; and in a game without modifiers that goes on, the button is up afterwards
/// and all others are as they were. A key that comes up does nothing.
pub proof fn law_plain_key_goes_down_and_comes_up(
    before: Playing,
    t: InGameTime,
    button: Button,
    kind: KeyEventKind,
    after: Playing,
    step: PlayStep,
    other: Button,
)
    requires
        plays_button(false, before, t, button, kind, after, step),
        observed(before.game).buttons_pressed.len() == 11,
    ensures
        kind == KeyEventKind::Release ==> after == before && step == PlayStep::KeepWaiting,
        kind != KeyEventKind::Release && takes(before.game, t, ButtonChange::Press(button)) ==> {
            &&& after.inputs.len() == before.inputs.len() + 2
            &&& after.inputs[before.inputs.len() as int] == (t, ButtonChange::Press(button))
            &&& after.inputs[before.inputs.len() as int + 1] == (t, ButtonChange::Release(button))
            &&& forall|i: int|
                0 <= i < before.inputs.len() ==> #[trigger] after.inputs[i] == before.inputs[i]
        },
        kind != KeyEventKind::Release && !takes(before.game, t, ButtonChange::Press(button)) ==> {
            &&& after.inputs.len() == before.inputs.len() + 1
            &&& after.inputs.last() == (t, ButtonChange::Press(button))
            &&& after.game == before.game
        },
        kind != KeyEventKind::Release && step == PlayStep::KeepWaiting && observed(
            before.game,
        ).modifiers.len() == 0 && observed(after.game).result is None ==> {
            &&& observed(after.game).buttons_pressed[button.number()] is None
            &&& observed(after.game).time == t
            &&& other != button ==> observed(after.game).buttons_pressed[other.number()]
                == observed(before.game).buttons_pressed[other.number()]
        },
{
    if kind != KeyEventKind::Release {
        let press = ButtonChange::Press(button);
        let release = ButtonChange::Release(button);
        let (middle, first) = choose|middle: Playing, first: PlayStep|
            {
                &&& #[trigger] changes(before, t, press, middle, first)
                &&& if first == PlayStep::KeepWaiting {
                    changes(middle, t, release, after, step)
                } else {
                    after == middle && step == first
                }
            };
        law_change_is_recorded_and_made(before, t, press, middle, first);
        if first == PlayStep::KeepWaiting {
            law_change_is_recorded_and_made(middle, t, release, after, step);
            if step == PlayStep::KeepWaiting && observed(before.game).modifiers.len() == 0
                && observed(after.game).result is None {
                law_change_moves_its_button_only(before, t, press, middle, first, button);
                law_change_moves_its_button_only(before, t, press, middle, first, other);
                law_change_moves_its_button_only(middle, t, release, after, step, button);
                law_change_moves_its_button_only(middle, t, release, after, step, other);
            }
        }
    }
}

/// On a terminal that tells when keys come up, a key that goes down is recorded as
/// a button that goes down and nothing else, one that comes up as a button that
/// comes up, and one that repeats does nothing; a game without modifiers that takes
/// the change and goes on has the button down from then on or up.
pub proof fn law_enhanced_key_is_taken_at_its_word(
    before: Playing,
    t: InGameTime,
    button: Button,
    kind: KeyEventKind,
    after: Playing,
    step: PlayStep,
)
    requires
        plays_button(true, before, t, button, kind, after, step),
        observed(before.game).buttons_pressed.len() == 11,
    ensures
        kind == KeyEventKind::Repeat ==> after == before && step == PlayStep::KeepWaiting,
        kind == KeyEventKind::Press ==> after.inputs == before.inputs.push(
            (t, ButtonChange::Press(button)),
        ),
        kind == KeyEventKind::Release ==> after.inputs == before.inputs.push(
            (t, ButtonChange::Release(button)),
        ),
        step == PlayStep::KeepWaiting && observed(before.game).modifiers.len() == 0 && observed(
            after.game,
        ).result is None ==> {
            &&& kind == KeyEventKind::Press ==> {
                &&& observed(after.game).time == t
                &&& observed(after.game).buttons_pressed[button.number()] == Some(t)
            }
            &&& kind == KeyEventKind::Release ==> {
                &&& observed(after.game).time == t
                &&& observed(after.game).buttons_pressed[button.number()] is None
            }
        },
{
    if kind != KeyEventKind::Repeat {
        let change = if kind == KeyEventKind::Press {
            ButtonChange::Press(button)
        } else {
            ButtonChange::Release(button)
        };
        law_change_is_recorded_and_made(before, t, change, after, step);
        if step == PlayStep::KeepWaiting && observed(before.game).modifiers.len() == 0 && observed(
            after.game,
        ).result is None {
            law_change_moves_its_button_only(before, t, change, after, step, button);
        }
    }
}

/// As long as times fit 64 bits in milliseconds, playing a button does not ask
/// for the game's past.
pub proof fn law_played_button_is_not_in_past(
    before: Playing,
    entered: InGameTime,
    since: InGameTime,
    t: InGameTime,
    change: ButtonChange,
    after: Game,
    r: Advance,
)
    requires
        millis_up(observed(before.game).time.nanos()) <= u64::MAX,
        millis_up(entered.nanos() + since.nanos()) <= u64::MAX,
        t.nanos() == input_nanos(observed(before.game).time, entered, since),
        advanced(before.game, t, Some(change), after, r),
    ensures
        r != Advance::Refused(UpdateGameError::TargetTimeInPast),
{
    law_input_is_on_time(observed(before.game).time, entered, since);
}

/// Moves the game on to the frame that is about to be drawn. It does not matter
/// here whether the game refuses.
pub fn play_frame(
    game: &mut Game,
    renderer: &mut DiffPrintRenderer,
    entered: InGameTime,
    since: InGameTime,
) -> (step: PlayStep)
    requires
        tame(*old(game)),
        entered.wf(),
        since.wf(),
        entered.nanos() + since.nanos() <= max_nanos(),
    ensures
        tame(*final(game)),
        exists|t: InGameTime, r: Advance|
            {
                &&& t.wf()
                &&& t.nanos() == entered.nanos() + since.nanos()
                &&& #[trigger] advanced(*old(game), t, None, *final(game), r)
                &&& match r {
                    Advance::Updated(msgs) => told(*old(renderer), msgs@, *final(renderer)) && step
                        == PlayStep::KeepWaiting,
                    Advance::Refused(_) => *final(renderer) == *old(renderer) && step
                        == PlayStep::KeepWaiting,
                    Advance::NotReady => *final(renderer) == *old(renderer) && step
                        == PlayStep::Stuck,
                }
            },
{
    let t = entered.saturating_add(since);
    let r = advance(game, t, None);
    let ghost outcome = r;
    let step = match r {
        Advance::Updated(msgs) => {
            renderer.push_game_feedback_msgs(msgs);
            PlayStep::KeepWaiting
        },
        Advance::Refused(_) => PlayStep::KeepWaiting,
        Advance::NotReady => PlayStep::Stuck,
    };
    assert(advanced(*old(game), t, None, *game, outcome));
    step
}

// ---------------------------------------------------------------------------
// Other keys
// ---------------------------------------------------------------------------
/// What a key that stands for no button does.
#[derive(PartialEq, Eq, Structural, PartialOrd, Ord, Hash, Clone, Copy, Debug)]
pub enum PlayKey {
    /// Nothing.
    Ignore,
    /// Pauses the game.
    Pause,
    /// Ends the program.
    Quit,
    /// Gives the game up.
    Forfeit,
    /// Puts the game aside.
    Save,
    /// Keeps the game's seed for new games.
    StoreSeed,
    /// Hides the locked tiles, or shows them again.
    Blindfold,
}

/// What a key that stands for no button does: only as it goes down, escape with
/// anything, other keys with control alone, and one with control and alt.
pub open spec fn key_meaning(event: KeyEvent) -> PlayKey {
    if event.kind != KeyEventKind::Press {
        PlayKey::Ignore
    } else if event.code == KeyCode::Esc {
        PlayKey::Pause
    } else if types_letter(event.code, 'c', 'C') && event.modifiers.only_control() {
        PlayKey::Quit
    } else if types_letter(event.code, 'd', 'D') && event.modifiers.only_control() {
        PlayKey::Forfeit
    } else if types_letter(event.code, 's', 'S') && event.modifiers.only_control() {
        PlayKey::Save
    } else if types_letter(event.code, 'e', 'E') && event.modifiers.only_control() {
        PlayKey::StoreSeed
    } else if types_letter(event.code, 'b', 'B') && event.modifiers.control_and_alt() {
        PlayKey::Blindfold
    } else {
        PlayKey::Ignore
    }
}

/// What a key that stands for no button does.
pub fn find_key_meaning(event: KeyEvent) -> (r: PlayKey)
    ensures
        r == key_meaning(event),
{
    if event.kind != KeyEventKind::Press {
        PlayKey::Ignore
    } else if event.code == KeyCode::Esc {
        PlayKey::Pause
    } else if is_letter(event.code, 'c', 'C') && event.modifiers.is_only_control() {
        PlayKey::Quit
    } else if is_letter(event.code, 'd', 'D') && event.modifiers.is_only_control() {
        PlayKey::Forfeit
    } else if is_letter(event.code, 's', 'S') && event.modifiers.is_only_control() {
        PlayKey::Save
    } else if is_letter(event.code, 'e', 'E') && event.modifiers.is_only_control() {
        PlayKey::StoreSeed
    } else if is_letter(event.code, 'b', 'B') && event.modifiers.has_control_and_alt() {
        PlayKey::Blindfold
    } else {
        PlayKey::Ignore
    }
}

/// Whether a renderer has taken in a text.
pub open spec fn told_text(
    before: DiffPrintRenderer,
    time: InGameTime,
    text: Seq<char>,
    after: DiffPrintRenderer,
) -> bool {
    exists|s: String|
        s@ == text && #[trigger] told(before, seq![(time, Feedback::Text(s))], after)
}

fn tell_text(renderer: &mut DiffPrintRenderer, time: InGameTime, text: String)
    ensures
        told_text(*old(renderer), time, text@, *final(renderer)),
{
    let mut msgs: Vec<FeedbackMsg> = Vec::new();
    msgs.push((time, Feedback::Text(text)));
    assert(msgs@ =~= seq![(time, Feedback::Text(text))]);
    renderer.push_game_feedback_msgs(msgs);
    assert(told(*old(renderer), seq![(time, Feedback::Text(text))], *renderer));
}

/// When a game was given up, if it was.
pub open spec fn forfeit_time(result: Option<GameResult>, time: InGameTime) -> Option<InGameTime> {
    if result == Some(GameResult::Lost(GameOver::Forfeit)) {
        Some(time)
    } else {
        None
    }
}

fn find_forfeit_time(game: &Game) -> (r: Option<InGameTime>)
    ensures
        r == forfeit_time(observed(*game).result, observed(*game).time),
{
    match game_result(game) {
        Some(GameResult::Lost(GameOver::Forfeit)) => Some(game_time(game)),
        _ => None,
    }
}

/// Whether a save has put a game aside with all that was done in it.
pub open spec fn saves_game(
    save: GameSave<UncompressedInputHistory>,
    game: Game,
    inputs: Seq<(InGameTime, ButtonChange)>,
    meta: GameMetaData,
) -> bool {
    &&& save.game_meta_data == meta
    &&& builder_content(save.game_restoration_data.builder) == blueprint_content(observed(game))
    &&& texts_of(save.game_restoration_data.mod_descriptors@) == observed(game).modifiers
    &&& save.game_restoration_data.input_history@ == inputs
    &&& save.game_restoration_data.forfeit == forfeit_time(
        observed(game).result,
        observed(game).time,
    )
    &&& save.inputs_to_load == inputs.len()
}

fn copy_inputs(inputs: &UncompressedInputHistory) -> (r: UncompressedInputHistory)
    ensures
        r@ == inputs@,
{
    let mut r: UncompressedInputHistory = Vec::new();
    for k in 0..inputs.len()
        invariant
            r@ == inputs@.take(k as int),
    {
        r.push(inputs[k]);
        assert(r@ =~= inputs@.take(k + 1));
    }
    assert(inputs@.take(inputs@.len() as int) =~= inputs@);
    r
}

fn save_game(game: &Game, inputs: &UncompressedInputHistory, meta: &GameMetaData) -> (r: GameSave<
    UncompressedInputHistory,
>)
    ensures
        saves_game(r, *game, inputs@, *meta),
{
    GameSave {
        game_meta_data: meta.clone(),
        game_restoration_data: GameRestorationData::new(
            game,
            copy_inputs(inputs),
            find_forfeit_time(game),
        ),
        inputs_to_load: inputs.len(),
    }
}

/// The settings with the locked tiles hidden, or shown if they were hidden.
pub open spec fn blindfold_toggled(before: Settings, after: Settings) -> bool {
    let graphics = before.active_graphics();
    &&& after == (Settings { graphics_slots: after.graphics_slots, ..before })
    &&& after.graphics_slots@ == before.graphics_slots@.update(
        before.graphics_slot_active as int,
        (
            before.graphics_slots@[before.graphics_slot_active as int].0,
            GraphicsSettings { blindfolded: !graphics.blindfolded, ..graphics },
        ),
    )
}

impl Application {
    /// Does what a key that stands for no button does.
    pub fn play_key(
        &mut self,
        game: &mut Game,
        inputs: &UncompressedInputHistory,
        meta: &GameMetaData,
        renderer: &mut DiffPrintRenderer,
        event: KeyEvent,
    ) -> (step: PlayStep)
        requires
            key_meaning(event) == PlayKey::Blindfold ==> old(self).settings.graphics_slot_active
                < old(self).settings.graphics_slots@.len(),
        ensures
            old(self).settings.wf() ==> final(self).settings.wf(),
            tame(*old(game)) ==> tame(*final(game)),
            key_meaning(event) != PlayKey::Forfeit ==> *final(game) == *old(game),
            key_meaning(event) != PlayKey::Save ==> final(self).game_saves == old(self).game_saves,
            match key_meaning(event) {
                PlayKey::StoreSeed => final(self).settings == (Settings {
                    new_game: NewGameSettings {
                        custom_seed: Some(observed(*old(game)).seed),
                        ..old(self).settings.new_game
                    },
                    ..old(self).settings
                }),
                PlayKey::Blindfold => blindfold_toggled(old(self).settings, final(self).settings),
                _ => final(self).settings == old(self).settings,
            },
            *final(self) == (Application {
                settings: final(self).settings,
                game_saves: final(self).game_saves,
                ..*old(self)
            }),
            match key_meaning(event) {
                PlayKey::Ignore => {
                    &&& step == PlayStep::KeepWaiting
                    &&& *final(renderer) == *old(renderer)
                },
                PlayKey::Pause => {
                    &&& step == PlayStep::Leave(MenuUpdate::Push(Menu::Pause))
                    &&& *final(renderer) == *old(renderer)
                },
                PlayKey::Quit => {
                    &&& step == PlayStep::Leave(MenuUpdate::Push(Menu::Quit))
                    &&& *final(renderer) == *old(renderer)
                },
                PlayKey::Forfeit => {
                    &&& step == PlayStep::Restart
                    &&& observed(*final(game)) == forfeited(observed(*old(game)))
                    &&& told_text(
                        *old(renderer),
                        observed(*old(game)).time,
                        "Forfeit Game!"@,
                        *final(renderer),
                    )
                },
                PlayKey::Save => {
                    &&& step == PlayStep::KeepWaiting
                    &&& final(self).game_saves.0 == 0
                    &&& final(self).game_saves.1@.len() == 1
                    &&& saves_game(final(self).game_saves.1@[0], *old(game), inputs@, *meta)
                    &&& told_text(
                        *old(renderer),
                        observed(*old(game)).time,
                        "(Savepoint stored!)"@,
                        *final(renderer),
                    )
                },
                PlayKey::StoreSeed => {
                    &&& step == PlayStep::KeepWaiting
                    &&& told_text(
                        *old(renderer),
                        observed(*old(game)).time,
                        "(Seed stored: "@ + decimal(observed(*old(game)).seed as nat) + ")"@,
                        *final(renderer),
                    )
                },
                PlayKey::Blindfold => {
                    &&& step == PlayStep::KeepWaiting
                    &&& told_text(
                        *old(renderer),
                        observed(*old(game)).time,
                        if old(self).settings.active_graphics().blindfolded {
                            "Blindfolds removed [Ctrl+Alt+B]"@
                        } else {
                            "Blindfolded! [Ctrl+Alt+B]"@
                        },
                        *final(renderer),
                    )
                },
            },
    {
        match find_key_meaning(event) {
            PlayKey::Ignore => PlayStep::KeepWaiting,
            PlayKey::Pause => PlayStep::Leave(MenuUpdate::Push(Menu::Pause)),
            PlayKey::Quit => PlayStep::Leave(MenuUpdate::Push(Menu::Quit)),
            PlayKey::Forfeit => {
                game.forfeit();
                tell_text(renderer, game_time(game), "Forfeit Game!".to_owned());
                PlayStep::Restart
            },
            PlayKey::Save => {
                let mut saves: Vec<GameSave<UncompressedInputHistory>> = Vec::new();
                saves.push(save_game(game, inputs, meta));
                self.game_saves = (0, saves);
                tell_text(renderer, game_time(game), "(Savepoint stored!)".to_owned());
                PlayStep::KeepWaiting
            },
            PlayKey::StoreSeed => {
                let seed: u64 = game_seed(game);
                self.settings.new_game.custom_seed = Some(seed);
                tell_text(
                    renderer,
                    game_time(game),
                    join3("(Seed stored: ", decimal_of(seed as u128).as_str(), ")"),
                );
                PlayStep::KeepWaiting
            },
            PlayKey::Blindfold => {
                let graphics = self.settings.graphics_mut();
                graphics.blindfolded = !graphics.blindfolded;
                if self.settings.graphics().blindfolded {
                    tell_text(renderer, game_time(game), "Blindfolded! [Ctrl+Alt+B]".to_owned());
                } else {
                    tell_text(
                        renderer,
                        game_time(game),
                        "Blindfolds removed [Ctrl+Alt+B]".to_owned(),
                    );
                }
                PlayStep::KeepWaiting
            },
        }
    }
}

/// Which keys do something apart from buttons: escape pauses, and with control
/// alone C ends the program, D gives up, S puts aside and E keeps the seed; B with
/// at least control and alt takes blindfolds on or off. All this as they go down
/// only.
pub proof fn law_keys_that_do_something(event: KeyEvent)
    ensures
        ({
            let meaning = key_meaning(event);
            let down = event.kind == KeyEventKind::Press;
            let control = down && event.modifiers.bits == 2;
            &&& meaning == PlayKey::Pause <==> down && event.code == KeyCode::Esc
            &&& meaning == PlayKey::Quit <==> control && (event.code == KeyCode::Char('c')
                || event.code == KeyCode::Char('C'))
            &&& meaning == PlayKey::Forfeit <==> control && (event.code == KeyCode::Char('d')
                || event.code == KeyCode::Char('D'))
            &&& meaning == PlayKey::Save <==> control && (event.code == KeyCode::Char('s')
                || event.code == KeyCode::Char('S'))
            &&& meaning == PlayKey::StoreSeed <==> control && (event.code == KeyCode::Char('e')
                || event.code == KeyCode::Char('E'))
            &&& meaning == PlayKey::Blindfold <==> down && (event.code == KeyCode::Char('b')
                || event.code == KeyCode::Char('B')) && event.modifiers.bits / 2 % 2 == 1
                && event.modifiers.bits / 4 % 2 == 1
        }),
{
}

/// Toggling blindfolds turns them on if they were off and off if they were on, in
/// the active graphics settings, and changes nothing else; doing it twice changes
/// nothing.
pub proof fn law_blindfolds_go_on_and_off(before: Settings, after: Settings, again: Settings)
    requires
        before.graphics_slot_active < before.graphics_slots@.len(),
        blindfold_toggled(before, after),
        blindfold_toggled(after, again),
    ensures
        ({
            let slot = before.graphics_slot_active as int;
            let (was, is) = (before.graphics_slots@[slot].1, after.graphics_slots@[slot].1);
            &&& is.blindfolded == !was.blindfolded
            &&& is == (GraphicsSettings { blindfolded: is.blindfolded, ..was })
            &&& after.graphics_slots@[slot].0 == before.graphics_slots@[slot].0
            &&& forall|i: int|
                0 <= i < before.graphics_slots@.len() && i != slot
                    ==> #[trigger] after.graphics_slots@[i] == before.graphics_slots@[i]
            &&& after.graphics_slots@.len() == before.graphics_slots@.len()
            &&& after == (Settings { graphics_slots: after.graphics_slots, ..before })
            &&& again.graphics_slots@ == before.graphics_slots@
        }),
{
    assert(again.graphics_slots@ =~= before.graphics_slots@);
}

/// A save holds all inputs of a game in order, and is brought back with all of
/// them; it says when the game was given up exactly if it was.
pub proof fn law_save_brings_back_all_that_was_done(
    save: GameSave<UncompressedInputHistory>,
    game: Game,
    inputs: Seq<(InGameTime, ButtonChange)>,
    meta: GameMetaData,
)
    requires
        saves_game(save, game, inputs, meta),
    ensures
        save.game_meta_data == meta,
        save.game_restoration_data.input_history@ == inputs,
        save.inputs_to_load as int == inputs.len(),
        save.game_restoration_data.inputs_up_to(save.inputs_to_load as int) == inputs,
        builder_content(save.game_restoration_data.builder).seed == Some(observed(game).seed),
        builder_content(save.game_restoration_data.builder).config == observed(game).config,
        builder_content(save.game_restoration_data.builder).tetromino_generator == observed(
            game,
        ).first_generator,
        texts_of(save.game_restoration_data.mod_descriptors@) == observed(game).modifiers,
        save.game_restoration_data.forfeit is Some <==> observed(game).result == Some(
            GameResult::Lost(GameOver::Forfeit),
        ),
        save.game_restoration_data.forfeit matches Some(t) ==> t == observed(game).time,
{
}

// ---------------------------------------------------------------------------
// The end of a game
// ---------------------------------------------------------------------------
/// Whether a game is on record as it ended, with all that was done in it.
pub open spec fn records_game(
    record: PastGame,
    game: Game,
    inputs: Seq<(InGameTime, ButtonChange)>,
    meta: GameMetaData,
) -> bool {
    &&& record.0 == score_of(observed(game), meta)
    &&& record.1 matches Some(data)
    &&& builder_content(data.builder) == blueprint_content(observed(game))
    &&& texts_of(data.mod_descriptors@) == observed(game).modifiers
    &&& data.input_history@ == compressed(inputs)
    &&& data.forfeit == forfeit_time(observed(game).result, observed(game).time)
}

impl Application {
    /// Puts a game that has ended on record, and leads to the screen that says
    /// so.
    pub fn finish_game(
        &mut self,
        game: &Game,
        inputs: &UncompressedInputHistory,
        meta: &GameMetaData,
    ) -> (r: Option<MenuUpdate>)
        requires
            history_wf(inputs@),
        ensures
            *final(self) == (Application {
                scores_and_replays: final(self).scores_and_replays,
                ..*old(self)
            }),
            final(self).scores_and_replays.sorting == old(self).scores_and_replays.sorting,
            match observed(*game).result {
                None => {
                    &&& r is None
                    &&& *final(self) == *old(self)
                },
                Some(result) => {
                    let before = old(self).scores_and_replays.entries@;
                    let after = final(self).scores_and_replays.entries@;
                    &&& after.len() == before.len() + 1
                    &&& after.drop_last() == before
                    &&& records_game(after.last(), *game, inputs@, *meta)
                    &&& match result {
                        GameResult::Completed(_) => r matches Some(
                            MenuUpdate::Push(Menu::GameComplete(entry)),
                        ) && *entry == score_of(observed(*game), *meta),
                        GameResult::Lost(_) => r matches Some(
                            MenuUpdate::Push(Menu::GameOver(entry)),
                        ) && *entry == score_of(observed(*game), *meta),
                    }
                },
            },
    {
        match game_result(game) {
            None => None,
            Some(result) => {
                let scores_entry = ScoresEntry::new(game, meta);
                let game_restoration_data = GameRestorationData::new(
                    game,
                    CompressedInputHistory::new(inputs),
                    find_forfeit_time(game),
                );
                let ghost before = self.scores_and_replays.entries@;
                self.scores_and_replays.entries.push(
                    (scores_entry.clone(), Some(game_restoration_data)),
                );
                assert(self.scores_and_replays.entries@.drop_last() =~= before);
                let menu = if result.is_ok() {
                    Menu::GameComplete(Box::new(scores_entry))
                } else {
                    Menu::GameOver(Box::new(scores_entry))
                };
                Some(MenuUpdate::Push(menu))
            },
        }
    }
}

/// A game on record is scored as it went, and its inputs, as far as packing does
/// not change them, come out of the record in full and in order, to be made in a
/// game with the same seed and the same rules.
pub proof fn law_record_replays_what_was_played(
    record: PastGame,
    game: Game,
    inputs: Seq<(InGameTime, ButtonChange)>,
    meta: GameMetaData,
)
    requires
        records_game(record, game, inputs, meta),
        keeps_when_packed(inputs),
    ensures
        record.0.game_meta_data == meta,
        record.0.lineclears == observed(game).lineclears,
        record.0.points_scored == observed(game).score,
        record.0.time_elapsed == observed(game).time,
        record.0.pieces_locked == observed(game).pieces_locked,
        observed(game).result matches Some(result) ==> record.0.result == result,
        record.1 is Some,
        record.1 matches Some(data) ==> {
            &&& decompressed(data.input_history@) == inputs
            &&& builder_content(data.builder).seed == Some(observed(game).seed)
            &&& builder_content(data.builder).config == observed(game).config
            &&& builder_content(data.builder).tetromino_generator == observed(
                game,
            ).first_generator
            &&& texts_of(data.mod_descriptors@) == observed(game).modifiers
            &&& data.forfeit is Some <==> observed(game).result == Some(
                GameResult::Lost(GameOver::Forfeit),
            )
            &&& (data.forfeit matches Some(t) ==> t == observed(game).time)
        },
{
    law_decompress_inverts_compress(inputs);
}

// ---------------------------------------------------------------------------
// Leaving a game
// ---------------------------------------------------------------------------
/// Whether this came of letting go of a button if it is down.
pub open spec fn lets_go(
    before: Playing,
    t: InGameTime,
    b: int,
    after: Playing,
    step: PlayStep,
) -> bool {
    if observed(before.game).buttons_pressed[b] is Some {
        changes(before, t, ButtonChange::Release(Button::VARIANTS[b]), after, step)
    } else {
        after == before && step == PlayStep::KeepWaiting
    }
}

/// Whether this came of letting go of those of the first `k` buttons that are
/// down, one after the other.
pub open spec fn lets_go_up_to(before: Playing, t: InGameTime, k: int, after: Playing) -> bool
    decreases k,
{
    if k <= 0 {
        after == before
    } else {
        let b = k - 1;
        exists|middle: Playing|
            {
                &&& lets_go_up_to(before, t, b, middle)
                &&& #[trigger] lets_go(middle, t, b, after, PlayStep::KeepWaiting)
            }
    }
}

/// Whether this came of letting go of all buttons that are down, one after the
/// other, up to the first that does not keep the game going.
pub open spec fn lets_go_of_all(
    before: Playing,
    t: InGameTime,
    after: Playing,
    step: PlayStep,
) -> bool {
    if step == PlayStep::KeepWaiting {
        lets_go_up_to(before, t, 11, after)
    } else {
        exists|k: int, middle: Playing|
            {
                &&& 0 <= k < 11
                &&& #[trigger] lets_go_up_to(before, t, k, middle)
                &&& lets_go(middle, t, k, after, step)
            }
    }
}

/// When buttons are let go of: at the game's time, in whole milliseconds like all
/// other inputs.
pub open spec fn release_nanos(game: InGameTime) -> nat {
    millis_up(game.nanos()) * NANOS_PER_MILLI as nat
}

/// Lets go of all buttons that are down, so that none stays down while the game
/// is not being played.
pub fn release_buttons(
    game: &mut Game,
    inputs: &mut UncompressedInputHistory,
    renderer: &mut DiffPrintRenderer,
) -> (step: PlayStep)
    requires
        tame(*old(game)),
    ensures
        tame(*final(game)),
        ({
            let before = Playing {
                game: *old(game),
                inputs: old(inputs)@,
                renderer: *old(renderer),
            };
            let after = Playing {
                game: *final(game),
                inputs: final(inputs)@,
                renderer: *final(renderer),
            };
            let nanos = release_nanos(observed(*old(game)).time);
            if nanos <= max_nanos() {
                lets_go_of_all(before, time_of_nanos(nanos), after, step)
            } else {
                after == before && step == PlayStep::Stuck
            }
        }),
        all_whole_millis(old(inputs)@) ==> all_whole_millis(final(inputs)@),
        in_order(old(inputs)@) && last_nanos(old(inputs)@) <= release_nanos(
            observed(*old(game)).time,
        ) ==> in_order(final(inputs)@),
{
    let ghost before = Playing { game: *game, inputs: inputs@, renderer: *renderer };
    let time: u128 = game_time(game).as_nanos();
    let nanos: u128 = if time % NANOS_PER_MILLI == 0 {
        time
    } else {
        (time / NANOS_PER_MILLI + 1) * NANOS_PER_MILLI
    };
    if nanos > InGameTime::max().as_nanos() {
        return PlayStep::Stuck;
    }
    let t = InGameTime::from_nanos(nanos);
    proof {
        lemma_time_by_nanos(t, time_of_nanos(release_nanos(observed(*old(game)).time)));
    }
    for k in 0..11usize
        invariant
            before == (Playing {
                game: *old(game),
                inputs: old(inputs)@,
                renderer: *old(renderer),
            }),
            t == time_of_nanos(release_nanos(observed(*old(game)).time)),
            t.wf(),
            t.is_whole_millis(),
            release_nanos(observed(*old(game)).time) <= max_nanos(),
            tame(*game),
            all_whole_millis(old(inputs)@) ==> all_whole_millis(inputs@),
            in_order(old(inputs)@) && last_nanos(old(inputs)@) <= t.nanos() ==> in_order(inputs@)
                && last_nanos(inputs@) <= t.nanos(),
            lets_go_up_to(
                before,
                t,
                k as int,
                Playing { game: *game, inputs: inputs@, renderer: *renderer },
            ),
    {
        let ghost middle = Playing { game: *game, inputs: inputs@, renderer: *renderer };
        let step = if pressed_since(game, k).is_some() {
            change_button(
                game,
                inputs,
                renderer,
                t,
                ButtonChange::Release(Button::VARIANTS[k]),
            )
        } else {
            PlayStep::KeepWaiting
        };
        let ghost after = Playing { game: *game, inputs: inputs@, renderer: *renderer };
        assert(lets_go(middle, t, k as int, after, step));
        match step {
            PlayStep::KeepWaiting => {
                proof {
                    lemma_lets_go_step(before, t, k + 1, middle, after);
                }
            },
            _ => {
                return step;
            },
        }
    }
    PlayStep::KeepWaiting
}

proof fn lemma_lets_go_step(before: Playing, t: InGameTime, k: int, middle: Playing, after: Playing)
    requires
        k >= 1,
        lets_go_up_to(before, t, k - 1, middle),
        lets_go(middle, t, k - 1, after, PlayStep::KeepWaiting),
    ensures
        lets_go_up_to(before, t, k, after),
{
}

proof fn lemma_let_go(before: Playing, t: InGameTime, k: int, after: Playing)
    requires
        0 <= k <= 11,
        lets_go_up_to(before, t, k, after),
        observed(before.game).modifiers.len() == 0,
        observed(before.game).buttons_pressed.len() == 11,
        observed(after.game).result is None,
    ensures
        observed(after.game).modifiers.len() == 0,
        observed(after.game).time == observed(before.game).time || observed(after.game).time == t,
        observed(after.game).buttons_pressed.len() == 11,
        forall|i: int| 0 <= i < k ==> (#[trigger] observed(after.game).buttons_pressed[i]) is None,
    decreases k,
{
    if k > 0 {
        let b = k - 1;
        let middle = choose|middle: Playing|
            {
                &&& lets_go_up_to(before, t, b, middle)
                &&& #[trigger] lets_go(middle, t, b, after, PlayStep::KeepWaiting)
            };
        assert(Button::VARIANTS[k - 1].number() == k - 1) by {
            lemma_variants_numbered(Button::MoveLeft, k - 1);
        }
        lemma_let_go(before, t, k - 1, middle);
    }
}

/// Once all buttons of a game without modifiers are let go of, and the game has
/// not ended by that, none is down and less than a millisecond has passed.
pub proof fn law_no_button_stays_down(before: Playing, after: Playing)
    requires
        observed(before.game).time.wf(),
        observed(before.game).modifiers.len() == 0,
        observed(before.game).buttons_pressed.len() == 11,
        release_nanos(observed(before.game).time) <= max_nanos(),
        lets_go_of_all(
            before,
            time_of_nanos(release_nanos(observed(before.game).time)),
            after,
            PlayStep::KeepWaiting,
        ),
        observed(after.game).result is None,
    ensures
        observed(before.game).time.nanos() <= observed(after.game).time.nanos(),
        observed(after.game).time.nanos() < observed(before.game).time.nanos() + NANOS_PER_MILLI,
        forall|i: int| 0 <= i < 11 ==> (#[trigger] observed(after.game).buttons_pressed[i]) is None,
{
    lemma_let_go(before, time_of_nanos(release_nanos(observed(before.game).time)), 11, after);
}

/// Releases of those of the first `k` buttons that are down, all at one time.
pub open spec fn releases(
    pressed: Seq<Option<InGameTime>>,
    t: InGameTime,
    k: int,
) -> Seq<(InGameTime, ButtonChange)>
    decreases k,
{
    if k <= 0 {
        Seq::empty()
    } else if pressed[k - 1] is Some {
        releases(pressed, t, k - 1).push((t, ButtonChange::Release(Button::VARIANTS[k - 1])))
    } else {
        releases(pressed, t, k - 1)
    }
}

proof fn lemma_releases_recorded(before: Playing, t: InGameTime, k: int, after: Playing)
    requires
        0 <= k <= 11,
        lets_go_up_to(before, t, k, after),
        observed(before.game).modifiers.len() == 0,
        observed(before.game).buttons_pressed.len() == 11,
        observed(after.game).result is None,
    ensures
        after.inputs == before.inputs + releases(observed(before.game).buttons_pressed, t, k),
        forall|i: int|
            k <= i < 11 ==> (#[trigger] observed(after.game).buttons_pressed[i]) == observed(
                before.game,
            ).buttons_pressed[i],
    decreases k,
{
    if k > 0 {
        let b = k - 1;
        let middle = choose|middle: Playing|
            {
                &&& lets_go_up_to(before, t, b, middle)
                &&& #[trigger] lets_go(middle, t, b, after, PlayStep::KeepWaiting)
            };
        lemma_variants_numbered(Button::MoveLeft, b);
        lemma_let_go(before, t, b, middle);
        lemma_releases_recorded(before, t, b, middle);
        assert(after.inputs =~= before.inputs + releases(
            observed(before.game).buttons_pressed,
            t,
            k,
        ));
    } else {
        assert(after.inputs =~= before.inputs + Seq::empty());
    }
}

/// Letting go of all buttons of a game without modifiers, if that does not end it,
/// records one release for each button that was down, in the order of the buttons
/// and all at the same time, and nothing else.
pub proof fn law_letting_go_records_what_was_down(before: Playing, t: InGameTime, after: Playing)
    requires
        lets_go_of_all(before, t, after, PlayStep::KeepWaiting),
        observed(before.game).modifiers.len() == 0,
        observed(before.game).buttons_pressed.len() == 11,
        observed(after.game).result is None,
    ensures
        after.inputs == before.inputs + releases(observed(before.game).buttons_pressed, t, 11),
{
    lemma_releases_recorded(before, t, 11, after);
}

/// Where a word of the countdown stands: in the middle of what is drawn on.
pub fn countdown_xy(main: (u16, u16), len: u16) -> (r: (u16, u16))
    requires
        main.0 + W_MAIN / 2 <= u16::MAX,
        main.1 + H_MAIN / 2 <= u16::MAX,
    ensures
        r.0 == if main.0 + 31 >= len / 2 {
            main.0 + 31 - len / 2
        } else {
            0
        },
        r.1 == main.1 + 11,
{
    let (x_main, y_main) = main;
    let cx: u16 = x_main + W_MAIN / 2;
    let cy: u16 = y_main + H_MAIN / 2;
    (cx.saturating_sub(len / 2), cy)
}

/// The words of the countdown.
pub const COUNTDOWN: [&'static str; 4] = ["3", "2", "1", "GO!"];

/// The rows of a terminal in the order in which they are cleared at the end of a
/// game: from the top if it was completed, from the bottom if it was lost.
pub fn closing_rows(completed: bool, h_console: u16) -> (r: Vec<u16>)
    ensures
        r@ == Seq::new(
            h_console as nat,
            |i: int|
                if completed {
                    i as u16
                } else {
                    (h_console - 1 - i) as u16
                },
        ),
{
    let mut r: Vec<u16> = Vec::new();
    for i in 0..h_console
        invariant
            r@ == Seq::new(
                i as nat,
                |i: int|
                    if completed {
                        i as u16
                    } else {
                        (h_console - 1 - i) as u16
                    },
            ),
    {
        if completed {
            r.push(i);
        } else {
            r.push(h_console - 1 - i);
        }
    }
    r
}

/// A text that is told comes behind everything that was told before, at its time, and
/// nothing else changes.
pub proof fn law_text_is_told_last(
    before: DiffPrintRenderer,
    time: InGameTime,
    text: Seq<char>,
    after: DiffPrintRenderer,
)
    requires
        told_text(before, time, text, after),
    ensures
        ({
            let (was, is) = (before.buffered_feedback_msgs@, after.buffered_feedback_msgs@);
            &&& is.len() == was.len() + 1
            &&& is.drop_last() == was
            &&& is.last().0 == time
            &&& (is.last().1 matches Feedback::Text(s) && s@ == text)
            &&& after.screen == before.screen
            &&& after.buffered_text_msgs == before.buffered_text_msgs
            &&& after.hard_drop_tiles == before.hard_drop_tiles
        }),
{
    assert(after.buffered_feedback_msgs@.drop_last() =~= before.buffered_feedback_msgs@);
}

/// Buttons are let go of at the game's time, less than a millisecond late, and in whole
/// milliseconds.
pub proof fn law_letting_go_is_on_time(game: InGameTime)
    ensures
        game.nanos() <= release_nanos(game),
        release_nanos(game) < game.nanos() + 1_000_000,
        release_nanos(game) % 1_000_000 == 0,
{
}

} // verus!

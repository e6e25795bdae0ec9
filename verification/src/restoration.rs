//! Recording games and bringing them back.
use crate::builder::{
    blueprint, blueprint_content, build_with_modifier, buildable, builder_content, drops_faster,
    factors_finite, fresh, is_buildable, lemma_fresh_game_is_ready, modifier_descriptor,
    modifier_tame, push_modifier, startable, texts_of, BuilderView,
};
use crate::button::{Button, ButtonChange};
use crate::game::GameMetaData;
use crate::input_history::{history_wf, UncompressedInputHistory};
use crate::live::{
    advance, advanced, config_feedback_verbosity, observed, set_feedback_verbosity, tame,
    with_verbosity, Advance, ConfigView, GameView, Verbosity,
};
use crate::readiness::pressed_after;
use crate::time::InGameTime;
use falling_tetromino_engine::{Game, GameBuilder, Modifier};
use vstd::prelude::*;
use vstd::string::*;

verus! {

/// What it takes to bring a game back: how it was set up and what was done in
/// it.
#[derive(Debug)]
pub struct GameRestorationData<T> {
    /// How the game was set up.
    pub builder: GameBuilder,
    /// What its modifiers say of themselves.
    pub mod_descriptors: Vec<String>,
    /// What was done in it.
    pub input_history: T,
    /// When it was given up, if it was.
    pub forfeit: Option<InGameTime>,
}

impl<T> GameRestorationData<T> {
    /// Records how a game was set up, with what was done in it.
    pub fn new(game: &Game, input_history: T, forfeit: Option<InGameTime>) -> (r:
        GameRestorationData<T>)
        ensures
            builder_content(r.builder) == blueprint_content(observed(*game)),
            texts_of(r.mod_descriptors@) == observed(*game).modifiers,
            r.input_history == input_history,
            r.forfeit == forfeit,
    {
        let (builder, mod_descriptors) = blueprint(game);
        GameRestorationData { builder, mod_descriptors, input_history, forfeit }
    }

    /// The same record with what was done in the game put differently.
    pub fn map<U>(self, f: impl Fn(T) -> U) -> (r: GameRestorationData<U>)
        requires
            f.requires((self.input_history,)),
        ensures
            r.builder == self.builder,
            r.mod_descriptors == self.mod_descriptors,
            f.ensures((self.input_history,), r.input_history),
            r.forfeit == self.forfeit,
    {
        GameRestorationData::<U> {
            builder: self.builder,
            mod_descriptors: self.mod_descriptors,
            input_history: f(self.input_history),
            forfeit: self.forfeit,
        }
    }
}

/// Whether inputs, one after the other, can bring a game from one state to
/// another. An input that the game refuses leaves it as it is.
pub open spec fn replayed(
    before: Game,
    inputs: Seq<(InGameTime, ButtonChange)>,
    after: Game,
) -> bool
    decreases inputs.len(),
{
    if inputs.len() == 0 {
        after == before
    } else {
        exists|middle: Game, r: Advance|
            #![trigger advanced(middle, inputs.last().0, Some(inputs.last().1), after, r)]
            {
                &&& replayed(before, inputs.drop_last(), middle)
                &&& advanced(middle, inputs.last().0, Some(inputs.last().1), after, r)
                &&& r != Advance::NotReady
            }
    }
}

/// Whether inputs can bring a game to a state from which the engine may not be able
/// to take the input after them.
pub open spec fn gets_stuck(before: Game, inputs: Seq<(InGameTime, ButtonChange)>) -> bool {
    exists|k: int, middle: Game|
        {
            &&& 0 <= k < inputs.len()
            &&& #[trigger] replayed(before, inputs.take(k), middle)
            &&& advanced(middle, inputs[k].0, Some(inputs[k].1), middle, Advance::NotReady)
        }
}

/// Makes inputs in a game, one after the other, and tells whether the engine
/// could take them all.
fn replay(game: &mut Game, inputs: &UncompressedInputHistory, count: usize) -> (done: bool)
    requires
        tame(*old(game)),
        count <= inputs@.len(),
        history_wf(inputs@),
    ensures
        tame(*final(game)),
        done ==> replayed(*old(game), inputs@.take(count as int), *final(game)),
        !done ==> gets_stuck(*old(game), inputs@.take(count as int)),
{
    let ghost before = *game;
    for k in 0..count
        invariant
            count <= inputs@.len(),
            history_wf(inputs@),
            before == *old(game),
            tame(*game),
            replayed(before, inputs@.take(k as int), *game),
    {
        let ghost middle = *game;
        let (time, change) = inputs[k];
        let r = advance(game, time, Some(change));
        let ghost so_far = inputs@.take(k + 1);
        assert(so_far.drop_last() =~= inputs@.take(k as int));
        assert(advanced(middle, so_far.last().0, Some(so_far.last().1), *game, r));
        if let Advance::NotReady = r {
            proof {
                let all = inputs@.take(count as int);
                assert(all.take(k as int) =~= inputs@.take(k as int));
            }
            return false;
        }
    }
    true
}

impl GameRestorationData<UncompressedInputHistory> {
    /// The inputs up to a given number of them.
    pub open spec fn inputs_up_to(self, input_index: int) -> Seq<(InGameTime, ButtonChange)> {
        if input_index < self.input_history@.len() {
            self.input_history@.take(input_index)
        } else {
            self.input_history@
        }
    }

    /// Whether this is the game as it was before the first input: built anew, and
    /// with its modifiers put back if it had any. `reconstruct` builds a game with
    /// the modifiers that it recognizes by what they say of themselves, and tells
    /// which it does not; these are then told of in the game. Where it fails, the
    /// game is built without them and that is told of instead. `print_msgs` makes
    /// the modifier that tells.
    pub open spec fn starts_as<
        R: Fn(&GameBuilder, &Vec<String>) -> Result<(Game, Vec<String>), String>,
        P: Fn(Vec<String>) -> Modifier,
    >(self, reconstruct: R, print_msgs: P, game: Game) -> bool {
        if self.mod_descriptors@.len() == 0 {
            &&& fresh(builder_content(self.builder), observed(game))
            &&& observed(game).modifiers.len() == 0
        } else {
            exists|result: Result<(Game, Vec<String>), String>|
                {
                    &&& #[trigger] reconstruct.ensures(
                        (&self.builder, &self.mod_descriptors),
                        result,
                    )
                    &&& match result {
                        Ok((modded, unrecognized)) => if unrecognized@.len() == 0 {
                            game == modded
                        } else {
                            tells(
                                print_msgs,
                                warnings(unrecognized@),
                                observed(modded),
                                observed(game),
                            )
                        },
                        Err(msg) => exists|built: GameView|
                            {
                                &&& fresh(builder_content(self.builder), built)
                                &&& built.modifiers.len() == 0
                                &&& #[trigger] tells(
                                    print_msgs,
                                    seq!["ERROR: "@ + msg@],
                                    built,
                                    observed(game),
                                )
                            },
                    }
                }
        }
    }

    /// Whether this is what making the inputs again comes to: the game is
    /// silenced for as long as they are made.
    pub open spec fn replays(self, input_index: int, start: Game, game: Game) -> bool {
        exists|silenced: Game, played: Game|
            {
                &&& observed(silenced) == with_verbosity(observed(start), Verbosity::Silent)
                &&& #[trigger] replayed(silenced, self.inputs_up_to(input_index), played)
                &&& observed(game) == with_verbosity(
                    observed(played),
                    observed(start).config.feedback_verbosity,
                )
            }
    }

    /// Whether this is what bringing the game back comes to.
    pub open spec fn restores<
        R: Fn(&GameBuilder, &Vec<String>) -> Result<(Game, Vec<String>), String>,
        P: Fn(Vec<String>) -> Modifier,
    >(self, input_index: int, reconstruct: R, print_msgs: P, game: Game) -> bool {
        exists|start: Game| #[trigger]
            self.starts_as(reconstruct, print_msgs, start) && self.replays(input_index, start, game)
    }

    /// Whether bringing the game back can get stuck.
    pub open spec fn sticks<
        R: Fn(&GameBuilder, &Vec<String>) -> Result<(Game, Vec<String>), String>,
        P: Fn(Vec<String>) -> Modifier,
    >(self, input_index: int, reconstruct: R, print_msgs: P) -> bool {
        exists|start: Game, silenced: Game|
            {
                &&& #[trigger] self.starts_as(reconstruct, print_msgs, start)
                &&& observed(silenced) == with_verbosity(observed(start), Verbosity::Silent)
                &&& #[trigger] gets_stuck(silenced, self.inputs_up_to(input_index))
            }
    }

    /// Whether modifiers can be put back: `reconstruct` takes this record if it has
    /// any, and builds tame games; and what `print_msgs` makes is tame under any
    /// rules.
    pub open spec fn modifiers_return<
        R: Fn(&GameBuilder, &Vec<String>) -> Result<(Game, Vec<String>), String>,
        P: Fn(Vec<String>) -> Modifier,
    >(self, reconstruct: R, print_msgs: P) -> bool {
        self.mod_descriptors@.len() > 0 ==> {
            &&& reconstruct.requires((&self.builder, &self.mod_descriptors))
            &&& forall|modded: Game, unrecognized: Vec<String>|
                #[trigger] reconstruct.ensures(
                    (&self.builder, &self.mod_descriptors),
                    Ok((modded, unrecognized)),
                ) ==> tame(modded)
            &&& forall|msgs: Vec<String>| #[trigger] print_msgs.requires((msgs,))
            &&& forall|msgs: Vec<String>, modifier: Modifier, config: ConfigView|
                #![trigger print_msgs.ensures((msgs,), modifier), modifier_tame(modifier, config)]
                print_msgs.ensures((msgs,), modifier) ==> modifier_tame(modifier, config)
        }
    }

    /// The game as it was before the first input.
    pub fn rebuild<
        R: Fn(&GameBuilder, &Vec<String>) -> Result<(Game, Vec<String>), String>,
        P: Fn(Vec<String>) -> Modifier,
    >(&self, reconstruct: R, print_msgs: P) -> (game: Game)
        requires
            buildable(builder_content(self.builder)),
            self.modifiers_return(reconstruct, print_msgs),
        ensures
            self.starts_as(reconstruct, print_msgs, game),
            tame(game),
    {
        if self.mod_descriptors.len() == 0 {
            return self.builder.clone().build();
        }
        let result = reconstruct(&self.builder, &self.mod_descriptors);
        let ghost outcome = result;
        match result {
            Ok((modded, unrecognized)) => {
                let mut modded = modded;
                if unrecognized.len() > 0 {
                    let ghost before = observed(modded);
                    let msgs = warn_messages(&unrecognized);
                    let ghost told = msgs;
                    let modifier = print_msgs(msgs);
                    let ghost teller = modifier;
                    push_modifier(&mut modded, modifier);
                    assert(tells_by(
                        print_msgs,
                        warnings(unrecognized@),
                        told,
                        teller,
                        before,
                        observed(modded),
                    ));
                }
                assert(reconstruct.ensures((&self.builder, &self.mod_descriptors), outcome));
                modded
            },
            Err(msg) => {
                let msgs = error_messages(msg.as_str());
                let ghost told = msgs;
                let modifier = print_msgs(msgs);
                let ghost teller = modifier;
                let game = build_with_modifier(&self.builder, modifier);
                proof {
                    let built = GameView { modifiers: Seq::empty(), ..observed(game) };
                    assert(built.modifiers.push(modifier_descriptor(teller)) =~= observed(
                        game,
                    ).modifiers);
                    assert(tells_by(
                        print_msgs,
                        seq!["ERROR: "@ + msg@],
                        told,
                        teller,
                        built,
                        observed(game),
                    ));
                    assert(fresh(builder_content(self.builder), built));
                    assert(tells(
                        print_msgs,
                        seq!["ERROR: "@ + msg@],
                        built,
                        observed(game),
                    ));
                }
                assert(reconstruct.ensures((&self.builder, &self.mod_descriptors), outcome));
                game
            },
        }
    }

    /// Brings a game back as it was after a number of inputs, if the engine can
    /// take them all.
    fn bring_back<
        R: Fn(&GameBuilder, &Vec<String>) -> Result<(Game, Vec<String>), String>,
        P: Fn(Vec<String>) -> Modifier,
    >(&self, input_index: usize, reconstruct: R, print_msgs: P) -> (r: Option<Game>)
        requires
            history_wf(self.input_history@),
            buildable(builder_content(self.builder)),
            self.modifiers_return(reconstruct, print_msgs),
        ensures
            match r {
                Some(game) => {
                    &&& self.restores(input_index as int, reconstruct, print_msgs, game)
                    &&& tame(game)
                },
                None => self.sticks(input_index as int, reconstruct, print_msgs),
            },
    {
        let mut game = self.rebuild(reconstruct, print_msgs);
        let ghost start = game;
        let verbosity = config_feedback_verbosity(&game);
        set_feedback_verbosity(&mut game, Verbosity::Silent);
        let len: usize = self.input_history.len();
        let count: usize = if input_index < len {
            input_index
        } else {
            len
        };
        assert(self.input_history@.take(count as int) =~= self.inputs_up_to(input_index as int));
        if replay(&mut game, &self.input_history, count) {
            set_feedback_verbosity(&mut game, verbosity);
            assert(self.replays(input_index as int, start, game));
            Some(game)
        } else {
            None
        }
    }

    /// Brings a game back as it was after a number of inputs.
    pub fn restore<
        R: Fn(&GameBuilder, &Vec<String>) -> Result<(Game, Vec<String>), String>,
        P: Fn(Vec<String>) -> Modifier,
    >(&self, input_index: usize, reconstruct: R, print_msgs: P) -> (game: Game)
        requires
            history_wf(self.input_history@),
            buildable(builder_content(self.builder)),
            self.modifiers_return(reconstruct, print_msgs),
            !self.sticks(input_index as int, reconstruct, print_msgs),
        ensures
            self.restores(input_index as int, reconstruct, print_msgs, game),
            tame(game),
    {
        self.bring_back(input_index, reconstruct, print_msgs).unwrap()
    }

    /// Brings a game back as [`GameRestorationData::restore`] does, if it is known
    /// that the game can be built at all and the engine can take all inputs.
    pub fn restore_if_ready<
        R: Fn(&GameBuilder, &Vec<String>) -> Result<(Game, Vec<String>), String>,
        P: Fn(Vec<String>) -> Modifier,
    >(&self, input_index: usize, reconstruct: R, print_msgs: P) -> (r: Option<Game>)
        requires
            history_wf(self.input_history@),
            self.modifiers_return(reconstruct, print_msgs),
        ensures
            if buildable(builder_content(self.builder)) && factors_finite(
                builder_content(self.builder),
            ) {
                match r {
                    Some(game) => {
                        &&& self.restores(input_index as int, reconstruct, print_msgs, game)
                        &&& tame(game)
                    },
                    None => self.sticks(input_index as int, reconstruct, print_msgs),
                }
            } else {
                r is None
            },
    {
        if is_buildable(&self.builder) {
            self.bring_back(input_index, reconstruct, print_msgs)
        } else {
            None
        }
    }
}

/// What is said of modifiers that were not recognized.
pub open spec fn warnings(unrecognized: Seq<String>) -> Seq<Seq<char>> {
    Seq::new(
        unrecognized.len(),
        |i: int| "WARNING: idk mod "@ + text_debug(unrecognized[i]@),
    )
}

/// Whether a game has one more modifier, which tells these messages.
pub open spec fn tells<P: Fn(Vec<String>) -> Modifier>(
    print_msgs: P,
    texts: Seq<Seq<char>>,
    before: GameView,
    after: GameView,
) -> bool {
    exists|msgs: Vec<String>, modifier: Modifier| #[trigger]
        tells_by(print_msgs, texts, msgs, modifier, before, after)
}

/// Whether a game has one more modifier, made to tell these messages.
pub open spec fn tells_by<P: Fn(Vec<String>) -> Modifier>(
    print_msgs: P,
    texts: Seq<Seq<char>>,
    msgs: Vec<String>,
    modifier: Modifier,
    before: GameView,
    after: GameView,
) -> bool {
    &&& texts_of(msgs@) == texts
    &&& print_msgs.ensures((msgs,), modifier)
    &&& after == (GameView {
        modifiers: before.modifiers.push(modifier_descriptor(modifier)),
        ..before
    })
}

/// A game without modifiers comes back before its first input and, if its rules
/// are in range, after it.
pub proof fn law_first_input_is_taken<
    R: Fn(&GameBuilder, &Vec<String>) -> Result<(Game, Vec<String>), String>,
    P: Fn(Vec<String>) -> Modifier,
>(
    data: GameRestorationData<UncompressedInputHistory>,
    input_index: int,
    reconstruct: R,
    print_msgs: P,
)
    requires
        data.mod_descriptors@.len() == 0,
        data.inputs_up_to(input_index).len() <= 1,
        data.inputs_up_to(input_index).len() == 1 ==> {
            &&& startable(builder_content(data.builder))
            &&& data.inputs_up_to(input_index)[0].1 == ButtonChange::Press(Button::DropSoft)
                ==> drops_faster(builder_content(data.builder))
        },
    ensures
        !data.sticks(input_index, reconstruct, print_msgs),
{
    let inputs = data.inputs_up_to(input_index);
    if data.sticks(input_index, reconstruct, print_msgs) {
        let (start, silenced) = choose|start: Game, silenced: Game|
            {
                &&& #[trigger] data.starts_as(reconstruct, print_msgs, start)
                &&& observed(silenced) == with_verbosity(observed(start), Verbosity::Silent)
                &&& #[trigger] gets_stuck(silenced, inputs)
            };
        let (k, middle) = choose|k: int, middle: Game|
            {
                &&& 0 <= k < inputs.len()
                &&& #[trigger] replayed(silenced, inputs.take(k), middle)
                &&& advanced(middle, inputs[k].0, Some(inputs[k].1), middle, Advance::NotReady)
            };
        let content = builder_content(data.builder);
        let silent = BuilderView {
            config: ConfigView { feedback_verbosity: Verbosity::Silent, ..content.config },
            ..content
        };
        lemma_fresh_game_is_ready(silent, observed(silenced), inputs[k].0, Some(inputs[k].1));
    }
}

/// Inputs keep the rules of a game without modifiers and what it was started
/// with.
proof fn lemma_replay_keeps_rules(
    before: Game,
    inputs: Seq<(InGameTime, ButtonChange)>,
    after: Game,
)
    requires
        replayed(before, inputs, after),
        observed(before).modifiers.len() == 0,
    ensures
        observed(after).modifiers.len() == 0,
        observed(after).config == observed(before).config,
        observed(after).seed == observed(before).seed,
        observed(after).first_generator == observed(before).first_generator,
    decreases inputs.len(),
{
    if inputs.len() > 0 {
        let (middle, r) = choose|middle: Game, r: Advance|
            #![trigger advanced(middle, inputs.last().0, Some(inputs.last().1), after, r)]
            {
                &&& replayed(before, inputs.drop_last(), middle)
                &&& advanced(middle, inputs.last().0, Some(inputs.last().1), after, r)
                &&& r != Advance::NotReady
            };
        lemma_replay_keeps_rules(before, inputs.drop_last(), middle);
    }
}

/// A game without modifiers comes back under the rules, with the seed and with
/// the first way of picking pieces that were recorded of it.
pub proof fn law_restored_game_keeps_rules<
    R: Fn(&GameBuilder, &Vec<String>) -> Result<(Game, Vec<String>), String>,
    P: Fn(Vec<String>) -> Modifier,
>(
    data: GameRestorationData<UncompressedInputHistory>,
    input_index: int,
    reconstruct: R,
    print_msgs: P,
    game: Game,
)
    requires
        data.mod_descriptors@.len() == 0,
        data.restores(input_index, reconstruct, print_msgs, game),
    ensures
        observed(game).modifiers.len() == 0,
        observed(game).config == builder_content(data.builder).config,
        builder_content(data.builder).seed matches Some(seed) ==> observed(game).seed == seed,
        observed(game).first_generator == builder_content(data.builder).tetromino_generator,
{
    let start = choose|start: Game| #[trigger]
        data.starts_as(reconstruct, print_msgs, start) && data.replays(input_index, start, game);
    let (silenced, played) = choose|silenced: Game, played: Game|
        {
            &&& observed(silenced) == with_verbosity(observed(start), Verbosity::Silent)
            &&& #[trigger] replayed(silenced, data.inputs_up_to(input_index), played)
            &&& observed(game) == with_verbosity(
                observed(played),
                observed(start).config.feedback_verbosity,
            )
        };
    lemma_replay_keeps_rules(silenced, data.inputs_up_to(input_index), played);
}

/// What is recorded of a restored game is what it was restored from.
pub proof fn law_record_of_restored_game<
    R: Fn(&GameBuilder, &Vec<String>) -> Result<(Game, Vec<String>), String>,
    P: Fn(Vec<String>) -> Modifier,
>(
    data: GameRestorationData<UncompressedInputHistory>,
    input_index: int,
    reconstruct: R,
    print_msgs: P,
    game: Game,
)
    requires
        data.mod_descriptors@.len() == 0,
        builder_content(data.builder).seed is Some,
        data.restores(input_index, reconstruct, print_msgs, game),
    ensures
        blueprint_content(observed(game)) == builder_content(data.builder),
        observed(game).modifiers == texts_of(data.mod_descriptors@),
{
    law_restored_game_keeps_rules(data, input_index, reconstruct, print_msgs, game);
}

/// Inputs in the order of time.
pub open spec fn in_order(inputs: Seq<(InGameTime, ButtonChange)>) -> bool {
    forall|i: int, j: int|
        0 <= i <= j < inputs.len() ==> (#[trigger] inputs[i]).0.nanos() <= (
        #[trigger] inputs[j]).0.nanos()
}

proof fn lemma_replay_reaches_last_input(
    before: Game,
    inputs: Seq<(InGameTime, ButtonChange)>,
    after: Game,
)
    requires
        replayed(before, inputs, after),
        observed(before).modifiers.len() == 0,
        in_order(inputs),
        inputs.len() > 0 ==> observed(before).time.nanos() <= inputs[0].0.nanos(),
        observed(after).result is None,
    ensures
        observed(after).time == if inputs.len() == 0 {
            observed(before).time
        } else {
            inputs.last().0
        },
    decreases inputs.len(),
{
    if inputs.len() > 0 {
        let (middle, r) = choose|middle: Game, r: Advance|
            #![trigger advanced(middle, inputs.last().0, Some(inputs.last().1), after, r)]
            {
                &&& replayed(before, inputs.drop_last(), middle)
                &&& advanced(middle, inputs.last().0, Some(inputs.last().1), after, r)
                &&& r != Advance::NotReady
            };
        let rest = inputs.drop_last();
        lemma_replay_keeps_rules(before, rest, middle);
        if observed(middle).result is None {
            lemma_replay_reaches_last_input(before, rest, middle);
        }
    }
}

/// A game without modifiers that comes back unended has its clock at the last of
/// the inputs that were made again, if those are in order.
pub proof fn law_restored_game_is_at_last_input<
    R: Fn(&GameBuilder, &Vec<String>) -> Result<(Game, Vec<String>), String>,
    P: Fn(Vec<String>) -> Modifier,
>(
    data: GameRestorationData<UncompressedInputHistory>,
    input_index: int,
    reconstruct: R,
    print_msgs: P,
    game: Game,
)
    requires
        data.mod_descriptors@.len() == 0,
        data.restores(input_index, reconstruct, print_msgs, game),
        in_order(data.inputs_up_to(input_index)),
        observed(game).result is None,
    ensures
        observed(game).time.nanos() == if data.inputs_up_to(input_index).len() == 0 {
            0
        } else {
            data.inputs_up_to(input_index).last().0.nanos()
        },
{
    let start = choose|start: Game| #[trigger]
        data.starts_as(reconstruct, print_msgs, start) && data.replays(input_index, start, game);
    let (silenced, played) = choose|silenced: Game, played: Game|
        {
            &&& observed(silenced) == with_verbosity(observed(start), Verbosity::Silent)
            &&& #[trigger] replayed(silenced, data.inputs_up_to(input_index), played)
            &&& observed(game) == with_verbosity(
                observed(played),
                observed(start).config.feedback_verbosity,
            )
        };
    lemma_replay_reaches_last_input(silenced, data.inputs_up_to(input_index), played);
}

/// How many inputs are made when a game is brought back: as many as are asked
/// for, unless fewer were recorded.
pub open spec fn inputs_made(asked: int, recorded: int) -> int {
    if asked < recorded {
        asked
    } else {
        recorded
    }
}

/// What is made again when a game is brought back after a number of inputs are
/// the first recorded ones, as many as that number says or as there are, one
/// after the other and each once. The game is silent meanwhile and tells as much
/// as before afterwards.
pub proof fn law_restoring_makes_the_first_inputs<
    R: Fn(&GameBuilder, &Vec<String>) -> Result<(Game, Vec<String>), String>,
    P: Fn(Vec<String>) -> Modifier,
>(
    data: GameRestorationData<UncompressedInputHistory>,
    input_index: int,
    reconstruct: R,
    print_msgs: P,
    game: Game,
)
    requires
        0 <= input_index,
        data.restores(input_index, reconstruct, print_msgs, game),
    ensures
        exists|start: Game, silenced: Game, played: Game|
            {
                &&& #[trigger] data.starts_as(reconstruct, print_msgs, start)
                &&& observed(silenced) == (GameView {
                    config: ConfigView {
                        feedback_verbosity: Verbosity::Silent,
                        ..observed(start).config
                    },
                    ..observed(start)
                })
                &&& #[trigger] replayed(
                    silenced,
                    data.input_history@.take(
                        inputs_made(input_index, data.input_history@.len() as int),
                    ),
                    played,
                )
                &&& observed(game) == (GameView {
                    config: ConfigView {
                        feedback_verbosity: observed(start).config.feedback_verbosity,
                        ..observed(played).config
                    },
                    ..observed(played)
                })
            },
{
    let start = choose|start: Game| #[trigger]
        data.starts_as(reconstruct, print_msgs, start) && data.replays(input_index, start, game);
    let (silenced, played) = choose|silenced: Game, played: Game|
        {
            &&& observed(silenced) == with_verbosity(observed(start), Verbosity::Silent)
            &&& #[trigger] replayed(silenced, data.inputs_up_to(input_index), played)
            &&& observed(game) == with_verbosity(
                observed(played),
                observed(start).config.feedback_verbosity,
            )
        };
    let made = inputs_made(input_index, data.input_history@.len() as int);
    assert(data.inputs_up_to(input_index) =~= data.input_history@.take(made));
}

/// Making inputs is making all but the last of them and then the last; making
/// none leaves the game as it is.
pub proof fn law_inputs_are_made_one_after_the_other(
    before: Game,
    inputs: Seq<(InGameTime, ButtonChange)>,
    input: (InGameTime, ButtonChange),
    after: Game,
)
    ensures
        replayed(before, Seq::empty(), after) <==> after == before,
        replayed(before, inputs.push(input), after) <==> exists|middle: Game, r: Advance|
            {
                &&& replayed(before, inputs, middle)
                &&& #[trigger] advanced(middle, input.0, Some(input.1), after, r)
                &&& r != Advance::NotReady
            },
{
    let all = inputs.push(input);
    assert(all.drop_last() =~= inputs);
    if replayed(before, all, after) {
        let (middle, r) = choose|middle: Game, r: Advance|
            #![trigger advanced(middle, all.last().0, Some(all.last().1), after, r)]
            {
                &&& replayed(before, all.drop_last(), middle)
                &&& advanced(middle, all.last().0, Some(all.last().1), after, r)
                &&& r != Advance::NotReady
            };
        assert(advanced(middle, input.0, Some(input.1), after, r));
    }
    if exists|middle: Game, r: Advance|
        {
            &&& replayed(before, inputs, middle)
            &&& #[trigger] advanced(middle, input.0, Some(input.1), after, r)
            &&& r != Advance::NotReady
        } {
        let (middle, r) = choose|middle: Game, r: Advance|
            {
                &&& replayed(before, inputs, middle)
                &&& #[trigger] advanced(middle, input.0, Some(input.1), after, r)
                &&& r != Advance::NotReady
            };
        assert(advanced(middle, all.last().0, Some(all.last().1), after, r));
    }
}

/// A game without modifiers that comes back unended after a number of inputs has
/// its clock at the last of them, or at its beginning if there are none.
pub proof fn law_restored_clock_is_at_the_last_input_made<
    R: Fn(&GameBuilder, &Vec<String>) -> Result<(Game, Vec<String>), String>,
    P: Fn(Vec<String>) -> Modifier,
>(
    data: GameRestorationData<UncompressedInputHistory>,
    input_index: int,
    reconstruct: R,
    print_msgs: P,
    game: Game,
)
    requires
        0 <= input_index,
        data.mod_descriptors@.len() == 0,
        data.restores(input_index, reconstruct, print_msgs, game),
        in_order(data.input_history@),
        observed(game).result is None,
    ensures
        observed(game).time.nanos() == {
            let made = inputs_made(input_index, data.input_history@.len() as int);
            if made == 0 {
                0
            } else {
                data.input_history@[made - 1].0.nanos()
            }
        },
{
    let made = inputs_made(input_index, data.input_history@.len() as int);
    assert(data.inputs_up_to(input_index) =~= data.input_history@.take(made));
    law_restored_game_is_at_last_input(data, input_index, reconstruct, print_msgs, game);
}

/// Whether input `k` is the last of the first `made` ones that changes a button.
pub open spec fn last_change(
    inputs: Seq<(InGameTime, ButtonChange)>,
    made: int,
    b: Button,
    k: int,
) -> bool {
    &&& 0 <= k < made
    &&& inputs[k].1 == ButtonChange::Press(b) || inputs[k].1 == ButtonChange::Release(b)
    &&& forall|j: int|
        k < j < made ==> (#[trigger] inputs[j]).1 != ButtonChange::Press(b) && inputs[j].1
            != ButtonChange::Release(b)
}

proof fn lemma_replay_changes_buttons(
    before: Game,
    inputs: Seq<(InGameTime, ButtonChange)>,
    after: Game,
    b: Button,
    k: int,
)
    requires
        replayed(before, inputs, after),
        observed(before).modifiers.len() == 0,
        observed(before).buttons_pressed.len() == 11,
        in_order(inputs),
        inputs.len() > 0 ==> observed(before).time.nanos() <= inputs[0].0.nanos(),
        observed(after).result is None,
    ensures
        observed(after).buttons_pressed.len() == 11,
        last_change(inputs, inputs.len() as int, b, k) ==> observed(
            after,
        ).buttons_pressed[b.number()] == if inputs[k].1 == ButtonChange::Press(b) {
            Some(inputs[k].0)
        } else {
            None
        },
        (forall|j: int|
            0 <= j < inputs.len() ==> (#[trigger] inputs[j]).1 != ButtonChange::Press(b)
                && inputs[j].1 != ButtonChange::Release(b)) ==> observed(
            after,
        ).buttons_pressed[b.number()] == observed(before).buttons_pressed[b.number()],
    decreases inputs.len(),
{
    if inputs.len() > 0 {
        let (middle, r) = choose|middle: Game, r: Advance|
            #![trigger advanced(middle, inputs.last().0, Some(inputs.last().1), after, r)]
            {
                &&& replayed(before, inputs.drop_last(), middle)
                &&& advanced(middle, inputs.last().0, Some(inputs.last().1), after, r)
                &&& r != Advance::NotReady
            };
        let rest = inputs.drop_last();
        let n = rest.len() as int;
        lemma_replay_keeps_rules(before, rest, middle);
        lemma_replay_reaches_last_input(before, rest, middle);
        lemma_replay_changes_buttons(before, rest, middle, b, k);
        assert(observed(after).buttons_pressed == pressed_after(
            observed(middle).buttons_pressed,
            inputs[n].0,
            Some(inputs[n].1),
        ));
        if last_change(inputs, n + 1, b, k) && k < n {
            assert(rest[k] == inputs[k]);
            assert(last_change(rest, n, b, k)) by {
                assert forall|j: int| k < j < n implies (#[trigger] rest[j]).1
                    != ButtonChange::Press(b) && rest[j].1 != ButtonChange::Release(b) by {
                    assert(rest[j] == inputs[j]);
                }
            }
            assert(inputs[n].1 != ButtonChange::Press(b) && inputs[n].1 != ButtonChange::Release(
                b,
            ));
        }
        if forall|j: int|
            0 <= j < inputs.len() ==> (#[trigger] inputs[j]).1 != ButtonChange::Press(b)
                && inputs[j].1 != ButtonChange::Release(b) {
            assert(inputs[n].1 != ButtonChange::Press(b));
            assert forall|j: int| 0 <= j < n implies (#[trigger] rest[j]).1 != ButtonChange::Press(
                b,
            ) && rest[j].1 != ButtonChange::Release(b) by {
                assert(rest[j] == inputs[j]);
            }
        }
    }
}

/// In a game without modifiers that comes back unended, a button is down exactly
/// if the last change of it among the inputs that were made is a press, and has
/// been since then.
pub proof fn law_restored_buttons_are_as_the_inputs_left_them<
    R: Fn(&GameBuilder, &Vec<String>) -> Result<(Game, Vec<String>), String>,
    P: Fn(Vec<String>) -> Modifier,
>(
    data: GameRestorationData<UncompressedInputHistory>,
    input_index: int,
    reconstruct: R,
    print_msgs: P,
    game: Game,
    b: Button,
    k: int,
)
    requires
        0 <= input_index,
        data.mod_descriptors@.len() == 0,
        data.restores(input_index, reconstruct, print_msgs, game),
        in_order(data.input_history@),
        observed(game).result is None,
    ensures
        ({
            let made = inputs_made(input_index, data.input_history@.len() as int);
            let inputs = data.input_history@;
            let since = observed(game).buttons_pressed[b.number()];
            &&& last_change(inputs, made, b, k) && inputs[k].1 == ButtonChange::Press(b) ==> since
                == Some(inputs[k].0)
            &&& last_change(inputs, made, b, k) && inputs[k].1 == ButtonChange::Release(b)
                ==> since is None
            &&& (forall|j: int|
                0 <= j < made ==> (#[trigger] inputs[j]).1 != ButtonChange::Press(b) && inputs[j].1
                    != ButtonChange::Release(b)) ==> since is None
        }),
{
    let start = choose|start: Game| #[trigger]
        data.starts_as(reconstruct, print_msgs, start) && data.replays(input_index, start, game);
    let (silenced, played) = choose|silenced: Game, played: Game|
        {
            &&& observed(silenced) == with_verbosity(observed(start), Verbosity::Silent)
            &&& #[trigger] replayed(silenced, data.inputs_up_to(input_index), played)
            &&& observed(game) == with_verbosity(
                observed(played),
                observed(start).config.feedback_verbosity,
            )
        };
    let made = inputs_made(input_index, data.input_history@.len() as int);
    let inputs = data.input_history@;
    let first = inputs.take(made);
    assert(data.inputs_up_to(input_index) =~= first);
    crate::button::lemma_variants_numbered(b, 0);
    lemma_replay_changes_buttons(silenced, first, played, b, k);
    if last_change(inputs, made, b, k) {
        assert(first[k] == inputs[k]);
        assert(last_change(first, made, b, k)) by {
            assert forall|j: int| k < j < made implies (#[trigger] first[j]).1
                != ButtonChange::Press(b) && first[j].1 != ButtonChange::Release(b) by {
                assert(first[j] == inputs[j]);
            }
        }
    }
    if forall|j: int|
        0 <= j < made ==> (#[trigger] inputs[j]).1 != ButtonChange::Press(b) && inputs[j].1
            != ButtonChange::Release(b) {
        assert forall|j: int| 0 <= j < first.len() implies (#[trigger] first[j]).1
            != ButtonChange::Press(b) && first[j].1 != ButtonChange::Release(b) by {
            assert(first[j] == inputs[j]);
        }
    }
}

/// Whether a game has one more modifier, made of one warning for each of some
/// texts, in order.
pub open spec fn warns_of<P: Fn(Vec<String>) -> Modifier>(
    print_msgs: P,
    lost: Seq<String>,
    msgs: Vec<String>,
    modifier: Modifier,
    before: GameView,
    after: GameView,
) -> bool {
    &&& print_msgs.ensures((msgs,), modifier)
    &&& msgs@.len() == lost.len()
    &&& forall|i: int|
        0 <= i < msgs@.len() ==> (#[trigger] msgs@[i])@ == "WARNING: idk mod "@ + text_debug(
            lost[i]@,
        )
    &&& after == (GameView {
        modifiers: before.modifiers.push(modifier_descriptor(modifier)),
        ..before
    })
}

/// Whether a modifier is made of one error.
pub open spec fn reports<P: Fn(Vec<String>) -> Modifier>(
    print_msgs: P,
    error: Seq<char>,
    msgs: Vec<String>,
    modifier: Modifier,
) -> bool {
    &&& print_msgs.ensures((msgs,), modifier)
    &&& msgs@.len() == 1
    &&& msgs@[0]@ == "ERROR: "@ + error
}

/// Whether a game is what modifiers were put back into, with one more that tells
/// of those that were not.
pub open spec fn what_is_lost_is_told<P: Fn(Vec<String>) -> Modifier>(
    config: ConfigView,
    print_msgs: P,
    result: Result<(Game, Vec<String>), String>,
    game: Game,
) -> bool {
    match result {
        Ok((modded, lost)) => {
            &&& lost@.len() == 0 ==> game == modded
            &&& lost@.len() > 0 ==> exists|msgs: Vec<String>, modifier: Modifier|
                #[trigger] warns_of(
                    print_msgs,
                    lost@,
                    msgs,
                    modifier,
                    observed(modded),
                    observed(game),
                )
        },
        Err(msg) => exists|msgs: Vec<String>, modifier: Modifier|
            {
                &&& #[trigger] reports(print_msgs, msg@, msgs, modifier)
                &&& observed(game).modifiers == seq![modifier_descriptor(modifier)]
                &&& observed(game).config == config
            },
    }
}

/// A game with modifiers comes back with those that were recognized and, if some
/// were not or none could be put back, with one more that tells so: one warning
/// for each that was not recognized, in order, or one error.
pub proof fn law_lost_modifiers_are_told_of<
    R: Fn(&GameBuilder, &Vec<String>) -> Result<(Game, Vec<String>), String>,
    P: Fn(Vec<String>) -> Modifier,
>(
    data: GameRestorationData<UncompressedInputHistory>,
    reconstruct: R,
    print_msgs: P,
    game: Game,
)
    requires
        data.mod_descriptors@.len() > 0,
        data.starts_as(reconstruct, print_msgs, game),
    ensures
        exists|result: Result<(Game, Vec<String>), String>|
            {
                &&& reconstruct.ensures((&data.builder, &data.mod_descriptors), result)
                &&& #[trigger] what_is_lost_is_told(
                    builder_content(data.builder).config,
                    print_msgs,
                    result,
                    game,
                )
            },
{
    let result = choose|result: Result<(Game, Vec<String>), String>|
        {
            &&& #[trigger] reconstruct.ensures((&data.builder, &data.mod_descriptors), result)
            &&& match result {
                Ok((modded, unrecognized)) => if unrecognized@.len() == 0 {
                    game == modded
                } else {
                    tells(print_msgs, warnings(unrecognized@), observed(modded), observed(game))
                },
                Err(msg) => exists|built: GameView|
                    {
                        &&& fresh(builder_content(data.builder), built)
                        &&& built.modifiers.len() == 0
                        &&& #[trigger] tells(
                            print_msgs,
                            seq!["ERROR: "@ + msg@],
                            built,
                            observed(game),
                        )
                    },
            }
        };
    assert(reconstruct.ensures((&data.builder, &data.mod_descriptors), result));
    match result {
        Ok((modded, lost)) => if lost@.len() > 0 {
            let (msgs, modifier) = choose|msgs: Vec<String>, modifier: Modifier| #[trigger]
                tells_by(
                    print_msgs,
                    warnings(lost@),
                    msgs,
                    modifier,
                    observed(modded),
                    observed(game),
                );
            assert(print_msgs.ensures((msgs,), modifier));
            assert(texts_of(msgs@).len() == warnings(lost@).len());
            assert forall|i: int| 0 <= i < msgs@.len() implies (#[trigger] msgs@[i])@
                == "WARNING: idk mod "@ + text_debug(lost@[i]@) by {
                assert(texts_of(msgs@)[i] == warnings(lost@)[i]);
            }
            assert(texts_of(msgs@) == warnings(lost@));
            assert(msgs@.len() == lost@.len());
            assert(warns_of(
                print_msgs,
                lost@,
                msgs,
                modifier,
                observed(modded),
                observed(game),
            ));
            assert(what_is_lost_is_told(
                builder_content(data.builder).config,
                print_msgs,
                result,
                game,
            ));
        } else {
            assert(what_is_lost_is_told(
                builder_content(data.builder).config,
                print_msgs,
                result,
                game,
            ));
        },
        Err(msg) => {
            let built = choose|built: GameView|
                {
                    &&& fresh(builder_content(data.builder), built)
                    &&& built.modifiers.len() == 0
                    &&& #[trigger] tells(
                        print_msgs,
                        seq!["ERROR: "@ + msg@],
                        built,
                        observed(game),
                    )
                };
            let (msgs, modifier) = choose|msgs: Vec<String>, modifier: Modifier| #[trigger]
                tells_by(
                    print_msgs,
                    seq!["ERROR: "@ + msg@],
                    msgs,
                    modifier,
                    built,
                    observed(game),
                );
            assert(print_msgs.ensures((msgs,), modifier));
            assert(texts_of(msgs@)[0] == "ERROR: "@ + msg@);
            assert(observed(game).modifiers =~= seq![modifier_descriptor(modifier)]);
            assert(texts_of(msgs@).len() == 1);
            assert(texts_of(msgs@)[0] == msgs@[0]@);
            assert(reports(print_msgs, msg@, msgs, modifier));
            assert(what_is_lost_is_told(
                builder_content(data.builder).config,
                print_msgs,
                result,
                game,
            ));
        },
    }
}

/// A game that is built by what was recorded of another one has the same rules,
/// the same seed and the same first way of picking pieces.
pub proof fn law_recorded_game_is_built_alike(game: GameView, again: GameView)
    requires
        fresh(blueprint_content(game), again),
    ensures
        again.config == game.config,
        again.seed == game.seed,
        again.first_generator == game.first_generator,
        again.piece_generator == game.first_generator,
{
}

/// `format!` of a text with `{:?}`.
pub uninterp spec fn text_debug(text: Seq<char>) -> Seq<char>;

/// Writes a text as the standard library's `Debug` for `str` does: in quotes,
/// with escapes. What it writes depends on the text alone.
#[verifier::external_body]
pub(crate) fn debug_of(text: &str) -> (r: String)
    ensures
        r@ == text_debug(text@),
{
    format!("{text:?}")
}

/// What is said of modifiers that were not recognized.
pub fn warn_messages(unrecognized: &Vec<String>) -> (r: Vec<String>)
    ensures
        texts_of(r@) == warnings(unrecognized@),
{
    let mut r: Vec<String> = Vec::new();
    for k in 0..unrecognized.len()
        invariant
            texts_of(r@) == Seq::new(
                k as nat,
                |i: int| "WARNING: idk mod "@ + text_debug(unrecognized@[i]@),
            ),
    {
        let mut message = "WARNING: idk mod ".to_owned();
        message.append(debug_of(unrecognized[k].as_str()).as_str());
        let ghost before = r@;
        r.push(message);
        assert(texts_of(r@) =~= texts_of(before).push(message@));
    }
    r
}

/// What is said of modifiers that could not be put back.
pub fn error_messages(msg: &str) -> (r: Vec<String>)
    ensures
        texts_of(r@) == seq!["ERROR: "@ + msg@],
{
    let mut message = "ERROR: ".to_owned();
    message.append(msg);
    let mut r: Vec<String> = Vec::new();
    r.push(message);
    r
}

/// A game that was put aside.
#[derive(Debug)]
pub struct GameSave<T> {
    /// What is recorded of the game apart from how it went.
    pub game_meta_data: GameMetaData,
    /// What it takes to bring it back.
    pub game_restoration_data: GameRestorationData<T>,
    /// How many inputs to make when it is brought back.
    pub inputs_to_load: usize,
}

impl<T> GameSave<T> {
    /// The same save with what was done in the game put differently.
    pub fn map<U>(self, f: impl Fn(T) -> U) -> (r: GameSave<U>)
        requires
            f.requires((self.game_restoration_data.input_history,)),
        ensures
            r.game_meta_data == self.game_meta_data,
            r.game_restoration_data.builder == self.game_restoration_data.builder,
            r.game_restoration_data.mod_descriptors == self.game_restoration_data.mod_descriptors,
            f.ensures(
                (self.game_restoration_data.input_history,),
                r.game_restoration_data.input_history,
            ),
            r.game_restoration_data.forfeit == self.game_restoration_data.forfeit,
            r.inputs_to_load == self.inputs_to_load,
    {
        GameSave {
            game_restoration_data: self.game_restoration_data.map(f),
            game_meta_data: self.game_meta_data,
            inputs_to_load: self.inputs_to_load,
        }
    }
}

/// Every modifier that was not recognized is warned of by its own name, in the order in
/// which they were recorded.
pub proof fn law_each_unrecognized_modifier_is_named(unrecognized: Seq<String>, i: int)
    requires
        0 <= i < unrecognized.len(),
    ensures
        warnings(unrecognized).len() == unrecognized.len(),
        warnings(unrecognized)[i] == "WARNING: idk mod "@ + text_debug(unrecognized[i]@),
{
}

} // verus!

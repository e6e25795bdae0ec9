//! The state of the program between one screen and the next.
use crate::builder::{builder_content, texts_of};
use crate::button::ButtonChange;
use crate::game::join3;
use crate::input_history::{
    all_packed, compressed, decompressed, history_wf, law_compress_drift, law_compressed_is_packed,
    law_decompress_inverts_compress, step_millis, CompressedInputHistory, UncompressedInputHistory,
};
use crate::restoration::{in_order, GameRestorationData, GameSave};
use crate::scores::{PastGame, ScoresAndReplays, ScoresSorting};
use crate::settings::{NewGameSettings, SavefileGranularity, Settings};
use crate::time::InGameTime;
use vstd::prelude::*;
use vstd::string::*;

verus! {

/// How wide the part of the terminal is that is drawn on.
pub const W_MAIN: u16 = 62;

/// How high the part of the terminal is that is drawn on.
pub const H_MAIN: u16 = 23;

/// What is known of the terminal.
#[derive(PartialEq, Eq, Structural, PartialOrd, Ord, Hash, Clone, Copy, Debug)]
pub struct RuntimeData {
    /// Whether the terminal says that it tells when a key comes up.
    pub kitty_detected: bool,
    /// Whether it is taken to do so.
    pub kitty_assumed: bool,
}

/// The state of the program between one screen and the next.
#[derive(Debug)]
pub struct Application {
    /// What is known of the terminal.
    pub runtime_data: RuntimeData,
    /// How much of the session is kept in the savefile.
    pub save_on_exit: SavefileGranularity,
    /// What the player has set up.
    pub settings: Settings,
    /// Past games.
    pub scores_and_replays: ScoresAndReplays,
    /// Games that were put aside, and which of them is picked.
    pub game_saves: (usize, Vec<GameSave<UncompressedInputHistory>>),
    /// The mode to begin with, by name.
    pub start_mode: Option<String>,
}

/// What is kept in the savefile.
#[derive(Debug)]
pub struct SaveState {
    /// How much of the session is kept.
    pub save_on_exit: SavefileGranularity,
    /// What the player has set up.
    pub settings: Settings,
    /// Past games.
    pub scores_and_replays: ScoresAndReplays,
    /// Games that were put aside, and which of them is picked.
    pub game_saves: (usize, Vec<GameSave<CompressedInputHistory>>),
}

// ---------------------------------------------------------------------------
// Savefiles
// ---------------------------------------------------------------------------
/// Whether a save is another one with its inputs packed.
pub open spec fn packs(
    packed: GameSave<CompressedInputHistory>,
    save: GameSave<UncompressedInputHistory>,
) -> bool {
    &&& packed.game_meta_data == save.game_meta_data
    &&& builder_content(packed.game_restoration_data.builder) == builder_content(
        save.game_restoration_data.builder,
    )
    &&& texts_of(packed.game_restoration_data.mod_descriptors@) == texts_of(
        save.game_restoration_data.mod_descriptors@,
    )
    &&& packed.game_restoration_data.input_history@ == compressed(
        save.game_restoration_data.input_history@,
    )
    &&& packed.game_restoration_data.forfeit == save.game_restoration_data.forfeit
    &&& packed.inputs_to_load == save.inputs_to_load
}

/// Whether a save is another one with its inputs unpacked.
pub open spec fn unpacks(
    save: GameSave<UncompressedInputHistory>,
    packed: GameSave<CompressedInputHistory>,
) -> bool {
    &&& save.game_meta_data == packed.game_meta_data
    &&& save.game_restoration_data.builder == packed.game_restoration_data.builder
    &&& save.game_restoration_data.mod_descriptors == packed.game_restoration_data.mod_descriptors
    &&& save.game_restoration_data.input_history@ == decompressed(
        packed.game_restoration_data.input_history@,
    )
    &&& save.game_restoration_data.forfeit == packed.game_restoration_data.forfeit
    &&& save.inputs_to_load == packed.inputs_to_load
}

/// Saves whose inputs have well-formed times.
pub open spec fn saves_wf(saves: Seq<GameSave<UncompressedInputHistory>>) -> bool {
    forall|i: int|
        0 <= i < saves.len() ==> history_wf(
            (#[trigger] saves[i]).game_restoration_data.input_history@,
        )
}

/// Saves whose inputs can be unpacked.
pub open spec fn saves_packed(saves: Seq<GameSave<CompressedInputHistory>>) -> bool {
    forall|i: int|
        0 <= i < saves.len() ==> all_packed(
            (#[trigger] saves[i]).game_restoration_data.input_history@,
        )
}

/// What is kept of past games in the savefile.
pub open spec fn kept_games(games: Seq<PastGame>, granularity: SavefileGranularity) -> Seq<PastGame> {
    match granularity {
        SavefileGranularity::NoSavefile => Seq::empty(),
        SavefileGranularity::RememberSettings => Seq::empty(),
        SavefileGranularity::RememberSettingsScores => Seq::new(
            games.len(),
            |i: int| (games[i].0, None),
        ),
        SavefileGranularity::RememberSettingsScoresReplays => games,
    }
}

fn copy_texts(texts: &Vec<String>) -> (r: Vec<String>)
    ensures
        texts_of(r@) == texts_of(texts@),
{
    let mut r: Vec<String> = Vec::new();
    for k in 0..texts.len()
        invariant
            r@.len() == k,
            forall|i: int| 0 <= i < k ==> (#[trigger] r@[i])@ == texts@[i]@,
    {
        r.push(texts[k].clone());
    }
    r
}

/// A save with its inputs packed.
fn pack(save: &GameSave<UncompressedInputHistory>) -> (r: GameSave<CompressedInputHistory>)
    requires
        history_wf(save.game_restoration_data.input_history@),
    ensures
        packs(r, *save),
{
    let data = &save.game_restoration_data;
    GameSave {
        game_meta_data: save.game_meta_data.clone(),
        game_restoration_data: GameRestorationData {
            builder: data.builder.clone(),
            mod_descriptors: copy_texts(&data.mod_descriptors),
            input_history: CompressedInputHistory::new(&data.input_history),
            forfeit: data.forfeit,
        },
        inputs_to_load: save.inputs_to_load,
    }
}

impl Application {
    /// Everything that is to be kept of the session; what is not is dropped from
    /// the past games first.
    pub fn store_savefile(&mut self) -> (game_saves: (
        usize,
        Vec<GameSave<CompressedInputHistory>>,
    ))
        requires
            saves_wf(old(self).game_saves.1@),
        ensures
            game_saves.0 == old(self).game_saves.0,
            game_saves.1@.len() == old(self).game_saves.1@.len(),
            forall|i: int|
                0 <= i < game_saves.1@.len() ==> packs(
                    #[trigger] game_saves.1@[i],
                    old(self).game_saves.1@[i],
                ),
            final(self).scores_and_replays.entries@ == kept_games(
                old(self).scores_and_replays.entries@,
                old(self).save_on_exit,
            ),
            final(self).scores_and_replays.sorting == old(self).scores_and_replays.sorting,
            *final(self) == (Application {
                scores_and_replays: final(self).scores_and_replays,
                ..*old(self)
            }),
    {
        match self.save_on_exit {
            SavefileGranularity::NoSavefile | SavefileGranularity::RememberSettings => {
                self.scores_and_replays.entries = Vec::new();
            },
            SavefileGranularity::RememberSettingsScores => {
                let mut games: Vec<PastGame> = Vec::new();
                std::mem::swap(&mut games, &mut self.scores_and_replays.entries);
                self.scores_and_replays.entries = without_replays(games);
            },
            SavefileGranularity::RememberSettingsScoresReplays => {},
        }
        let mut packed: Vec<GameSave<CompressedInputHistory>> = Vec::new();
        for k in 0..self.game_saves.1.len()
            invariant
                saves_wf(self.game_saves.1@),
                packed@.len() == k,
                forall|i: int|
                    0 <= i < k ==> packs(#[trigger] packed@[i], self.game_saves.1@[i]),
        {
            packed.push(pack(&self.game_saves.1[k]));
        }
        (self.game_saves.0, packed)
    }

    /// Takes over what was kept of an earlier session.
    pub fn load_savefile(&mut self, save_state: SaveState)
        requires
            saves_packed(save_state.game_saves.1@),
        ensures
            final(self).save_on_exit == save_state.save_on_exit,
            final(self).settings == save_state.settings,
            final(self).scores_and_replays == save_state.scores_and_replays,
            final(self).game_saves.0 == save_state.game_saves.0,
            final(self).game_saves.1@.len() == save_state.game_saves.1@.len(),
            forall|i: int|
                0 <= i < final(self).game_saves.1@.len() ==> unpacks(
                    #[trigger] final(self).game_saves.1@[i],
                    save_state.game_saves.1@[i],
                ),
            final(self).runtime_data == old(self).runtime_data,
            final(self).start_mode == old(self).start_mode,
    {
        self.save_on_exit = save_state.save_on_exit;
        self.settings = save_state.settings;
        self.scores_and_replays = save_state.scores_and_replays;
        let (picked, packed) = save_state.game_saves;
        let mut saves: Vec<GameSave<UncompressedInputHistory>> = Vec::new();
        for save in iter: packed
            invariant
                iter.seq() == packed@,
                saves_packed(packed@),
                saves@.len() == iter.index(),
                forall|i: int| 0 <= i < saves@.len() ==> unpacks(#[trigger] saves@[i], packed@[i]),
        {
            let unpacked = save.map(unpack_history);
            saves.push(unpacked);
        }
        self.game_saves = (picked, saves);
    }
}

fn unpack_history(input_history: CompressedInputHistory) -> (h: UncompressedInputHistory)
    requires
        all_packed(input_history@),
    ensures
        h@ == decompressed(input_history@),
{
    input_history.decompress()
}

fn without_replays(games: Vec<PastGame>) -> (r: Vec<PastGame>)
    ensures
        r@ == kept_games(games@, SavefileGranularity::RememberSettingsScores),
{
    let mut r: Vec<PastGame> = Vec::new();
    for game in iter: games
        invariant
            iter.seq() == games@,
            r@.len() == iter.index(),
            forall|i: int| 0 <= i < r@.len() ==> (#[trigger] r@[i]).0 == games@[i].0 && r@[i].1 is None,
    {
        let (entry, _) = game;
        r.push((entry, None));
    }
    r
}

/// A history that packing does not change: in order, in whole milliseconds, and
/// without gaps that are too long.
pub open spec fn keeps_when_packed(h: Seq<(InGameTime, ButtonChange)>) -> bool {
    &&& history_wf(h)
    &&& forall|k: int| 0 <= k < h.len() ==> (#[trigger] h[k]).0.is_whole_millis()
    &&& in_order(h)
    &&& forall|k: int| 0 <= k < h.len() ==> #[trigger] step_millis(h, k) <= u64::MAX
}

/// A save whose inputs packing does not change is loaded as it was stored.
pub proof fn law_stored_save_loads_back(
    save: GameSave<UncompressedInputHistory>,
    packed: GameSave<CompressedInputHistory>,
    loaded: GameSave<UncompressedInputHistory>,
)
    requires
        packs(packed, save),
        keeps_when_packed(save.game_restoration_data.input_history@),
        unpacks(loaded, packed),
    ensures
        all_packed(packed.game_restoration_data.input_history@),
        loaded.game_meta_data == save.game_meta_data,
        builder_content(loaded.game_restoration_data.builder) == builder_content(
            save.game_restoration_data.builder,
        ),
        texts_of(loaded.game_restoration_data.mod_descriptors@) == texts_of(
            save.game_restoration_data.mod_descriptors@,
        ),
        loaded.game_restoration_data.input_history@ == save.game_restoration_data.input_history@,
        loaded.game_restoration_data.forfeit == save.game_restoration_data.forfeit,
        loaded.inputs_to_load == save.inputs_to_load,
{
    let h = save.game_restoration_data.input_history@;
    law_compressed_is_packed(h);
    law_decompress_inverts_compress(h);
}

/// Storing a second time drops no more of the past games.
pub proof fn law_storing_twice_drops_no_more(
    games: Seq<PastGame>,
    granularity: SavefileGranularity,
)
    ensures
        kept_games(kept_games(games, granularity), granularity) == kept_games(games, granularity),
{
}

/// The name of the savefile of a version of the program.
pub fn savefile_name(version: &str) -> (r: String)
    ensures
        r@ == ".tetro-tui_"@ + version@ + "_savefile.json"@,
{
    join3(".tetro-tui_", version, "_savefile.json")
}

/// Whether all of a text was written to a file, given how many bytes were.
pub fn check_written(n_written: usize, len: usize) -> (r: Result<(), String>)
    ensures
        match r {
            Ok(_) => n_written >= len,
            Err(msg) => n_written < len && msg@
                == "attempt to write to file consumed `n < save_str.len()` bytes"@,
        },
{
    if n_written < len {
        Err("attempt to write to file consumed `n < save_str.len()` bytes".to_owned())
    } else {
        Ok(())
    }
}

/// What to do about the savefile at the end of a session.
#[derive(PartialEq, Eq, Structural, PartialOrd, Ord, Hash, Clone, Copy, Debug)]
pub enum ExitAction {
    /// Write it.
    Store,
    /// Take it away.
    Remove,
    /// Nothing.
    Nothing,
}

// ---------------------------------------------------------------------------
// Sessions
// ---------------------------------------------------------------------------
/// Where the part of a terminal begins that is drawn on: in its middle, if there
/// is room.
pub fn main_xy(console: (u16, u16)) -> (r: (u16, u16))
    ensures
        r.0 == if console.0 >= W_MAIN {
            (console.0 - W_MAIN) / 2
        } else {
            0
        },
        r.1 == if console.1 >= H_MAIN {
            (console.1 - H_MAIN) / 2
        } else {
            0
        },
{
    let (w_console, h_console) = console;
    (w_console.saturating_sub(W_MAIN) / 2, h_console.saturating_sub(H_MAIN) / 2)
}

/// What a new game starts with if a seed or a board were given.
pub open spec fn with_start(
    new_game: NewGameSettings,
    seed: Option<u64>,
    board: Option<String>,
) -> NewGameSettings {
    NewGameSettings {
        custom_seed: if seed is Some {
            seed
        } else {
            new_game.custom_seed
        },
        custom_board: if board is Some {
            board
        } else {
            new_game.custom_board
        },
        ..new_game
    }
}

impl Application {
    /// The state at the beginning of a session: what was kept of an earlier one,
    /// or else the given settings, with what was given on the command line.
    pub fn new(
        default_settings: Settings,
        loaded: Option<SaveState>,
        kitty_detected: bool,
        custom_start_seed: Option<u64>,
        custom_start_board: Option<String>,
        start_mode: Option<String>,
    ) -> (r: Application)
        requires
            loaded matches Some(state) ==> saves_packed(state.game_saves.1@),
        ensures
            r.runtime_data == (RuntimeData { kitty_detected, kitty_assumed: kitty_detected }),
            r.start_mode == start_mode,
            match loaded {
                Some(state) => {
                    &&& r.save_on_exit == state.save_on_exit
                    &&& r.settings == (Settings {
                        new_game: with_start(
                            state.settings.new_game,
                            custom_start_seed,
                            custom_start_board,
                        ),
                        ..state.settings
                    })
                    &&& r.scores_and_replays == state.scores_and_replays
                    &&& r.game_saves.0 == state.game_saves.0
                    &&& r.game_saves.1@.len() == state.game_saves.1@.len()
                    &&& forall|i: int|
                        0 <= i < r.game_saves.1@.len() ==> unpacks(
                            #[trigger] r.game_saves.1@[i],
                            state.game_saves.1@[i],
                        )
                },
                None => {
                    &&& r.save_on_exit == SavefileGranularity::NoSavefile
                    &&& r.settings == (Settings {
                        new_game: with_start(
                            default_settings.new_game,
                            custom_start_seed,
                            custom_start_board,
                        ),
                        ..default_settings
                    })
                    &&& r.scores_and_replays.sorting == ScoresSorting::Chronological
                    &&& r.scores_and_replays.entries@.len() == 0
                    &&& r.game_saves.0 == 0
                    &&& r.game_saves.1@.len() == 0
                },
            },
    {
        let mut app = Application {
            runtime_data: RuntimeData { kitty_detected, kitty_assumed: kitty_detected },
            save_on_exit: SavefileGranularity::NoSavefile,
            settings: default_settings,
            scores_and_replays: ScoresAndReplays::default(),
            game_saves: (0, Vec::new()),
            start_mode,
        };
        if let Some(state) = loaded {
            app.load_savefile(state);
        }
        if custom_start_board.is_some() {
            app.settings.new_game.custom_board = custom_start_board;
        }
        if custom_start_seed.is_some() {
            app.settings.new_game.custom_seed = custom_start_seed;
        }
        app
    }

    /// What to do about the savefile at the end of the session.
    pub fn exit_action(&self, savefile_exists: bool) -> (r: ExitAction)
        ensures
            r == if self.save_on_exit != SavefileGranularity::NoSavefile {
                ExitAction::Store
            } else if savefile_exists {
                ExitAction::Remove
            } else {
                ExitAction::Nothing
            },
    {
        if self.save_on_exit != SavefileGranularity::NoSavefile {
            ExitAction::Store
        } else if savefile_exists {
            ExitAction::Remove
        } else {
            ExitAction::Nothing
        }
    }
}

/// Whether the inputs of all saves can be unpacked.
pub fn are_packed(saves: &Vec<GameSave<CompressedInputHistory>>) -> (b: bool)
    ensures
        b == saves_packed(saves@),
{
    for k in 0..saves.len()
        invariant
            forall|i: int|
                0 <= i < k ==> all_packed(
                    (#[trigger] saves@[i]).game_restoration_data.input_history@,
                ),
    {
        if !saves[k].game_restoration_data.input_history.is_valid() {
            return false;
        }
    }
    true
}

/// Without a savefile, and where only settings are kept, no past game is kept; where
/// scores are kept every game is, but without its replay; and where replays are kept
/// every game is as it was.
pub proof fn law_past_games_are_kept_as_chosen(games: Seq<PastGame>, i: int)
    ensures
        kept_games(games, SavefileGranularity::NoSavefile).len() == 0,
        kept_games(games, SavefileGranularity::RememberSettings).len() == 0,
        kept_games(games, SavefileGranularity::RememberSettingsScores).len() == games.len(),
        0 <= i < games.len() ==> {
            let kept = kept_games(games, SavefileGranularity::RememberSettingsScores)[i];
            kept.0 == games[i].0 && kept.1 is None
        },
        kept_games(games, SavefileGranularity::RememberSettingsScoresReplays) == games,
{
}

/// A save that is stored and loaded is of the same game, has the same number of inputs
/// and each of them of the same button, and goes on from the same place. An input is
/// no later than it was, and earlier by less than a millisecond for every input up
/// to it.
pub proof fn law_any_save_loads_back(
    save: GameSave<UncompressedInputHistory>,
    packed: GameSave<CompressedInputHistory>,
    loaded: GameSave<UncompressedInputHistory>,
    k: int,
)
    requires
        packs(packed, save),
        unpacks(loaded, packed),
        history_wf(save.game_restoration_data.input_history@),
        in_order(save.game_restoration_data.input_history@),
        0 <= k < save.game_restoration_data.input_history@.len(),
    ensures
        loaded.game_meta_data == save.game_meta_data,
        builder_content(loaded.game_restoration_data.builder) == builder_content(
            save.game_restoration_data.builder,
        ),
        texts_of(loaded.game_restoration_data.mod_descriptors@) == texts_of(
            save.game_restoration_data.mod_descriptors@,
        ),
        loaded.game_restoration_data.forfeit == save.game_restoration_data.forfeit,
        loaded.inputs_to_load == save.inputs_to_load,
        ({
            let before = save.game_restoration_data.input_history@;
            let after = loaded.game_restoration_data.input_history@;
            &&& after.len() == before.len()
            &&& after[k].1 == before[k].1
            &&& after[k].0.nanos() <= before[k].0.nanos()
            &&& before[k].0.nanos() < after[k].0.nanos() + (k + 1) * 1_000_000
        }),
{
    law_compress_drift(save.game_restoration_data.input_history@, k);
}

/// A seed and a board that are given for the start take the place of those that were
/// set, each by itself; everything else of a new game stays as it was set.
pub proof fn law_given_start_replaces_what_was_set(
    new_game: NewGameSettings,
    seed: u64,
    board: String,
)
    ensures
        with_start(new_game, None, None) == new_game,
        with_start(new_game, Some(seed), None) == (NewGameSettings {
            custom_seed: Some(seed),
            ..new_game
        }),
        with_start(new_game, None, Some(board)) == (NewGameSettings {
            custom_board: Some(board),
            ..new_game
        }),
        with_start(new_game, Some(seed), Some(board)) == (NewGameSettings {
            custom_seed: Some(seed),
            custom_board: Some(board),
            ..new_game
        }),
{
}

} // verus!

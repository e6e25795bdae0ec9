//! Menus and the stack that they are kept on.
use crate::game::{join3, GameMetaData};
use crate::input_history::UncompressedInputHistory;
use crate::renderer::DiffPrintRenderer;
use crate::restoration::GameRestorationData;
use crate::scores::ScoresEntry;
use crate::time::InGameTime;
use falling_tetromino_engine::Game;
use vstd::prelude::*;
use vstd::string::*;

verus! {

/// A screen that the player can be on.
#[derive(Debug)]
pub enum Menu {
    /// The first screen.
    Title,
    /// Where a mode is chosen.
    NewGame,
    /// A game that is being played.
    PlayGame {
        /// The game.
        game: Box<Game>,
        /// What was done in it.
        game_input_history: UncompressedInputHistory,
        /// What is recorded of it apart from how it goes.
        game_meta_data: GameMetaData,
        /// What draws it.
        game_renderer: Box<DiffPrintRenderer>,
    },
    /// A game that is being paused.
    Pause,
    /// Where kinds of settings are chosen.
    Settings,
    /// Where graphics settings are changed.
    AdjustGraphics,
    /// Where keybinds are changed.
    AdjustKeybinds,
    /// Where gameplay settings are changed.
    AdjustGameplay,
    /// A game that was lost.
    GameOver(Box<ScoresEntry>),
    /// A game that was completed.
    GameComplete(Box<ScoresEntry>),
    /// The list of past games.
    ScoresAndReplays,
    /// A past game that is being shown again.
    ReplayGame {
        /// What it takes to bring the game back.
        game_restoration_data: Box<GameRestorationData<UncompressedInputHistory>>,
        /// What is recorded of it apart from how it went.
        game_meta_data: GameMetaData,
        /// How long it took.
        replay_length: InGameTime,
        /// What draws it.
        game_renderer: Box<DiffPrintRenderer>,
    },
    /// What the program is about.
    About,
    /// The end of the program.
    Quit,
}

/// What a menu is called.
pub open spec fn menu_name(menu: Menu) -> Seq<char> {
    match menu {
        Menu::Title => "Title Screen"@,
        Menu::NewGame => "New Game"@,
        Menu::PlayGame { game_meta_data, .. } => "Playing Game ("@ + game_meta_data.title@ + ")"@,
        Menu::Pause => "Pause"@,
        Menu::Settings => "Settings"@,
        Menu::AdjustGraphics => "Adjust Graphics"@,
        Menu::AdjustKeybinds => "Adjust Keybinds"@,
        Menu::AdjustGameplay => "Adjust Gameplay"@,
        Menu::GameOver(_) => "Game Over"@,
        Menu::GameComplete(_) => "Game Completed"@,
        Menu::ScoresAndReplays => "Scores and Replays"@,
        Menu::ReplayGame { game_meta_data, .. } => "Replaying Game ("@ + game_meta_data.title@
            + ")"@,
        Menu::About => "About"@,
        Menu::Quit => "Quit"@,
    }
}

/// Whether a menu leaves nothing to return to.
pub open spec fn starts_afresh(menu: Menu) -> bool {
    menu is Title || menu is PlayGame || menu is GameOver || menu is GameComplete
}

impl Menu {
    /// What the menu is called.
    pub fn name(&self) -> (s: String)
        ensures
            s@ == menu_name(*self),
    {
        match self {
            Menu::Title => "Title Screen".to_owned(),
            Menu::NewGame => "New Game".to_owned(),
            Menu::PlayGame { game_meta_data, .. } => {
                join3("Playing Game (", game_meta_data.title.as_str(), ")")
            },
            Menu::Pause => "Pause".to_owned(),
            Menu::Settings => "Settings".to_owned(),
            Menu::AdjustGraphics => "Adjust Graphics".to_owned(),
            Menu::AdjustKeybinds => "Adjust Keybinds".to_owned(),
            Menu::AdjustGameplay => "Adjust Gameplay".to_owned(),
            Menu::GameOver(_) => "Game Over".to_owned(),
            Menu::GameComplete(_) => "Game Completed".to_owned(),
            Menu::ScoresAndReplays => "Scores and Replays".to_owned(),
            Menu::ReplayGame { game_meta_data, .. } => {
                join3("Replaying Game (", game_meta_data.title.as_str(), ")")
            },
            Menu::About => "About".to_owned(),
            Menu::Quit => "Quit".to_owned(),
        }
    }

    /// Whether the menu leaves nothing to return to.
    fn is_fresh_start(&self) -> (b: bool)
        ensures
            b == starts_afresh(*self),
    {
        match self {
            Menu::Title => true,
            Menu::PlayGame { .. } => true,
            Menu::GameOver(_) => true,
            Menu::GameComplete(_) => true,
            _ => false,
        }
    }
}

/// Where to go from a menu.
#[derive(Debug)]
pub enum MenuUpdate {
    /// Back.
    Pop,
    /// On to another menu.
    Push(Menu),
}

/// The menus that lie on each other after going from the topmost one. There is
/// no way back from the last one left.
pub open spec fn stacked(menus: Seq<Menu>, update: MenuUpdate) -> Seq<Menu> {
    match update {
        MenuUpdate::Pop => if menus.len() > 1 {
            menus.drop_last()
        } else {
            menus
        },
        MenuUpdate::Push(menu) => if starts_afresh(menu) {
            seq![menu]
        } else {
            menus.push(menu)
        },
    }
}

/// Menus that lie on each other, the topmost one being shown.
#[derive(Debug)]
pub struct MenuStack {
    /// The menus from the bottom up.
    pub menus: Vec<Menu>,
}

impl MenuStack {
    /// There is a menu to show, and those that leave nothing to return to have
    /// nothing below them.
    pub open spec fn wf(self) -> bool {
        &&& self.menus@.len() > 0
        &&& fresh_starts_below(self.menus@)
    }

    /// The menu to begin with: the first screen, unless another one is given.
    pub fn new(start: Option<Menu>) -> (r: MenuStack)
        ensures
            r.menus@ == match start {
                Some(menu) => seq![menu],
                None => seq![Menu::Title],
            },
            r.wf(),
    {
        let mut menus: Vec<Menu> = Vec::new();
        match start {
            Some(menu) => menus.push(menu),
            None => menus.push(Menu::Title),
        }
        MenuStack { menus }
    }

    /// The menu to show, unless the program is to end.
    pub fn shown(&mut self) -> (r: Option<&mut Menu>)
        ensures
            match r {
                Some(menu) => {
                    &&& old(self).menus@.len() > 0
                    &&& old(self).menus@.last() !is Quit
                    &&& *menu == old(self).menus@.last()
                    &&& final(self).menus@ == old(self).menus@.drop_last().push(*final(menu))
                },
                None => {
                    &&& old(self).menus@.len() == 0 || old(self).menus@.last() is Quit
                    &&& *final(self) == *old(self)
                },
            },
    {
        let len: usize = self.menus.len();
        if len == 0 {
            return None;
        }
        if let Menu::Quit = &self.menus[len - 1] {
            return None;
        }
        let top = &mut self.menus[len - 1];
        Some(top)
    }

    /// Goes where the topmost menu leads.
    pub fn change(&mut self, update: MenuUpdate)
        ensures
            final(self).menus@ == stacked(old(self).menus@, update),
            old(self).wf() ==> final(self).wf(),
    {
        match update {
            MenuUpdate::Pop => {
                if self.menus.len() > 1 {
                    self.menus.pop();
                }
            },
            MenuUpdate::Push(menu) => {
                if menu.is_fresh_start() {
                    self.menus = Vec::new();
                }
                self.menus.push(menu);
            },
        }
    }
}

/// Menus that leave nothing to return to lie at the bottom.
pub open spec fn fresh_starts_below(menus: Seq<Menu>) -> bool {
    forall|i: int| 0 < i < menus.len() ==> !starts_afresh(#[trigger] menus[i])
}

/// The menus that lie on each other after going from menu to menu.
pub open spec fn stacked_all(menus: Seq<Menu>, updates: Seq<MenuUpdate>) -> Seq<Menu>
    decreases updates.len(),
{
    if updates.len() == 0 {
        menus
    } else {
        stacked(stacked_all(menus, updates.drop_last()), updates.last())
    }
}

/// However the player goes from menu to menu, there is always one to show, and
/// nothing lies below a menu that leaves nothing to return to.
pub proof fn law_menus_never_run_out(menus: Seq<Menu>, updates: Seq<MenuUpdate>)
    requires
        menus.len() > 0,
        fresh_starts_below(menus),
    ensures
        stacked_all(menus, updates).len() > 0,
        fresh_starts_below(stacked_all(menus, updates)),
    decreases updates.len(),
{
    if updates.len() > 0 {
        law_menus_never_run_out(menus, updates.drop_last());
    }
}

/// Going back from a menu leads to where the player came from, unless the menu
/// leaves nothing to return to.
pub proof fn law_going_back_undoes_going_on(menus: Seq<Menu>, menu: Menu)
    requires
        menus.len() > 0,
        !starts_afresh(menu),
    ensures
        stacked(stacked(menus, MenuUpdate::Push(menu)), MenuUpdate::Pop) == menus,
{
}

/// From a menu that leaves nothing to return to there is no way back.
pub proof fn law_no_way_back_from_fresh_start(menus: Seq<Menu>, menu: Menu)
    requires
        starts_afresh(menu),
    ensures
        stacked(stacked(menus, MenuUpdate::Push(menu)), MenuUpdate::Pop) == seq![menu],
{
}

/// Going on from a menu shows the menu that was gone on to. There is no way back from
/// the title, from a game that is played and from its end; from every other menu the
/// way back leads to the one before.
pub proof fn law_menus_with_a_way_back(menus: Seq<Menu>, menu: Menu)
    requires
        menus.len() > 0,
    ensures
        ({
            let after = stacked(menus, MenuUpdate::Push(menu));
            &&& after.len() > 0
            &&& after.last() == menu
            &&& match menu {
                Menu::Title => after.len() == 1,
                Menu::PlayGame { .. } => after.len() == 1,
                Menu::GameOver(_) => after.len() == 1,
                Menu::GameComplete(_) => after.len() == 1,
                _ => after.len() == menus.len() + 1 && stacked(after, MenuUpdate::Pop) == menus,
            }
        }),
{
    assert(menus.push(menu).drop_last() =~= menus);
}

/// Going back leaves all menus but the topmost one as they were; the last one stays.
pub proof fn law_going_back_takes_the_topmost_off(menus: Seq<Menu>, i: int)
    ensures
        menus.len() <= 1 ==> stacked(menus, MenuUpdate::Pop) == menus,
        menus.len() > 1 ==> stacked(menus, MenuUpdate::Pop).len() == menus.len() - 1,
        0 <= i < menus.len() - 1 ==> stacked(menus, MenuUpdate::Pop)[i] == menus[i],
{
}

/// The name of a game that is played or replayed holds its title, between other words
/// for either.
pub proof fn law_games_go_by_their_titles(menu: Menu)
    ensures
        menu matches Menu::PlayGame { game_meta_data, .. } ==> menu_name(menu)
            == "Playing Game ("@ + game_meta_data.title@ + ")"@,
        menu matches Menu::ReplayGame { game_meta_data, .. } ==> menu_name(menu)
            == "Replaying Game ("@ + game_meta_data.title@ + ")"@,
{
}

} // verus!

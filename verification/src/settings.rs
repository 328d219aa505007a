//! The games that add-ons are installed for.
//!
//! A game is known by the path it is installed at, and the settings hold
//! each game once. The add-ons of a game are names, each held once.

use vstd::prelude::*;

use crate::util::{reversed, same_text};

verus! {

/// A game that add-ons are installed for.
#[derive(Debug)]
pub struct Game {
    /// The name shown to people.
    pub name: String,
    /// Where the game is installed. Two games with one path are one game.
    pub path: String,
    /// The names of the add-ons installed for it.
    pub addons: Vec<String>,
}

/// The mathematical value of a [`Game`].
pub ghost struct GameView {
    pub name: Seq<char>,
    pub path: Seq<char>,
    pub addons: Seq<Seq<char>>,
}

impl View for Game {
    type V = GameView;

    open spec fn view(&self) -> GameView {
        GameView {
            name: self.name@,
            path: self.path@,
            addons: self.addons@.map_values(|addon: String| addon@),
        }
    }
}

/// No text occurs twice.
pub open spec fn distinct(texts: Seq<Seq<char>>) -> bool {
    forall|i: int, j: int| 0 <= i < j < texts.len() ==> texts[i] != texts[j]
}

impl Game {
    /// A game without add-ons.
    pub fn new(name: String, path: String) -> (game: Game)
        ensures
            game@ == (GameView { name: name@, path: path@, addons: Seq::empty() }),
            game.well_formed(),
    {
        let game = Game { name, path, addons: Vec::new() };
        proof {
            assert(game@.addons =~= Seq::<Seq<char>>::empty());
        }
        game
    }

    /// Every add-on is held once.
    pub open spec fn well_formed(&self) -> bool {
        distinct(self@.addons)
    }

    /// Tells whether the add-on is installed for the game.
    pub fn has_addon(&self, addon: &str) -> (found: bool)
        ensures
            found == self@.addons.contains(addon@),
    {
        let mut index: usize = 0;
        while index < self.addons.len()
            invariant
                0 <= index <= self.addons.len(),
                forall|j: int| 0 <= j < index ==> self@.addons[j] != addon@,
            decreases self.addons.len() - index,
        {
            proof {
                assert(self@.addons[index as int] == self.addons@[index as int]@);
            }
            if same_text(self.addons[index].as_str(), addon) {
                return true;
            }
            index += 1;
        }
        false
    }

    /// Notes the add-on as installed. Returns whether it was new; a game
    /// that has it already is left as it is.
    pub fn add_addon(&mut self, addon: String) -> (added: bool)
        requires
            old(self).well_formed(),
        ensures
            final(self).well_formed(),
            added == !old(self)@.addons.contains(addon@),
            final(self)@.name == old(self)@.name,
            final(self)@.path == old(self)@.path,
            final(self)@.addons == if added {
                old(self)@.addons.push(addon@)
            } else {
                old(self)@.addons
            },
    {
        if self.has_addon(addon.as_str()) {
            return false;
        }
        self.addons.push(addon);
        proof {
            assert(self@.addons =~= old(self)@.addons.push(addon@));
            assert forall|i: int, j: int| 0 <= i < j < self@.addons.len() implies self@.addons[i]
                != self@.addons[j] by {
                if j == self@.addons.len() - 1 {
                    assert(old(self)@.addons.contains(old(self)@.addons[i]));
                }
            }
        }
        true
    }
}

impl PartialEq for Game {
    /// Two games are the same game exactly when they are installed at the
    /// same path.
    fn eq(&self, other: &Self) -> (equal: bool) {
        self.path == other.path
    }
}

impl vstd::std_specs::cmp::PartialEqSpecImpl for Game {
    open spec fn obeys_eq_spec() -> bool {
        true
    }

    open spec fn eq_spec(&self, other: &Self) -> bool {
        self.path@ == other.path@
    }
}

impl Eq for Game {

}

/// What the user has set up: the games, each once.
#[derive(Debug)]
pub struct Settings {
    /// The games, in the order they were added. No two have the same path.
    pub games: Vec<Game>,
}

/// The mathematical value of each game.
pub open spec fn games_view(games: Seq<Game>) -> Seq<GameView> {
    games.map_values(|game: Game| game@)
}

/// Some game stands at `path`.
pub open spec fn has_path(games: Seq<GameView>, path: Seq<char>) -> bool {
    exists|i: int| 0 <= i < games.len() && (#[trigger] games[i]).path == path
}

/// The games without those that repeat the path of an earlier one.
pub open spec fn first_of_each_path(games: Seq<GameView>) -> Seq<GameView>
    decreases games.len(),
{
    if games.len() == 0 {
        games
    } else if has_path(first_of_each_path(games.drop_last()), games.last().path) {
        first_of_each_path(games.drop_last())
    } else {
        first_of_each_path(games.drop_last()).push(games.last())
    }
}

/// No path occurs twice.
pub open spec fn distinct_paths(games: Seq<GameView>) -> bool {
    forall|i: int, j: int| 0 <= i < j < games.len() ==> games[i].path != games[j].path
}

impl Settings {
    /// No two games have the same path.
    pub open spec fn well_formed(&self) -> bool {
        distinct_paths(games_view(self.games@))
    }

    /// Tells whether a game is installed at `path`.
    pub fn has_game(&self, path: &str) -> (found: bool)
        ensures
            found == has_path(games_view(self.games@), path@),
    {
        let mut index: usize = 0;
        while index < self.games.len()
            invariant
                0 <= index <= self.games.len(),
                forall|j: int| 0 <= j < index ==> games_view(self.games@)[j].path != path@,
            decreases self.games.len() - index,
        {
            proof {
                assert(games_view(self.games@)[index as int] == self.games@[index as int]@);
            }
            if same_text(self.games[index].path.as_str(), path) {
                return true;
            }
            index += 1;
        }
        false
    }

    /// Makes the settings out of what was stored: the defaults where nothing
    /// was stored, else the stored games, of which the first at each path
    /// counts.
    pub fn load(stored: Option<Vec<Game>>) -> (settings: Settings)
        ensures
            settings.well_formed(),
            games_view(settings.games@) == match stored {
                Some(games) => first_of_each_path(games_view(games@)),
                None => Seq::<GameView>::empty(),
            },
    {
        let games = match stored {
            Some(games) => games,
            None => {
                return Settings::default();
            },
        };
        let ghost stated = games_view(games@);
        let total = games.len();
        let mut rest = reversed(games);
        let mut settings = Settings { games: Vec::new() };
        let mut done: usize = 0;
        proof {
            assert(stated.take(0) =~= Seq::<GameView>::empty());
            assert(games_view(settings.games@) =~= first_of_each_path(stated.take(0)));
        }
        while done < total
            invariant
                0 <= done <= total,
                total == stated.len(),
                rest@.len() == total - done,
                forall|j: int| 0 <= j < rest@.len() ==> (#[trigger] rest@[j])@ == stated[total - 1 - j],
                games_view(settings.games@) == first_of_each_path(stated.take(done as int)),
                settings.well_formed(),
            decreases total - done,
        {
            let game = rest.pop().unwrap();
            proof {
                assert(stated.take(done + 1).drop_last() =~= stated.take(done as int));
                assert(stated.take(done + 1).last() == game@);
            }
            if !settings.has_game(game.path.as_str()) {
                let ghost before = games_view(settings.games@);
                settings.games.push(game);
                proof {
                    assert(games_view(settings.games@) =~= before.push(game@));
                    assert forall|i: int, j: int|
                        0 <= i < j < before.len() + 1 implies before.push(game@)[i].path
                        != before.push(game@)[j].path by {
                        if j == before.len() {
                            assert(before[i].path != game@.path);
                        }
                    }
                }
            }
            done += 1;
        }
        proof {
            assert(stated.take(total as int) =~= stated);
        }
        settings
    }
}

impl Default for Settings {
    /// No games.
    fn default() -> (settings: Settings)
        ensures
            settings.games@.len() == 0,
            settings.well_formed(),
            games_view(settings.games@) == Seq::<GameView>::empty(),
    {
        let settings = Settings { games: Vec::new() };
        proof {
            assert(games_view(settings.games@) =~= Seq::<GameView>::empty());
        }
        settings
    }
}

} // verus!

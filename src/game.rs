use vstd::prelude::*;

use crate::config::Config;
use crate::text::{join, joined, same_text};

verus! {

/// A game the manager knows how to prepare and launch.
#[derive(Clone, Copy, Debug, PartialEq, Eq, Structural)]
pub enum Game {
    SkyrimSE,
}

/// A remote source that mods can be obtained from.
#[derive(Clone, Copy, Debug, PartialEq, Eq, Structural)]
pub enum Source {
    Nexus,
}

pub open spec fn game_id(game: Game) -> Seq<char> {
    match game {
        Game::SkyrimSE => "skyrimse"@,
    }
}

pub open spec fn game_title(game: Game) -> Seq<char> {
    match game {
        Game::SkyrimSE => "Skyrim Special Edition"@,
    }
}

/// Where a Steam library keeps the installation of a game.
pub open spec fn steam_install_path(steam_dir: Seq<char>, game: Game) -> Seq<char> {
    match game {
        Game::SkyrimSE => joined(
            joined(joined(steam_dir, "steamapps"@), "common"@),
            "Skyrim Special Edition"@,
        ),
    }
}

/// What shell-style expansion of a leading `~` may turn `input` into: a path
/// that does not start with `~` alone or `~/` stays as it is; one that does
/// either stays or becomes some home directory followed by the rest.
pub open spec fn tilde_expansion(input: Seq<char>, r: Seq<char>) -> bool {
    if input.len() > 0 && input[0] == '~' && (input.len() == 1 || input[1] == '/') {
        r == input || (r.len() >= input.len() - 1 && r.subrange(
            r.len() - (input.len() - 1),
            r.len() as int,
        ) == input.subrange(1, input.len() as int))
    } else {
        r == input
    }
}

/// Relies on shellexpand::tilde: on Unix it replaces a leading `~` that
/// stands alone or before `/` by the home directory, when one is known, and
/// leaves every other input as it is. (On Windows it would also expand `~\`;
/// the manager runs on Linux only.)
#[verifier::external_body]
pub(crate) fn expand_tilde(path: &str) -> (r: String)
    ensures
        tilde_expansion(path@, r@),
{
    shellexpand::tilde(path).to_string()
}

impl Game {
    /// Every game the manager supports.
    pub fn all() -> (r: Vec<Game>)
        ensures
            r@ == seq![Game::SkyrimSE],
    {
        let r = vec![Game::SkyrimSE];
        assert(r@ =~= seq![Game::SkyrimSE]);
        r
    }

    /// The stable identifier of the game, used in paths and state files.
    pub fn id(&self) -> (r: &'static str)
        ensures
            r@ == game_id(*self),
    {
        match self {
            Game::SkyrimSE => "skyrimse",
        }
    }

    /// The name shown to a user.
    pub fn title(&self) -> (r: &'static str)
        ensures
            r@ == game_title(*self),
    {
        match self {
            Game::SkyrimSE => "Skyrim Special Edition",
        }
    }

    /// The game whose identifier is `id`, if any.
    pub fn from_id(id: &str) -> (r: Option<Game>)
        ensures
            r == (if id@ == game_id(Game::SkyrimSE) {
                Some(Game::SkyrimSE)
            } else {
                None::<Game>
            }),
    {
        if same_text(id, "skyrimse") {
            Some(Game::SkyrimSE)
        } else {
            None
        }
    }

    /// Where the game is installed when it came from the configured Steam library.
    pub fn default_game_path(&self, config: &Config) -> (r: String)
        ensures
            tilde_expansion(steam_install_path(config.steam_dir_view(), *self), r@),
    {
        let steam = config.steam_dir();
        let apps = join(steam.as_str(), "steamapps");
        let common = join(apps.as_str(), "common");
        let path = match self {
            Game::SkyrimSE => join(common.as_str(), "Skyrim Special Edition"),
        };
        expand_tilde(path.as_str())
    }

    /// The sources the game's mods are obtained from unless configured otherwise.
    pub fn default_mod_sources(&self) -> (r: Vec<Source>)
        ensures
            r@ == seq![Source::Nexus],
    {
        match self {
            Game::SkyrimSE => crate::skyrimse::supported_sources(),
        }
    }

    /// The executable that starts the game with its mod loader.
    pub fn game_mod_executable(&self) -> (r: &'static str)
        ensures
            r@ == crate::skyrimse::mod_executable_name(),
    {
        match self {
            Game::SkyrimSE => crate::skyrimse::game_mod_executable(),
        }
    }
}

} // verus!

use vstd::prelude::*;

use crate::error::{ErrorKind, MomaError};
use crate::game::Game;
use crate::text::{join, joined, same_text};

verus! {

/// The user's configuration of one game.
#[derive(Debug)]
pub struct GameConfig {
    /// The game this configuration is for.
    pub game: Game,
    /// Where the base game is installed.
    pub path: String,
    /// Where the Proton runtime used to launch the game lives.
    pub proton_dir: String,
    /// Environment variables set for the game, as name and value.
    pub env: Option<Vec<(String, String)>>,
}

pub struct GameConfigView {
    pub game: Game,
    pub path: Seq<char>,
    pub proton_dir: Seq<char>,
    pub env: Option<Seq<(Seq<char>, Seq<char>)>>,
}

pub open spec fn pair_view(p: (String, String)) -> (Seq<char>, Seq<char>) {
    (p.0@, p.1@)
}

pub open spec fn pairs_view(v: Seq<(String, String)>) -> Seq<(Seq<char>, Seq<char>)> {
    v.map_values(|p: (String, String)| pair_view(p))
}

impl View for GameConfig {
    type V = GameConfigView;

    open spec fn view(&self) -> GameConfigView {
        GameConfigView {
            game: self.game,
            path: self.path@,
            proton_dir: self.proton_dir@,
            env: match self.env {
                Some(e) => Some(pairs_view(e@)),
                None => None,
            },
        }
    }
}

/// A copy of a list of name and value pairs.
pub fn copy_pairs(v: &Vec<(String, String)>) -> (r: Vec<(String, String)>)
    ensures
        pairs_view(r@) == pairs_view(v@),
{
    let mut r: Vec<(String, String)> = Vec::new();
    let mut i: usize = 0;
    while i < v.len()
        invariant
            i <= v@.len(),
            r@.len() == i,
            forall|j: int| 0 <= j < i ==> #[trigger] pair_view(r@[j]) == pair_view(v@[j]),
        decreases v@.len() - i,
    {
        let (a, b) = &v[i];
        r.push((a.clone(), b.clone()));
        i = i + 1;
    }
    assert(pairs_view(r@) =~= pairs_view(v@));
    r
}

impl Clone for GameConfig {
    fn clone(&self) -> (r: Self)
        ensures
            r@ == self@,
    {
        GameConfig {
            game: self.game,
            path: self.path.clone(),
            proton_dir: self.proton_dir.clone(),
            env: match &self.env {
                Some(e) => Some(copy_pairs(e)),
                None => None,
            },
        }
    }
}

/// The value of `name` among name and value pairs: the last pair of that
/// name, as a later setting overrides an earlier one.
pub open spec fn lookup(pairs: Seq<(Seq<char>, Seq<char>)>, name: Seq<char>) -> Option<Seq<char>>
    decreases pairs.len(),
{
    if pairs.len() == 0 {
        None
    } else if pairs.last().0 == name {
        Some(pairs.last().1)
    } else {
        lookup(pairs.drop_last(), name)
    }
}

/// The display variables a game needs from its host when its configuration does not set them.
pub open spec fn display_vars() -> Seq<Seq<char>> {
    seq!["WAYLAND_DISPLAY"@, "DISPLAY"@, "XDG_RUNTIME_DIR"@]
}

/// The host's values of those of `names` that `configured` does not set.
pub open spec fn host_fallbacks(
    configured: Seq<(Seq<char>, Seq<char>)>,
    host: Seq<(Seq<char>, Seq<char>)>,
    names: Seq<Seq<char>>,
) -> Seq<(Seq<char>, Seq<char>)>
    decreases names.len(),
{
    if names.len() == 0 {
        Seq::empty()
    } else {
        host_fallbacks(configured, host, names.drop_last()) + if lookup(configured, names.last()) is None
            && lookup(host, names.last()) is Some {
            seq![(names.last(), lookup(host, names.last()).unwrap())]
        } else {
            Seq::<(Seq<char>, Seq<char>)>::empty()
        }
    }
}

/// The environment of a game: its configured variables, then the display
/// variables it leaves unset, taken from the host.
pub open spec fn game_env(configured: Seq<(Seq<char>, Seq<char>)>, host: Seq<(Seq<char>, Seq<char>)>) -> Seq<
    (Seq<char>, Seq<char>),
> {
    configured + host_fallbacks(configured, host, display_vars())
}

/// The value of `name` among `pairs`, as `lookup` defines it.
pub fn lookup_pair<'a>(pairs: &'a Vec<(String, String)>, name: &str) -> (r: Option<&'a String>)
    ensures
        match r {
            Some(v) => lookup(pairs_view(pairs@), name@) == Some(v@),
            None => lookup(pairs_view(pairs@), name@) is None,
        },
{
    let ghost all = pairs_view(pairs@);
    let mut i: usize = pairs.len();
    assert(all.take(i as int) =~= all);
    while i > 0
        invariant
            i <= pairs@.len(),
            all == pairs_view(pairs@),
            lookup(all, name@) == lookup(all.take(i as int), name@),
        decreases i,
    {
        assert(all.take(i as int).drop_last() =~= all.take(i - 1));
        if same_text(pairs[i - 1].0.as_str(), name) {
            return Some(&pairs[i - 1].1);
        }
        i = i - 1;
    }
    None
}

impl GameConfig {
    /// The environment the game runs with: the configured variables, then
    /// `WAYLAND_DISPLAY`, `DISPLAY` and `XDG_RUNTIME_DIR` from `host` where
    /// the configuration leaves them unset. A later pair overrides an earlier one.
    pub fn get_env_vars(&self, host: &Vec<(String, String)>) -> (r: Vec<(String, String)>)
        ensures
            pairs_view(r@) == game_env(
                match self@.env {
                    Some(e) => e,
                    None => Seq::empty(),
                },
                pairs_view(host@),
            ),
    {
        let empty: Vec<(String, String)> = Vec::new();
        let configured: &Vec<(String, String)> = match &self.env {
            Some(e) => e,
            None => &empty,
        };
        let ghost conf = pairs_view(configured@);
        let ghost hv = pairs_view(host@);
        assert(conf == match self@.env {
            Some(e) => e,
            None => Seq::<(Seq<char>, Seq<char>)>::empty(),
        }) by {
            if self.env is None {
                assert(conf =~= Seq::<(Seq<char>, Seq<char>)>::empty());
            }
        }
        let mut r = copy_pairs(configured);
        let names = vec!["WAYLAND_DISPLAY", "DISPLAY", "XDG_RUNTIME_DIR"];
        let ghost nv = names@.map_values(|n: &str| n@);
        assert(nv =~= display_vars());
        let mut i: usize = 0;
        assert(pairs_view(r@) =~= conf + host_fallbacks(conf, hv, nv.take(0)));
        while i < names.len()
            invariant
                i <= names@.len(),
                nv == names@.map_values(|n: &str| n@),
                conf == pairs_view(configured@),
                hv == pairs_view(host@),
                pairs_view(r@) == conf + host_fallbacks(conf, hv, nv.take(i as int)),
            decreases names@.len() - i,
        {
            assert(nv.take(i + 1).drop_last() =~= nv.take(i as int));
            assert(nv.take(i + 1).last() == names@[i as int]@);
            let ghost before = pairs_view(r@);
            let ghost name = nv[i as int];
            if lookup_pair(configured, names[i]).is_none() {
                match lookup_pair(host, names[i]) {
                    Some(v) => {
                        r.push((String::from_str(names[i]), v.clone()));
                        assert(pairs_view(r@) =~= before.push((name, v@)));
                        assert(host_fallbacks(conf, hv, nv.take(i + 1)) =~= host_fallbacks(
                            conf,
                            hv,
                            nv.take(i as int),
                        ).push((name, v@)));
                    },
                    None => {
                        assert(host_fallbacks(conf, hv, nv.take(i + 1)) =~= host_fallbacks(
                            conf,
                            hv,
                            nv.take(i as int),
                        ));
                    },
                }
            } else {
                assert(host_fallbacks(conf, hv, nv.take(i + 1)) =~= host_fallbacks(
                    conf,
                    hv,
                    nv.take(i as int),
                ));
            }
            assert(pairs_view(r@) =~= conf + host_fallbacks(conf, hv, nv.take(i + 1)));
            i = i + 1;
        }
        assert(nv.take(3) =~= nv);
        r
    }
}

/// The manager's configuration: the games set up, and where things live.
pub struct Config {
    games: Vec<GameConfig>,
    work_dir: String,
    steam_dir: String,
    state_file: String,
}

/// Whether `i` is the first position of a configuration of `game`.
pub open spec fn is_first_config(games: Seq<GameConfigView>, game: Game, i: int) -> bool {
    &&& 0 <= i < games.len()
    &&& games[i].game == game
    &&& forall|j: int| 0 <= j < i ==> games[j].game != game
}

pub open spec fn has_config(games: Seq<GameConfigView>, game: Game) -> bool {
    exists|i: int| 0 <= i < games.len() && games[i].game == game
}

/// The configurations after `config` is recorded: it replaces the one of the
/// same game, or is added at the end.
pub open spec fn with_config(games: Seq<GameConfigView>, config: GameConfigView) -> Seq<GameConfigView> {
    if has_config(games, config.game) {
        let i = choose|i: int| is_first_config(games, config.game, i);
        games.update(i, config)
    } else {
        games.push(config)
    }
}

pub proof fn lemma_first_config_unique(games: Seq<GameConfigView>, game: Game, i: int, k: int)
    requires
        is_first_config(games, game, i),
        is_first_config(games, game, k),
    ensures
        i == k,
{
}

/// Finds the first configuration of `game`.
fn find_config(games: &Vec<GameConfig>, game: Game) -> (r: Option<usize>)
    ensures
        match r {
            Some(i) => is_first_config(games@.map_values(|c: GameConfig| c@), game, i as int),
            None => !has_config(games@.map_values(|c: GameConfig| c@), game),
        },
{
    let ghost view = games@.map_values(|c: GameConfig| c@);
    let mut i: usize = 0;
    while i < games.len()
        invariant
            i <= games@.len(),
            view == games@.map_values(|c: GameConfig| c@),
            forall|j: int| 0 <= j < i ==> view[j].game != game,
        decreases games@.len() - i,
    {
        if games[i].game == game {
            return Some(i);
        }
        i = i + 1;
    }
    None
}

impl Config {
    pub closed spec fn games_view(&self) -> Seq<GameConfigView> {
        self.games@.map_values(|c: GameConfig| c@)
    }

    pub closed spec fn work_dir_view(&self) -> Seq<char> {
        self.work_dir@
    }

    pub closed spec fn steam_dir_view(&self) -> Seq<char> {
        self.steam_dir@
    }

    pub closed spec fn state_file_view(&self) -> Seq<char> {
        self.state_file@
    }

    /// A configuration with no game set up yet.
    pub fn new(work_dir: String, steam_dir: String, state_file: String) -> (r: Config)
        ensures
            r.games_view() == Seq::<GameConfigView>::empty(),
            r.work_dir_view() == work_dir@,
            r.steam_dir_view() == steam_dir@,
            r.state_file_view() == state_file@,
    {
        let r = Config { games: Vec::new(), work_dir, steam_dir, state_file };
        assert(r.games_view() =~= Seq::<GameConfigView>::empty());
        r
    }

    /// The configuration of `game`, or `NotFound` when it was never set up.
    pub fn game_config_for(&self, game: &Game) -> (r: Result<&GameConfig, MomaError>)
        ensures
            has_config(self.games_view(), *game) <==> r is Ok,
            r matches Ok(c) ==> forall|i: int|
                is_first_config(self.games_view(), *game, i) ==> c@ == #[trigger] self.games_view()[i],
            r matches Err(e) ==> e.kind == ErrorKind::NotFound,
    {
        match find_config(&self.games, *game) {
            Some(i) => Ok(&self.games[i]),
            None => Err(MomaError::new(ErrorKind::NotFound, "No configuration found for this game")),
        }
    }

    /// Records the configuration of a game, replacing an earlier one of the same game.
    pub fn add_game(&mut self, game_config: GameConfig)
        ensures
            final(self).games_view() == with_config(old(self).games_view(), game_config@),
            final(self).work_dir_view() == old(self).work_dir_view(),
            final(self).steam_dir_view() == old(self).steam_dir_view(),
            final(self).state_file_view() == old(self).state_file_view(),
    {
        let ghost before = self.games_view();
        let ghost added = game_config@;
        match find_config(&self.games, game_config.game) {
            Some(i) => {
                self.games.set(i, game_config);
                proof {
                    let k = choose|k: int| is_first_config(before, added.game, k);
                    lemma_first_config_unique(before, added.game, i as int, k);
                    assert(self.games_view() =~= before.update(i as int, added));
                }
            },
            None => {
                self.games.push(game_config);
                assert(self.games_view() =~= before.push(added));
            },
        }
    }

    /// The root under which every game's working directory lives.
    pub fn base_working_dir(&self) -> (r: String)
        ensures
            r@ == self.work_dir_view(),
    {
        self.work_dir.clone()
    }

    /// The Steam installation directory.
    pub fn steam_dir(&self) -> (r: String)
        ensures
            r@ == self.steam_dir_view(),
    {
        self.steam_dir.clone()
    }

    /// The file that holds the current game context.
    pub fn state_file(&self) -> (r: String)
        ensures
            r@ == self.state_file_view(),
    {
        self.state_file.clone()
    }

    /// Every configured game, in the order they were added.
    pub fn games(&self) -> (r: &Vec<GameConfig>)
        ensures
            r@.map_values(|c: GameConfig| c@) == self.games_view(),
    {
        &self.games
    }

    /// A configuration rooted at `work_dir` holding the one game `game_config`.
    pub fn test_with_config(work_dir: &str, game_config: GameConfig) -> (r: Config)
        ensures
            r.games_view() == seq![game_config@],
            r.work_dir_view() == joined(work_dir@, "working"@),
            r.steam_dir_view() == joined(work_dir@, "steam"@),
            r.state_file_view() == joined(work_dir@, "state.json"@),
    {
        let mut r = Config::test(work_dir);
        r.add_game(game_config);
        assert(r.games_view() =~= seq![game_config@]);
        r
    }

    /// A configuration rooted at `work_dir` with no game set up.
    pub fn test(work_dir: &str) -> (r: Config)
        ensures
            r.games_view() == Seq::<GameConfigView>::empty(),
            r.work_dir_view() == joined(work_dir@, "working"@),
            r.steam_dir_view() == joined(work_dir@, "steam"@),
            r.state_file_view() == joined(work_dir@, "state.json"@),
    {
        Config::new(join(work_dir, "working"), join(work_dir, "steam"), join(work_dir, "state.json"))
    }
}

} // verus!

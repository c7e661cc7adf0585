use vstd::prelude::*;

use crate::config::{Config, GameConfig, GameConfigView, is_first_config, has_config};
use crate::error::{ErrorKind, MomaError};
use crate::game::{game_id, Game};
use crate::system::{FileSystem, System, Entry, adds_only_toward, dir_at, keeps_entries, leads_to, no_dir_at};
use crate::text::{decimal, decimal_string, join, joined};

verus! {

pub open spec fn cache_of(root: Seq<char>) -> Seq<char> {
    joined(root, "cache"@)
}

pub open spec fn tracking_of(root: Seq<char>) -> Seq<char> {
    joined(cache_of(root), "tracking"@)
}

pub open spec fn overlay_of(root: Seq<char>) -> Seq<char> {
    joined(root, ".overlay"@)
}

pub open spec fn merged_of(root: Seq<char>) -> Seq<char> {
    joined(overlay_of(root), "merged"@)
}

pub open spec fn work_of(root: Seq<char>) -> Seq<char> {
    joined(overlay_of(root), "work"@)
}

pub open spec fn active_of(root: Seq<char>) -> Seq<char> {
    joined(root, "active"@)
}

pub open spec fn mods_of(root: Seq<char>) -> Seq<char> {
    joined(root, "mods"@)
}

pub open spec fn staging_of(root: Seq<char>) -> Seq<char> {
    joined(root, "staging"@)
}

pub open spec fn sink_of(root: Seq<char>) -> Seq<char> {
    joined(root, "sink"@)
}

pub open spec fn proton_of(root: Seq<char>) -> Seq<char> {
    joined(root, "proton"@)
}

/// Where the archives of one mod wait to be installed.
pub open spec fn staged_archives_of(root: Seq<char>, mod_uid: u64) -> Seq<char> {
    joined(joined(staging_of(root), decimal(mod_uid as nat)), "archives"@)
}

/// Where the files of one installed mod are extracted to.
pub open spec fn installed_mod_of(root: Seq<char>, mod_uid: u64) -> Seq<char> {
    joined(mods_of(root), decimal(mod_uid as nat))
}

/// The document of known mods and their archives.
pub open spec fn mod_list_file_of(root: Seq<char>) -> Seq<char> {
    joined(root, "mod-list.json"@)
}

/// The directories that preparing a workspace creates, parents before children.
pub open spec fn prepared_dirs_of(root: Seq<char>) -> Seq<Seq<char>> {
    seq![
        proton_of(root),
        active_of(root),
        sink_of(root),
        mods_of(root),
        staging_of(root),
        cache_of(root),
        merged_of(root),
        work_of(root),
        tracking_of(root),
    ]
}

/// Preparing a workspace twice in a row keeps every entry that stood before
/// the first preparation, unchanged, and adds nothing but directories on the
/// way to the managed ones: what each preparation promises, it promises of
/// the two together.
pub proof fn lemma_prepare_twice_keeps_entries<F: FileSystem>(root: Seq<char>, s0: F, s1: F, s2: F)
    requires
        keeps_entries(s0, s1),
        keeps_entries(s1, s2),
        adds_only_toward(s0, s1, prepared_dirs_of(root)),
        adds_only_toward(s1, s2, prepared_dirs_of(root)),
    ensures
        keeps_entries(s0, s2),
        adds_only_toward(s0, s2, prepared_dirs_of(root)),
{
    assert forall|p: &str| s0.entry(p) is None && (#[trigger] s2.entry(p)) is Some implies s2.entry(p)
        == Some(Entry::Dir) && exists|j: int|
        0 <= j < prepared_dirs_of(root).len() && leads_to(p@, #[trigger] prepared_dirs_of(root)[j]) by {
        if s1.entry(p) is Some {
            assert(s2.entry(p) == s1.entry(p));
        }
    }
}

/// The working directory of one game, and every well-known place in it.
#[derive(Debug)]
pub struct Workspace {
    game: GameConfig,
    root: String,
}

impl Clone for Workspace {
    fn clone(&self) -> (r: Self)
        ensures
            r.root_view() == self.root_view(),
            r.game_view() == self.game_view(),
    {
        Workspace { game: self.game.clone(), root: self.root.clone() }
    }
}

impl Workspace {
    pub closed spec fn root_view(&self) -> Seq<char> {
        self.root@
    }

    pub closed spec fn game_view(&self) -> GameConfigView {
        self.game@
    }

    /// The workspace of `game` under the configured working root; `NotFound`
    /// when the game was never configured.
    pub fn new(game: &Game, config: &Config) -> (r: Result<Workspace, MomaError>)
        ensures
            has_config(config.games_view(), *game) <==> r is Ok,
            r matches Ok(w) ==> w.root_view() == joined(config.work_dir_view(), game_id(*game)),
            r matches Ok(w) ==> forall|i: int|
                is_first_config(config.games_view(), *game, i) ==> w.game_view()
                    == #[trigger] config.games_view()[i],
            r matches Err(e) ==> e.kind == ErrorKind::NotFound,
    {
        let game_config = config.game_config_for(game)?;
        let base = config.base_working_dir();
        Ok(Workspace { game: game_config.clone(), root: join(base.as_str(), game_config.game.id()) })
    }

    /// A workspace for a game configuration at an explicit root.
    pub fn at(game: GameConfig, root: String) -> (r: Workspace)
        ensures
            r.root_view() == root@,
            r.game_view() == game@,
    {
        Workspace { game, root }
    }

    pub fn active_dir(&self) -> (r: String)
        ensures
            r@ == active_of(self.root_view()),
    {
        join(self.root.as_str(), "active")
    }

    pub fn tracking_dir(&self) -> (r: String)
        ensures
            r@ == tracking_of(self.root_view()),
    {
        join(self.cache_dir().as_str(), "tracking")
    }

    pub fn overlay_dir(&self) -> (r: String)
        ensures
            r@ == overlay_of(self.root_view()),
    {
        join(self.root.as_str(), ".overlay")
    }

    pub fn overlay_merged_dir(&self) -> (r: String)
        ensures
            r@ == merged_of(self.root_view()),
    {
        join(self.overlay_dir().as_str(), "merged")
    }

    pub fn overlay_work_dir(&self) -> (r: String)
        ensures
            r@ == work_of(self.root_view()),
    {
        join(self.overlay_dir().as_str(), "work")
    }

    pub fn cache_dir(&self) -> (r: String)
        ensures
            r@ == cache_of(self.root_view()),
    {
        join(self.root.as_str(), "cache")
    }

    pub fn mods_dir(&self) -> (r: String)
        ensures
            r@ == mods_of(self.root_view()),
    {
        join(self.root.as_str(), "mods")
    }

    /// Where the base game is installed.
    pub fn game_dir(&self) -> (r: String)
        ensures
            r@ == self.game_view().path,
    {
        self.game.path.clone()
    }

    pub fn staging_dir(&self) -> (r: String)
        ensures
            r@ == staging_of(self.root_view()),
    {
        join(self.root.as_str(), "staging")
    }

    pub fn sink_dir(&self) -> (r: String)
        ensures
            r@ == sink_of(self.root_view()),
    {
        join(self.root.as_str(), "sink")
    }

    pub fn proton_work_dir(&self) -> (r: String)
        ensures
            r@ == proton_of(self.root_view()),
    {
        join(self.root.as_str(), "proton")
    }

    /// The Proton launcher script of the configured runtime.
    pub fn proton_binary(&self) -> (r: String)
        ensures
            r@ == joined(self.game_view().proton_dir, "proton"@),
    {
        join(self.game.proton_dir.as_str(), "proton")
    }

    /// The root of the workspace.
    pub fn work_dir(&self) -> (r: String)
        ensures
            r@ == self.root_view(),
    {
        self.root.clone()
    }

    /// The configuration of the game this workspace belongs to.
    pub fn game_config(&self) -> (r: &GameConfig)
        ensures
            r@ == self.game_view(),
    {
        &self.game
    }

    pub fn staged_archives_dir(&self, mod_uid: u64) -> (r: String)
        ensures
            r@ == staged_archives_of(self.root_view(), mod_uid),
    {
        let uid = decimal_string(mod_uid);
        let per_mod = join(self.staging_dir().as_str(), uid.as_str());
        join(per_mod.as_str(), "archives")
    }

    pub fn installed_mod_dir(&self, mod_uid: u64) -> (r: String)
        ensures
            r@ == installed_mod_of(self.root_view(), mod_uid),
    {
        let uid = decimal_string(mod_uid);
        join(self.mods_dir().as_str(), uid.as_str())
    }

    pub fn mod_list_file(&self) -> (r: String)
        ensures
            r@ == mod_list_file_of(self.root_view()),
    {
        join(self.root.as_str(), "mod-list.json")
    }

    /// The directories that preparation creates, parents before children.
    pub fn prepared_dirs(&self) -> (r: Vec<String>)
        ensures
            r@.map_values(|s: String| s@) == prepared_dirs_of(self.root_view()),
    {
        let r = vec![
            self.proton_work_dir(),
            self.active_dir(),
            self.sink_dir(),
            self.mods_dir(),
            self.staging_dir(),
            self.cache_dir(),
            self.overlay_merged_dir(),
            self.overlay_work_dir(),
            self.tracking_dir(),
        ];
        assert(r@.map_values(|s: String| s@) =~= prepared_dirs_of(self.root_view()));
        r
    }

    /// What preparing the workspace does, given whether the process is
    /// privileged: refused with `Precondition` when it is (the game, run later
    /// as the user, must own these directories), and otherwise the
    /// directories to create, parents first.
    pub fn preparation(&self, privileged: bool) -> (r: Result<Vec<String>, MomaError>)
        ensures
            privileged <==> r is Err,
            r matches Err(e) ==> e.kind == ErrorKind::Precondition,
            r matches Ok(dirs) ==> dirs@.map_values(|s: String| s@) == prepared_dirs_of(self.root_view()),
    {
        if privileged {
            return Err(MomaError::new(ErrorKind::Precondition, "Cannot prepare the filesystem as root."));
        }
        Ok(self.prepared_dirs())
    }

    /// Creates every managed directory that is missing, as `preparation`
    /// lays out. A privileged caller gets `Precondition` and the filesystem
    /// is left as it was. Otherwise it only ever adds: every entry that stood
    /// before stands unchanged afterwards, a user's file in a managed
    /// directory included, and what is new is a directory on the way to a
    /// managed one. It succeeds exactly when each of the nine directories was
    /// created or was there already; a failed creation ends it, and that
    /// directory is then missing.
    pub fn prepare_file_system<F: FileSystem, S: System>(&self, fs: &mut F, sys: &S) -> (r: Result<
        (),
        MomaError,
    >)
        ensures
            sys.privileged() ==> (r matches Err(e) && e.kind == ErrorKind::Precondition) && *final(fs)
                == *old(fs),
            keeps_entries(*old(fs), *final(fs)),
            adds_only_toward(*old(fs), *final(fs), prepared_dirs_of(self.root_view())),
            r is Ok <==> !sys.privileged() && forall|j: int|
                0 <= j < prepared_dirs_of(self.root_view()).len() ==> dir_at(
                    *final(fs),
                    #[trigger] prepared_dirs_of(self.root_view())[j],
                ),
            r is Err && !sys.privileged() ==> exists|j: int|
                0 <= j < prepared_dirs_of(self.root_view()).len() && no_dir_at(
                    *final(fs),
                    #[trigger] prepared_dirs_of(self.root_view())[j],
                ),
    {
        let dirs = self.preparation(sys.is_process_root())?;
        let ghost wanted = prepared_dirs_of(self.root_view());
        let ghost start = *fs;
        let mut i: usize = 0;
        while i < dirs.len()
            invariant
                i <= dirs@.len(),
                !sys.privileged(),
                dirs@.map_values(|s: String| s@) == wanted,
                wanted == prepared_dirs_of(self.root_view()),
                start == *old(fs),
                keeps_entries(start, *fs),
                adds_only_toward(start, *fs, wanted),
                forall|j: int| 0 <= j < i ==> dir_at(*fs, #[trigger] wanted[j]),
            decreases dirs@.len() - i,
        {
            let ghost before = *fs;
            let dir = dirs[i].as_str();
            let made = fs.create_dir_all(dir);
            assert(wanted[i as int] == dirs@[i as int]@);
            assert forall|p: &str| (#[trigger] start.entry(p)) is Some implies fs.entry(p) == start.entry(p) by {
                assert(before.entry(p) == start.entry(p));
            }
            assert forall|p: &str| start.entry(p) is None && (#[trigger] fs.entry(p)) is Some implies fs.entry(p)
                == Some(Entry::Dir) && exists|j: int| 0 <= j < wanted.len() && leads_to(p@, #[trigger] wanted[j]) by {
                if before.entry(p) is None {
                    assert(leads_to(p@, wanted[i as int]));
                } else {
                    assert(fs.entry(p) == before.entry(p));
                }
            }
            assert forall|j: int| 0 <= j < i implies dir_at(*fs, #[trigger] wanted[j]) by {
                let q = choose|q: &str| q@ == wanted[j] && #[trigger] before.entry(q) == Some(Entry::Dir);
                assert(fs.entry(q) == before.entry(q));
            }
            match made {
                Err(e) => {
                    assert(no_dir_at(*fs, wanted[i as int]));
                    assert(!dir_at(*fs, wanted[i as int])) by {
                        if dir_at(*fs, wanted[i as int]) {
                            let q = choose|q: &str| q@ == wanted[i as int] && #[trigger] fs.entry(q) == Some(Entry::Dir);
                            assert(fs.entry(q) == fs.entry(dir));
                        }
                    }
                    return Err(e);
                },
                Ok(_) => {},
            }
            assert(dir_at(*fs, wanted[i as int]));
            i = i + 1;
        }
        Ok(())
    }
}

} // verus!

use vstd::prelude::*;

use crate::config::{game_env, pairs_view, copy_pairs};
use crate::error::{ErrorKind, MomaError};
use crate::game::Game;
use crate::system::{
    FileSystem, System, SystemInterface, Entry, adds_only_toward, chown_of, command_of, copy_of, dir_at,
    keeps_entries, leads_to, no_dir_at,
};
use crate::text::{join, joined};
use crate::workspace::{Workspace, active_of, merged_of, proton_of, sink_of, work_of};

verus! {

// ---- overlay directories of a game directory ----

pub open spec fn game_dir_merged(game_dir: Seq<char>) -> Seq<char> {
    joined(joined(game_dir, ".overlay"@), "merged"@)
}

pub open spec fn game_dir_work(game_dir: Seq<char>) -> Seq<char> {
    joined(joined(game_dir, ".overlay"@), "work"@)
}

pub open spec fn game_dir_active(game_dir: Seq<char>) -> Seq<char> {
    joined(game_dir, "active"@)
}

/// The merged-mods layer under a game directory.
pub fn merged_for(game_dir: &str) -> (r: String)
    ensures
        r@ == game_dir_merged(game_dir@),
{
    let overlay = join(game_dir, ".overlay");
    join(overlay.as_str(), "merged")
}

/// The overlay scratch directory under a game directory.
pub fn work_for(game_dir: &str) -> (r: String)
    ensures
        r@ == game_dir_work(game_dir@),
{
    let overlay = join(game_dir, ".overlay");
    join(overlay.as_str(), "work")
}

/// The mount point the game runs from under a game directory.
pub fn active_for(game_dir: &str) -> (r: String)
    ensures
        r@ == game_dir_active(game_dir@),
{
    join(game_dir, "active")
}

// ---- mount arguments ----

/// The options of the union mount: the merged mods shadow the base game, and
/// the sink, the one writable layer, shadows both.
pub open spec fn overlay_options(root: Seq<char>, game_dir: Seq<char>) -> Seq<char> {
    "lowerdir="@ + merged_of(root) + ":"@ + game_dir + ",upperdir="@ + sink_of(root) + ",workdir="@
        + work_of(root)
}

pub open spec fn overlay_mount_args_of(root: Seq<char>, game_dir: Seq<char>) -> Seq<Seq<char>> {
    seq!["-t"@, "overlay"@, "overlay"@, "-o"@, overlay_options(root, game_dir), active_of(root)]
}

pub open spec fn private_mount_args() -> Seq<Seq<char>> {
    seq!["--make-rprivate"@, "/"@]
}

pub open spec fn strings_view(v: Seq<String>) -> Seq<Seq<char>> {
    v.map_values(|s: String| s@)
}

/// The `mount` arguments of the overlay of a workspace.
pub fn overlay_mount_args(workspace: &Workspace) -> (r: Vec<String>)
    ensures
        strings_view(r@) == overlay_mount_args_of(workspace.root_view(), workspace.game_view().path),
{
    let merged = workspace.overlay_merged_dir();
    let game = workspace.game_dir();
    let sink = workspace.sink_dir();
    let work = workspace.overlay_work_dir();
    let mut options = String::from_str("lowerdir=");
    options.append(merged.as_str());
    options.append(":");
    options.append(game.as_str());
    options.append(",upperdir=");
    options.append(sink.as_str());
    options.append(",workdir=");
    options.append(work.as_str());
    let r = vec![
        String::from_str("-t"),
        String::from_str("overlay"),
        String::from_str("overlay"),
        String::from_str("-o"),
        options,
        workspace.active_dir(),
    ];
    assert(strings_view(r@) =~= overlay_mount_args_of(workspace.root_view(), workspace.game_view().path));
    r
}

/// The `mount` arguments that keep the namespace's mounts from propagating.
pub fn private_mount_args_exec() -> (r: Vec<String>)
    ensures
        strings_view(r@) == private_mount_args(),
{
    let r = vec![String::from_str("--make-rprivate"), String::from_str("/")];
    assert(strings_view(r@) =~= private_mount_args());
    r
}

/// The `mount` arguments of an overlay whose base is `game_installation_dir`
/// and whose writable layer is the game directory's merged layer.
pub fn game_dir_mount_args(game_dir: &str, game_installation_dir: &str) -> (r: Vec<String>)
    ensures
        strings_view(r@) == seq![
            "-t"@,
            "overlay"@,
            "overlay"@,
            "-o"@,
            "lowerdir="@ + game_installation_dir@ + ",upperdir="@ + game_dir_merged(game_dir@) + ",workdir="@
                + game_dir_work(game_dir@),
            game_dir_active(game_dir@),
        ],
{
    let merged = merged_for(game_dir);
    let work = work_for(game_dir);
    let mut options = String::from_str("lowerdir=");
    options.append(game_installation_dir);
    options.append(",upperdir=");
    options.append(merged.as_str());
    options.append(",workdir=");
    options.append(work.as_str());
    let r = vec![
        String::from_str("-t"),
        String::from_str("overlay"),
        String::from_str("overlay"),
        String::from_str("-o"),
        options,
        active_for(game_dir),
    ];
    proof {
        reveal_strlit("lowerdir=");
        reveal_strlit(",upperdir=");
        reveal_strlit(",workdir=");
    }
    assert(strings_view(r@) =~= seq![
        "-t"@,
        "overlay"@,
        "overlay"@,
        "-o"@,
        "lowerdir="@ + game_installation_dir@ + ",upperdir="@ + game_dir_merged(game_dir@) + ",workdir="@
            + game_dir_work(game_dir@),
        game_dir_active(game_dir@),
    ]);
    r
}

/// Mounts the overlay of a game directory over `game_installation_dir`: one
/// `mount` with the arguments of `game_dir_mount_args`, whose outcome is returned.
pub fn mount_overlay_for<I: SystemInterface>(system: &I, game_dir: &str, game_installation_dir: &str) -> (r:
    Result<(), MomaError>)
    ensures
        command_of(
            *system,
            "mount"@,
            seq![
                "-t"@,
                "overlay"@,
                "overlay"@,
                "-o"@,
                "lowerdir="@ + game_installation_dir@ + ",upperdir="@ + game_dir_merged(game_dir@) + ",workdir="@
                    + game_dir_work(game_dir@),
                game_dir_active(game_dir@),
            ],
            r,
        ),
{
    let args = game_dir_mount_args(game_dir, game_installation_dir);
    let r = system.run_command("mount", &args);
    assert(system.ran("mount", args, r));
    r
}

/// Mounts a workspace's overlay and isolates the mount namespace.
pub struct OverlayMounter<'a, I: SystemInterface> {
    workspace: &'a Workspace,
    system: &'a I,
}

impl<'a, I: SystemInterface> OverlayMounter<'a, I> {
    pub closed spec fn root(&self) -> Seq<char> {
        self.workspace.root_view()
    }

    pub closed spec fn game_dir(&self) -> Seq<char> {
        self.workspace.game_view().path
    }

    pub closed spec fn system_spec(&self) -> I {
        *self.system
    }

    pub fn new(workspace: &'a Workspace, system: &'a I) -> (r: Self)
        ensures
            r.root() == workspace.root_view(),
            r.game_dir() == workspace.game_view().path,
            r.system_spec() == *system,
    {
        OverlayMounter { workspace, system }
    }

    /// Mounts the union filesystem of the workspace on its active directory:
    /// one `mount` with `overlay_mount_args`, whose outcome is returned.
    pub fn mount_overlay(&self) -> (r: Result<(), MomaError>)
        ensures
            command_of(self.system_spec(), "mount"@, overlay_mount_args_of(self.root(), self.game_dir()), r),
    {
        let args = overlay_mount_args(self.workspace);
        let r = self.system.run_command("mount", &args);
        assert(self.system.ran("mount", args, r));
        r
    }

    /// Detaches the mount table and keeps its mounts from propagating: a
    /// failed detach is returned as it came, and otherwise the outcome of
    /// `mount --make-rprivate /` is.
    pub fn unshare_as_private_namespace(&self) -> (r: Result<(), MomaError>)
        ensures
            (r is Err && self.system_spec().unshared(r)) || (self.system_spec().unshared(Ok(()))
                && command_of(self.system_spec(), "mount"@, private_mount_args(), r)),
    {
        let detached = self.system.unshare_namespace();
        match &detached {
            Err(_) => {
                return detached;
            },
            Ok(u) => {
                assert(*u == ());
            },
        }
        assert(detached == Ok::<(), MomaError>(()));
        let args = private_mount_args_exec();
        let r = self.system.run_command("mount", &args);
        assert(self.system.ran("mount", args, r));
        r
    }
}

// ---- the launch sequence ----

/// The stages of a launch, strictly in this order.
#[derive(Clone, Copy, Debug, PartialEq, Eq, Structural)]
pub enum LaunchStage {
    Start,
    NamespaceUnshared,
    PropagationPrivate,
    FilesystemPrepared,
    OverlayMounted,
    PrivilegesDropped,
    HandedOff,
}

/// The stage at position `n` of a launch.
pub open spec fn stage_at(n: int) -> LaunchStage {
    if n <= 0 {
        LaunchStage::Start
    } else if n == 1 {
        LaunchStage::NamespaceUnshared
    } else if n == 2 {
        LaunchStage::PropagationPrivate
    } else if n == 3 {
        LaunchStage::FilesystemPrepared
    } else if n == 4 {
        LaunchStage::OverlayMounted
    } else if n == 5 {
        LaunchStage::PrivilegesDropped
    } else {
        LaunchStage::HandedOff
    }
}

/// Whether `steps` are the first stages after `Start`, in order, none repeated.
pub open spec fn in_order(steps: Seq<LaunchStage>) -> bool {
    forall|j: int| 0 <= j < steps.len() ==> #[trigger] steps[j] == stage_at(j + 1)
}

/// What the privileged part of a launch came to.
#[derive(Debug)]
pub struct LaunchOutcome {
    /// The stages completed, in order.
    pub steps: Vec<LaunchStage>,
    /// How many mod directories were copied into the merged layer.
    pub copied: usize,
    /// Whether dropping privileges was attempted.
    pub drop_attempted: bool,
    /// The failure that ended the launch, if any.
    pub error: Option<MomaError>,
}

/// The directories the overlay needs before it is mounted.
pub open spec fn overlay_dirs_of(root: Seq<char>) -> Seq<Seq<char>> {
    seq![merged_of(root), work_of(root), active_of(root), sink_of(root)]
}

/// Runs the privileged part of a launch: isolates the mount namespace, makes
/// its mounts private, prepares the overlay directories (owned by the
/// invoking user), mounts the overlay, copies each of `mod_dirs` into the
/// merged layer in order, and drops privileges. A failure before the mount
/// aborts at once, still privileged and with nothing spawned; once the mount
/// exists, privileges are dropped whatever fails after it, and nothing
/// privileged is tried after the drop. Refused with `Precondition` when the
/// process is not privileged.
pub fn isolate_and_mount<F: FileSystem, S: System, I: SystemInterface>(
    workspace: &Workspace,
    fs: &mut F,
    sys: &S,
    iface: &I,
    mod_dirs: &Vec<String>,
) -> (r: LaunchOutcome)
    ensures
        in_order(r.steps@),
        r.steps@.len() <= 5,
        r.drop_attempted <==> r.steps@.len() >= 4,
        r.error is None <==> (r.steps@.len() == 5 && r.copied == mod_dirs@.len()),
        r.copied <= mod_dirs@.len(),
        r.copied > 0 ==> r.steps@.len() >= 4,
        !sys.privileged() ==> (r.steps@.len() == 0 && !r.drop_attempted && (r.error matches Some(e)
            && e.kind == ErrorKind::Precondition) && *final(fs) == *old(fs)),
        sys.privileged() && r.steps@.len() == 0 ==> (r.error matches Some(e) && iface.unshared(Err(e))),
        r.steps@.len() >= 1 ==> sys.privileged() && iface.unshared(Ok(())),
        r.steps@.len() == 1 ==> (r.error matches Some(e) && command_of(*iface, "mount"@, private_mount_args(), Err(e))),
        r.steps@.len() >= 2 ==> command_of(*iface, "mount"@, private_mount_args(), Ok(())),
        r.steps@.len() < 2 ==> *final(fs) == *old(fs),
        keeps_entries(*old(fs), *final(fs)),
        adds_only_toward(*old(fs), *final(fs), overlay_dirs_of(workspace.root_view())),
        r.steps@.len() == 2 ==> exists|j: int|
            0 <= j < 4 && (no_dir_at(*final(fs), #[trigger] overlay_dirs_of(workspace.root_view())[j]) || (
            r.error matches Some(e) && chown_of(*sys, overlay_dirs_of(workspace.root_view())[j], false, Err(e)))),
        r.steps@.len() >= 3 ==> forall|j: int|
            0 <= j < 4 ==> dir_at(*final(fs), #[trigger] overlay_dirs_of(workspace.root_view())[j]) && chown_of(
                *sys,
                overlay_dirs_of(workspace.root_view())[j],
                false,
                Ok(()),
            ),
        r.steps@.len() == 3 ==> (r.error matches Some(e) && command_of(
            *iface,
            "mount"@,
            overlay_mount_args_of(workspace.root_view(), workspace.game_view().path),
            Err(e),
        )),
        r.steps@.len() >= 4 ==> command_of(
            *iface,
            "mount"@,
            overlay_mount_args_of(workspace.root_view(), workspace.game_view().path),
            Ok(()),
        ),
        forall|k: int|
            0 <= k < r.copied ==> copy_of(*final(fs), #[trigger] mod_dirs@[k]@, merged_of(workspace.root_view()), true, Ok(())),
        r.steps@.len() == 4 ==> (r.error matches Some(e) && sys.dropped(Err(e))),
        r.steps@.len() == 5 ==> sys.dropped(Ok(())),
        r.steps@.len() == 5 && r.error is Some ==> r.copied < mod_dirs@.len() && (r.error matches Some(e)
            && copy_of(*final(fs), mod_dirs@[r.copied as int]@, merged_of(workspace.root_view()), true, Err(e))),
{
    let mut steps: Vec<LaunchStage> = Vec::new();
    if !sys.is_process_root() {
        assert(in_order(steps@));
        return LaunchOutcome {
            steps,
            copied: 0,
            drop_attempted: false,
            error: Some(MomaError::new(ErrorKind::Precondition, "This command must be run as root.")),
        };
    }
    let unshared = iface.unshare_namespace();
    let ghost unshared_view = unshared;
    match unshared {
        Err(e) => {
            assert(in_order(steps@));
            return LaunchOutcome { steps, copied: 0, drop_attempted: false, error: Some(e) };
        },
        Ok(u) => {
            assert(unshared_view == Ok::<(), MomaError>(u));
        },
    }
    steps.push(LaunchStage::NamespaceUnshared);
    let private_args = private_mount_args_exec();
    let made_private = iface.run_command("mount", &private_args);
    assert(iface.ran("mount", private_args, made_private));
    let ghost made_private_view = made_private;
    match made_private {
        Err(e) => {
            assert(in_order(steps@));
            return LaunchOutcome { steps, copied: 0, drop_attempted: false, error: Some(e) };
        },
        Ok(u) => {
            assert(made_private_view == Ok::<(), MomaError>(u));
        },
    }
    steps.push(LaunchStage::PropagationPrivate);
    let dirs = vec![
        workspace.overlay_merged_dir(),
        workspace.overlay_work_dir(),
        workspace.active_dir(),
        workspace.sink_dir(),
    ];
    let ghost wanted = overlay_dirs_of(workspace.root_view());
    let ghost start = *fs;
    assert(dirs@.map_values(|d: String| d@) =~= wanted);
    let mut i: usize = 0;
    while i < dirs.len()
        invariant
            i <= dirs@.len(),
            dirs@.len() == 4,
            dirs@.map_values(|d: String| d@) == wanted,
            wanted == overlay_dirs_of(workspace.root_view()),
            steps@ == seq![LaunchStage::NamespaceUnshared, LaunchStage::PropagationPrivate],
            sys.privileged(),
            iface.unshared(Ok(())),
            command_of(*iface, "mount"@, private_mount_args(), Ok(())),
            start == *old(fs),
            keeps_entries(start, *fs),
            adds_only_toward(start, *fs, wanted),
            forall|j: int| 0 <= j < i ==> dir_at(*fs, #[trigger] wanted[j]) && chown_of(*sys, wanted[j], false, Ok(())),
        decreases dirs@.len() - i,
    {
        let ghost before = *fs;
        let dir = dirs[i].as_str();
        let made = fs.create_dir_all(dir);
        let ghost after = *fs;
        assert(wanted[i as int] == dirs@[i as int]@);
        assert forall|p: &str| (#[trigger] start.entry(p)) is Some implies after.entry(p) == start.entry(p) by {
            assert(before.entry(p) == start.entry(p));
        }
        assert forall|p: &str| start.entry(p) is None && (#[trigger] after.entry(p)) is Some implies after.entry(p)
            == Some(Entry::Dir) && exists|j: int| 0 <= j < wanted.len() && leads_to(p@, #[trigger] wanted[j]) by {
            if before.entry(p) is None {
                assert(leads_to(p@, wanted[i as int]));
            } else {
                assert(after.entry(p) == before.entry(p));
            }
        }
        assert forall|j: int| 0 <= j < i implies dir_at(after, #[trigger] wanted[j]) && chown_of(
            *sys,
            wanted[j],
            false,
            Ok(()),
        ) by {
            let q = choose|q: &str| q@ == wanted[j] && #[trigger] before.entry(q) == Some(Entry::Dir);
            assert(after.entry(q) == before.entry(q));
        }
        let ghost made_view = made;
        match made {
            Err(e) => {
                assert(no_dir_at(after, wanted[i as int]));
                assert(in_order(steps@));
                return LaunchOutcome { steps, copied: 0, drop_attempted: false, error: Some(e) };
            },
            Ok(u) => {
                assert(made_view == Ok::<(), MomaError>(u));
            },
        }
        assert(dir_at(after, wanted[i as int]));
        let owned = sys.chown_dir(dir, false);
        assert(sys.chowned(dir, false, owned));
        let ghost owned_view = owned;
        match owned {
            Err(e) => {
                assert(chown_of(*sys, wanted[i as int], false, Err(e)));
                assert(in_order(steps@));
                return LaunchOutcome { steps, copied: 0, drop_attempted: false, error: Some(e) };
            },
            Ok(u) => {
                assert(owned_view == Ok::<(), MomaError>(u));
            },
        }
        assert(chown_of(*sys, wanted[i as int], false, Ok(())));
        i = i + 1;
    }
    steps.push(LaunchStage::FilesystemPrepared);
    let mount_args = overlay_mount_args(workspace);
    let mounted = iface.run_command("mount", &mount_args);
    assert(iface.ran("mount", mount_args, mounted));
    let ghost mounted_view = mounted;
    match mounted {
        Err(e) => {
            assert(in_order(steps@));
            return LaunchOutcome { steps, copied: 0, drop_attempted: false, error: Some(e) };
        },
        Ok(u) => {
            assert(mounted_view == Ok::<(), MomaError>(u));
        },
    }
    steps.push(LaunchStage::OverlayMounted);
    let merged = workspace.overlay_merged_dir();
    let to = merged.as_str();
    let mut copied: usize = 0;
    let mut copy_error: Option<MomaError> = None;
    while copied < mod_dirs.len()
        invariant_except_break
            copy_error is None,
        invariant
            copied <= mod_dirs@.len(),
            merged@ == merged_of(workspace.root_view()),
            to@ == merged@,
            forall|k: int| 0 <= k < copied ==> copy_of(*fs, #[trigger] mod_dirs@[k]@, merged@, true, Ok(())),
        ensures
            copied <= mod_dirs@.len(),
            copy_error is None ==> copied == mod_dirs@.len(),
            copy_error is Some ==> copied < mod_dirs@.len(),
            copy_error matches Some(e) ==> copy_of(*fs, mod_dirs@[copied as int]@, merged@, true, Err(e)),
        decreases mod_dirs@.len() - copied,
    {
        let from = mod_dirs[copied].as_str();
        let one = fs.copy_dir(from, to, true);
        assert(fs.copied(from, to, true, one));
        assert(from@ == mod_dirs@[copied as int]@);
        let ghost one_view = one;
        match one {
            Ok(u) => {
                assert(one_view == Ok::<(), MomaError>(u));
                assert(copy_of(*fs, mod_dirs@[copied as int]@, merged@, true, Ok(())));
                copied = copied + 1;
            },
            Err(e) => {
                assert(copy_of(*fs, mod_dirs@[copied as int]@, merged@, true, Err(e)));
                copy_error = Some(e);
                break;
            },
        }
    }
    let dropped = sys.drop_privileges();
    let ghost dropped_view = dropped;
    match dropped {
        Err(e) => {
            assert(in_order(steps@));
            LaunchOutcome { steps, copied, drop_attempted: true, error: Some(e) }
        },
        Ok(u) => {
            assert(dropped_view == Ok::<(), MomaError>(u));
            steps.push(LaunchStage::PrivilegesDropped);
            assert(in_order(steps@));
            match copy_error {
                Some(e) => {
                    LaunchOutcome { steps, copied, drop_attempted: true, error: Some(e) }
                },
                None => {
                    LaunchOutcome { steps, copied, drop_attempted: true, error: None }
                },
            }
        },
    }
}

/// The game to launch: the one asked for, else the current context;
/// `Precondition` when there is neither.
pub fn resolve_game(requested: Option<Game>, context: Option<Game>) -> (r: Result<Game, MomaError>)
    ensures
        requested matches Some(g) ==> r == Ok::<Game, MomaError>(g),
        requested is None ==> (context matches Some(g) ==> r == Ok::<Game, MomaError>(g)),
        requested is None && context is None ==> (r matches Err(e) && e.kind == ErrorKind::Precondition),
{
    match requested {
        Some(g) => Ok(g),
        None => match context {
            Some(g) => Ok(g),
            None => Err(MomaError::new(ErrorKind::Precondition, "No game specified and no context is set.")),
        },
    }
}

/// The soft safety gate before a launch: the sink, where files dropped by
/// hand are routed into the overlay, must be empty unless the launch is
/// forced; `Precondition` otherwise.
pub fn check_sink(sink_entries: usize, force: bool) -> (r: Result<(), MomaError>)
    ensures
        r is Ok <==> (sink_entries == 0 || force),
        r matches Err(e) ==> e.kind == ErrorKind::Precondition,
{
    if sink_entries == 0 || force {
        Ok(())
    } else {
        Err(MomaError::new(ErrorKind::Precondition, "The sink folder is not empty; launch with --force to ignore it."))
    }
}

// ---- handing off to Proton ----

/// The process that runs the game: a program, its arguments, the directory it
/// starts in, and environment settings applied in order.
#[derive(Debug)]
pub struct LaunchCommand {
    pub program: String,
    pub args: Vec<String>,
    pub current_dir: String,
    pub env: Vec<(String, String)>,
}

/// The environment Proton runs the game with: the user's stored variables,
/// then the game's own, then the Steam compatibility paths.
pub open spec fn proton_env(
    stored: Seq<(Seq<char>, Seq<char>)>,
    game: Seq<(Seq<char>, Seq<char>)>,
    steam_dir: Seq<char>,
    root: Seq<char>,
) -> Seq<(Seq<char>, Seq<char>)> {
    stored + game + seq![
        ("STEAM_COMPAT_CLIENT_INSTALL_PATH"@, steam_dir),
        ("STEAM_COMPAT_DATA_PATH"@, proton_of(root)),
    ]
}

/// The Proton invocation that starts `game` through its mod loader from the
/// mounted active directory.
pub fn proton_command(
    workspace: &Workspace,
    game: &Game,
    steam_dir: &str,
    stored_env: &Vec<(String, String)>,
    host_env: &Vec<(String, String)>,
) -> (r: LaunchCommand)
    ensures
        r.program@ == joined(workspace.game_view().proton_dir, "proton"@),
        strings_view(r.args@) == seq![
            "run"@,
            joined(active_of(workspace.root_view()), crate::skyrimse::mod_executable_name()),
        ],
        r.current_dir@ == active_of(workspace.root_view()),
        pairs_view(r.env@) == proton_env(
            pairs_view(stored_env@),
            game_env(
                match workspace.game_view().env {
                    Some(e) => e,
                    None => Seq::empty(),
                },
                pairs_view(host_env@),
            ),
            steam_dir@,
            workspace.root_view(),
        ),
{
    let active = workspace.active_dir();
    let executable = join(active.as_str(), game.game_mod_executable());
    let mut env = copy_pairs(stored_env);
    let mut game_vars = workspace.game_config().get_env_vars(host_env);
    let ghost stored_v = pairs_view(env@);
    let ghost game_v = pairs_view(game_vars@);
    env.append(&mut game_vars);
    assert(pairs_view(env@) =~= stored_v + game_v);
    env.push((String::from_str("STEAM_COMPAT_CLIENT_INSTALL_PATH"), String::from_str(steam_dir)));
    env.push((String::from_str("STEAM_COMPAT_DATA_PATH"), workspace.proton_work_dir()));
    let r = LaunchCommand {
        program: workspace.proton_binary(),
        args: vec![String::from_str("run"), executable],
        current_dir: active,
        env,
    };
    assert(strings_view(r.args@) =~= seq![
        "run"@,
        joined(active_of(workspace.root_view()), crate::skyrimse::mod_executable_name()),
    ]);
    assert(pairs_view(r.env@) =~= proton_env(stored_v, game_v, steam_dir@, workspace.root_view()));
    r
}

} // verus!

use std::cell::RefCell;

use moma::archive::{archive_format, extension, ArchiveFormat};
use moma::config::{Config, GameConfig};
use moma::error::{ErrorKind, MomaError};
use moma::game::{Game, Source};
use moma::launch::{
    active_for, isolate_and_mount, merged_for, mount_overlay_for, overlay_mount_args, proton_command, work_for,
    LaunchStage, OverlayMounter,
};
use moma::launch::{check_sink, resolve_game};
use moma::reorder::{Reorder, ReorderKey, ReorderStep};
use moma::nexus::{from_nexus_domain, to_nexus_domain, DownloadInfoRequest, ModFileInfoResponse, ModInfoResponse, NxmLink};
use moma::skyrimse::{game_executable, skse_download_for};
use moma::system::{drop_target, Entry, FileSystem, System, SystemInterface};
use moma::text::{decimal_string, join};
use moma::manager::{EnvStore, Manager};
use moma::types::{FileStatus, Mod, ModArchive, ModList};
use moma::ui::{dark_cyan, hex_escape, indent_spaces};
use moma::workspace::Workspace;

fn pair(a: &str, b: &str) -> (String, String) {
    (a.to_string(), b.to_string())
}

fn workspace(env: Option<Vec<(String, String)>>) -> Workspace {
    Workspace::at(
        GameConfig {
            game: Game::SkyrimSE,
            path: "/games/skyrim".to_string(),
            proton_dir: "/steam/proton".to_string(),
            env,
        },
        "/home/u/.moma/skyrimse".to_string(),
    )
}

#[derive(Default)]
struct Host {
    log: RefCell<Vec<String>>,
    root: bool,
    fail_on: Option<&'static str>,
}

impl Host {
    fn fails(&self, what: &str) -> bool {
        matches!(self.fail_on, Some(f) if what.starts_with(f))
    }

    fn act(&self, what: String) -> Result<(), MomaError> {
        let failing = self.fails(&what);
        self.log.borrow_mut().push(what);
        if failing {
            Err(MomaError { kind: ErrorKind::Privilege, message: "refused".to_string() })
        } else {
            Ok(())
        }
    }
}

/// The disk side of a `Host`, writing to the same log.
struct Disk<'a> {
    host: &'a Host,
}

impl FileSystem for Disk<'_> {
    fn entry(&self, path: &str) -> Option<Entry> {
        let made = format!("mkdir {}", path);
        if self.host.log.borrow().contains(&made) && !self.host.fails(&made) {
            Some(Entry::Dir)
        } else {
            None
        }
    }

    fn extracted(&self, archive_path: &str, _target_dir: &str, _flatten: bool, r: Result<(), MomaError>) -> bool {
        r.is_err() == self.host.fails(&format!("extract {}", archive_path))
    }

    fn copied(&self, from: &str, _to: &str, _flatten_root: bool, r: Result<(), MomaError>) -> bool {
        r.is_err() == self.host.fails(&format!("copy {}", from))
    }

    fn extract_archive(&self, archive_path: &str, _target_dir: &str, _flatten: bool) -> Result<(), MomaError> {
        self.host.act(format!("extract {}", archive_path))
    }

    fn copy_dir(&self, from: &str, _to: &str, _flatten_root: bool) -> Result<(), MomaError> {
        self.host.act(format!("copy {}", from))
    }

    fn create_dir_all(&mut self, dir: &str) -> Result<(), MomaError> {
        self.host.act(format!("mkdir {}", dir))
    }
}

impl System for Host {
    fn privileged(&self) -> bool {
        self.root
    }

    fn dropped(&self, r: Result<(), MomaError>) -> bool {
        r.is_err() == self.fails("drop")
    }

    fn chowned(&self, dir: &str, _recursive: bool, r: Result<(), MomaError>) -> bool {
        r.is_err() == self.fails(&format!("chown {}", dir))
    }

    fn is_process_root(&self) -> bool {
        self.root
    }

    fn drop_privileges(&self) -> Result<(), MomaError> {
        self.act("drop".to_string())
    }

    fn chown_dir(&self, dir: &str, _recursive: bool) -> Result<(), MomaError> {
        self.act(format!("chown {}", dir))
    }
}

impl SystemInterface for Host {
    fn ran(&self, program: &str, args: Vec<String>, r: Result<(), MomaError>) -> bool {
        r.is_err() == self.fails(&format!("{} {}", program, args.join(" ")))
    }

    fn unshared(&self, r: Result<(), MomaError>) -> bool {
        r.is_err() == self.fails("unshare")
    }

    fn run_command(&self, program: &str, args: &Vec<String>) -> Result<(), MomaError> {
        self.act(format!("{} {}", program, args.join(" ")))
    }

    fn unshare_namespace(&self) -> Result<(), MomaError> {
        self.act("unshare".to_string())
    }
}

#[test]
fn overlay_layers_put_mods_over_the_game_and_the_sink_on_top() {
    let ws = workspace(None);
    let args = overlay_mount_args(&ws);
    assert_eq!(
        args,
        vec![
            "-t",
            "overlay",
            "overlay",
            "-o",
            "lowerdir=/home/u/.moma/skyrimse/.overlay/merged:/games/skyrim,upperdir=/home/u/.moma/skyrimse/sink,workdir=/home/u/.moma/skyrimse/.overlay/work",
            "/home/u/.moma/skyrimse/active",
        ]
    );
}

#[test]
fn launch_drops_privileges_after_mounting_and_copying_mods() {
    let ws = workspace(None);
    let host = Host { root: true, ..Default::default() };
    let mods = vec!["/m/a".to_string(), "/m/b".to_string()];

    let outcome = isolate_and_mount(&ws, &mut Disk { host: &host }, &host, &host, &mods);

    assert!(outcome.error.is_none());
    assert_eq!(outcome.copied, 2);
    assert_eq!(
        outcome.steps,
        vec![
            LaunchStage::NamespaceUnshared,
            LaunchStage::PropagationPrivate,
            LaunchStage::FilesystemPrepared,
            LaunchStage::OverlayMounted,
            LaunchStage::PrivilegesDropped,
        ]
    );
    let log = host.log.borrow();
    assert_eq!(log[0], "unshare");
    assert_eq!(log[1], "mount --make-rprivate /");
    assert!(log[10].starts_with("mount -t overlay overlay -o lowerdir="));
    assert_eq!(log[11], "copy /m/a");
    assert_eq!(log[12], "copy /m/b");
    assert_eq!(log[13], "drop");
    assert_eq!(log.len(), 14);
}

#[test]
fn launch_still_drops_privileges_when_copying_fails_after_the_mount() {
    let ws = workspace(None);
    let host = Host { root: true, fail_on: Some("copy /m/b"), ..Default::default() };
    let mods = vec!["/m/a".to_string(), "/m/b".to_string(), "/m/c".to_string()];

    let outcome = isolate_and_mount(&ws, &mut Disk { host: &host }, &host, &host, &mods);

    assert!(outcome.error.is_some());
    assert!(outcome.drop_attempted);
    assert_eq!(outcome.copied, 1);
    assert_eq!(outcome.steps.last(), Some(&LaunchStage::PrivilegesDropped));
    assert_eq!(host.log.borrow().last().unwrap(), "drop");
}

#[test]
fn launch_aborts_before_the_mount_without_dropping() {
    let ws = workspace(None);
    let host = Host { root: true, fail_on: Some("unshare"), ..Default::default() };

    let outcome = isolate_and_mount(&ws, &mut Disk { host: &host }, &host, &host, &vec![]);

    assert_eq!(outcome.error.unwrap().kind, ErrorKind::Privilege);
    assert!(!outcome.drop_attempted);
    assert!(outcome.steps.is_empty());
    assert_eq!(*host.log.borrow(), vec!["unshare".to_string()]);

    let user = Host { root: false, ..Default::default() };
    let refused = isolate_and_mount(&ws, &mut Disk { host: &user }, &user, &user, &vec![]);
    assert_eq!(refused.error.unwrap().kind, ErrorKind::Precondition);
    assert!(user.log.borrow().is_empty());
}

#[test]
fn overlay_mounter_unshares_then_makes_mounts_private() {
    let ws = workspace(None);
    let host = Host::default();
    let mounter = OverlayMounter::new(&ws, &host);

    mounter.unshare_as_private_namespace().unwrap();
    mounter.mount_overlay().unwrap();
    mount_overlay_for(&host, "/g", "/install").unwrap();

    let log = host.log.borrow();
    assert_eq!(log[0], "unshare");
    assert_eq!(log[1], "mount --make-rprivate /");
    assert!(log[2].ends_with(" /home/u/.moma/skyrimse/active"));
    assert_eq!(log[3], "mount -t overlay overlay -o lowerdir=/install,upperdir=/g/.overlay/merged,workdir=/g/.overlay/work /g/active");
}

#[test]
fn game_directory_overlay_paths() {
    assert_eq!(merged_for("/g"), "/g/.overlay/merged");
    assert_eq!(work_for("/g/"), "/g/.overlay/work");
    assert_eq!(active_for("/g"), "/g/active");
}

#[test]
fn game_env_falls_back_to_host_display_variables() {
    let config = GameConfig {
        game: Game::SkyrimSE,
        path: "/g".to_string(),
        proton_dir: "/p".to_string(),
        env: Some(vec![pair("DISPLAY", ":1"), pair("DXVK_HUD", "1")]),
    };
    let host = vec![pair("DISPLAY", ":0"), pair("WAYLAND_DISPLAY", "wayland-0"), pair("HOME", "/home/u")];

    let env = config.get_env_vars(&host);

    assert_eq!(env, vec![pair("DISPLAY", ":1"), pair("DXVK_HUD", "1"), pair("WAYLAND_DISPLAY", "wayland-0")]);
}

#[test]
fn proton_command_runs_the_mod_loader_from_the_active_directory() {
    let ws = workspace(Some(vec![pair("A", "1")]));

    let cmd = proton_command(&ws, &Game::SkyrimSE, "/steam", &vec![pair("S", "2")], &vec![pair("XDG_RUNTIME_DIR", "/run/u")]);

    assert_eq!(cmd.program, "/steam/proton/proton");
    assert_eq!(cmd.args, vec!["run", "/home/u/.moma/skyrimse/active/skse64_loader.exe"]);
    assert_eq!(cmd.current_dir, "/home/u/.moma/skyrimse/active");
    assert_eq!(
        cmd.env,
        vec![
            pair("S", "2"),
            pair("A", "1"),
            pair("XDG_RUNTIME_DIR", "/run/u"),
            pair("STEAM_COMPAT_CLIENT_INSTALL_PATH", "/steam"),
            pair("STEAM_COMPAT_DATA_PATH", "/home/u/.moma/skyrimse/proton"),
        ]
    );
}

#[test]
fn config_replaces_the_configuration_of_the_same_game() {
    let mut config = Config::test("/base");
    assert_eq!(config.game_config_for(&Game::SkyrimSE).unwrap_err().kind, ErrorKind::NotFound);
    for path in ["/one", "/two"] {
        config.add_game(GameConfig { game: Game::SkyrimSE, path: path.to_string(), proton_dir: "/p".to_string(), env: None });
    }
    assert_eq!(config.games().len(), 1);
    assert_eq!(config.game_config_for(&Game::SkyrimSE).unwrap().path, "/two");
    assert_eq!(config.base_working_dir(), "/base/working");
    assert_eq!(config.steam_dir(), "/base/steam");
    assert_eq!(config.state_file(), "/base/state.json");
}

#[test]
fn game_ids_and_default_paths() {
    assert_eq!(Game::from_id("skyrimse"), Some(Game::SkyrimSE));
    assert_eq!(Game::from_id("skyrim"), None);
    assert_eq!(Game::all(), vec![Game::SkyrimSE]);
    assert_eq!(Game::SkyrimSE.title(), "Skyrim Special Edition");
    assert_eq!(Game::SkyrimSE.default_mod_sources(), vec![Source::Nexus]);
    assert_eq!(Game::SkyrimSE.game_mod_executable(), "skse64_loader.exe");
    assert_eq!(game_executable(), "SkyrimSE.exe");
    let config = Config::new("/w".to_string(), "/opt/steam".to_string(), "/tmp/s".to_string());
    assert_eq!(
        Game::SkyrimSE.default_game_path(&config),
        "/opt/steam/steamapps/common/Skyrim Special Edition"
    );
}

#[test]
fn skse_download_follows_the_game_version() {
    assert_eq!(skse_download_for("1.5.97.0"), Some("https://skse.silverlock.org/beta/skse64_2_00_20.7z"));
    assert_eq!(skse_download_for("1.6.1170.0"), Some("https://skse.silverlock.org/beta/skse64_2_02_06.7z"));
    assert_eq!(skse_download_for("1.4"), None);
    assert_eq!(skse_download_for("1."), None);
}

#[test]
fn nexus_domains_map_to_games_in_any_case() {
    assert_eq!(from_nexus_domain("SkyrimSpecialEdition").unwrap(), Game::SkyrimSE);
    assert_eq!(from_nexus_domain("fallout4").unwrap_err().kind, ErrorKind::Unsupported);
    assert_eq!(to_nexus_domain(&Game::SkyrimSE), "skyrimspecialedition");
}

#[test]
fn nxm_links_are_built_from_url_parts() {
    let segments = vec!["mods".to_string(), "266".to_string(), "files".to_string(), "9000".to_string()];
    let query = vec![pair("key", "k1"), pair("expires", "123"), pair("key", "k2")];

    let link = NxmLink::from_parts(Some("skyrimspecialedition".to_string()), Some(segments.clone()), &query).unwrap();

    assert_eq!(link.game, "skyrimspecialedition");
    assert_eq!(link.mod_id, "266");
    assert_eq!(link.file_id, "9000");
    assert_eq!(link.key, "k2");
    assert_eq!(link.expires, "123");
    let request = DownloadInfoRequest::from_link(link);
    assert_eq!(request.file_id, "9000");

    assert!(NxmLink::from_parts(None, Some(segments.clone()), &query).is_err());
    assert!(NxmLink::from_parts(Some("g".to_string()), None, &query).is_err());
    assert!(NxmLink::from_parts(Some("g".to_string()), Some(segments), &vec![pair("key", "k")]).is_err());
}

#[test]
fn source_answers_become_mods_and_archives() {
    let m = ModInfoResponse { uid: 4, name: "SkyUI".to_string() }.into_mod();
    assert_eq!((m.uid, m.name.as_str(), m.archives.len()), (4, "SkyUI", 0));
    let a = ModFileInfoResponse { uid: 9, file_name: "skyui.7z".to_string() }.into_archive();
    assert_eq!(a.status, FileStatus::Unknown);
    assert_eq!(a.archive_path, None);
}

#[test]
fn hex_escape_colours_text() {
    assert_eq!(hex_escape("#007392", "hi"), "\x1b[38;2;0;115;146mhi\x1b[0m");
    assert_eq!(hex_escape("##FFfF0+", "x"), "\x1b[38;2;255;255;255mx\x1b[0m");
    assert_eq!(hex_escape("+f0000", "x"), "\x1b[38;2;15;0;0mx\x1b[0m");
    assert_eq!(hex_escape("#12345", "plain"), "plain");
    assert_eq!(dark_cyan("a"), hex_escape("007392", "a"));
    assert_eq!(indent_spaces("x", 3), "   x");
    assert_eq!(indent_spaces("x", 0), "x");
}

#[test]
fn archive_formats_follow_the_extension() {
    assert_eq!(archive_format("/a/b/Mod.ZIP").unwrap(), ArchiveFormat::Zip);
    assert_eq!(archive_format("mod.7z").unwrap(), ArchiveFormat::SevenZip);
    assert_eq!(archive_format("x.tar.rar").unwrap(), ArchiveFormat::Rar);
    assert_eq!(archive_format("mod.tar").unwrap_err().kind, ErrorKind::Unsupported);
    assert_eq!(archive_format("/a.b/archive").unwrap_err().kind, ErrorKind::Unsupported);
    assert_eq!(extension("/a/.hidden"), None);
}

#[test]
fn paths_and_numbers() {
    assert_eq!(join("/a", "b"), "/a/b");
    assert_eq!(join("/a/", "b"), "/a/b");
    assert_eq!(join("/a", "/b"), "/b");
    assert_eq!(join("", "b"), "b");
    assert_eq!(decimal_string(0), "0");
    assert_eq!(decimal_string(18446744073709551615), "18446744073709551615");
    assert_eq!(FileStatus::Failed("x".to_string()).describe(), "A problem occurred: 'x'");
}

#[test]
fn launch_gates() {
    assert_eq!(resolve_game(Some(Game::SkyrimSE), None).unwrap(), Game::SkyrimSE);
    assert_eq!(resolve_game(None, Some(Game::SkyrimSE)).unwrap(), Game::SkyrimSE);
    assert_eq!(resolve_game(None, None).unwrap_err().kind, ErrorKind::Precondition);
    assert!(check_sink(0, false).is_ok());
    assert!(check_sink(3, true).is_ok());
    assert_eq!(check_sink(1, false).unwrap_err().kind, ErrorKind::Precondition);
}

#[test]
fn reorder_moves_a_picked_item_with_the_cursor() {
    let mut r = Reorder::new(vec!["a", "b", "c"]);
    assert_eq!(r.press(ReorderKey::Down), ReorderStep::Continue);
    assert_eq!(r.press(ReorderKey::Toggle), ReorderStep::Continue);
    r.press(ReorderKey::Down);
    r.press(ReorderKey::Down);
    assert_eq!(r.items, vec!["a", "c", "b"]);
    r.press(ReorderKey::Toggle);
    r.press(ReorderKey::Up);
    r.press(ReorderKey::Up);
    r.press(ReorderKey::Up);
    assert_eq!(r.cursor, 0);
    r.press(ReorderKey::Toggle);
    r.press(ReorderKey::Down);
    assert_eq!(r.items, vec!["c", "a", "b"]);
    assert_eq!(r.press(ReorderKey::Confirm), ReorderStep::Done);
    assert_eq!(r.press(ReorderKey::Quit), ReorderStep::Interrupted);

    let mut empty: Reorder<&str> = Reorder::new(vec![]);
    empty.press(ReorderKey::Down);
    empty.press(ReorderKey::Toggle);
    assert_eq!((empty.cursor, empty.selected), (0, None));
}

#[test]
fn nxm_urls_are_parsed() {
    let link = moma::nexus::parse_nxm_url("nxm://skyrimspecialedition/mods/266/files/9000?key=abc%20d&expires=1700000000&user_id=5").unwrap();
    assert_eq!(link.game, "skyrimspecialedition");
    assert_eq!(link.mod_id, "266");
    assert_eq!(link.file_id, "9000");
    assert_eq!(link.key, "abc d");
    assert_eq!(link.expires, "1700000000");
    assert_eq!(moma::nexus::parse_nxm_url("not a url").unwrap_err().kind, ErrorKind::Corrupt);
    assert_eq!(moma::nexus::parse_nxm_url("nxm://g/mods/1/file/2?key=a&expires=b").unwrap_err().kind, ErrorKind::Corrupt);
    assert!(moma::nexus::parse_nxm_url("nxm://g/mods/1/files/2?expires=b").is_err());
}

#[test]
fn manager_tracks_presence_and_marks_status() {
    let ws = workspace(None);
    let manager = Manager::new(ws.clone());
    let m = Mod { uid: 1, name: "Test mod".to_string(), archives: vec![] };
    let a = ModArchive { file_uid: 2, file_name: "a.7z".to_string(), archive_path: None, status: FileStatus::Unknown };
    let mut doc = ModList::empty();

    manager.mark_archive_status(&mut doc, &m, &a, FileStatus::Downloading).unwrap();
    assert!(!manager.is_archive_present(&doc, 2));
    manager.mark_archive_status(&mut doc, &m, &a, FileStatus::Downloaded).unwrap();
    assert!(manager.is_archive_present(&doc, 2));
    assert_eq!(doc.mods[0].archives.len(), 1);
    assert_eq!(manager.get_cache_path(), "/home/u/.moma/skyrimse/cache");
    assert_eq!(EnvStore::new(ws).env_file(), "/home/u/.moma/skyrimse/user-env.json");
}

#[test]
fn default_game_path_expands_a_leading_tilde() {
    let config = Config::new("/w".to_string(), "~/steamlib".to_string(), "/tmp/s".to_string());

    let path = Game::SkyrimSE.default_game_path(&config);

    assert!(!path.starts_with('~'));
    assert!(path.ends_with("/steamlib/steamapps/common/Skyrim Special Edition"));
}

#[test]
fn source_file_listings_map_to_mod_files() {
    let files = vec![
        moma::nexus::NexusFile { file_id: 9000, name: "Main".to_string(), category_name: "MAIN".to_string(), size_kb: 12 },
        moma::nexus::NexusFile { file_id: 7, name: "Patch".to_string(), category_name: "OPTIONAL".to_string(), size_kb: 1 },
    ];

    let mapped = moma::nexus::map_mod_files(files);

    assert_eq!(mapped.len(), 2);
    assert_eq!(mapped[0].id, "9000");
    assert_eq!(mapped[0].category, "MAIN");
    assert_eq!(mapped[1].id, "7");
    assert_eq!(mapped[1].name, "Patch");
    assert_eq!(mapped[1].size_kb, 1);
}

#[test]
fn dropping_privileges_needs_root_and_both_invoking_ids() {
    assert_eq!(drop_target(true, Some(1000), Some(100)).unwrap(), (1000, 100));
    assert_eq!(drop_target(false, Some(1000), Some(100)).unwrap_err().kind, ErrorKind::Privilege);
    assert_eq!(drop_target(true, None, Some(100)).unwrap_err().kind, ErrorKind::Privilege);
    assert_eq!(drop_target(true, Some(1000), None).unwrap_err().kind, ErrorKind::Privilege);
}

use std::cell::RefCell;
use std::collections::BTreeSet;
use std::path::Path;

use moma::config::{Config, GameConfig};
use moma::error::{ErrorKind, MomaError};
use moma::game::Game;
use moma::system::{Entry, FileSystem, System};
use moma::workspace::Workspace;
use tempfile::TempDir;

fn joined(base: &str, parts: &[&str]) -> String {
    let mut p = Path::new(base).to_path_buf();
    for part in parts {
        p = p.join(part);
    }
    p.to_string_lossy().to_string()
}

fn setup(game: &Game, tmp_dir: &TempDir) -> Config {
    let game_config = GameConfig {
        game: *game,
        path: "/fake/skyrimse".to_string(),
        proton_dir: "/fake/proton".to_string(),
        env: None,
    };

    let mut config = Config::test(&tmp_dir.path().to_string_lossy());
    config.add_game(game_config);
    config
}

/// A disk reduced to the set of paths on it, each taken for a directory.
struct MemoryFs {
    paths: RefCell<BTreeSet<String>>,
}

impl FileSystem for MemoryFs {
    fn entry(&self, path: &str) -> Option<Entry> {
        if self.paths.borrow().contains(path) {
            Some(Entry::Dir)
        } else {
            None
        }
    }

    fn extracted(&self, _archive_path: &str, _target_dir: &str, _flatten: bool, r: Result<(), MomaError>) -> bool {
        r.is_ok()
    }

    fn copied(&self, _from: &str, _to: &str, _flatten_root: bool, r: Result<(), MomaError>) -> bool {
        r.is_ok()
    }

    fn extract_archive(&self, _archive_path: &str, _target_dir: &str, _flatten: bool) -> Result<(), MomaError> {
        Ok(())
    }

    fn copy_dir(&self, _from: &str, _to: &str, _flatten_root: bool) -> Result<(), MomaError> {
        Ok(())
    }

    fn create_dir_all(&mut self, dir: &str) -> Result<(), MomaError> {
        let mut paths = self.paths.borrow_mut();
        let mut current = String::new();
        for (i, part) in dir.split('/').enumerate() {
            if i > 0 {
                current.push('/');
            }
            current.push_str(part);
            if !current.is_empty() {
                paths.insert(current.clone());
            }
        }
        Ok(())
    }
}

struct User {
    root: bool,
}

impl System for User {
    fn privileged(&self) -> bool {
        self.root
    }

    fn dropped(&self, r: Result<(), MomaError>) -> bool {
        r.is_ok()
    }

    fn chowned(&self, _dir: &str, _recursive: bool, r: Result<(), MomaError>) -> bool {
        r.is_ok()
    }

    fn is_process_root(&self) -> bool {
        self.root
    }

    fn drop_privileges(&self) -> Result<(), MomaError> {
        Ok(())
    }

    fn chown_dir(&self, _dir: &str, _recursive: bool) -> Result<(), MomaError> {
        Ok(())
    }
}

#[test]
fn new_should_return_err_when_game_config_non_existant() {
    // Arrange
    let game = Game::SkyrimSE;
    let tmp = TempDir::new().unwrap();
    let config = setup(&game, &tmp);
    let sut = Workspace::new(&game, &config).unwrap();

    // Act
    let actual = sut.work_dir();

    // Assert
    assert_eq!(actual, joined(&config.base_working_dir(), &[game.id()]));

    let unconfigured = Config::test(&tmp.path().to_string_lossy());
    let missing = Workspace::new(&game, &unconfigured);
    assert_eq!(missing.unwrap_err().kind, ErrorKind::NotFound);
}

fn check_path(accessor: fn(&Workspace) -> String, parts: &[&str]) {
    // Arrange
    let game = Game::SkyrimSE;
    let tmp = TempDir::new().unwrap();
    let config = setup(&game, &tmp);
    let sut = Workspace::new(&game, &config).unwrap();

    // Act
    let actual = accessor(&sut);

    // Assert
    let mut all = vec![game.id()];
    all.extend_from_slice(parts);
    assert_eq!(actual, joined(&config.base_working_dir(), &all));
}

#[test]
fn active_dir_should_return_correct_path() {
    check_path(Workspace::active_dir, &["active"]);
}

#[test]
fn tracking_dir_should_return_correct_path() {
    check_path(Workspace::tracking_dir, &["cache", "tracking"]);
}

#[test]
fn overlay_dir_should_return_correct_path() {
    check_path(Workspace::overlay_dir, &[".overlay"]);
}

#[test]
fn overlay_merged_dir_should_return_correct_path() {
    check_path(Workspace::overlay_merged_dir, &[".overlay", "merged"]);
}

#[test]
fn overlay_work_dir_should_return_correct_path() {
    check_path(Workspace::overlay_work_dir, &[".overlay", "work"]);
}

#[test]
fn cache_dir_should_return_correct_path() {
    check_path(Workspace::cache_dir, &["cache"]);
}

#[test]
fn mods_dir_should_return_correct_path() {
    check_path(Workspace::mods_dir, &["mods"]);
}

#[test]
fn staging_dir_should_return_correct_path() {
    check_path(Workspace::staging_dir, &["staging"]);
}

#[test]
fn sink_dir_should_return_correct_path() {
    check_path(Workspace::sink_dir, &["sink"]);
}

#[test]
fn proton_work_dir_should_return_correct_path() {
    check_path(Workspace::proton_work_dir, &["proton"]);
}

#[test]
fn work_dir_should_return_correct_path() {
    check_path(Workspace::work_dir, &[]);
}

#[test]
fn game_dir_should_return_correct_path() {
    let game = Game::SkyrimSE;
    let tmp = TempDir::new().unwrap();
    let config = setup(&game, &tmp);
    let sut = Workspace::new(&game, &config).unwrap();

    let actual = sut.game_dir();

    assert_eq!(actual, config.game_config_for(&game).unwrap().path);
}

#[test]
fn proton_binary_should_return_correct_path() {
    let game = Game::SkyrimSE;
    let tmp = TempDir::new().unwrap();
    let config = setup(&game, &tmp);
    let sut = Workspace::new(&game, &config).unwrap();

    let actual = sut.proton_binary();

    let expected = joined(&config.game_config_for(&game).unwrap().proton_dir, &["proton"]);
    assert_eq!(actual, expected);
}

#[test]
fn staged_and_installed_dirs_name_the_mod_uid() {
    let game = Game::SkyrimSE;
    let tmp = TempDir::new().unwrap();
    let config = setup(&game, &tmp);
    let sut = Workspace::new(&game, &config).unwrap();

    assert_eq!(sut.staged_archives_dir(1207), joined(&sut.work_dir(), &["staging", "1207", "archives"]));
    assert_eq!(sut.installed_mod_dir(0), joined(&sut.work_dir(), &["mods", "0"]));
    assert_eq!(sut.mod_list_file(), joined(&sut.work_dir(), &["mod-list.json"]));
}

#[test]
fn prepare_file_system_should_create_dirs_if_non_existent() {
    // Arrange
    let game = Game::SkyrimSE;
    let tmp = TempDir::new().unwrap();
    let config = setup(&game, &tmp);
    let sut = Workspace::new(&game, &config).unwrap();
    let mut fs = MemoryFs { paths: RefCell::new(BTreeSet::new()) };

    // Act
    let result = sut.prepare_file_system(&mut fs, &User { root: false });

    // Assert
    assert!(result.is_ok());
    let paths = fs.paths.borrow();
    for dir in [
        sut.proton_work_dir(),
        sut.overlay_merged_dir(),
        sut.overlay_work_dir(),
        sut.active_dir(),
        sut.tracking_dir(),
        sut.sink_dir(),
        sut.mods_dir(),
        sut.staging_dir(),
        sut.cache_dir(),
    ] {
        assert!(paths.contains(&dir), "{} was not created", dir);
    }
    let leaves: Vec<&String> = paths
        .iter()
        .filter(|p| !paths.iter().any(|q| q.starts_with(&format!("{}/", p))))
        .collect();
    assert_eq!(leaves.len(), 8);
}

#[test]
fn prepare_file_system_should_not_overwrite_folders_if_they_already_exist() {
    // Arrange
    let game = Game::SkyrimSE;
    let tmp = TempDir::new().unwrap();
    let config = setup(&game, &tmp);
    let sut = Workspace::new(&game, &config).unwrap();
    let mut fs = MemoryFs { paths: RefCell::new(BTreeSet::new()) };
    sut.prepare_file_system(&mut fs, &User { root: false }).unwrap();

    let file_path = joined(&sut.work_dir(), &["test.txt"]);
    fs.paths.borrow_mut().insert(file_path.clone());
    let before = fs.paths.borrow().clone();

    // Act
    let result = sut.prepare_file_system(&mut fs, &User { root: false });

    // Assert
    assert!(result.is_ok());
    assert!(fs.paths.borrow().contains(&file_path));
    assert_eq!(*fs.paths.borrow(), before);
}

#[test]
fn prepare_file_system_should_refuse_a_privileged_process() {
    let game = Game::SkyrimSE;
    let tmp = TempDir::new().unwrap();
    let config = setup(&game, &tmp);
    let sut = Workspace::new(&game, &config).unwrap();
    let mut fs = MemoryFs { paths: RefCell::new(BTreeSet::new()) };

    let result = sut.prepare_file_system(&mut fs, &User { root: true });

    assert_eq!(result.unwrap_err().kind, ErrorKind::Precondition);
    assert!(fs.paths.borrow().is_empty());
}

#[test]
fn preparation_lists_parents_before_children_and_refuses_root() {
    let game = Game::SkyrimSE;
    let tmp = TempDir::new().unwrap();
    let config = setup(&game, &tmp);
    let sut = Workspace::new(&game, &config).unwrap();

    let dirs = sut.preparation(false).unwrap();

    assert_eq!(dirs.len(), 9);
    let cache = dirs.iter().position(|d| *d == sut.cache_dir()).unwrap();
    let tracking = dirs.iter().position(|d| *d == sut.tracking_dir()).unwrap();
    assert!(cache < tracking);
    assert_eq!(sut.preparation(true).unwrap_err().kind, ErrorKind::Precondition);
}

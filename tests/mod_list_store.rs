use std::path::Path;

use moma::config::{Config, GameConfig};
use moma::error::{ErrorKind, MomaError};
use moma::game::Game;
use moma::mod_list_store::{ArchiveUpdate, DocumentRead, DownloadPlan, ModListStore, PathUpdate};
use moma::system::{Entry, FileSystem};
use moma::types::{FileStatus, Mod, ModArchive, ModList};
use moma::workspace::Workspace;
use tempfile::TempDir;

fn setup(tmp_dir: &TempDir) -> Workspace {
    let game = Game::SkyrimSE;
    let game_config = GameConfig {
        game,
        path: "/fake/skyrimse".to_string(),
        proton_dir: "/fake/proton".to_string(),
        env: None,
    };

    let config = Config::test_with_config(&tmp_dir.path().to_string_lossy(), game_config);
    Workspace::new(&game, &config).unwrap()
}

fn test_mod() -> Mod {
    Mod { uid: 1, name: "Test mod".to_string(), archives: vec![] }
}

fn archive(file_uid: u64, status: FileStatus, path: Option<&str>) -> ModArchive {
    ModArchive {
        file_uid,
        file_name: "test.7z".to_string(),
        archive_path: path.map(|p| p.to_string()),
        status,
    }
}

struct Extractor {
    fail: bool,
}

impl FileSystem for Extractor {
    fn entry(&self, _path: &str) -> Option<Entry> {
        None
    }

    fn extracted(&self, _archive_path: &str, _target_dir: &str, _flatten: bool, r: Result<(), MomaError>) -> bool {
        r.is_err() == self.fail
    }

    fn copied(&self, _from: &str, _to: &str, _flatten_root: bool, r: Result<(), MomaError>) -> bool {
        r.is_ok()
    }

    fn extract_archive(&self, _archive_path: &str, _target_dir: &str, _flatten: bool) -> Result<(), MomaError> {
        if self.fail {
            Err(MomaError { kind: ErrorKind::Unsupported, message: "Unsupported archive format".to_string() })
        } else {
            Ok(())
        }
    }

    fn copy_dir(&self, _from: &str, _to: &str, _flatten_root: bool) -> Result<(), MomaError> {
        Ok(())
    }

    fn create_dir_all(&mut self, _dir: &str) -> Result<(), MomaError> {
        Err(MomaError { kind: ErrorKind::Io, message: "read-only".to_string() })
    }
}

#[test]
fn archive_download_dest_should_return_full_archive_path() {
    // Arrange
    let tmp = TempDir::new().unwrap();
    let ws = setup(&tmp);
    let sut = ModListStore::new(ws.clone());

    let input = "archive.7z";

    // Act
    let result = sut.archive_download_dest(input);

    // Assert
    assert_eq!(result, Path::new(&ws.cache_dir()).join(input).to_string_lossy());
}

#[test]
fn read_should_return_mod_list_if_file_exists() {
    // Arrange
    let tmp = TempDir::new().unwrap();
    let ws = setup(&tmp);
    let sut = ModListStore::new(ws);

    let m = test_mod();
    let expected = ModList { mods: vec![m.clone()] };

    // Act
    let result = sut.read(DocumentRead::Parsed(expected.clone()));

    // Assert
    assert!(result.is_ok());

    let actual = result.unwrap();

    assert_eq!(actual.mods.len(), expected.mods.len());

    let actual_mod = actual.mods.first().unwrap();

    assert_eq!(actual_mod.uid, m.uid);
    assert_eq!(actual_mod.name, m.name);
    assert!(actual_mod.archives.is_empty());
}

#[test]
fn read_should_return_default_if_no_file_found() {
    let tmp = TempDir::new().unwrap();
    let sut = ModListStore::new(setup(&tmp));

    let result = sut.read(DocumentRead::Missing);

    assert!(result.is_ok());
    assert_eq!(result.unwrap().mods.len(), ModList::default().mods.len());
}

#[test]
fn read_should_return_err_when_mod_list_is_unreadable() {
    let tmp = TempDir::new().unwrap();
    let sut = ModListStore::new(setup(&tmp));

    let result = sut.read(DocumentRead::Unreadable("Permission denied".to_string()));

    assert!(result.is_err());
    assert_eq!(result.unwrap_err().kind, ErrorKind::Io);
}

#[test]
fn read_reports_a_document_that_does_not_parse_as_corrupt() {
    let tmp = TempDir::new().unwrap();
    let sut = ModListStore::new(setup(&tmp));

    let result = sut.read(DocumentRead::Unparsable("expected value at line 1".to_string()));

    assert_eq!(result.unwrap_err().kind, ErrorKind::Corrupt);
}

#[test]
fn add_archive_creates_the_mod_and_never_duplicates_an_archive() {
    let tmp = TempDir::new().unwrap();
    let sut = ModListStore::new(setup(&tmp));
    let mut doc = ModList::empty();

    sut.add_archive(&mut doc, &test_mod(), archive(2, FileStatus::Downloading, None));
    sut.add_archive(&mut doc, &test_mod(), archive(2, FileStatus::Installed, None));
    sut.add_archive(&mut doc, &test_mod(), archive(3, FileStatus::Downloaded, None));

    assert_eq!(doc.mods.len(), 1);
    assert_eq!(doc.mods[0].name, "Test mod");
    assert_eq!(doc.mods[0].archives.len(), 2);
    assert_eq!(doc.mods[0].archives[0].status, FileStatus::Downloading);
    assert_eq!(doc.mods[0].archives[1].file_uid, 3);
}

#[test]
fn get_archive_status_of_a_key_never_added_is_unknown() {
    let tmp = TempDir::new().unwrap();
    let sut = ModListStore::new(setup(&tmp));
    let mut doc = ModList::empty();
    assert_eq!(sut.get_archive_status(&doc, 1, 2), FileStatus::Unknown);

    sut.add_archive(&mut doc, &test_mod(), archive(2, FileStatus::Downloading, None));

    assert_eq!(sut.get_archive_status(&doc, 1, 2), FileStatus::Downloading);
    assert_eq!(sut.get_archive_status(&doc, 1, 9), FileStatus::Unknown);
    assert_eq!(sut.get_archive_status(&doc, 7, 2), FileStatus::Unknown);
}

#[test]
fn update_archive_of_an_unknown_key_is_not_found_and_changes_nothing() {
    let tmp = TempDir::new().unwrap();
    let sut = ModListStore::new(setup(&tmp));
    let mut doc = ModList::empty();
    sut.add_archive(&mut doc, &test_mod(), archive(2, FileStatus::Downloading, None));

    let result = sut.update_archive(&mut doc, 1, 5, ArchiveUpdate::status(FileStatus::Downloaded));

    assert_eq!(result.unwrap_err().kind, ErrorKind::NotFound);
    assert_eq!(sut.get_archive_status(&doc, 1, 2), FileStatus::Downloading);
}

#[test]
fn an_installed_archive_never_changes_status() {
    let tmp = TempDir::new().unwrap();
    let sut = ModListStore::new(setup(&tmp));
    let mut doc = ModList::empty();
    sut.add_archive(&mut doc, &test_mod(), archive(2, FileStatus::Installed, None));

    let failed = sut.update_archive(
        &mut doc,
        1,
        2,
        ArchiveUpdate::status(FileStatus::Failed("interrupted".to_string())),
    );
    sut.add_archive(&mut doc, &test_mod(), archive(2, FileStatus::Downloading, None));

    assert_eq!(failed.unwrap_err().kind, ErrorKind::Precondition);
    assert_eq!(sut.get_archive_status(&doc, 1, 2), FileStatus::Installed);
}

#[test]
fn stage_archive_moves_the_download_into_staging_and_marks_it_downloaded() {
    let tmp = TempDir::new().unwrap();
    let ws = setup(&tmp);
    let sut = ModListStore::new(ws.clone());
    let mut doc = ModList::empty();
    let downloaded = archive(2, FileStatus::Downloading, Some("/cache/test.7z"));
    sut.add_archive(&mut doc, &test_mod(), downloaded.clone());

    let mv = sut.stage_archive(&mut doc, &test_mod(), &downloaded).unwrap();

    let expected = Path::new(&ws.staging_dir()).join("1").join("archives").join("test.7z");
    assert_eq!(mv.from, "/cache/test.7z");
    assert_eq!(mv.to, expected.to_string_lossy());
    assert_eq!(mv.dir, expected.parent().unwrap().to_string_lossy());
    assert_eq!(doc.mods[0].archives[0].status, FileStatus::Downloaded);
    assert_eq!(doc.mods[0].archives[0].archive_path, Some(mv.to.clone()));
}

#[test]
fn stage_archive_without_a_path_is_refused() {
    let tmp = TempDir::new().unwrap();
    let sut = ModListStore::new(setup(&tmp));
    let mut doc = ModList::empty();
    let never_downloaded = archive(2, FileStatus::Downloading, None);
    sut.add_archive(&mut doc, &test_mod(), never_downloaded.clone());

    let result = sut.stage_archive(&mut doc, &test_mod(), &never_downloaded);

    assert_eq!(result.unwrap_err().kind, ErrorKind::Precondition);
    assert_eq!(doc.mods[0].archives[0].status, FileStatus::Downloading);
}

#[test]
fn install_archive_marks_installed_and_clears_the_path() {
    let tmp = TempDir::new().unwrap();
    let sut = ModListStore::new(setup(&tmp));
    let mut doc = ModList::empty();
    let staged = archive(2, FileStatus::Downloaded, Some("/staging/1/archives/test.7z"));
    sut.add_archive(&mut doc, &test_mod(), staged.clone());

    let removed = sut.install_archive(&Extractor { fail: false }, &mut doc, &test_mod(), &staged).unwrap();

    assert_eq!(removed, "/staging/1/archives/test.7z");
    assert_eq!(doc.mods[0].archives[0].status, FileStatus::Installed);
    assert_eq!(doc.mods[0].archives[0].archive_path, None);
}

#[test]
fn install_archive_that_fails_to_extract_keeps_its_status() {
    let tmp = TempDir::new().unwrap();
    let sut = ModListStore::new(setup(&tmp));
    let mut doc = ModList::empty();
    let staged = archive(2, FileStatus::Downloaded, Some("/staging/1/archives/test.7z"));
    sut.add_archive(&mut doc, &test_mod(), staged.clone());

    let result = sut.install_archive(&Extractor { fail: true }, &mut doc, &test_mod(), &staged);

    assert_eq!(result.unwrap_err().kind, ErrorKind::Unsupported);
    assert_eq!(doc.mods[0].archives[0].status, FileStatus::Downloaded);
}

#[test]
fn update_archive_can_replace_and_clear_the_path() {
    let tmp = TempDir::new().unwrap();
    let sut = ModListStore::new(setup(&tmp));
    let mut doc = ModList::empty();
    sut.add_archive(&mut doc, &test_mod(), archive(2, FileStatus::Downloading, None));

    sut.update_archive(
        &mut doc,
        1,
        2,
        ArchiveUpdate { status: FileStatus::Downloaded, path: PathUpdate::Replace("/a".to_string()) },
    )
    .unwrap();
    assert_eq!(doc.mods[0].archives[0].archive_path, Some("/a".to_string()));

    sut.update_archive(&mut doc, 1, 2, ArchiveUpdate { status: FileStatus::Installed, path: PathUpdate::Clear })
        .unwrap();
    assert_eq!(doc.mods[0].archives[0].archive_path, None);
    assert_eq!(doc.mods[0].archives[0].status.describe(), "Installed");
}

#[test]
fn plan_download_refuses_a_second_download_and_retries_a_failed_one() {
    let tmp = TempDir::new().unwrap();
    let ws = setup(&tmp);
    let sut = ModListStore::new(ws.clone());
    let mut doc = ModList::empty();

    let plan = sut.plan_download(&doc, &test_mod(), archive(2, FileStatus::Unknown, None));
    let started = match plan {
        DownloadPlan::Start(a) => a,
        other => panic!("unexpected plan {:?}", other),
    };
    assert_eq!(started.status, FileStatus::Downloading);
    assert_eq!(started.archive_path, Some(sut.archive_download_dest("test.7z")));
    sut.add_archive(&mut doc, &test_mod(), started);

    assert!(matches!(
        sut.plan_download(&doc, &test_mod(), archive(2, FileStatus::Unknown, None)),
        DownloadPlan::AlreadyDownloading
    ));
    sut.update_archive(&mut doc, 1, 2, ArchiveUpdate::status(FileStatus::Failed("timeout".to_string()))).unwrap();
    assert!(matches!(
        sut.plan_download(&doc, &test_mod(), archive(2, FileStatus::Unknown, None)),
        DownloadPlan::Start(_)
    ));
    sut.update_archive(&mut doc, 1, 2, ArchiveUpdate::status(FileStatus::Installed)).unwrap();
    assert!(matches!(
        sut.plan_download(&doc, &test_mod(), archive(2, FileStatus::Unknown, None)),
        DownloadPlan::AlreadyInstalled
    ));
}

#[test]
fn installable_mods_keep_only_downloaded_archives() {
    let tmp = TempDir::new().unwrap();
    let sut = ModListStore::new(setup(&tmp));
    let mut doc = ModList::empty();
    sut.add_archive(&mut doc, &test_mod(), archive(2, FileStatus::Downloaded, Some("/s/a")));
    sut.add_archive(&mut doc, &test_mod(), archive(3, FileStatus::Installed, None));
    sut.add_archive(&mut doc, &test_mod(), archive(4, FileStatus::Downloaded, Some("/s/b")));
    let other = Mod { uid: 5, name: "Other".to_string(), archives: vec![] };
    sut.add_archive(&mut doc, &other, archive(6, FileStatus::Downloading, None));

    let mods = sut.installable_mods(&doc);

    assert_eq!(mods.len(), 1);
    assert_eq!(mods[0].uid, 1);
    assert_eq!(mods[0].archives.iter().map(|a| a.file_uid).collect::<Vec<_>>(), vec![2, 4]);
}

#[test]
fn a_finished_download_is_staged_and_a_failed_one_recorded() {
    let tmp = TempDir::new().unwrap();
    let ws = setup(&tmp);
    let sut = ModListStore::new(ws.clone());
    let mut doc = ModList::default();
    let cached = format!("{}/test.7z", ws.cache_dir());
    let done = archive(2, FileStatus::Downloading, Some(&cached));
    sut.add_archive(&mut doc, &test_mod(), done.clone());
    sut.add_archive(&mut doc, &test_mod(), archive(3, FileStatus::Downloading, Some(&cached)));

    let mv = sut.finish_download(&mut doc, &test_mod(), &done, None).unwrap().unwrap();
    assert_eq!(mv.from, cached);
    assert_eq!(mv.to, format!("{}/staging/1/archives/test.7z", ws.work_dir()));
    assert_eq!(sut.get_archive_status(&doc, 1, 2), FileStatus::Downloaded);

    let failed = archive(3, FileStatus::Downloading, Some(&cached));
    let none = sut.finish_download(&mut doc, &test_mod(), &failed, Some("timed out".to_string())).unwrap();
    assert!(none.is_none());
    assert_eq!(sut.get_archive_status(&doc, 1, 3), FileStatus::Failed("timed out".to_string()));

    let unknown = archive(9, FileStatus::Downloading, Some(&cached));
    assert_eq!(sut.finish_download(&mut doc, &test_mod(), &unknown, None).unwrap_err().kind, ErrorKind::NotFound);
}

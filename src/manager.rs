use vstd::prelude::*;

use crate::error::MomaError;
use crate::mod_list_store::{
    ArchiveUpdate, ModListStore, PathChange, UpdateView, has_entry, update_accepted, updated, with_archive,
};
use crate::text::{join, joined};
use crate::types::{ArchiveView, FileStatus, Mod, ModArchive, ModList, ModView, StatusView};
use crate::workspace::{Workspace, cache_of};

verus! {

/// Whether some mod holds an archive of this file uid that is not downloading.
pub open spec fn archive_present(doc: Seq<ModView>, file_uid: u64) -> bool {
    exists|i: int, k: int|
        0 <= i < doc.len() && 0 <= k < doc[i].archives.len() && doc[i].archives[k].file_uid == file_uid
            && doc[i].archives[k].status != StatusView::Downloading
}

/// The user's stored environment variables of a workspace.
#[derive(Debug)]
pub struct EnvStore {
    workspace: Workspace,
}

impl EnvStore {
    pub closed spec fn root(&self) -> Seq<char> {
        self.workspace.root_view()
    }

    pub fn new(workspace: Workspace) -> (r: EnvStore)
        ensures
            r.root() == workspace.root_view(),
    {
        EnvStore { workspace }
    }

    /// The file that holds the variables.
    pub fn env_file(&self) -> (r: String)
        ensures
            r@ == joined(self.root(), "user-env.json"@),
    {
        join(self.workspace.work_dir().as_str(), "user-env.json")
    }
}

/// Status bookkeeping of archives over the document of mods.
#[derive(Debug)]
pub struct Manager {
    workspace: Workspace,
    store: ModListStore,
}

impl Manager {
    pub closed spec fn root(&self) -> Seq<char> {
        self.workspace.root_view()
    }

    pub fn new(workspace: Workspace) -> (r: Manager)
        ensures
            r.root() == workspace.root_view(),
    {
        let store = ModListStore::new(workspace.clone());
        Manager { workspace, store }
    }

    /// Where downloads are written.
    pub fn get_cache_path(&self) -> (r: String)
        ensures
            r@ == cache_of(self.root()),
    {
        self.workspace.cache_dir()
    }

    /// Whether an archive of `file_uid` is known and no longer downloading.
    pub fn is_archive_present(&self, mod_list: &ModList, file_uid: u64) -> (r: bool)
        ensures
            r == archive_present(mod_list@, file_uid),
    {
        let mut i: usize = 0;
        while i < mod_list.mods.len()
            invariant
                i <= mod_list@.len(),
                forall|i2: int, k: int|
                    0 <= i2 < i && 0 <= k < mod_list@[i2].archives.len() ==> !(mod_list@[i2].archives[k].file_uid
                        == file_uid && mod_list@[i2].archives[k].status != StatusView::Downloading),
            decreases mod_list@.len() - i,
        {
            let m = &mod_list.mods[i];
            let ghost mv = mod_list@[i as int];
            assert(mv.archives == m.archives@.map_values(|a: ModArchive| a@));
            let mut k: usize = 0;
            while k < m.archives.len()
                invariant
                    i < mod_list@.len(),
                    k <= m.archives@.len(),
                    mv == mod_list@[i as int],
                    mv.archives == m.archives@.map_values(|a: ModArchive| a@),
                    forall|i2: int, k2: int|
                        0 <= i2 < i && 0 <= k2 < mod_list@[i2].archives.len() ==> !(
                        mod_list@[i2].archives[k2].file_uid == file_uid
                            && mod_list@[i2].archives[k2].status != StatusView::Downloading),
                    forall|k2: int|
                        0 <= k2 < k ==> !(mv.archives[k2].file_uid == file_uid && mv.archives[k2].status
                            != StatusView::Downloading),
                decreases m.archives@.len() - k,
            {
                assert(mv.archives[k as int] == m.archives@[k as int]@);
                if m.archives[k].file_uid == file_uid && !m.archives[k].status.is_downloading() {
                    assert(mod_list@[i as int].archives[k as int].file_uid == file_uid);
                    return true;
                }
                k = k + 1;
            }
            i = i + 1;
        }
        false
    }

    /// Records `status` for `archive` of `mod_info`: the archive's status is
    /// updated when the document has it (an installed archive keeps its
    /// status, as `update_archive` refuses the change), and the archive is
    /// added with that status otherwise.
    pub fn mark_archive_status(&self, mod_list: &mut ModList, mod_info: &Mod, archive: &ModArchive, status: FileStatus) -> (r:
        Result<(), MomaError>)
        ensures
            has_entry(old(mod_list)@, mod_info.uid, archive.file_uid) ==> {
                &&& (r is Ok <==> update_accepted(
                    old(mod_list)@,
                    mod_info.uid,
                    archive.file_uid,
                    UpdateView { status: status@, path: PathChange::Keep },
                ))
                &&& r is Ok ==> final(mod_list)@ == updated(
                    old(mod_list)@,
                    mod_info.uid,
                    archive.file_uid,
                    UpdateView { status: status@, path: PathChange::Keep },
                )
                &&& r is Err ==> final(mod_list)@ == old(mod_list)@
            },
            !has_entry(old(mod_list)@, mod_info.uid, archive.file_uid) ==> r is Ok && final(mod_list)@
                == with_archive(
                old(mod_list)@,
                mod_info.uid,
                mod_info.name@,
                ArchiveView { status: status@, ..archive@ },
            ),
    {
        if self.store.has_archive_entry(mod_list, mod_info.uid, archive.file_uid) {
            self.store.update_archive(mod_list, mod_info.uid, archive.file_uid, ArchiveUpdate::status(status))
        } else {
            let mut added = archive.clone();
            added.status = status;
            self.store.add_archive(mod_list, mod_info, added);
            Ok(())
        }
    }
}

} // verus!

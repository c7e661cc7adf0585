use vstd::prelude::*;

use crate::error::{ErrorKind, MomaError};
use crate::system::{FileSystem, extraction_of};
use crate::text::{join, joined};
use crate::types::{ArchiveView, FileStatus, Mod, ModArchive, ModList, ModView, StatusView, opt_view};
use crate::workspace::{Workspace, cache_of, installed_mod_of, mod_list_file_of, staged_archives_of};

verus! {

// ---- the document as a mathematical value ----

/// Whether `i` is the first position of a mod with this uid.
pub open spec fn is_first_mod(doc: Seq<ModView>, mod_uid: u64, i: int) -> bool {
    &&& 0 <= i < doc.len()
    &&& doc[i].uid == mod_uid
    &&& forall|j: int| 0 <= j < i ==> doc[j].uid != mod_uid
}

pub open spec fn has_mod(doc: Seq<ModView>, mod_uid: u64) -> bool {
    exists|i: int| 0 <= i < doc.len() && doc[i].uid == mod_uid
}

/// Whether `k` is the first position of an archive with this file uid.
pub open spec fn is_first_archive(archives: Seq<ArchiveView>, file_uid: u64, k: int) -> bool {
    &&& 0 <= k < archives.len()
    &&& archives[k].file_uid == file_uid
    &&& forall|j: int| 0 <= j < k ==> archives[j].file_uid != file_uid
}

pub open spec fn has_archive(archives: Seq<ArchiveView>, file_uid: u64) -> bool {
    exists|k: int| 0 <= k < archives.len() && archives[k].file_uid == file_uid
}

/// The archive `(mod_uid, file_uid)` resolves to: the first archive of that
/// file uid in the first mod of that uid.
pub open spec fn locates(doc: Seq<ModView>, mod_uid: u64, file_uid: u64, i: int, k: int) -> bool {
    is_first_mod(doc, mod_uid, i) && is_first_archive(doc[i].archives, file_uid, k)
}

pub open spec fn has_entry(doc: Seq<ModView>, mod_uid: u64, file_uid: u64) -> bool {
    exists|i: int, k: int| locates(doc, mod_uid, file_uid, i, k)
}

/// The status recorded for an archive, `Unknown` when the key does not resolve.
pub open spec fn status_of(doc: Seq<ModView>, mod_uid: u64, file_uid: u64) -> StatusView {
    if has_entry(doc, mod_uid, file_uid) {
        let (i, k) = choose|i: int, k: int| locates(doc, mod_uid, file_uid, i, k);
        doc[i].archives[k].status
    } else {
        StatusView::Unknown
    }
}

/// The document after adding `archive` under the mod `mod_uid`: the mod is
/// created (named `mod_name`) when new; nothing changes when the mod already
/// has an archive of that file uid.
pub open spec fn with_archive(
    doc: Seq<ModView>,
    mod_uid: u64,
    mod_name: Seq<char>,
    archive: ArchiveView,
) -> Seq<ModView> {
    if has_mod(doc, mod_uid) {
        let i = choose|i: int| is_first_mod(doc, mod_uid, i);
        if has_archive(doc[i].archives, archive.file_uid) {
            doc
        } else {
            doc.update(i, ModView { archives: doc[i].archives.push(archive), ..doc[i] })
        }
    } else {
        doc.push(ModView { uid: mod_uid, name: mod_name, archives: seq![archive] })
    }
}

/// How an update treats the archive's path.
pub enum PathChange {
    Keep,
    Replace(Seq<char>),
    Clear,
}

pub struct UpdateView {
    pub status: StatusView,
    pub path: PathChange,
}

pub open spec fn apply_update(a: ArchiveView, u: UpdateView) -> ArchiveView {
    ArchiveView {
        status: u.status,
        archive_path: match u.path {
            PathChange::Keep => a.archive_path,
            PathChange::Replace(p) => Some(p),
            PathChange::Clear => None,
        },
        ..a
    }
}

/// Whether the store carries out update `u` of `(mod_uid, file_uid)`: the key
/// resolves, and an installed archive is never moved to another status.
pub open spec fn update_accepted(doc: Seq<ModView>, mod_uid: u64, file_uid: u64, u: UpdateView) -> bool {
    has_entry(doc, mod_uid, file_uid) && !(status_of(doc, mod_uid, file_uid) == StatusView::Installed
        && u.status != StatusView::Installed)
}

/// The document after update `u` of the archive the key resolves to.
pub open spec fn updated(doc: Seq<ModView>, mod_uid: u64, file_uid: u64, u: UpdateView) -> Seq<ModView> {
    let (i, k) = choose|i: int, k: int| locates(doc, mod_uid, file_uid, i, k);
    doc.update(
        i,
        ModView { archives: doc[i].archives.update(k, apply_update(doc[i].archives[k], u)), ..doc[i] },
    )
}

/// The downloaded archives among `archives`, in order.
pub open spec fn downloaded_only(archives: Seq<ArchiveView>) -> Seq<ArchiveView>
    decreases archives.len(),
{
    if archives.len() == 0 {
        Seq::empty()
    } else if archives.last().status == StatusView::Downloaded {
        downloaded_only(archives.drop_last()).push(archives.last())
    } else {
        downloaded_only(archives.drop_last())
    }
}

/// The mods that have downloaded archives waiting, each with those archives only.
pub open spec fn installable(doc: Seq<ModView>) -> Seq<ModView>
    decreases doc.len(),
{
    if doc.len() == 0 {
        Seq::empty()
    } else if downloaded_only(doc.last().archives).len() > 0 {
        installable(doc.drop_last()).push(
            ModView { archives: downloaded_only(doc.last().archives), ..doc.last() },
        )
    } else {
        installable(doc.drop_last())
    }
}

// ---- lemmas on the model ----

pub proof fn lemma_first_mod_unique(doc: Seq<ModView>, mod_uid: u64, i: int, j: int)
    requires
        is_first_mod(doc, mod_uid, i),
        is_first_mod(doc, mod_uid, j),
    ensures
        i == j,
{
}

pub proof fn lemma_first_archive_unique(archives: Seq<ArchiveView>, file_uid: u64, k: int, l: int)
    requires
        is_first_archive(archives, file_uid, k),
        is_first_archive(archives, file_uid, l),
    ensures
        k == l,
{
}

/// The status of a key that resolves is that of the archive it resolves to.
pub proof fn lemma_status_at(doc: Seq<ModView>, mod_uid: u64, file_uid: u64, i: int, k: int)
    requires
        locates(doc, mod_uid, file_uid, i, k),
    ensures
        has_entry(doc, mod_uid, file_uid),
        status_of(doc, mod_uid, file_uid) == doc[i].archives[k].status,
{
    let (i2, k2) = choose|i2: int, k2: int| locates(doc, mod_uid, file_uid, i2, k2);
    lemma_first_mod_unique(doc, mod_uid, i, i2);
    lemma_first_archive_unique(doc[i].archives, file_uid, k, k2);
}

/// Two documents with the same uids in the same places resolve every key to the same places.
pub proof fn lemma_same_keys_locate(
    a: Seq<ModView>,
    b: Seq<ModView>,
    mod_uid: u64,
    file_uid: u64,
    i: int,
    k: int,
)
    requires
        a.len() == b.len(),
        forall|j: int| 0 <= j < a.len() ==> #[trigger] a[j].uid == b[j].uid,
        0 <= i < a.len() ==> a[i].archives.len() == b[i].archives.len(),
        0 <= i < a.len() ==> forall|l: int|
            0 <= l < a[i].archives.len() ==> #[trigger] a[i].archives[l].file_uid
                == b[i].archives[l].file_uid,
    ensures
        locates(a, mod_uid, file_uid, i, k) <==> locates(b, mod_uid, file_uid, i, k),
{
    if locates(a, mod_uid, file_uid, i, k) {
        assert forall|j: int| 0 <= j < i implies b[j].uid != mod_uid by {
            assert(a[j].uid == b[j].uid);
        }
        assert forall|l: int| 0 <= l < k implies b[i].archives[l].file_uid != file_uid by {
            assert(a[i].archives[l].file_uid == b[i].archives[l].file_uid);
        }
    }
    if locates(b, mod_uid, file_uid, i, k) {
        assert forall|j: int| 0 <= j < i implies a[j].uid != mod_uid by {
            assert(a[j].uid == b[j].uid);
        }
        assert forall|l: int| 0 <= l < k implies a[i].archives[l].file_uid != file_uid by {
            assert(a[i].archives[l].file_uid == b[i].archives[l].file_uid);
        }
    }
}

/// An update changes the status of the key it is for and of no other key.
pub proof fn lemma_update_status(
    doc: Seq<ModView>,
    mod_uid: u64,
    file_uid: u64,
    u: UpdateView,
    m: u64,
    f: u64,
)
    requires
        has_entry(doc, mod_uid, file_uid),
    ensures
        status_of(updated(doc, mod_uid, file_uid, u), m, f) == (if m == mod_uid && f == file_uid {
            u.status
        } else {
            status_of(doc, m, f)
        }),
{
    let (i, k) = choose|i: int, k: int| locates(doc, mod_uid, file_uid, i, k);
    let new = updated(doc, mod_uid, file_uid, u);
    assert forall|i2: int, k2: int| #[trigger] locates(doc, m, f, i2, k2) <==> locates(new, m, f, i2, k2) by {
        lemma_same_keys_locate(doc, new, m, f, i2, k2);
    }
    if has_entry(doc, m, f) {
        let (i2, k2) = choose|i2: int, k2: int| locates(doc, m, f, i2, k2);
        lemma_status_at(doc, m, f, i2, k2);
        lemma_status_at(new, m, f, i2, k2);
        if m == mod_uid && f == file_uid {
            lemma_first_mod_unique(doc, m, i, i2);
            lemma_first_archive_unique(doc[i].archives, f, k, k2);
        } else if i2 == i && k2 == k {
            assert(false);
        }
    } else {
        assert forall|i2: int, k2: int| !locates(new, m, f, i2, k2) by {
            lemma_same_keys_locate(doc, new, m, f, i2, k2);
        }
    }
}

/// Adding an archive changes the status of no key that already resolves.
pub proof fn lemma_add_keeps_status(
    doc: Seq<ModView>,
    mod_uid: u64,
    mod_name: Seq<char>,
    archive: ArchiveView,
    m: u64,
    f: u64,
)
    requires
        has_entry(doc, m, f),
    ensures
        status_of(with_archive(doc, mod_uid, mod_name, archive), m, f) == status_of(doc, m, f),
{
    let new = with_archive(doc, mod_uid, mod_name, archive);
    let (i2, k2) = choose|i2: int, k2: int| locates(doc, m, f, i2, k2);
    lemma_status_at(doc, m, f, i2, k2);
    if has_mod(doc, mod_uid) {
        lemma_has_mod_first(doc, mod_uid);
        let i = choose|i: int| is_first_mod(doc, mod_uid, i);
        if !has_archive(doc[i].archives, archive.file_uid) {
            assert forall|j: int| 0 <= j < i2 implies new[j].uid != m by {
                assert(new[j].uid == doc[j].uid);
            }
            assert(new[i2].uid == doc[i2].uid);
            assert forall|l: int| 0 <= l < k2 implies new[i2].archives[l].file_uid != f by {
                assert(new[i2].archives[l] == doc[i2].archives[l]);
            }
            assert(new[i2].archives[k2] == doc[i2].archives[k2]);
            assert(locates(new, m, f, i2, k2));
            lemma_status_at(new, m, f, i2, k2);
        }
    } else {
        assert forall|j: int| 0 <= j < i2 implies new[j].uid != m by {
            assert(new[j] == doc[j]);
        }
        assert(new[i2] == doc[i2]);
        assert(locates(new, m, f, i2, k2));
        lemma_status_at(new, m, f, i2, k2);
    }
}

/// A mod uid that occurs has a first position.
pub proof fn lemma_has_mod_first(doc: Seq<ModView>, mod_uid: u64)
    requires
        has_mod(doc, mod_uid),
    ensures
        exists|i: int| is_first_mod(doc, mod_uid, i),
{
    let w = choose|w: int| 0 <= w < doc.len() && doc[w].uid == mod_uid;
    lemma_first_mod_below(doc, mod_uid, w);
}

proof fn lemma_first_mod_below(doc: Seq<ModView>, mod_uid: u64, w: int)
    requires
        0 <= w < doc.len(),
        doc[w].uid == mod_uid,
    ensures
        exists|i: int| is_first_mod(doc, mod_uid, i),
    decreases w,
{
    if exists|j: int| 0 <= j < w && doc[j].uid == mod_uid {
        let j = choose|j: int| 0 <= j < w && doc[j].uid == mod_uid;
        lemma_first_mod_below(doc, mod_uid, j);
    } else {
        assert(is_first_mod(doc, mod_uid, w));
    }
}

/// A key that was never added resolves to nothing, and its status is `Unknown`.
pub proof fn lemma_unknown_key(doc: Seq<ModView>, mod_uid: u64, file_uid: u64)
    requires
        !has_entry(doc, mod_uid, file_uid),
    ensures
        status_of(doc, mod_uid, file_uid) == StatusView::Unknown,
{
}

/// Once an archive is installed, neither adding an archive nor any update
/// that the store accepts moves it to another status.
pub proof fn lemma_installed_is_terminal(
    doc: Seq<ModView>,
    m: u64,
    f: u64,
    add_mod_uid: u64,
    add_mod_name: Seq<char>,
    add: ArchiveView,
    upd_mod_uid: u64,
    upd_file_uid: u64,
    u: UpdateView,
)
    requires
        status_of(doc, m, f) == StatusView::Installed,
    ensures
        status_of(with_archive(doc, add_mod_uid, add_mod_name, add), m, f) == StatusView::Installed,
        update_accepted(doc, upd_mod_uid, upd_file_uid, u) ==> status_of(
            updated(doc, upd_mod_uid, upd_file_uid, u),
            m,
            f,
        ) == StatusView::Installed,
{
    assert(has_entry(doc, m, f));
    lemma_add_keeps_status(doc, add_mod_uid, add_mod_name, add, m, f);
    if update_accepted(doc, upd_mod_uid, upd_file_uid, u) {
        lemma_update_status(doc, upd_mod_uid, upd_file_uid, u, m, f);
    }
}

// ---- executable store ----

/// What reading the document from disk came to.
#[derive(Debug)]
pub enum DocumentRead {
    /// No document exists yet.
    Missing,
    /// The document exists but could not be read.
    Unreadable(String),
    /// The document was read but is not a valid mod list.
    Unparsable(String),
    /// The document was read and parsed.
    Parsed(ModList),
}

/// The path part of an update.
#[derive(Debug)]
pub enum PathUpdate {
    Keep,
    Replace(String),
    Clear,
}

/// A change to one archive: its new status and what becomes of its path.
#[derive(Debug)]
pub struct ArchiveUpdate {
    pub status: FileStatus,
    pub path: PathUpdate,
}

impl View for ArchiveUpdate {
    type V = UpdateView;

    open spec fn view(&self) -> UpdateView {
        UpdateView {
            status: self.status@,
            path: match self.path {
                PathUpdate::Keep => PathChange::Keep,
                PathUpdate::Replace(p) => PathChange::Replace(p@),
                PathUpdate::Clear => PathChange::Clear,
            },
        }
    }
}

impl ArchiveUpdate {
    /// Changes the status alone.
    pub fn status(status: FileStatus) -> (r: ArchiveUpdate)
        ensures
            r@ == (UpdateView { status: status@, path: PathChange::Keep }),
    {
        ArchiveUpdate { status, path: PathUpdate::Keep }
    }
}

/// What to do with a request to download an archive, given what the
/// document already records of it.
#[derive(Debug)]
pub enum DownloadPlan {
    AlreadyDownloading,
    AlreadyDownloaded,
    AlreadyInstalled,
    /// Start the download, recording the archive as this entry.
    Start(ModArchive),
}

/// A file move the caller carries out: `from` goes to `to`, inside `dir`.
#[derive(Debug)]
pub struct ArchiveMove {
    pub from: String,
    pub to: String,
    pub dir: String,
}

fn find_mod(mods: &Vec<Mod>, mod_uid: u64) -> (r: Option<usize>)
    ensures
        match r {
            Some(i) => is_first_mod(mods@.map_values(|m: Mod| m@), mod_uid, i as int),
            None => !has_mod(mods@.map_values(|m: Mod| m@), mod_uid),
        },
{
    let ghost view = mods@.map_values(|m: Mod| m@);
    let mut i: usize = 0;
    while i < mods.len()
        invariant
            i <= mods@.len(),
            view == mods@.map_values(|m: Mod| m@),
            forall|j: int| 0 <= j < i ==> view[j].uid != mod_uid,
        decreases mods@.len() - i,
    {
        if mods[i].uid == mod_uid {
            return Some(i);
        }
        i = i + 1;
    }
    None
}

fn find_archive(archives: &Vec<ModArchive>, file_uid: u64) -> (r: Option<usize>)
    ensures
        match r {
            Some(k) => is_first_archive(archives@.map_values(|a: ModArchive| a@), file_uid, k as int),
            None => !has_archive(archives@.map_values(|a: ModArchive| a@), file_uid),
        },
{
    let ghost view = archives@.map_values(|a: ModArchive| a@);
    let mut k: usize = 0;
    while k < archives.len()
        invariant
            k <= archives@.len(),
            view == archives@.map_values(|a: ModArchive| a@),
            forall|j: int| 0 <= j < k ==> view[j].file_uid != file_uid,
        decreases archives@.len() - k,
    {
        if archives[k].file_uid == file_uid {
            return Some(k);
        }
        k = k + 1;
    }
    None
}

/// Where `(mod_uid, file_uid)` resolves in the document, if anywhere.
fn locate(doc: &ModList, mod_uid: u64, file_uid: u64) -> (r: Option<(usize, usize)>)
    ensures
        match r {
            Some((i, k)) => locates(doc@, mod_uid, file_uid, i as int, k as int),
            None => !has_entry(doc@, mod_uid, file_uid),
        },
{
    match find_mod(&doc.mods, mod_uid) {
        Some(i) => {
            assert(doc@[i as int].archives == doc.mods@[i as int].archives@.map_values(
                |a: ModArchive| a@,
            ));
            match find_archive(&doc.mods[i].archives, file_uid) {
                Some(k) => Some((i, k)),
                None => {
                    assert forall|i2: int, k2: int| !locates(doc@, mod_uid, file_uid, i2, k2) by {
                        if locates(doc@, mod_uid, file_uid, i2, k2) {
                            lemma_first_mod_unique(doc@, mod_uid, i as int, i2);
                        }
                    }
                    None
                },
            }
        },
        None => None,
    }
}

/// The single source of truth for archive status: every change to the
/// document of mods goes through it.
#[derive(Debug)]
pub struct ModListStore {
    workspace: Workspace,
}

impl Clone for ModListStore {
    fn clone(&self) -> (r: Self)
        ensures
            r.root() == self.root(),
    {
        ModListStore { workspace: self.workspace.clone() }
    }
}

impl ModListStore {
    pub closed spec fn root(&self) -> Seq<char> {
        self.workspace.root_view()
    }

    pub fn new(workspace: Workspace) -> (r: ModListStore)
        ensures
            r.root() == workspace.root_view(),
    {
        ModListStore { workspace }
    }

    /// Where a download of `file_name` is written.
    pub fn archive_download_dest(&self, file_name: &str) -> (r: String)
        ensures
            r@ == joined(cache_of(self.root()), file_name@),
    {
        join(self.workspace.cache_dir().as_str(), file_name)
    }

    /// Where the document lives.
    pub fn document_path(&self) -> (r: String)
        ensures
            r@ == mod_list_file_of(self.root()),
    {
        self.workspace.mod_list_file()
    }

    /// The document, given what reading it from disk came to: an absent
    /// document is an empty one; an unreadable one is `Io`; one that does not
    /// parse is `Corrupt`, never silently empty.
    pub fn read(&self, loaded: DocumentRead) -> (r: Result<ModList, MomaError>)
        ensures
            match loaded {
                DocumentRead::Missing => r matches Ok(d) && d@ == Seq::<ModView>::empty(),
                DocumentRead::Unreadable(_) => r matches Err(e) && e.kind == ErrorKind::Io,
                DocumentRead::Unparsable(_) => r matches Err(e) && e.kind == ErrorKind::Corrupt,
                DocumentRead::Parsed(d) => r matches Ok(d2) && d2@ == d@,
            },
    {
        match loaded {
            DocumentRead::Missing => Ok(ModList::empty()),
            DocumentRead::Unreadable(message) => Err(MomaError { kind: ErrorKind::Io, message }),
            DocumentRead::Unparsable(message) => Err(MomaError { kind: ErrorKind::Corrupt, message }),
            DocumentRead::Parsed(doc) => Ok(doc),
        }
    }

    /// Adds `archive` under the mod of `mod_to_add_to`, creating the mod when
    /// new; an archive of the same file uid already under the mod is kept and
    /// nothing is added.
    pub fn add_archive(&self, mod_list: &mut ModList, mod_to_add_to: &Mod, archive: ModArchive)
        ensures
            final(mod_list)@ == with_archive(
                old(mod_list)@,
                mod_to_add_to.uid,
                mod_to_add_to.name@,
                archive@,
            ),
    {
        let ghost before = mod_list@;
        let ghost added = archive@;
        match find_mod(&mod_list.mods, mod_to_add_to.uid) {
            Some(i) => {
                assert(before[i as int].archives == mod_list.mods@[i as int].archives@.map_values(
                    |a: ModArchive| a@,
                ));
                proof {
                    let i2 = choose|i2: int| is_first_mod(before, mod_to_add_to.uid, i2);
                    lemma_first_mod_unique(before, mod_to_add_to.uid, i as int, i2);
                }
                match find_archive(&mod_list.mods[i].archives, archive.file_uid) {
                    Some(_) => {},
                    None => {
                        let mut existing = mod_list.mods.remove(i);
                        let ghost old_archives = existing.archives@;
                        existing.archives.push(archive);
                        assert(existing.archives@.map_values(|a: ModArchive| a@) =~= old_archives.map_values(
                            |a: ModArchive| a@,
                        ).push(added));
                        mod_list.mods.insert(i, existing);
                        assert(mod_list@ =~= before.update(
                            i as int,
                            ModView { archives: before[i as int].archives.push(added), ..before[i as int] },
                        ));
                    },
                }
            },
            None => {
                let created = Mod {
                    uid: mod_to_add_to.uid,
                    name: mod_to_add_to.name.clone(),
                    archives: vec![archive],
                };
                assert(created.archives@.map_values(|a: ModArchive| a@) =~= seq![added]);
                mod_list.mods.push(created);
                assert(mod_list@ =~= before.push(
                    ModView { uid: mod_to_add_to.uid, name: mod_to_add_to.name@, archives: seq![added] },
                ));
            },
        }
    }

    /// Applies `update` to the archive `(mod_uid, file_uid)`: `NotFound` when
    /// the key does not resolve, `Precondition` when it would move an
    /// installed archive to another status; the document is unchanged on error.
    pub fn update_archive(&self, mod_list: &mut ModList, mod_uid: u64, file_uid: u64, update: ArchiveUpdate) -> (r:
        Result<(), MomaError>)
        ensures
            r is Ok <==> update_accepted(old(mod_list)@, mod_uid, file_uid, update@),
            r is Ok ==> final(mod_list)@ == updated(old(mod_list)@, mod_uid, file_uid, update@),
            r is Err ==> final(mod_list)@ == old(mod_list)@,
            r matches Err(e) ==> (e.kind == ErrorKind::NotFound <==> !has_entry(
                old(mod_list)@,
                mod_uid,
                file_uid,
            )),
            r matches Err(e) ==> (e.kind == ErrorKind::NotFound || e.kind == ErrorKind::Precondition),
    {
        let ghost before = mod_list@;
        let ghost u = update@;
        match locate(mod_list, mod_uid, file_uid) {
            None => Err(MomaError::new(ErrorKind::NotFound, "Archive not found under this mod")),
            Some((i, k)) => {
                proof {
                    lemma_status_at(before, mod_uid, file_uid, i as int, k as int);
                    assert(before[i as int].archives == mod_list.mods@[i as int].archives@.map_values(
                        |a: ModArchive| a@,
                    ));
                }
                if mod_list.mods[i].archives[k].status.is_installed() && !update.status.is_installed() {
                    return Err(
                        MomaError::new(ErrorKind::Precondition, "An installed archive cannot change status"),
                    );
                }
                let mut entry = mod_list.mods.remove(i);
                let ghost old_archives = entry.archives@;
                let mut archive = entry.archives.remove(k);
                archive.status = update.status;
                match update.path {
                    PathUpdate::Keep => {},
                    PathUpdate::Replace(p) => {
                        archive.archive_path = Some(p);
                    },
                    PathUpdate::Clear => {
                        archive.archive_path = None;
                    },
                }
                let ghost new_archive = archive@;
                entry.archives.insert(k, archive);
                assert(entry.archives@.map_values(|a: ModArchive| a@) =~= old_archives.map_values(
                    |a: ModArchive| a@,
                ).update(k as int, new_archive));
                mod_list.mods.insert(i, entry);
                proof {
                    let (i2, k2) = choose|i2: int, k2: int| locates(before, mod_uid, file_uid, i2, k2);
                    lemma_first_mod_unique(before, mod_uid, i as int, i2);
                    lemma_first_archive_unique(before[i as int].archives, file_uid, k as int, k2);
                    assert(new_archive == apply_update(before[i as int].archives[k as int], u));
                    assert(mod_list@ =~= updated(before, mod_uid, file_uid, u));
                }
                Ok(())
            },
        }
    }

    /// Whether the key `(mod_uid, file_uid)` resolves to an archive.
    pub fn has_archive_entry(&self, mod_list: &ModList, mod_uid: u64, file_uid: u64) -> (r: bool)
        ensures
            r == has_entry(mod_list@, mod_uid, file_uid),
    {
        locate(mod_list, mod_uid, file_uid).is_some()
    }

    /// The status of archive `(mod_uid, file_uid)`; `Unknown` when the key
    /// does not resolve, never an error.
    pub fn get_archive_status(&self, mod_list: &ModList, mod_uid: u64, file_uid: u64) -> (r: FileStatus)
        ensures
            r@ == status_of(mod_list@, mod_uid, file_uid),
    {
        match locate(mod_list, mod_uid, file_uid) {
            Some((i, k)) => {
                proof {
                    lemma_status_at(mod_list@, mod_uid, file_uid, i as int, k as int);
                    assert(mod_list@[i as int].archives == mod_list.mods@[i as int].archives@.map_values(
                        |a: ModArchive| a@,
                    ));
                }
                mod_list.mods[i].archives[k].status.clone()
            },
            None => FileStatus::Unknown,
        }
    }

    /// Records that `archive` moved to `staging/<mod uid>/archives/`: it
    /// becomes `Downloaded` with the new path, and the move to carry out is
    /// returned. `Precondition` when the archive has no path (it was never
    /// downloaded); the errors of `update_archive` otherwise. The caller moves
    /// the file and keeps the new document only when the move succeeds.
    pub fn stage_archive(&self, mod_list: &mut ModList, m: &Mod, archive: &ModArchive) -> (r: Result<
        ArchiveMove,
        MomaError,
    >)
        ensures
            archive.archive_path is None ==> (r matches Err(e) && e.kind == ErrorKind::Precondition),
            archive.archive_path is Some ==> (r is Ok <==> update_accepted(
                old(mod_list)@,
                m.uid,
                archive.file_uid,
                UpdateView {
                    status: StatusView::Downloaded,
                    path: PathChange::Replace(
                        joined(staged_archives_of(self.root(), m.uid), archive.file_name@),
                    ),
                },
            )),
            r matches Ok(mv) ==> {
                &&& final(mod_list)@ == updated(
                    old(mod_list)@,
                    m.uid,
                    archive.file_uid,
                    UpdateView {
                        status: StatusView::Downloaded,
                        path: PathChange::Replace(mv.to@),
                    },
                )
                &&& Some(mv.from@) == opt_view(archive.archive_path)
                &&& mv.dir@ == staged_archives_of(self.root(), m.uid)
                &&& mv.to@ == joined(staged_archives_of(self.root(), m.uid), archive.file_name@)
            },
            r is Err ==> final(mod_list)@ == old(mod_list)@,
    {
        let from = match &archive.archive_path {
            Some(p) => p.clone(),
            None => {
                return Err(MomaError::new(ErrorKind::Precondition, "Archive has no path."));
            },
        };
        let dir = self.workspace.staged_archives_dir(m.uid);
        let to = join(dir.as_str(), archive.file_name.as_str());
        let update = ArchiveUpdate { status: FileStatus::Downloaded, path: PathUpdate::Replace(to.clone()) };
        self.update_archive(mod_list, m.uid, archive.file_uid, update)?;
        Ok(ArchiveMove { from, to, dir })
    }

    /// Records how the download of `archive` ended. With no `failure` the
    /// archive is staged, as `stage_archive` does, and the move to carry out
    /// is returned; otherwise it becomes `Failed` with that reason and its
    /// path is kept, and there is nothing to move.
    pub fn finish_download(
        &self,
        mod_list: &mut ModList,
        m: &Mod,
        archive: &ModArchive,
        failure: Option<String>,
    ) -> (r: Result<Option<ArchiveMove>, MomaError>)
        ensures
            failure is None ==> (r is Ok <==> archive.archive_path is Some && update_accepted(
                old(mod_list)@,
                m.uid,
                archive.file_uid,
                UpdateView {
                    status: StatusView::Downloaded,
                    path: PathChange::Replace(
                        joined(staged_archives_of(self.root(), m.uid), archive.file_name@),
                    ),
                },
            )),
            failure is None ==> (r matches Ok(x) ==> (x matches Some(mv) && Some(mv.from@) == opt_view(
                archive.archive_path,
            ) && mv.dir@ == staged_archives_of(self.root(), m.uid) && mv.to@ == joined(
                staged_archives_of(self.root(), m.uid),
                archive.file_name@,
            ) && final(mod_list)@ == updated(
                old(mod_list)@,
                m.uid,
                archive.file_uid,
                UpdateView { status: StatusView::Downloaded, path: PathChange::Replace(mv.to@) },
            ))),
            failure matches Some(reason) ==> (r is Ok <==> update_accepted(
                old(mod_list)@,
                m.uid,
                archive.file_uid,
                UpdateView { status: StatusView::Failed(reason@), path: PathChange::Keep },
            )),
            failure matches Some(reason) ==> (r is Ok ==> r == Ok::<Option<ArchiveMove>, MomaError>(None) && final(mod_list)@ == updated(
                old(mod_list)@,
                m.uid,
                archive.file_uid,
                UpdateView { status: StatusView::Failed(reason@), path: PathChange::Keep },
            )),
            r is Err ==> final(mod_list)@ == old(mod_list)@,
    {
        match failure {
            None => {
                let mv = self.stage_archive(mod_list, m, archive)?;
                Ok(Some(mv))
            },
            Some(reason) => {
                let update = ArchiveUpdate::status(FileStatus::Failed(reason));
                self.update_archive(mod_list, m.uid, archive.file_uid, update)?;
                Ok(None)
            },
        }
    }

    /// Extracts the staged `archive` into `mods/<mod uid>/` through `fs`, then
    /// records it as `Installed` with no path, and returns the archive file
    /// for the caller to delete. `Precondition` when the archive has no path;
    /// an extraction failure is returned as it came and changes no status.
    pub fn install_archive<F: FileSystem>(&self, fs: &F, mod_list: &mut ModList, m: &Mod, archive: &ModArchive) -> (r:
        Result<String, MomaError>)
        ensures
            archive.archive_path is None ==> (r matches Err(e) && e.kind == ErrorKind::Precondition),
            r matches Ok(p) ==> {
                &&& Some(p@) == opt_view(archive.archive_path)
                &&& update_accepted(
                    old(mod_list)@,
                    m.uid,
                    archive.file_uid,
                    UpdateView { status: StatusView::Installed, path: PathChange::Clear },
                )
                &&& final(mod_list)@ == updated(
                    old(mod_list)@,
                    m.uid,
                    archive.file_uid,
                    UpdateView { status: StatusView::Installed, path: PathChange::Clear },
                )
            },
            r is Err ==> final(mod_list)@ == old(mod_list)@,
            archive.archive_path matches Some(p) ==> exists|x: Result<(), MomaError>|
                #[trigger] extraction_of(*fs, p@, installed_mod_of(self.root(), m.uid), false, x) && (x matches Err(
                    e,
                ) ==> r == Err::<String, MomaError>(e)) && (x is Ok ==> (r is Ok <==> update_accepted(
                    old(mod_list)@,
                    m.uid,
                    archive.file_uid,
                    UpdateView { status: StatusView::Installed, path: PathChange::Clear },
                ))),
    {
        let path = match &archive.archive_path {
            Some(p) => p.clone(),
            None => {
                return Err(MomaError::new(ErrorKind::Precondition, "No archive path found."));
            },
        };
        let target = self.workspace.installed_mod_dir(m.uid);
        let from = path.as_str();
        let into = target.as_str();
        let extracted = fs.extract_archive(from, into, false);
        let ghost x = extracted;
        assert(fs.extracted(from, into, false, x));
        assert(extraction_of(*fs, from@, installed_mod_of(self.root(), m.uid), false, x));
        match extracted {
            Err(e) => {
                return Err(e);
            },
            Ok(u) => {
                assert(x == Ok::<(), MomaError>(u));
            },
        }
        let update = ArchiveUpdate { status: FileStatus::Installed, path: PathUpdate::Clear };
        self.update_archive(mod_list, m.uid, archive.file_uid, update)?;
        Ok(path)
    }

    /// Whether to start downloading `file` of mod `m`: not while it is
    /// downloading, downloaded or installed; otherwise (never seen, or failed
    /// before) the download starts, recorded as `Downloading` at its download
    /// destination.
    pub fn plan_download(&self, mod_list: &ModList, m: &Mod, file: ModArchive) -> (r: DownloadPlan)
        ensures
            match status_of(mod_list@, m.uid, file.file_uid) {
                StatusView::Downloading => r is AlreadyDownloading,
                StatusView::Downloaded => r is AlreadyDownloaded,
                StatusView::Installed => r is AlreadyInstalled,
                _ => r matches DownloadPlan::Start(a) && a@ == (ArchiveView {
                    status: StatusView::Downloading,
                    archive_path: Some(joined(cache_of(self.root()), file.file_name@)),
                    ..file@
                }),
            },
    {
        let status = self.get_archive_status(mod_list, m.uid, file.file_uid);
        match status {
            FileStatus::Downloading => DownloadPlan::AlreadyDownloading,
            FileStatus::Downloaded => DownloadPlan::AlreadyDownloaded,
            FileStatus::Installed => DownloadPlan::AlreadyInstalled,
            _ => {
                let dest = self.archive_download_dest(file.file_name.as_str());
                DownloadPlan::Start(
                    ModArchive {
                        file_uid: file.file_uid,
                        file_name: file.file_name,
                        archive_path: Some(dest),
                        status: FileStatus::Downloading,
                    },
                )
            },
        }
    }

    /// Every mod with downloaded archives waiting to be installed, each with
    /// those archives only, in document order.
    pub fn installable_mods(&self, mod_list: &ModList) -> (r: Vec<Mod>)
        ensures
            r@.map_values(|m: Mod| m@) == installable(mod_list@),
    {
        let mut r: Vec<Mod> = Vec::new();
        let mut i: usize = 0;
        while i < mod_list.mods.len()
            invariant
                i <= mod_list@.len(),
                r@.map_values(|m: Mod| m@) == installable(mod_list@.take(i as int)),
            decreases mod_list@.len() - i,
        {
            let m = &mod_list.mods[i];
            let ghost mv = mod_list@[i as int];
            assert(mv.archives == m.archives@.map_values(|a: ModArchive| a@));
            let mut kept: Vec<ModArchive> = Vec::new();
            let mut k: usize = 0;
            while k < m.archives.len()
                invariant
                    i < mod_list@.len(),
                    k <= m.archives@.len(),
                    mv == mod_list@[i as int],
                    mv.archives == m.archives@.map_values(|a: ModArchive| a@),
                    kept@.map_values(|a: ModArchive| a@) == downloaded_only(mv.archives.take(k as int)),
                decreases m.archives@.len() - k,
            {
                assert(mv.archives.take(k + 1).drop_last() =~= mv.archives.take(k as int));
                assert(mv.archives[k as int] == m.archives@[k as int]@);
                let ghost before = kept@.map_values(|a: ModArchive| a@);
                if m.archives[k].status.is_downloaded() {
                    kept.push(m.archives[k].clone());
                    assert(kept@.map_values(|a: ModArchive| a@) =~= before.push(mv.archives[k as int]));
                }
                assert(kept@.map_values(|a: ModArchive| a@) == downloaded_only(mv.archives.take(k + 1)));
                k = k + 1;
            }
            assert(mv.archives.take(mv.archives.len() as int) =~= mv.archives);
            assert(mod_list@.take(i + 1).drop_last() =~= mod_list@.take(i as int));
            let ghost before_mods = r@.map_values(|m: Mod| m@);
            if kept.len() > 0 {
                let entry = Mod { uid: m.uid, name: m.name.clone(), archives: kept };
                r.push(entry);
                assert(r@.map_values(|m: Mod| m@) =~= before_mods.push(
                    ModView { archives: downloaded_only(mv.archives), ..mv },
                ));
            }
            i = i + 1;
        }
        assert(mod_list@.take(mod_list@.len() as int) =~= mod_list@);
        r
    }
}

} // verus!

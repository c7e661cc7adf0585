use vstd::prelude::*;

verus! {

/// Where an archive stands in its lifecycle.
#[derive(Debug)]
pub enum FileStatus {
    Unknown,
    Downloading,
    Downloaded,
    Installed,
    Failed(String),
}

/// The mathematical value of a [`FileStatus`].
pub enum StatusView {
    Unknown,
    Downloading,
    Downloaded,
    Installed,
    Failed(Seq<char>),
}

/// One downloadable file of a mod.
#[derive(Debug)]
pub struct ModArchive {
    pub file_uid: u64,
    pub file_name: String,
    pub archive_path: Option<String>,
    pub status: FileStatus,
}

pub struct ArchiveView {
    pub file_uid: u64,
    pub file_name: Seq<char>,
    pub archive_path: Option<Seq<char>>,
    pub status: StatusView,
}

/// A mod as the source knows it, with the archives of it that were seen.
#[derive(Debug)]
pub struct Mod {
    pub uid: u64,
    pub name: String,
    pub archives: Vec<ModArchive>,
}

pub struct ModView {
    pub uid: u64,
    pub name: Seq<char>,
    pub archives: Seq<ArchiveView>,
}

/// The persisted document of all known mods.
#[derive(Debug)]
pub struct ModList {
    pub mods: Vec<Mod>,
}

/// The content of a heartbeat file of a download in flight.
#[derive(Debug)]
pub struct DownloadProgress {
    pub file_name: String,
    pub progress_bytes: u64,
    pub total_bytes: u64,
    pub started_at: u64,
    pub updated_at: u64,
}

pub open spec fn opt_view(p: Option<String>) -> Option<Seq<char>> {
    match p {
        Some(s) => Some(s@),
        None => None,
    }
}

impl View for FileStatus {
    type V = StatusView;

    open spec fn view(&self) -> StatusView {
        match self {
            FileStatus::Unknown => StatusView::Unknown,
            FileStatus::Downloading => StatusView::Downloading,
            FileStatus::Downloaded => StatusView::Downloaded,
            FileStatus::Installed => StatusView::Installed,
            FileStatus::Failed(reason) => StatusView::Failed(reason@),
        }
    }
}

impl View for ModArchive {
    type V = ArchiveView;

    open spec fn view(&self) -> ArchiveView {
        ArchiveView {
            file_uid: self.file_uid,
            file_name: self.file_name@,
            archive_path: opt_view(self.archive_path),
            status: self.status@,
        }
    }
}

impl View for Mod {
    type V = ModView;

    open spec fn view(&self) -> ModView {
        ModView {
            uid: self.uid,
            name: self.name@,
            archives: self.archives@.map_values(|a: ModArchive| a@),
        }
    }
}

impl View for ModList {
    type V = Seq<ModView>;

    open spec fn view(&self) -> Seq<ModView> {
        self.mods@.map_values(|m: Mod| m@)
    }
}

impl Clone for FileStatus {
    fn clone(&self) -> (r: Self)
        ensures
            r == *self,
    {
        match self {
            FileStatus::Unknown => FileStatus::Unknown,
            FileStatus::Downloading => FileStatus::Downloading,
            FileStatus::Downloaded => FileStatus::Downloaded,
            FileStatus::Installed => FileStatus::Installed,
            FileStatus::Failed(reason) => FileStatus::Failed(reason.clone()),
        }
    }
}

impl Clone for ModArchive {
    fn clone(&self) -> (r: Self)
        ensures
            r == *self,
    {
        ModArchive {
            file_uid: self.file_uid,
            file_name: self.file_name.clone(),
            archive_path: match &self.archive_path {
                Some(p) => Some(p.clone()),
                None => None,
            },
            status: self.status.clone(),
        }
    }
}

impl Clone for Mod {
    fn clone(&self) -> (r: Self)
        ensures
            r@ == self@,
    {
        let archives = self.archives.clone();
        assert(archives@ =~= self.archives@);
        Mod { uid: self.uid, name: self.name.clone(), archives }
    }
}

impl Clone for ModList {
    fn clone(&self) -> (r: Self)
        ensures
            r@ == self@,
    {
        let mut mods: Vec<Mod> = Vec::new();
        let mut i: usize = 0;
        while i < self.mods.len()
            invariant
                i <= self.mods@.len(),
                mods@.len() == i,
                forall|j: int| 0 <= j < i ==> #[trigger] mods@[j]@ == self.mods@[j]@,
            decreases self.mods@.len() - i,
        {
            mods.push(self.mods[i].clone());
            i = i + 1;
        }
        let r = ModList { mods };
        assert(r@ =~= self@);
        r
    }
}

impl ModList {
    /// An empty document.
    pub fn empty() -> (r: ModList)
        ensures
            r@ == Seq::<ModView>::empty(),
    {
        let r = ModList { mods: Vec::new() };
        assert(r@ =~= Seq::<ModView>::empty());
        r
    }
}

impl Default for ModList {
    fn default() -> (r: ModList)
        ensures
            r@ == Seq::<ModView>::empty(),
    {
        ModList::empty()
    }
}

impl FileStatus {
    /// Whether the status is `Unknown`.
    pub fn is_unknown(&self) -> (r: bool)
        ensures
            r == (self@ == StatusView::Unknown),
    {
        match self {
            FileStatus::Unknown => true,
            _ => false,
        }
    }

    /// Whether the status is `Downloaded`.
    pub fn is_downloaded(&self) -> (r: bool)
        ensures
            r == (self@ == StatusView::Downloaded),
    {
        match self {
            FileStatus::Downloaded => true,
            _ => false,
        }
    }

    /// Whether the status is `Downloading`.
    pub fn is_downloading(&self) -> (r: bool)
        ensures
            r == (self@ == StatusView::Downloading),
    {
        match self {
            FileStatus::Downloading => true,
            _ => false,
        }
    }

    /// Whether the status is `Installed`.
    pub fn is_installed(&self) -> (r: bool)
        ensures
            r == (self@ == StatusView::Installed),
    {
        match self {
            FileStatus::Installed => true,
            _ => false,
        }
    }

    /// The text shown to a user for this status.
    pub fn describe(&self) -> (r: String)
        ensures
            r@ == status_text(self@),
    {
        match self {
            FileStatus::Unknown => String::from_str("Unknown"),
            FileStatus::Downloading => String::from_str("Downloading"),
            FileStatus::Downloaded => String::from_str("Downloaded"),
            FileStatus::Installed => String::from_str("Installed"),
            FileStatus::Failed(reason) => {
                let mut s = String::from_str("A problem occurred: '");
                s.append(reason.as_str());
                s.append("'");
                s
            },
        }
    }
}

pub open spec fn status_text(s: StatusView) -> Seq<char> {
    match s {
        StatusView::Unknown => "Unknown"@,
        StatusView::Downloading => "Downloading"@,
        StatusView::Downloaded => "Downloaded"@,
        StatusView::Installed => "Installed"@,
        StatusView::Failed(reason) => "A problem occurred: '"@ + reason + "'"@,
    }
}

impl PartialEq for FileStatus {
    fn eq(&self, other: &FileStatus) -> (r: bool) {
        match self {
            FileStatus::Unknown => other.is_unknown(),
            FileStatus::Downloading => other.is_downloading(),
            FileStatus::Downloaded => other.is_downloaded(),
            FileStatus::Installed => other.is_installed(),
            FileStatus::Failed(a) => match other {
                FileStatus::Failed(b) => a.eq(b),
                _ => false,
            },
        }
    }
}

impl vstd::std_specs::cmp::PartialEqSpecImpl for FileStatus {
    open spec fn obeys_eq_spec() -> bool {
        true
    }

    open spec fn eq_spec(&self, other: &FileStatus) -> bool {
        self@ == other@
    }
}

impl Eq for FileStatus {
}

} // verus!

use vstd::prelude::*;

use crate::error::{ErrorKind, MomaError};
use crate::launch::strings_view;

verus! {

/// What stands at a path of the filesystem.
#[derive(Debug, PartialEq, Eq)]
pub enum Entry {
    Dir,
    File(Vec<u8>),
}

/// Whether `p` is `dir` itself or one of the directories above it.
pub open spec fn leads_to(p: Seq<char>, dir: Seq<char>) -> bool {
    p == dir || (p.len() < dir.len() && dir.subrange(0, p.len() as int) == p && dir[p.len() as int]
        == '/')
}

/// Filesystem actions the library asks of its host, so that a test can
/// substitute a fake for the real disk.
pub trait FileSystem {
    /// What stands at `path`: nothing, a directory, or a file and its bytes.
    spec fn entry(&self, path: &str) -> Option<Entry>;

    /// That `r` is what extracting the archive at `archive_path` into
    /// `target_dir` came to.
    spec fn extracted(&self, archive_path: &str, target_dir: &str, flatten: bool, r: Result<(), MomaError>) -> bool;

    /// That `r` is what copying `from` into `to` came to.
    spec fn copied(&self, from: &str, to: &str, flatten_root: bool, r: Result<(), MomaError>) -> bool;

    /// Extracts an archive into `target_dir`; with `flatten`, a single top
    /// directory in the archive is dissolved into `target_dir`.
    fn extract_archive(&self, archive_path: &str, target_dir: &str, flatten: bool) -> (r: Result<(), MomaError>)
        ensures
            self.extracted(archive_path, target_dir, flatten, r);

    /// Copies every file below `from` into `to`, under the last part of
    /// `from` unless `flatten_root` is set.
    fn copy_dir(&self, from: &str, to: &str, flatten_root: bool) -> (r: Result<(), MomaError>)
        ensures
            self.copied(from, to, flatten_root, r);

    /// Creates a directory and every missing parent of it. It only adds: what
    /// stood anywhere before stands there unchanged afterwards, and what is
    /// new is a directory on the way to `dir`. It succeeds exactly when `dir`
    /// is a directory afterwards.
    fn create_dir_all(&mut self, dir: &str) -> (r: Result<(), MomaError>)
        ensures
            r is Ok <==> final(self).entry(dir) == Some(Entry::Dir),
            forall|p: &str| (#[trigger] old(self).entry(p)) is Some ==> final(self).entry(p) == old(self).entry(p),
            forall|p: &str|
                old(self).entry(p) is None && (#[trigger] final(self).entry(p)) is Some ==> final(self).entry(p)
                    == Some(Entry::Dir) && leads_to(p@, dir@),
            forall|p: &str, q: &str| p@ == q@ ==> #[trigger] final(self).entry(p) == #[trigger] final(self).entry(q);
}

/// Whether a directory stands at `path` in `fs`.
pub open spec fn dir_at<F: FileSystem>(fs: F, path: Seq<char>) -> bool {
    exists|p: &str| p@ == path && #[trigger] fs.entry(p) == Some(Entry::Dir)
}

/// Whether no directory stands at `path` in `fs`.
pub open spec fn no_dir_at<F: FileSystem>(fs: F, path: Seq<char>) -> bool {
    exists|p: &str| p@ == path && #[trigger] fs.entry(p) != Some(Entry::Dir)
}

/// Whether everything that stood in `before` stands unchanged in `after`.
pub open spec fn keeps_entries<F: FileSystem>(before: F, after: F) -> bool {
    forall|p: &str| (#[trigger] before.entry(p)) is Some ==> after.entry(p) == before.entry(p)
}

/// Whether everything new in `after` is a directory on the way to one of `dirs`.
pub open spec fn adds_only_toward<F: FileSystem>(before: F, after: F, dirs: Seq<Seq<char>>) -> bool {
    forall|p: &str|
        before.entry(p) is None && (#[trigger] after.entry(p)) is Some ==> after.entry(p) == Some(Entry::Dir)
            && exists|j: int| 0 <= j < dirs.len() && leads_to(p@, #[trigger] dirs[j])
}

/// That `r` is what extracting the archive at `archive` into `target` came to.
pub open spec fn extraction_of<F: FileSystem>(
    fs: F,
    archive: Seq<char>,
    target: Seq<char>,
    flatten: bool,
    r: Result<(), MomaError>,
) -> bool {
    exists|a: &str, t: &str| a@ == archive && t@ == target && #[trigger] fs.extracted(a, t, flatten, r)
}

/// That `r` is what copying `from` into `to` came to.
pub open spec fn copy_of<F: FileSystem>(
    fs: F,
    from: Seq<char>,
    to: Seq<char>,
    flatten_root: bool,
    r: Result<(), MomaError>,
) -> bool {
    exists|a: &str, t: &str| a@ == from && t@ == to && #[trigger] fs.copied(a, t, flatten_root, r)
}

/// Privileged operating-system actions the library asks of its host.
pub trait System {
    /// Whether the process was privileged when this capability was obtained.
    /// It is a fixed property of the capability: dropping privileges later
    /// does not change it, so an implementation answers `is_process_root`
    /// from that moment, not from the identity the process has now.
    spec fn privileged(&self) -> bool;

    /// That `r` is what giving up privilege came to.
    spec fn dropped(&self, r: Result<(), MomaError>) -> bool;

    /// That `r` is what handing `dir` to the invoking user came to.
    spec fn chowned(&self, dir: &str, recursive: bool, r: Result<(), MomaError>) -> bool;

    /// Whether the process runs with elevated privilege.
    fn is_process_root(&self) -> (r: bool)
        ensures
            r == self.privileged();

    /// Gives up elevated privilege for good, becoming the invoking user.
    fn drop_privileges(&self) -> (r: Result<(), MomaError>)
        ensures
            self.dropped(r);

    /// Hands a directory, and with `recursive` everything below it, to the invoking user.
    fn chown_dir(&self, dir: &str, recursive: bool) -> (r: Result<(), MomaError>)
        ensures
            self.chowned(dir, recursive, r);
}

/// That `r` is what handing `dir` to the invoking user came to.
pub open spec fn chown_of<S: System>(sys: S, dir: Seq<char>, recursive: bool, r: Result<(), MomaError>) -> bool {
    exists|d: &str| d@ == dir && #[trigger] sys.chowned(d, recursive, r)
}

/// The identity to become when giving up privilege: the invoking user's
/// `uid` and `gid`. Refused with `Privilege` when the process is not
/// privileged, or when either of the two is unknown.
pub fn drop_target(privileged: bool, uid: Option<u32>, gid: Option<u32>) -> (r: Result<(u32, u32), MomaError>)
    ensures
        r is Err <==> !privileged || uid is None || gid is None,
        r matches Ok(ids) ==> uid == Some(ids.0) && gid == Some(ids.1),
        r matches Err(e) ==> e.kind == ErrorKind::Privilege,
{
    if !privileged {
        return Err(MomaError::new(ErrorKind::Privilege, "Cannot drop privileges: not running as root"));
    }
    match (uid, gid) {
        (Some(u), Some(g)) => Ok((u, g)),
        (None, _) => Err(MomaError::new(ErrorKind::Privilege, "Cannot drop privileges: SUDO_UID is not set")),
        (_, None) => Err(MomaError::new(ErrorKind::Privilege, "Cannot drop privileges: SUDO_GID is not set")),
    }
}

/// Mount-namespace actions the library asks of its host.
pub trait SystemInterface {
    /// That `r` is what running `program` with `args` came to.
    spec fn ran(&self, program: &str, args: Vec<String>, r: Result<(), MomaError>) -> bool;

    /// That `r` is what detaching the mount table came to.
    spec fn unshared(&self, r: Result<(), MomaError>) -> bool;

    /// Runs an external program with its arguments, failing unless it exits successfully.
    fn run_command(&self, program: &str, args: &Vec<String>) -> (r: Result<(), MomaError>)
        ensures
            self.ran(program, *args, r);

    /// Detaches the process's mount table from the rest of the host.
    fn unshare_namespace(&self) -> (r: Result<(), MomaError>)
        ensures
            self.unshared(r);
}

/// That `r` is what running `program` with `args` came to.
pub open spec fn command_of<I: SystemInterface>(
    iface: I,
    program: Seq<char>,
    args: Seq<Seq<char>>,
    r: Result<(), MomaError>,
) -> bool {
    exists|p: &str, a: Vec<String>| p@ == program && strings_view(a@) == args && #[trigger] iface.ran(p, a, r)
}

} // verus!

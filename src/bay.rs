use vstd::prelude::*;

use crate::error::{ErrorKind, MomaError};
use crate::game::{game_id, Game};
use crate::launch::strings_view;
use crate::system::{FileSystem, System, Entry, adds_only_toward, dir_at, keeps_entries, leads_to, no_dir_at};
use crate::text::{join, joined};

verus! {

/// The directories a bay holds under its working directory.
pub open spec fn bay_dirs_of(working_dir: Seq<char>) -> Seq<Seq<char>> {
    seq![
        joined(working_dir, ".overlay/merged"@),
        joined(working_dir, ".overlay/work"@),
        joined(working_dir, ".overlay/active"@),
        joined(working_dir, "sink"@),
        joined(working_dir, "proton"@),
    ]
}

/// The working directory of one game: its overlay folders, sink and Proton
/// prefix, created through the injected filesystem.
pub struct Bay<'a, F: FileSystem, S: System> {
    file_system: &'a mut F,
    system: &'a S,
    working_dir: String,
}

impl<'a, F: FileSystem, S: System> Bay<'a, F, S> {
    pub closed spec fn working_dir_view(&self) -> Seq<char> {
        self.working_dir@
    }

    pub closed spec fn file_system_spec(&self) -> F {
        *self.file_system
    }

    pub closed spec fn system_spec(&self) -> S {
        *self.system
    }

    /// The bay of `game` under `base_work_dir`.
    pub fn new(file_system: &'a mut F, system: &'a S, base_work_dir: &str, game: &Game) -> (r: Self)
        ensures
            r.working_dir_view() == joined(base_work_dir@, game_id(*game)),
            r.file_system_spec() == *old(file_system),
            r.system_spec() == *system,
    {
        Bay { file_system, system, working_dir: join(base_work_dir, game.id()) }
    }

    /// The directories `initialize` creates, in order.
    pub fn dirs(&self) -> (r: Vec<String>)
        ensures
            strings_view(r@) == bay_dirs_of(self.working_dir_view()),
    {
        let wd = self.working_dir.as_str();
        let r = vec![
            join(wd, ".overlay/merged"),
            join(wd, ".overlay/work"),
            join(wd, ".overlay/active"),
            join(wd, "sink"),
            join(wd, "proton"),
        ];
        assert(strings_view(r@) =~= bay_dirs_of(self.working_dir_view()));
        r
    }

    /// What initializing the bay does, given whether the process is
    /// privileged: refused with `Precondition` when it is (the game later runs
    /// as the user and must own the directories), and otherwise the
    /// directories to create.
    pub fn plan(&self, privileged: bool) -> (r: Result<Vec<String>, MomaError>)
        ensures
            privileged <==> r is Err,
            r matches Err(e) ==> e.kind == ErrorKind::Precondition,
            r matches Ok(dirs) ==> strings_view(dirs@) == bay_dirs_of(self.working_dir_view()),
    {
        if privileged {
            return Err(MomaError::new(ErrorKind::Precondition, "Cannot prepare the bay as root."));
        }
        Ok(self.dirs())
    }

    /// Creates the bay's directories, keeping any that exist, as `plan` lays
    /// out. A privileged caller gets `Precondition` and the filesystem is
    /// left as it was. Otherwise it only ever adds directories on the way to
    /// the bay's own, keeps every entry that stood before, and succeeds
    /// exactly when each of the five directories was created or was there
    /// already; a failed creation ends it, and that directory is then missing.
    pub fn initialize(&mut self) -> (r: Result<(), MomaError>)
        ensures
            final(self).working_dir_view() == old(self).working_dir_view(),
            final(self).system_spec() == old(self).system_spec(),
            old(self).system_spec().privileged() ==> (r matches Err(e) && e.kind == ErrorKind::Precondition)
                && final(self).file_system_spec() == old(self).file_system_spec(),
            keeps_entries(old(self).file_system_spec(), final(self).file_system_spec()),
            adds_only_toward(
                old(self).file_system_spec(),
                final(self).file_system_spec(),
                bay_dirs_of(old(self).working_dir_view()),
            ),
            r is Ok <==> !old(self).system_spec().privileged() && forall|j: int|
                0 <= j < bay_dirs_of(old(self).working_dir_view()).len() ==> dir_at(
                    final(self).file_system_spec(),
                    #[trigger] bay_dirs_of(old(self).working_dir_view())[j],
                ),
            r is Err && !old(self).system_spec().privileged() ==> exists|j: int|
                0 <= j < bay_dirs_of(old(self).working_dir_view()).len() && no_dir_at(
                    final(self).file_system_spec(),
                    #[trigger] bay_dirs_of(old(self).working_dir_view())[j],
                ),
    {
        let dirs = self.plan(self.system.is_process_root())?;
        let ghost wanted = bay_dirs_of(self.working_dir_view());
        let ghost start = self.file_system_spec();
        let mut i: usize = 0;
        while i < dirs.len()
            invariant
                i <= dirs@.len(),
                !self.system_spec().privileged(),
                self.system_spec() == old(self).system_spec(),
                self.working_dir_view() == old(self).working_dir_view(),
                strings_view(dirs@) == wanted,
                wanted == bay_dirs_of(self.working_dir_view()),
                start == old(self).file_system_spec(),
                keeps_entries(start, self.file_system_spec()),
                adds_only_toward(start, self.file_system_spec(), wanted),
                forall|j: int| 0 <= j < i ==> dir_at(self.file_system_spec(), #[trigger] wanted[j]),
            decreases dirs@.len() - i,
        {
            let ghost before = self.file_system_spec();
            let dir = dirs[i].as_str();
            let made = self.file_system.create_dir_all(dir);
            let ghost after = self.file_system_spec();
            assert(wanted[i as int] == dirs@[i as int]@);
            assert forall|p: &str| (#[trigger] start.entry(p)) is Some implies after.entry(p) == start.entry(p) by {
                assert(before.entry(p) == start.entry(p));
            }
            assert forall|p: &str| start.entry(p) is None && (#[trigger] after.entry(p)) is Some implies after.entry(p)
                == Some(Entry::Dir) && exists|j: int| 0 <= j < wanted.len() && leads_to(p@, #[trigger] wanted[j]) by {
                if before.entry(p) is None {
                    assert(leads_to(p@, wanted[i as int]));
                } else {
                    assert(after.entry(p) == before.entry(p));
                }
            }
            assert forall|j: int| 0 <= j < i implies dir_at(after, #[trigger] wanted[j]) by {
                let q = choose|q: &str| q@ == wanted[j] && #[trigger] before.entry(q) == Some(Entry::Dir);
                assert(after.entry(q) == before.entry(q));
            }
            match made {
                Err(e) => {
                    assert(no_dir_at(after, wanted[i as int]));
                    assert(!dir_at(after, wanted[i as int])) by {
                        if dir_at(after, wanted[i as int]) {
                            let q = choose|q: &str| q@ == wanted[i as int] && #[trigger] after.entry(q) == Some(Entry::Dir);
                            assert(after.entry(q) == after.entry(dir));
                        }
                    }
                    return Err(e);
                },
                Ok(_) => {},
            }
            assert(dir_at(after, wanted[i as int]));
            i = i + 1;
        }
        Ok(())
    }
}

} // verus!

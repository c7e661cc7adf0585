use vstd::prelude::*;

use crate::bay::Bay;
use crate::error::MomaError;
use crate::game::{game_id, Game};
use crate::system::{FileSystem, System};
use crate::text::joined;

verus! {

/// Questions the library asks the user, so that a test can answer them.
pub trait Prompt {
    /// A yes or no answer.
    fn confirm(&self, prompt_text: &str) -> Result<bool, MomaError>;

    /// One of `options`.
    fn select_string(&self, prompt: &str, options: &Vec<String>) -> Result<String, MomaError>;

    /// One or more of `options`.
    fn select_multiple_strings(&self, prompt: &str, options: &Vec<String>) -> Result<Vec<String>, MomaError>;

    /// An existing path, offering `default_value`.
    fn path(&self, prompt_text: &str, default_value: Option<String>) -> Result<String, MomaError>;

    /// A secret typed without echo.
    fn password(&self, prompt: &str) -> Result<String, MomaError>;
}

/// The capabilities a command runs with: the filesystem, the operating
/// system and the user.
pub struct AppContext<F: FileSystem, S: System, P: Prompt> {
    fs: F,
    sys: S,
    prompt: P,
}

impl<F: FileSystem, S: System, P: Prompt> AppContext<F, S, P> {
    pub closed spec fn fs_spec(&self) -> F {
        self.fs
    }

    pub closed spec fn sys_spec(&self) -> S {
        self.sys
    }

    pub closed spec fn prompt_spec(&self) -> P {
        self.prompt
    }

    pub fn new(fs: F, sys: S, prompt: P) -> (r: Self)
        ensures
            r.fs_spec() == fs,
            r.sys_spec() == sys,
            r.prompt_spec() == prompt,
    {
        AppContext { fs, sys, prompt }
    }

    pub fn fs(&self) -> (r: &F)
        ensures
            *r == self.fs_spec(),
    {
        &self.fs
    }

    pub fn sys(&self) -> (r: &S)
        ensures
            *r == self.sys_spec(),
    {
        &self.sys
    }

    pub fn prompt(&self) -> (r: &P)
        ensures
            *r == self.prompt_spec(),
    {
        &self.prompt
    }

    /// The bay of `game` under `base_dir`, using this context's capabilities.
    pub fn bay<'a>(&'a mut self, game: &Game, base_dir: &str) -> (r: Bay<'a, F, S>)
        ensures
            r.working_dir_view() == joined(base_dir@, game_id(*game)),
    {
        Bay::new(&mut self.fs, &self.sys, base_dir, game)
    }
}

} // verus!

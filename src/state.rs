use vstd::prelude::*;

use crate::error::{ErrorKind, MomaError};
use crate::game::{game_id, Game};

verus! {

/// Whether a character has the Unicode `White_Space` property.
pub open spec fn is_white_space(c: char) -> bool {
    ('\u{9}' <= c && c <= '\u{d}') || c == ' ' || c == '\u{85}' || c == '\u{a0}' || c == '\u{1680}'
        || ('\u{2000}' <= c && c <= '\u{200a}') || c == '\u{2028}' || c == '\u{2029}' || c == '\u{202f}'
        || c == '\u{205f}' || c == '\u{3000}'
}

/// A text without its leading whitespace.
pub open spec fn trim_start_of(s: Seq<char>) -> Seq<char>
    decreases s.len(),
{
    if s.len() > 0 && is_white_space(s[0]) {
        trim_start_of(s.subrange(1, s.len() as int))
    } else {
        s
    }
}

/// A text without its trailing whitespace.
pub open spec fn trim_end_of(s: Seq<char>) -> Seq<char>
    decreases s.len(),
{
    if s.len() > 0 && is_white_space(s.last()) {
        trim_end_of(s.drop_last())
    } else {
        s
    }
}

/// A text without its leading and trailing whitespace.
pub open spec fn trimmed_of(s: Seq<char>) -> Seq<char> {
    trim_end_of(trim_start_of(s))
}

/// Relies on str::trim: the text without its leading and trailing
/// characters of the Unicode `White_Space` property.
#[verifier::external_body]
fn trim_text(s: &str) -> (r: &str)
    ensures
        r@ == trimmed_of(s@),
{
    s.trim()
}

/// The game context a trimmed state text names: none for an empty text, the
/// game whose id it is, and `Corrupt` for anything else.
pub open spec fn context_of(trimmed: Seq<char>) -> Option<Option<Game>> {
    if trimmed.len() == 0 {
        Some(None)
    } else if trimmed == game_id(Game::SkyrimSE) {
        Some(Some(Game::SkyrimSE))
    } else {
        None
    }
}

/// The game context held by a state text that was already trimmed.
pub fn context_from_trimmed(trimmed: &str) -> (r: Result<Option<Game>, MomaError>)
    ensures
        match context_of(trimmed@) {
            Some(c) => r == Ok::<Option<Game>, MomaError>(c),
            None => r matches Err(e) && e.kind == ErrorKind::Corrupt,
        },
{
    if trimmed.unicode_len() == 0 {
        return Ok(None);
    }
    match Game::from_id(trimmed) {
        Some(game) => Ok(Some(game)),
        None => Err(MomaError::new(ErrorKind::Corrupt, "Invalid game context in state file")),
    }
}

/// The current game context, kept in a small file outside any workspace.
#[derive(Debug)]
pub struct State {
    state_file: String,
}

impl State {
    pub closed spec fn file_view(&self) -> Seq<char> {
        self.state_file@
    }

    pub fn new(state_file: String) -> (r: State)
        ensures
            r.file_view() == state_file@,
    {
        State { state_file }
    }

    /// The file that holds the context.
    pub fn state_file(&self) -> (r: String)
        ensures
            r@ == self.file_view(),
    {
        self.state_file.clone()
    }

    /// The current context, given the content of the state file (`None` when
    /// the file does not exist): no file or a blank one means no context, the
    /// id of a game means that game, and anything else is `Corrupt`.
    pub fn current_context(&self, contents: Option<&str>) -> (r: Result<Option<Game>, MomaError>)
        ensures
            contents is None ==> r == Ok::<Option<Game>, MomaError>(None),
            contents matches Some(c) ==> match context_of(trimmed_of(c@)) {
                Some(g) => r == Ok::<Option<Game>, MomaError>(g),
                None => r matches Err(e) && e.kind == ErrorKind::Corrupt,
            },
    {
        match contents {
            None => Ok(None),
            Some(c) => context_from_trimmed(trim_text(c)),
        }
    }

    /// The text the state file holds while `game` is the context.
    pub fn context_text(game: &Game) -> (r: &'static str)
        ensures
            r@ == game_id(*game),
    {
        game.id()
    }
}

} // verus!

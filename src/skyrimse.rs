use vstd::prelude::*;

use crate::game::Source;
use crate::text::same_text;

verus! {

pub open spec fn mod_executable_name() -> Seq<char> {
    "skse64_loader.exe"@
}

/// The download of the script extender that matches a game version, keyed by
/// the first three characters of the version (`1.5`, `1.6`).
pub open spec fn skse_url_for(version: Seq<char>) -> Option<Seq<char>> {
    if version.len() < 3 {
        None
    } else if version.subrange(0, 3) == "1.5"@ {
        Some("https://skse.silverlock.org/beta/skse64_2_00_20.7z"@)
    } else if version.subrange(0, 3) == "1.6"@ {
        Some("https://skse.silverlock.org/beta/skse64_2_02_06.7z"@)
    } else {
        None
    }
}

/// The sources Skyrim Special Edition mods come from.
pub fn supported_sources() -> (r: Vec<Source>)
    ensures
        r@ == seq![Source::Nexus],
{
    let r = vec![Source::Nexus];
    assert(r@ =~= seq![Source::Nexus]);
    r
}

/// The executable that starts the game through the script extender.
pub fn game_mod_executable() -> (r: &'static str)
    ensures
        r@ == mod_executable_name(),
{
    "skse64_loader.exe"
}

/// The executable of the game itself.
pub fn game_executable() -> (r: &'static str)
    ensures
        r@ == "SkyrimSE.exe"@,
{
    "SkyrimSE.exe"
}

/// The script extender archive to download for a game version, if one is known.
pub fn skse_download_for(version: &str) -> (r: Option<&'static str>)
    ensures
        match r {
            Some(u) => skse_url_for(version@) == Some(u@),
            None => skse_url_for(version@) is None,
        },
{
    if version.unicode_len() < 3 {
        return None;
    }
    let prefix = version.substring_char(0, 3);
    if same_text(prefix, "1.5") {
        Some("https://skse.silverlock.org/beta/skse64_2_00_20.7z")
    } else if same_text(prefix, "1.6") {
        Some("https://skse.silverlock.org/beta/skse64_2_02_06.7z")
    } else {
        None
    }
}

} // verus!

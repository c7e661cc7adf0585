use vstd::prelude::*;

use crate::text::same_text;

verus! {

/// The command-line surface of the manager: its program name and the names
/// of its commands.
pub struct Cli;

impl Cli {
    pub const MOMA: &'static str = "moma";

    pub const INIT: &'static str = "init";

    pub const LAUNCH: &'static str = "launch";

    pub const CONNECT: &'static str = "connect";

    pub const CONTEXT: &'static str = "context";

    pub const NXM: &'static str = "nxm";

    pub const SUPPORTED: &'static str = "supported";

    pub const MOD: &'static str = "mod";

    pub const MOD_DOWNLOADS: &'static str = "downloads";

    pub const MOD_INSTALL: &'static str = "install";
}

/// How a command is invoked, after the program name: its path of command
/// names, then `[OPTIONS]` when it takes flags, then its positional
/// arguments, required ones as `<NAME>` and optional ones as `[NAME]`.
pub open spec fn command_usage(path: Seq<Seq<char>>) -> Option<Seq<char>> {
    if path == seq!["init"@] {
        Some("init"@)
    } else if path == seq!["launch"@] {
        Some("launch [OPTIONS] [GAME]"@)
    } else if path == seq!["connect"@] {
        Some("connect <SOURCE>"@)
    } else if path == seq!["context"@] {
        Some("context [GAME]"@)
    } else if path == seq!["nxm"@] {
        Some("nxm <URL>"@)
    } else if path == seq!["supported"@] {
        Some("supported"@)
    } else if path == seq!["mod"@, "downloads"@] {
        Some("mod downloads"@)
    } else if path == seq!["mod"@, "install"@] {
        Some("mod install [OPTIONS]"@)
    } else {
        None
    }
}

/// The usage line of a command: the program name and how the command is
/// invoked; `None` for a path that names no command.
pub open spec fn usage_line(path: Seq<Seq<char>>) -> Option<Seq<char>> {
    match command_usage(path) {
        Some(u) => Some("moma "@ + u),
        None => None,
    }
}

fn is_path(path: &Vec<&str>, a: &str) -> (r: bool)
    ensures
        r == (path@.map_values(|p: &str| p@) == seq![a@]),
{
    if path.len() != 1 {
        assert(path@.map_values(|p: &str| p@).len() != 1);
        return false;
    }
    let r = same_text(path[0], a);
    assert(path@.map_values(|p: &str| p@)[0] == path@[0]@);
    assert(r == (path@.map_values(|p: &str| p@) =~= seq![a@]));
    r
}

fn is_path2(path: &Vec<&str>, a: &str, b: &str) -> (r: bool)
    ensures
        r == (path@.map_values(|p: &str| p@) == seq![a@, b@]),
{
    if path.len() != 2 {
        assert(path@.map_values(|p: &str| p@).len() != 2);
        return false;
    }
    let r = same_text(path[0], a) && same_text(path[1], b);
    assert(r == (path@.map_values(|p: &str| p@) =~= seq![a@, b@]));
    r
}

/// The usage line of the command at `path`, such as `moma connect <SOURCE>`.
pub fn usage_for(path: &Vec<&str>) -> (r: Option<String>)
    ensures
        match r {
            Some(s) => usage_line(path@.map_values(|p: &str| p@)) == Some(s@),
            None => usage_line(path@.map_values(|p: &str| p@)) is None,
        },
{
    let usage = if is_path(path, "init") {
        "init"
    } else if is_path(path, "launch") {
        "launch [OPTIONS] [GAME]"
    } else if is_path(path, "connect") {
        "connect <SOURCE>"
    } else if is_path(path, "context") {
        "context [GAME]"
    } else if is_path(path, "nxm") {
        "nxm <URL>"
    } else if is_path(path, "supported") {
        "supported"
    } else if is_path2(path, "mod", "downloads") {
        "mod downloads"
    } else if is_path2(path, "mod", "install") {
        "mod install [OPTIONS]"
    } else {
        return None;
    };
    let mut line = String::from_str("moma ");
    line.append(usage);
    Some(line)
}

} // verus!

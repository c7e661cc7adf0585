use vstd::prelude::*;

use crate::error::{ErrorKind, MomaError};
use crate::text::{lower_of, lowercase, same_text};

verus! {

/// The archive formats that have a codec.
#[derive(Clone, Copy, Debug, PartialEq, Eq, Structural)]
pub enum ArchiveFormat {
    Zip,
    SevenZip,
    Rar,
}

/// The position of the last `c` in `s`, or -1.
pub open spec fn last_index_of(s: Seq<char>, c: char) -> int
    decreases s.len(),
{
    if s.len() == 0 {
        -1
    } else if s.last() == c {
        s.len() - 1
    } else {
        last_index_of(s.drop_last(), c)
    }
}

pub proof fn lemma_last_index_bounds(s: Seq<char>, c: char)
    ensures
        -1 <= last_index_of(s, c) < s.len(),
    decreases s.len(),
{
    if s.len() > 0 {
        lemma_last_index_bounds(s.drop_last(), c);
    }
}

/// The last part of a path.
pub open spec fn file_name_of(path: Seq<char>) -> Seq<char> {
    path.subrange(last_index_of(path, '/') + 1, path.len() as int)
}

/// The extension of a path: what follows the last `.` of its last part, when
/// that dot does not open the part.
pub open spec fn extension_of(path: Seq<char>) -> Option<Seq<char>> {
    let name = file_name_of(path);
    let dot = last_index_of(name, '.');
    if dot <= 0 {
        None
    } else {
        Some(name.subrange(dot + 1, name.len() as int))
    }
}

/// The codec of a lowercase extension, if there is one.
pub open spec fn format_of(ext: Seq<char>) -> Option<ArchiveFormat> {
    if ext == "zip"@ {
        Some(ArchiveFormat::Zip)
    } else if ext == "7z"@ {
        Some(ArchiveFormat::SevenZip)
    } else if ext == "rar"@ {
        Some(ArchiveFormat::Rar)
    } else {
        None
    }
}

fn find_last(s: &str, c: char) -> (r: usize)
    ensures
        r as int == last_index_of(s@, c) + 1,
{
    let mut i: usize = s.unicode_len();
    assert(s@.subrange(0, i as int) =~= s@);
    while i > 0
        invariant
            i <= s@.len(),
            last_index_of(s@, c) == last_index_of(s@.subrange(0, i as int), c),
        decreases i,
    {
        assert(s@.subrange(0, i as int).drop_last() =~= s@.subrange(0, i - 1));
        if s.get_char(i - 1) == c {
            return i;
        }
        i = i - 1;
    }
    i
}

/// The extension of a path, if it has one.
pub fn extension(path: &str) -> (r: Option<&str>)
    ensures
        match r {
            Some(e) => extension_of(path@) == Some(e@),
            None => extension_of(path@) is None,
        },
{
    proof {
        lemma_last_index_bounds(path@, '/');
    }
    let n = path.unicode_len();
    let start = find_last(path, '/');
    let name = path.substring_char(start, n);
    proof {
        lemma_last_index_bounds(name@, '.');
    }
    let dot = find_last(name, '.');
    if dot <= 1 {
        return None;
    }
    Some(name.substring_char(dot, name.unicode_len()))
}

/// The codec of an extension already in lowercase; `Unsupported` for any other.
pub fn format_for_lowercase_extension(ext: &str) -> (r: Result<ArchiveFormat, MomaError>)
    ensures
        match format_of(ext@) {
            Some(f) => r == Ok::<ArchiveFormat, MomaError>(f),
            None => r matches Err(e) && e.kind == ErrorKind::Unsupported,
        },
{
    if same_text(ext, "zip") {
        Ok(ArchiveFormat::Zip)
    } else if same_text(ext, "7z") {
        Ok(ArchiveFormat::SevenZip)
    } else if same_text(ext, "rar") {
        Ok(ArchiveFormat::Rar)
    } else {
        Err(MomaError::new(ErrorKind::Unsupported, "Unsupported archive format"))
    }
}

/// The codec an archive needs, by its extension in any letter case;
/// `Unsupported` when it has no extension or one with no codec.
pub fn archive_format(path: &str) -> (r: Result<ArchiveFormat, MomaError>)
    ensures
        match extension_of(path@) {
            None => r matches Err(e) && e.kind == ErrorKind::Unsupported,
            Some(ext) => match format_of(lower_of(ext)) {
                Some(f) => r == Ok::<ArchiveFormat, MomaError>(f),
                None => r matches Err(e) && e.kind == ErrorKind::Unsupported,
            },
        },
{
    match extension(path) {
        None => Err(MomaError::new(ErrorKind::Unsupported, "Archive file has no extension")),
        Some(ext) => {
            let lowered = lowercase(ext);
            format_for_lowercase_extension(lowered.as_str())
        },
    }
}

} // verus!

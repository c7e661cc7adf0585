use vstd::prelude::*;

use crate::config::{lookup, pairs_view};
use crate::error::{ErrorKind, MomaError};
use crate::game::Game;
use crate::launch::strings_view;
use crate::text::{decimal, decimal_string, lower_of, lowercase, same_text};
use crate::types::{FileStatus, Mod, ModArchive, ModView, StatusView, ArchiveView};

verus! {

/// What an `nxm://` link names: a game domain, a mod, one of its files, and
/// the key and expiry that authorise the download.
#[derive(Debug)]
pub struct NxmLink {
    pub game: String,
    pub mod_id: String,
    pub file_id: String,
    pub key: String,
    pub expires: String,
}

/// The request for a file's download link.
#[derive(Debug)]
pub struct DownloadInfoRequest {
    pub game: String,
    pub mod_id: String,
    pub file_id: String,
    pub key: String,
    pub expires: String,
}

/// The answer to a key validation.
#[derive(Debug)]
pub struct ValidateResponse {
    pub name: String,
    pub is_premium: bool,
    pub key: String,
}

/// One download location of a file.
#[derive(Debug)]
pub struct DownloadInfoResponse {
    pub uri: String,
}

/// What the source says of one file of a mod.
#[derive(Debug)]
pub struct ModFileInfoResponse {
    pub uid: u64,
    pub file_name: String,
}

/// What the source says of a mod.
#[derive(Debug)]
pub struct ModInfoResponse {
    pub uid: u64,
    pub name: String,
}

/// One file of a mod as the source lists it.
#[derive(Debug)]
pub struct NexusFile {
    pub file_id: u64,
    pub name: String,
    pub category_name: String,
    pub size_kb: u64,
}

/// One file of a mod as the manager shows it.
#[derive(Debug)]
pub struct ModFile {
    pub id: String,
    pub name: String,
    pub category: String,
    pub size_kb: u64,
}

/// The manager's form of the source's file listing: the same files in the
/// same order, each id written in decimal.
pub fn map_mod_files(files: Vec<NexusFile>) -> (r: Vec<ModFile>)
    ensures
        r@.len() == files@.len(),
        forall|i: int|
            0 <= i < files@.len() ==> {
                &&& (#[trigger] r@[i]).id@ == decimal(files@[i].file_id as nat)
                &&& r@[i].name@ == files@[i].name@
                &&& r@[i].category@ == files@[i].category_name@
                &&& r@[i].size_kb == files@[i].size_kb
            },
{
    let mut r: Vec<ModFile> = Vec::new();
    let mut i: usize = 0;
    while i < files.len()
        invariant
            i <= files@.len(),
            r@.len() == i,
            forall|j: int|
                0 <= j < i ==> {
                    &&& (#[trigger] r@[j]).id@ == decimal(files@[j].file_id as nat)
                    &&& r@[j].name@ == files@[j].name@
                    &&& r@[j].category@ == files@[j].category_name@
                    &&& r@[j].size_kb == files@[j].size_kb
                },
        decreases files@.len() - i,
    {
        let f = &files[i];
        r.push(
            ModFile {
                id: decimal_string(f.file_id),
                name: f.name.clone(),
                category: f.category_name.clone(),
                size_kb: f.size_kb,
            },
        );
        i = i + 1;
    }
    r
}

impl DownloadInfoRequest {
    /// The request for the file an `nxm://` link names.
    pub fn from_link(link: NxmLink) -> (r: DownloadInfoRequest)
        ensures
            r.game == link.game,
            r.mod_id == link.mod_id,
            r.file_id == link.file_id,
            r.key == link.key,
            r.expires == link.expires,
    {
        DownloadInfoRequest {
            game: link.game,
            mod_id: link.mod_id,
            file_id: link.file_id,
            key: link.key,
            expires: link.expires,
        }
    }
}

impl ModFileInfoResponse {
    /// The archive this file becomes: not yet downloaded, with no path.
    pub fn into_archive(self) -> (r: ModArchive)
        ensures
            r@ == (ArchiveView {
                file_uid: self.uid,
                file_name: self.file_name@,
                archive_path: None,
                status: StatusView::Unknown,
            }),
    {
        ModArchive { file_uid: self.uid, file_name: self.file_name, archive_path: None, status: FileStatus::Unknown }
    }
}

impl ModInfoResponse {
    /// The mod this answer describes, with no archives yet.
    pub fn into_mod(self) -> (r: Mod)
        ensures
            r@ == (ModView { uid: self.uid, name: self.name@, archives: Seq::empty() }),
    {
        let r = Mod { uid: self.uid, name: self.name, archives: Vec::new() };
        assert(r@.archives =~= Seq::<ArchiveView>::empty());
        r
    }
}

/// The source's name for the domain of a game.
pub open spec fn nexus_domain_of(game: Game) -> Seq<char> {
    match game {
        Game::SkyrimSE => "skyrimspecialedition"@,
    }
}

/// The source's domain of a game.
pub fn to_nexus_domain(game: &Game) -> (r: &'static str)
    ensures
        r@ == nexus_domain_of(*game),
{
    match game {
        Game::SkyrimSE => "skyrimspecialedition",
    }
}

/// The game of a domain already in lowercase; `Unsupported` for any other domain.
pub fn game_for_lowercase_domain(lowered: &str) -> (r: Result<Game, MomaError>)
    ensures
        lowered@ == nexus_domain_of(Game::SkyrimSE) ==> r == Ok::<Game, MomaError>(Game::SkyrimSE),
        lowered@ != nexus_domain_of(Game::SkyrimSE) ==> (r matches Err(e) && e.kind
            == ErrorKind::Unsupported),
{
    if same_text(lowered, "skyrimspecialedition") {
        Ok(Game::SkyrimSE)
    } else {
        Err(MomaError::new(ErrorKind::Unsupported, "Unsupported game domain"))
    }
}

/// The game of a source domain, in any letter case.
pub fn from_nexus_domain(domain: &str) -> (r: Result<Game, MomaError>)
    ensures
        lower_of(domain@) == nexus_domain_of(Game::SkyrimSE) ==> r == Ok::<Game, MomaError>(Game::SkyrimSE),
        lower_of(domain@) != nexus_domain_of(Game::SkyrimSE) ==> (r matches Err(e) && e.kind
            == ErrorKind::Unsupported),
{
    let lowered = lowercase(domain);
    game_for_lowercase_domain(lowered.as_str())
}

/// What the URL parser makes of `link`: `None` when it is not a URL, and
/// otherwise its host, its path segments (`None` when the URL cannot have a
/// path) and its decoded query pairs, in order.
pub uninterp spec fn url_parts_of(link: Seq<char>) -> Option<
    (Option<Seq<char>>, Option<Seq<Seq<char>>>, Seq<(Seq<char>, Seq<char>)>),
>;

/// The text of the parts of a parsed URL.
pub open spec fn url_parts_view(
    parts: Option<(Option<String>, Option<Vec<String>>, Vec<(String, String)>)>,
) -> Option<(Option<Seq<char>>, Option<Seq<Seq<char>>>, Seq<(Seq<char>, Seq<char>)>)> {
    match parts {
        None => None,
        Some((h, s, q)) => Some(
            (
                match h {
                    Some(x) => Some(x@),
                    None => None,
                },
                match s {
                    Some(x) => Some(strings_view(x@)),
                    None => None,
                },
                pairs_view(q@),
            ),
        ),
    }
}

/// Relies on reqwest::Url::parse (the url crate's parser) and on the parsed
/// URL's host_str, path_segments and query_pairs: what they give depends on
/// the text of the link alone.
#[verifier::external_body]
fn url_parts(link: &str) -> (r: Option<(Option<String>, Option<Vec<String>>, Vec<(String, String)>)>)
    ensures
        url_parts_view(r) == url_parts_of(link@),
{
    let url = reqwest::Url::parse(link).ok()?;
    let host = url.host_str().map(|h| h.to_string());
    let segments = url.path_segments().map(|parts| parts.map(|p| p.to_string()).collect());
    let query = url.query_pairs().into_owned().collect();
    Some((host, segments, query))
}

/// Reads an `nxm://` link: `Corrupt` when it is not a URL or not shaped as
/// `nxm://<game>/mods/<mod id>/files/<file id>?key=..&expires=..`, and
/// otherwise the link that `nxm_link_of` makes of its parts.
pub fn parse_nxm_url(link: &str) -> (r: Result<NxmLink, MomaError>)
    ensures
        match url_parts_of(link@) {
            None => r matches Err(e) && e.kind == ErrorKind::Corrupt,
            Some((h, s, q)) => match nxm_link_of(
                h,
                match s {
                    Some(x) => x,
                    None => Seq::empty(),
                },
                q,
            ) {
                Some((g, m, f, k, e)) => r matches Ok(l) && l.game@ == g && l.mod_id@ == m && l.file_id@ == f
                    && l.key@ == k && l.expires@ == e,
                None => r matches Err(e) && e.kind == ErrorKind::Corrupt,
            },
        },
{
    match url_parts(link) {
        None => Err(MomaError::new(ErrorKind::Corrupt, "Failed to parse NXM URL")),
        Some((host, segments, query)) => NxmLink::from_parts(host, segments, &query),
    }
}

/// The link that the parts of a parsed `nxm://` URL make: its host is the
/// game domain, its path is `mods/<mod id>/files/<file id>`, and its query
/// holds `key` and `expires` (the last of each, when repeated). `Corrupt`
/// when any part is missing or out of shape.
pub open spec fn nxm_link_of(
    host: Option<Seq<char>>,
    segments: Seq<Seq<char>>,
    query: Seq<(Seq<char>, Seq<char>)>,
) -> Option<(Seq<char>, Seq<char>, Seq<char>, Seq<char>, Seq<char>)> {
    if host is None || segments.len() < 4 || segments[0] != "mods"@ || segments[2] != "files"@
        || lookup(query, "key"@) is None || lookup(query, "expires"@) is None {
        None
    } else {
        Some(
            (
                host.unwrap(),
                segments[1],
                segments[3],
                lookup(query, "key"@).unwrap(),
                lookup(query, "expires"@).unwrap(),
            ),
        )
    }
}

impl NxmLink {
    /// The link that a parsed URL's host, path segments (`None` when the URL
    /// cannot have a path) and query pairs make.
    pub fn from_parts(host: Option<String>, segments: Option<Vec<String>>, query: &Vec<(String, String)>) -> (r:
        Result<NxmLink, MomaError>)
        ensures
            ({
                let hv = match host {
                    Some(h) => Some(h@),
                    None => None,
                };
                let sv = match segments {
                    Some(s) => strings_view(s@),
                    None => Seq::empty(),
                };
                match nxm_link_of(hv, sv, pairs_view(query@)) {
                    Some((g, m, f, k, e)) => r matches Ok(l) && l.game@ == g && l.mod_id@ == m
                        && l.file_id@ == f && l.key@ == k && l.expires@ == e,
                    None => r matches Err(e) && e.kind == ErrorKind::Corrupt,
                }
            }),
    {
        let game = match host {
            Some(h) => h,
            None => {
                return Err(MomaError::new(ErrorKind::Corrupt, "Missing game (host)"));
            },
        };
        let segments = match segments {
            Some(s) => s,
            None => {
                let none: Vec<String> = Vec::new();
                assert(strings_view(none@) =~= Seq::<Seq<char>>::empty());
                none
            },
        };
        if segments.len() < 4 {
            return Err(MomaError::new(ErrorKind::Corrupt, "Invalid NXM URL format"));
        }
        if !same_text(segments[0].as_str(), "mods") || !same_text(segments[2].as_str(), "files") {
            return Err(MomaError::new(ErrorKind::Corrupt, "Unexpected NXM URL path structure"));
        }
        let key = match crate::config::lookup_pair(query, "key") {
            Some(k) => k.clone(),
            None => {
                return Err(MomaError::new(ErrorKind::Corrupt, "Missing key parameter"));
            },
        };
        let expires = match crate::config::lookup_pair(query, "expires") {
            Some(e) => e.clone(),
            None => {
                return Err(MomaError::new(ErrorKind::Corrupt, "Missing expires parameter"));
            },
        };
        Ok(
            NxmLink {
                game,
                mod_id: segments[1].clone(),
                file_id: segments[3].clone(),
                key,
                expires,
            },
        )
    }
}

} // verus!

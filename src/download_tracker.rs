use vstd::prelude::*;

use crate::mod_list_store::{ModListStore, has_entry, lemma_same_keys_locate, lemma_status_at, locates, status_of};
use crate::text::{decimal, decimal_string, join, joined};
use crate::types::{ArchiveView, DownloadProgress, FileStatus, ModArchive, ModList, ModView, StatusView};
use crate::workspace::{Workspace, tracking_of};

verus! {

/// How long, in seconds, a heartbeat may go without an update before its
/// download counts as interrupted, unless configured otherwise.
pub const DEFAULT_STALE_AFTER_SECS: u64 = 60;

/// The least time, in milliseconds, between two heartbeats of one download.
pub const HEARTBEAT_INTERVAL_MS: u64 = 500;

/// What reading an archive's heartbeat file came to.
#[derive(Debug)]
pub enum Heartbeat {
    /// There is no heartbeat file.
    Missing,
    /// The file exists but does not hold a progress record.
    Invalid,
    /// The file holds this progress record.
    Progress(DownloadProgress),
}

pub enum HeartbeatView {
    Missing,
    Invalid,
    /// A record last updated at this time, in seconds since the epoch.
    Progress(u64),
}

impl View for Heartbeat {
    type V = HeartbeatView;

    open spec fn view(&self) -> HeartbeatView {
        match self {
            Heartbeat::Missing => HeartbeatView::Missing,
            Heartbeat::Invalid => HeartbeatView::Invalid,
            Heartbeat::Progress(p) => HeartbeatView::Progress(p.updated_at),
        }
    }
}

/// The heartbeat observed for `file_uid`: the last observation of it, and
/// `Missing` when there is none.
pub open spec fn heartbeat_for(observed: Seq<(u64, HeartbeatView)>, file_uid: u64) -> HeartbeatView
    decreases observed.len(),
{
    if observed.len() == 0 {
        HeartbeatView::Missing
    } else if observed.last().0 == file_uid {
        observed.last().1
    } else {
        heartbeat_for(observed.drop_last(), file_uid)
    }
}

pub open spec fn observations_view(observed: Seq<(u64, Heartbeat)>) -> Seq<(u64, HeartbeatView)> {
    observed.map_values(|o: (u64, Heartbeat)| (o.0, o.1@))
}

/// Seconds from `then` to `now`, zero when `then` lies ahead.
pub open spec fn age(now: u64, then: u64) -> nat {
    if now >= then {
        (now - then) as nat
    } else {
        0
    }
}

/// Why a download with this heartbeat counts as stuck, if it does.
pub open spec fn reap_reason(h: HeartbeatView, now: u64, stale_after: u64) -> Option<Seq<char>> {
    match h {
        HeartbeatView::Missing => Some("missing tracking file"@),
        HeartbeatView::Invalid => Some("invalid tracking file"@),
        HeartbeatView::Progress(updated_at) => if age(now, updated_at) > stale_after {
            Some("interrupted"@)
        } else {
            None
        },
    }
}

/// Whether a reap pass fails this archive: it is downloading and its heartbeat says stuck.
pub open spec fn is_reaped(
    a: ArchiveView,
    observed: Seq<(u64, HeartbeatView)>,
    now: u64,
    stale_after: u64,
) -> bool {
    a.status == StatusView::Downloading && reap_reason(heartbeat_for(observed, a.file_uid), now, stale_after) is Some
}

pub open spec fn reap_archive(
    a: ArchiveView,
    observed: Seq<(u64, HeartbeatView)>,
    now: u64,
    stale_after: u64,
) -> ArchiveView {
    if is_reaped(a, observed, now, stale_after) {
        ArchiveView {
            status: StatusView::Failed(
                reap_reason(heartbeat_for(observed, a.file_uid), now, stale_after).unwrap(),
            ),
            ..a
        }
    } else {
        a
    }
}

pub open spec fn reap_mod(m: ModView, observed: Seq<(u64, HeartbeatView)>, now: u64, stale_after: u64) -> ModView {
    ModView {
        archives: m.archives.map_values(|a: ArchiveView| reap_archive(a, observed, now, stale_after)),
        ..m
    }
}

/// The document after a reap pass.
pub open spec fn reaped_doc(
    doc: Seq<ModView>,
    observed: Seq<(u64, HeartbeatView)>,
    now: u64,
    stale_after: u64,
) -> Seq<ModView> {
    doc.map_values(|m: ModView| reap_mod(m, observed, now, stale_after))
}

/// The file uids a reap pass fails among `archives`, in order.
pub open spec fn reaped_in(
    archives: Seq<ArchiveView>,
    observed: Seq<(u64, HeartbeatView)>,
    now: u64,
    stale_after: u64,
) -> Seq<u64>
    decreases archives.len(),
{
    if archives.len() == 0 {
        Seq::empty()
    } else {
        reaped_in(archives.drop_last(), observed, now, stale_after) + if is_reaped(
            archives.last(),
            observed,
            now,
            stale_after,
        ) {
            seq![archives.last().file_uid]
        } else {
            Seq::<u64>::empty()
        }
    }
}

/// The file uids a reap pass fails in the whole document, in order.
pub open spec fn reaped_uids(
    doc: Seq<ModView>,
    observed: Seq<(u64, HeartbeatView)>,
    now: u64,
    stale_after: u64,
) -> Seq<u64>
    decreases doc.len(),
{
    if doc.len() == 0 {
        Seq::empty()
    } else {
        reaped_uids(doc.drop_last(), observed, now, stale_after) + reaped_in(
            doc.last().archives,
            observed,
            now,
            stale_after,
        )
    }
}

/// The keys of the downloading archives among `archives` of mod `mod_uid`, in order.
pub open spec fn downloading_in(mod_uid: u64, archives: Seq<ArchiveView>) -> Seq<(u64, u64)>
    decreases archives.len(),
{
    if archives.len() == 0 {
        Seq::empty()
    } else {
        downloading_in(mod_uid, archives.drop_last()) + if archives.last().status == StatusView::Downloading {
            seq![(mod_uid, archives.last().file_uid)]
        } else {
            Seq::<(u64, u64)>::empty()
        }
    }
}

/// The keys of every downloading archive of the document, in order.
pub open spec fn downloading_keys(doc: Seq<ModView>) -> Seq<(u64, u64)>
    decreases doc.len(),
{
    if doc.len() == 0 {
        Seq::empty()
    } else {
        downloading_keys(doc.drop_last()) + downloading_in(doc.last().uid, doc.last().archives)
    }
}

/// A downloading archive whose heartbeat is missing, unparsable, or older
/// than the threshold is failed with the reason that tells these apart, and
/// is among those whose heartbeat file the pass deletes; one whose heartbeat
/// is recent enough is left as it is and not counted.
pub proof fn lemma_reap_classification(
    mod_uid: u64,
    mod_name: Seq<char>,
    a: ArchiveView,
    observed: Seq<(u64, HeartbeatView)>,
    now: u64,
    stale_after: u64,
)
    requires
        a.status == StatusView::Downloading,
    ensures
        ({
            let doc = seq![ModView { uid: mod_uid, name: mod_name, archives: seq![a] }];
            let h = heartbeat_for(observed, a.file_uid);
            &&& h == HeartbeatView::Missing ==> reaped_doc(doc, observed, now, stale_after)[0].archives[0].status
                == StatusView::Failed("missing tracking file"@) && reaped_uids(doc, observed, now, stale_after)
                == seq![a.file_uid]
            &&& h == HeartbeatView::Invalid ==> reaped_doc(doc, observed, now, stale_after)[0].archives[0].status
                == StatusView::Failed("invalid tracking file"@) && reaped_uids(doc, observed, now, stale_after)
                == seq![a.file_uid]
            &&& (h matches HeartbeatView::Progress(t) && age(now, t) > stale_after) ==> reaped_doc(
                doc,
                observed,
                now,
                stale_after,
            )[0].archives[0].status == StatusView::Failed("interrupted"@) && reaped_uids(
                doc,
                observed,
                now,
                stale_after,
            ) == seq![a.file_uid]
            &&& (h matches HeartbeatView::Progress(t) && age(now, t) <= stale_after) ==> reaped_doc(
                doc,
                observed,
                now,
                stale_after,
            ) == doc && reaped_uids(doc, observed, now, stale_after).len() == 0
        }),
{
    let doc = seq![ModView { uid: mod_uid, name: mod_name, archives: seq![a] }];
    assert(doc.drop_last() =~= Seq::<ModView>::empty());
    assert(doc.last().archives.drop_last() =~= Seq::<ArchiveView>::empty());
    assert(reaped_uids(doc.drop_last(), observed, now, stale_after) =~= Seq::<u64>::empty());
    assert(reaped_in(doc.last().archives.drop_last(), observed, now, stale_after) =~= Seq::<u64>::empty());
    let h = heartbeat_for(observed, a.file_uid);
    if h matches HeartbeatView::Progress(t) && age(now, t) <= stale_after {
        assert(reap_mod(doc[0], observed, now, stale_after).archives =~= doc[0].archives);
        assert(reaped_doc(doc, observed, now, stale_after) =~= doc);
    }
}

proof fn lemma_reaped_in_lists(
    archives: Seq<ArchiveView>,
    observed: Seq<(u64, HeartbeatView)>,
    now: u64,
    stale_after: u64,
    k: int,
)
    requires
        0 <= k < archives.len(),
        is_reaped(archives[k], observed, now, stale_after),
    ensures
        reaped_in(archives, observed, now, stale_after).contains(archives[k].file_uid),
    decreases archives.len(),
{
    let front = reaped_in(archives.drop_last(), observed, now, stale_after);
    let whole = reaped_in(archives, observed, now, stale_after);
    if k == archives.len() - 1 {
        assert(whole[front.len() as int] == archives[k].file_uid);
    } else {
        assert(archives.drop_last()[k] == archives[k]);
        lemma_reaped_in_lists(archives.drop_last(), observed, now, stale_after, k);
        let j = choose|j: int| 0 <= j < front.len() && front[j] == archives[k].file_uid;
        assert(whole[j] == archives[k].file_uid);
    }
}

/// In any document, a reap pass fails every downloading archive whose
/// heartbeat is missing, unparsable or stale, with the reason that tells
/// these apart, and lists its file uid among those whose heartbeat it
/// deletes; it leaves every other archive exactly as it was.
pub proof fn lemma_reap_every_archive(
    doc: Seq<ModView>,
    observed: Seq<(u64, HeartbeatView)>,
    now: u64,
    stale_after: u64,
    i: int,
    k: int,
)
    requires
        0 <= i < doc.len(),
        0 <= k < doc[i].archives.len(),
    ensures
        ({
            let a = doc[i].archives[k];
            let after = reaped_doc(doc, observed, now, stale_after)[i].archives[k];
            &&& is_reaped(a, observed, now, stale_after) ==> after == ArchiveView {
                status: StatusView::Failed(reap_reason(heartbeat_for(observed, a.file_uid), now, stale_after).unwrap()),
                ..a
            }
            &&& is_reaped(a, observed, now, stale_after) ==> reaped_uids(doc, observed, now, stale_after).contains(
                a.file_uid,
            )
            &&& !is_reaped(a, observed, now, stale_after) ==> after == a
        }),
    decreases doc.len(),
{
    let a = doc[i].archives[k];
    if is_reaped(a, observed, now, stale_after) {
        let front = reaped_uids(doc.drop_last(), observed, now, stale_after);
        let whole = reaped_uids(doc, observed, now, stale_after);
        if i == doc.len() - 1 {
            lemma_reaped_in_lists(doc.last().archives, observed, now, stale_after, k);
            let tail = reaped_in(doc.last().archives, observed, now, stale_after);
            let j = choose|j: int| 0 <= j < tail.len() && tail[j] == a.file_uid;
            assert(whole[front.len() + j] == a.file_uid);
        } else {
            assert(doc.drop_last()[i] == doc[i]);
            lemma_reap_every_archive(doc.drop_last(), observed, now, stale_after, i, k);
            let j = choose|j: int| 0 <= j < front.len() && front[j] == a.file_uid;
            assert(whole[j] == a.file_uid);
        }
    }
}

/// A reap pass never moves an installed archive to another status: it only
/// fails archives that are downloading.
pub proof fn lemma_reap_keeps_installed(
    doc: Seq<ModView>,
    observed: Seq<(u64, HeartbeatView)>,
    now: u64,
    stale_after: u64,
    m: u64,
    f: u64,
)
    requires
        status_of(doc, m, f) == StatusView::Installed,
    ensures
        status_of(reaped_doc(doc, observed, now, stale_after), m, f) == StatusView::Installed,
{
    let new = reaped_doc(doc, observed, now, stale_after);
    assert(has_entry(doc, m, f));
    let (i, k) = choose|i: int, k: int| locates(doc, m, f, i, k);
    lemma_status_at(doc, m, f, i, k);
    assert(new[i].archives.len() == doc[i].archives.len());
    lemma_same_keys_locate(doc, new, m, f, i, k);
    lemma_status_at(new, m, f, i, k);
}

/// Finds the heartbeat observed for `file_uid`.
fn observed_heartbeat(observed: &Vec<(u64, Heartbeat)>, file_uid: u64) -> (r: Option<&Heartbeat>)
    ensures
        match r {
            Some(h) => heartbeat_for(observations_view(observed@), file_uid) == h@,
            None => heartbeat_for(observations_view(observed@), file_uid) == HeartbeatView::Missing,
        },
{
    let ghost all = observations_view(observed@);
    let mut i: usize = observed.len();
    assert(all.take(i as int) =~= all);
    while i > 0
        invariant
            i <= observed@.len(),
            all == observations_view(observed@),
            heartbeat_for(all, file_uid) == heartbeat_for(all.take(i as int), file_uid),
        decreases i,
    {
        assert(all.take(i as int).drop_last() =~= all.take(i - 1));
        if observed[i - 1].0 == file_uid {
            return Some(&observed[i - 1].1);
        }
        i = i - 1;
    }
    None
}

/// The reason text for a stuck download, if it is one.
fn stuck_reason(h: Option<&Heartbeat>, now: u64, stale_after: u64) -> (r: Option<&'static str>)
    ensures
        ({
            let hv = match h {
                Some(x) => x@,
                None => HeartbeatView::Missing,
            };
            match r {
                Some(s) => reap_reason(hv, now, stale_after) == Some(s@),
                None => reap_reason(hv, now, stale_after) is None,
            }
        }),
{
    match h {
        None => Some("missing tracking file"),
        Some(Heartbeat::Missing) => Some("missing tracking file"),
        Some(Heartbeat::Invalid) => Some("invalid tracking file"),
        Some(Heartbeat::Progress(p)) => {
            let age = now.saturating_sub(p.updated_at);
            if age > stale_after {
                Some("interrupted")
            } else {
                None
            }
        },
    }
}

/// One download in flight: counts what came in, and says when a heartbeat is due.
#[derive(Debug)]
pub struct Transfer {
    pub file_name: String,
    pub total_bytes: u64,
    pub started_at: u64,
    pub downloaded: u64,
    pub last_beat_ms: u64,
}

pub struct TransferView {
    pub total_bytes: u64,
    pub started_at: u64,
    pub downloaded: nat,
    pub last_beat_ms: u64,
}

impl View for Transfer {
    type V = TransferView;

    open spec fn view(&self) -> TransferView {
        TransferView {
            total_bytes: self.total_bytes,
            started_at: self.started_at,
            downloaded: self.downloaded as nat,
            last_beat_ms: self.last_beat_ms,
        }
    }
}

/// Whether a heartbeat is due at `now_ms` after the last one at `last_ms`.
pub open spec fn beat_due(last_ms: u64, now_ms: u64) -> bool {
    age(now_ms, last_ms) > HEARTBEAT_INTERVAL_MS
}

/// The transfer after a chunk of `len` bytes arrives at `now_ms`.
pub open spec fn after_chunk(t: TransferView, len: nat, now_ms: u64) -> TransferView {
    TransferView {
        downloaded: t.downloaded + len,
        last_beat_ms: if beat_due(t.last_beat_ms, now_ms) {
            now_ms
        } else {
            t.last_beat_ms
        },
        ..t
    }
}

/// The transfer after a run of chunks, each a length and the time it arrived.
pub open spec fn after_chunks(t: TransferView, chunks: Seq<(nat, u64)>) -> TransferView
    decreases chunks.len(),
{
    if chunks.len() == 0 {
        t
    } else {
        after_chunk(after_chunks(t, chunks.drop_last()), chunks.last().0, chunks.last().1)
    }
}

pub open spec fn total_len(chunks: Seq<(nat, u64)>) -> nat
    decreases chunks.len(),
{
    if chunks.len() == 0 {
        0
    } else {
        total_len(chunks.drop_last()) + chunks.last().0
    }
}

/// However the chunks of a source are cut and timed, the transfer counts
/// exactly the bytes of the source, and a source of no bytes counts none.
pub proof fn lemma_transfer_counts_source(t: TransferView, chunks: Seq<(nat, u64)>)
    ensures
        after_chunks(t, chunks).downloaded == t.downloaded + total_len(chunks),
        after_chunks(t, chunks).total_bytes == t.total_bytes,
        after_chunks(t, chunks).started_at == t.started_at,
    decreases chunks.len(),
{
    if chunks.len() > 0 {
        lemma_transfer_counts_source(t, chunks.drop_last());
    }
}

impl Transfer {
    /// A transfer of `total_bytes` expected bytes that starts now.
    pub fn start(file_name: String, total_bytes: u64, started_at: u64, now_ms: u64) -> (r: Transfer)
        ensures
            r@ == (TransferView { total_bytes, started_at, downloaded: 0, last_beat_ms: now_ms }),
            r.file_name@ == file_name@,
    {
        Transfer { file_name, total_bytes, started_at, downloaded: 0, last_beat_ms: now_ms }
    }

    /// Counts a chunk of `len` bytes that arrived at `now_ms` (`now_secs` in
    /// seconds), and returns the heartbeat record to write when one is due:
    /// more than the heartbeat interval after the last one.
    pub fn on_chunk(&mut self, len: usize, now_ms: u64, now_secs: u64) -> (r: Option<DownloadProgress>)
        requires
            old(self).downloaded + len <= u64::MAX,
        ensures
            final(self)@ == after_chunk(old(self)@, len as nat, now_ms),
            final(self).file_name == old(self).file_name,
            r is Some <==> beat_due(old(self).last_beat_ms, now_ms),
            r matches Some(p) ==> {
                &&& p.file_name@ == old(self).file_name@
                &&& p.progress_bytes == final(self).downloaded
                &&& p.total_bytes == old(self).total_bytes
                &&& p.started_at == old(self).started_at
                &&& p.updated_at == now_secs
            },
    {
        self.downloaded = self.downloaded + len as u64;
        if now_ms.saturating_sub(self.last_beat_ms) > HEARTBEAT_INTERVAL_MS {
            self.last_beat_ms = now_ms;
            Some(
                DownloadProgress {
                    file_name: self.file_name.clone(),
                    progress_bytes: self.downloaded,
                    total_bytes: self.total_bytes,
                    started_at: self.started_at,
                    updated_at: now_secs,
                },
            )
        } else {
            None
        }
    }
}

/// Keeps the heartbeats of downloads and recovers from downloads that stopped.
#[derive(Debug)]
pub struct DownloadTracker {
    workspace: Workspace,
    mod_list_store: ModListStore,
    stale_after: u64,
}

impl DownloadTracker {
    pub closed spec fn root(&self) -> Seq<char> {
        self.workspace.root_view()
    }

    pub closed spec fn store_root(&self) -> Seq<char> {
        self.mod_list_store.root()
    }

    pub closed spec fn stale_after_secs(&self) -> u64 {
        self.stale_after
    }

    /// A tracker that counts a download as interrupted after a minute without a heartbeat.
    pub fn new(workspace: Workspace, mod_list_store: ModListStore) -> (r: DownloadTracker)
        ensures
            r.root() == workspace.root_view(),
            r.store_root() == mod_list_store.root(),
            r.stale_after_secs() == DEFAULT_STALE_AFTER_SECS,
    {
        DownloadTracker { workspace, mod_list_store, stale_after: DEFAULT_STALE_AFTER_SECS }
    }

    /// A tracker with its own staleness threshold, in seconds.
    pub fn with_threshold(workspace: Workspace, mod_list_store: ModListStore, stale_after: u64) -> (r:
        DownloadTracker)
        ensures
            r.root() == workspace.root_view(),
            r.store_root() == mod_list_store.root(),
            r.stale_after_secs() == stale_after,
    {
        DownloadTracker { workspace, mod_list_store, stale_after }
    }

    /// The store whose document this tracker reaps.
    pub fn store(&self) -> (r: &ModListStore)
        ensures
            r.root() == self.store_root(),
    {
        &self.mod_list_store
    }

    /// The heartbeat file of an archive: `<file uid>.json` in the tracking directory.
    pub fn tracking_file(&self, file_uid: u64) -> (r: String)
        ensures
            r@ == joined(tracking_of(self.root()), decimal(file_uid as nat) + ".json"@),
    {
        let mut name = decimal_string(file_uid);
        name.append(".json");
        join(self.workspace.tracking_dir().as_str(), name.as_str())
    }

    /// The keys of every archive that is downloading, in document order: the
    /// archives whose heartbeat a reap pass needs.
    pub fn downloading_archives(&self, mod_list: &ModList) -> (r: Vec<(u64, u64)>)
        ensures
            r@ == downloading_keys(mod_list@),
    {
        let mut r: Vec<(u64, u64)> = Vec::new();
        let mut i: usize = 0;
        while i < mod_list.mods.len()
            invariant
                i <= mod_list@.len(),
                r@ == downloading_keys(mod_list@.take(i as int)),
            decreases mod_list@.len() - i,
        {
            let m = &mod_list.mods[i];
            let ghost mv = mod_list@[i as int];
            assert(mv.archives == m.archives@.map_values(|a: ModArchive| a@));
            let mut k: usize = 0;
            while k < m.archives.len()
                invariant
                    i < mod_list@.len(),
                    k <= m.archives@.len(),
                    mv == mod_list@[i as int],
                    mv.uid == m.uid,
                    mv.archives == m.archives@.map_values(|a: ModArchive| a@),
                    r@ == downloading_keys(mod_list@.take(i as int)) + downloading_in(
                        mv.uid,
                        mv.archives.take(k as int),
                    ),
                decreases m.archives@.len() - k,
            {
                assert(mv.archives.take(k + 1).drop_last() =~= mv.archives.take(k as int));
                assert(mv.archives[k as int] == m.archives@[k as int]@);
                if m.archives[k].status.is_downloading() {
                    r.push((m.uid, m.archives[k].file_uid));
                }
                assert(r@ =~= downloading_keys(mod_list@.take(i as int)) + downloading_in(
                    mv.uid,
                    mv.archives.take(k + 1),
                ));
                k = k + 1;
            }
            assert(mv.archives.take(mv.archives.len() as int) =~= mv.archives);
            assert(mod_list@.take(i + 1).drop_last() =~= mod_list@.take(i as int));
            i = i + 1;
        }
        assert(mod_list@.take(mod_list@.len() as int) =~= mod_list@);
        r
    }

    /// Fails every downloading archive whose heartbeat says it is stuck: the
    /// heartbeat is missing ("missing tracking file"), unparsable ("invalid
    /// tracking file"), or older than the threshold ("interrupted"). `observed`
    /// gives what reading each heartbeat file came to, by file uid; a file uid
    /// with no observation counts as missing. Returns the file uids failed, in
    /// document order: their number is what the pass reports, and their
    /// heartbeat files are the ones to delete. A bad heartbeat fails its own
    /// archive only; the pass goes on over the others.
    pub fn reset_stuck_downloads(&self, mod_list: &mut ModList, observed: &Vec<(u64, Heartbeat)>, now: u64) -> (r:
        Vec<u64>)
        ensures
            final(mod_list)@ == reaped_doc(
                old(mod_list)@,
                observations_view(observed@),
                now,
                self.stale_after_secs(),
            ),
            r@ == reaped_uids(old(mod_list)@, observations_view(observed@), now, self.stale_after_secs()),
    {
        let ghost before = mod_list@;
        let ghost obs = observations_view(observed@);
        let ghost st = self.stale_after;
        let mut r: Vec<u64> = Vec::new();
        let mut i: usize = 0;
        while i < mod_list.mods.len()
            invariant
                i <= mod_list@.len(),
                mod_list@.len() == before.len(),
                obs == observations_view(observed@),
                st == self.stale_after,
                forall|j: int| 0 <= j < i ==> #[trigger] mod_list@[j] == reap_mod(before[j], obs, now, st),
                forall|j: int| i <= j < before.len() ==> #[trigger] mod_list@[j] == before[j],
                r@ == reaped_uids(before.take(i as int), obs, now, st),
            decreases before.len() - i,
        {
            let ghost doc_before_mod = mod_list@;
            assert(mod_list@[i as int] == before[i as int]);
            let mut m = mod_list.mods.remove(i);
            let ghost m0 = m@;
            assert(m0 == before[i as int]);
            let mut k: usize = 0;
            while k < m.archives.len()
                invariant
                    k <= m.archives@.len(),
                    m.archives@.len() == m0.archives.len(),
                    m.uid == m0.uid,
                    m.name@ == m0.name,
                    obs == observations_view(observed@),
                    st == self.stale_after,
                    forall|l: int| 0 <= l < k ==> #[trigger] m.archives@[l]@ == reap_archive(
                        m0.archives[l],
                        obs,
                        now,
                        st,
                    ),
                    forall|l: int| k <= l < m0.archives.len() ==> #[trigger] m.archives@[l]@
                        == m0.archives[l],
                    r@ == reaped_uids(before.take(i as int), obs, now, st) + reaped_in(
                        m0.archives.take(k as int),
                        obs,
                        now,
                        st,
                    ),
                decreases m0.archives.len() - k,
            {
                assert(m.archives@[k as int]@ == m0.archives[k as int]);
                assert(m0.archives.take(k + 1).drop_last() =~= m0.archives.take(k as int));
                if m.archives[k].status.is_downloading() {
                    let h = observed_heartbeat(observed, m.archives[k].file_uid);
                    match stuck_reason(h, now, self.stale_after) {
                        Some(reason) => {
                            let mut a = m.archives.remove(k);
                            a.status = FileStatus::Failed(String::from_str(reason));
                            r.push(a.file_uid);
                            m.archives.insert(k, a);
                            assert(r@ =~= reaped_uids(before.take(i as int), obs, now, st) + reaped_in(
                                m0.archives.take(k + 1),
                                obs,
                                now,
                                st,
                            ));
                        },
                        None => {
                            assert(r@ =~= reaped_uids(before.take(i as int), obs, now, st) + reaped_in(
                                m0.archives.take(k + 1),
                                obs,
                                now,
                                st,
                            ));
                        },
                    }
                } else {
                    assert(r@ =~= reaped_uids(before.take(i as int), obs, now, st) + reaped_in(
                        m0.archives.take(k + 1),
                        obs,
                        now,
                        st,
                    ));
                }
                k = k + 1;
            }
            assert(m0.archives.take(m0.archives.len() as int) =~= m0.archives);
            assert(m@ == reap_mod(m0, obs, now, st)) by {
                assert(m@.archives =~= reap_mod(m0, obs, now, st).archives);
            }
            assert(before.take(i + 1).drop_last() =~= before.take(i as int));
            mod_list.mods.insert(i, m);
            assert(mod_list@ =~= doc_before_mod.update(i as int, reap_mod(m0, obs, now, st)));
            i = i + 1;
        }
        assert(before.take(before.len() as int) =~= before);
        assert(mod_list@ =~= reaped_doc(before, obs, now, st));
        r
    }
}

} // verus!

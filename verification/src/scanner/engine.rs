use std::sync::atomic::{AtomicBool, Ordering};
use std::sync::Arc;

use vstd::prelude::*;

use crate::db::DatabaseManager;
use crate::platform::TargetOs;
use crate::scanner::filter::{extension, file_name, sample_fits, supported_video, extension_of, file_name_of, FileSample, ScanFilter};
use crate::text::{from_chars, lowercase_chars, string_of, to_chars, unicode_lowercase};

verus! {

/// The number of discovered files written to the library in one transaction.
pub const SCAN_BATCH_SIZE: usize = 500;

/// A video file found by a scan, as it is first stored: not yet probed, so with no
/// duration or frame size.
#[derive(Debug, Clone)]
pub struct DiscoveredAsset {
    pub file_path: String,
    pub file_name: String,
    pub file_size: i64,
    pub format: String,
    pub created_at: i64,
    pub modified_at: i64,
    pub scanned_at: i64,
    pub status: String,
}

/// Walks folders for videos and writes what it finds to the library; `cancel` from any
/// clone stops a running scan.
#[derive(Clone)]
pub struct VideoScanEngine {
    db: DatabaseManager,
    is_cancelled: Arc<AtomicBool>,
}

/// The file name stored for a path: its final component, or `unknown`.
pub open spec fn stored_name(p: Seq<char>, os: TargetOs) -> Seq<char> {
    match file_name(p, os) {
        Some(n) => n,
        None => "unknown"@,
    }
}

/// The format stored for a path: its lower-cased extension, or nothing.
pub open spec fn stored_format(p: Seq<char>, os: TargetOs) -> Seq<char> {
    match file_name(p, os) {
        Some(n) => match extension(n) {
            Some(e) => unicode_lowercase(e),
            None => Seq::empty(),
        },
        None => Seq::empty(),
    }
}

/// Whether the walk takes an entry: it prunes blacklisted directories with everything
/// below them and keeps every other entry.
pub open spec fn walk_admits(dir_blacklisted: bool, is_dir: bool) -> bool {
    !(is_dir && dir_blacklisted)
}

/// The row a scan stores for a file, when it stores one: a supported video that is not
/// empty, named by its final component and formatted by its lower-cased extension, with
/// the scan time `now` for the times the system did not give.
pub open spec fn discovery(
    p: Seq<char>,
    os: TargetOs,
    sample: Option<FileSample>,
    size: u64,
    created: Option<i64>,
    modified: Option<i64>,
    now: i64,
    r: Option<DiscoveredAsset>,
) -> bool {
    if !supported_video(p, os, sample) || size as i64 == 0 {
        r is None
    } else {
        r matches Some(a) && {
            &&& a.file_path@ == p
            &&& a.file_name@ == stored_name(p, os)
            &&& a.file_size == size as i64
            &&& a.format@ == stored_format(p, os)
            &&& a.created_at == (match created {
                Some(t) => t,
                None => now,
            })
            &&& a.modified_at == (match modified {
                Some(t) => t,
                None => now,
            })
            &&& a.scanned_at == now
            &&& a.status@ == "discovered"@
        }
    }
}

impl VideoScanEngine {
    /// An engine that writes to `db`, not cancelled.
    pub fn new(db: DatabaseManager) -> (r: Self)
        ensures
            r.database()@ == db@,
    {
        VideoScanEngine { db, is_cancelled: Arc::new(AtomicBool::new(false)) }
    }

    pub closed spec fn database(&self) -> DatabaseManager {
        self.db
    }

    /// The library this engine writes to.
    pub fn db(&self) -> (r: &DatabaseManager)
        ensures
            r@ == self.database()@,
    {
        &self.db
    }

    /// Asks a running scan, on this engine or any clone of it, to stop.
    pub fn cancel(&self) {
        self.is_cancelled.store(true, Ordering::SeqCst);
    }

    /// Clears an earlier cancel; a scan does this when it starts.
    pub fn clear_cancel(&self) {
        self.is_cancelled.store(false, Ordering::SeqCst);
    }

    /// Whether a cancel has been asked for since the scan started. The flag is shared with
    /// other threads, so nothing is promised about the value read.
    pub fn is_cancelled(&self) -> bool {
        self.is_cancelled.load(Ordering::Relaxed)
    }

    /// Whether the directory walk takes the entry at `path`: a directory on the pruning
    /// blacklist is skipped with its whole subtree, anything else is taken.
    pub fn walk_admits_entry(path: &str, is_dir: bool) -> (r: bool)
        ensures
            r == walk_admits(crate::scanner::filter::directory_blacklisted(path@), is_dir),
    {
        if is_dir {
            !ScanFilter::is_blacklisted_directory(path)
        } else {
            true
        }
    }

    /// The row to store for the file at `path`, or `None` when the scan passes it over (not
    /// a supported video, or empty). `sample` is what reading the file gave, `size` its
    /// length, `created` and `modified` its times in seconds when the system gave them, and
    /// `now` the time of the scan.
    pub fn discover_file(
        path: &str,
        os: TargetOs,
        sample: Option<&FileSample>,
        size: u64,
        created: Option<i64>,
        modified: Option<i64>,
        now: i64,
    ) -> (r: Option<DiscoveredAsset>)
        requires
            sample_fits(match sample {
                Some(s) => Some(*s),
                None => None,
            }),
        ensures
            discovery(
                path@,
                os,
                match sample {
                    Some(s) => Some(*s),
                    None => None,
                },
                size,
                created,
                modified,
                now,
                r,
            ),
    {
        if !ScanFilter::is_supported_video_format(path, os, sample) {
            return None;
        }
        let file_size: i64 = size as i64;
        if file_size == 0 {
            return None;
        }
        let p = to_chars(path);
        let (name, format) = match file_name_of(&p, os) {
            Some(n) => {
                let f = match extension_of(&n) {
                    Some(e) => from_chars(&lowercase_chars(&e)),
                    None => String::new(),
                };
                (from_chars(&n), f)
            },
            None => (string_of("unknown"), String::new()),
        };
        Some(
            DiscoveredAsset {
                file_path: string_of(path),
                file_name: name,
                file_size,
                format,
                created_at: match created {
                    Some(t) => t,
                    None => now,
                },
                modified_at: match modified {
                    Some(t) => t,
                    None => now,
                },
                scanned_at: now,
                status: string_of("discovered"),
            },
        )
    }
}

/// One discovery added to the waiting rows: when that fills a batch, the batch is written
/// and nothing waits.
pub open spec fn batch_step(pending: Seq<DiscoveredAsset>, a: DiscoveredAsset) -> (Seq<DiscoveredAsset>, Option<Seq<DiscoveredAsset>>) {
    let p = pending.push(a);
    if p.len() >= SCAN_BATCH_SIZE {
        (Seq::empty(), Some(p))
    } else {
        (p, None)
    }
}

/// The batches written and the rows still waiting after the discoveries `found`, in order.
pub open spec fn batch_run(found: Seq<DiscoveredAsset>) -> (Seq<Seq<DiscoveredAsset>>, Seq<DiscoveredAsset>)
    decreases found.len(),
{
    if found.len() == 0 {
        (Seq::empty(), Seq::empty())
    } else {
        let (batches, pending) = batch_run(found.drop_last());
        let (rest, written) = batch_step(pending, found.last());
        (
            match written {
                Some(b) => batches.push(b),
                None => batches,
            },
            rest,
        )
    }
}

/// A scan writes every discovered file exactly once and in discovery order: the batches
/// written, followed by the rows the end of the scan writes, are the discoveries; every
/// batch holds `SCAN_BATCH_SIZE` rows and fewer rows are left for the end.
pub proof fn law_batches_keep_every_discovery(found: Seq<DiscoveredAsset>)
    ensures
        batch_run(found).0.flatten_alt() + batch_run(found).1 == found,
        forall|i: int| 0 <= i < batch_run(found).0.len() ==> (#[trigger] batch_run(found).0[i]).len() == SCAN_BATCH_SIZE,
        batch_run(found).1.len() < SCAN_BATCH_SIZE,
    decreases found.len(),
{
    if found.len() > 0 {
        let d = found.drop_last();
        law_batches_keep_every_discovery(d);
        let (batches, pending) = batch_run(d);
        let (rest, written) = batch_step(pending, found.last());
        match written {
            Some(b) => {
                let nb = batches.push(b);
                assert(nb.drop_last() =~= batches);
                assert(nb.flatten_alt() == batches.flatten_alt() + b);
                assert(nb.flatten_alt() + rest =~= batches.flatten_alt() + pending.push(found.last()));
                assert forall|i: int| 0 <= i < nb.len() implies (#[trigger] nb[i]).len() == SCAN_BATCH_SIZE by {
                    if i < batches.len() {
                        assert(nb[i] == batches[i]);
                    }
                }
            },
            None => {
                assert(batches.flatten_alt() + rest =~= batches.flatten_alt() + pending.push(found.last()));
            },
        }
        assert(found =~= d.push(found.last()));
        assert(batches.flatten_alt() + pending.push(found.last()) =~= (batches.flatten_alt() + pending).push(found.last()));
    }
}

/// Collects the files a scan discovers into batches of `SCAN_BATCH_SIZE` rows.
#[derive(Debug)]
pub struct ScanBatcher {
    pending: Vec<DiscoveredAsset>,
    total_found: usize,
}

impl View for ScanBatcher {
    /// The rows waiting for the next batch, and how many files were discovered in all.
    type V = (Seq<DiscoveredAsset>, nat);

    closed spec fn view(&self) -> (Seq<DiscoveredAsset>, nat) {
        (self.pending@, self.total_found as nat)
    }
}

impl ScanBatcher {
    /// Nothing discovered yet.
    pub fn new() -> (r: Self)
        ensures
            r@.0 == Seq::<DiscoveredAsset>::empty(),
            r@.1 == 0,
    {
        ScanBatcher { pending: Vec::new(), total_found: 0 }
    }

    /// How many files were discovered in all.
    pub fn total_found(&self) -> (r: usize)
        ensures
            r == self@.1,
    {
        self.total_found
    }

    /// Records a discovered file. When that fills a batch, the batch is returned (the
    /// waiting rows, then `asset`) and nothing waits any more.
    pub fn push(&mut self, asset: DiscoveredAsset) -> (r: Option<Vec<DiscoveredAsset>>)
        requires
            old(self)@.1 < usize::MAX,
        ensures
            final(self)@.1 == old(self)@.1 + 1,
            final(self)@.0 == batch_step(old(self)@.0, asset).0,
            match r {
                Some(b) => batch_step(old(self)@.0, asset).1 == Some(b@),
                None => batch_step(old(self)@.0, asset).1 is None,
            },
    {
        self.pending.push(asset);
        self.total_found = self.total_found + 1;
        if self.pending.len() >= SCAN_BATCH_SIZE {
            let mut batch: Vec<DiscoveredAsset> = Vec::new();
            std::mem::swap(&mut batch, &mut self.pending);
            Some(batch)
        } else {
            None
        }
    }

    /// Ends the scan: the rows still waiting, when there are any, and nothing waits any more.
    pub fn finish(&mut self) -> (r: Option<Vec<DiscoveredAsset>>)
        ensures
            final(self)@.1 == old(self)@.1,
            final(self)@.0 == Seq::<DiscoveredAsset>::empty(),
            old(self)@.0.len() == 0 ==> r is None,
            old(self)@.0.len() > 0 ==> (r matches Some(b) && b@ == old(self)@.0),
    {
        if self.pending.len() == 0 {
            None
        } else {
            let mut batch: Vec<DiscoveredAsset> = Vec::new();
            std::mem::swap(&mut batch, &mut self.pending);
            Some(batch)
        }
    }
}

} // verus!

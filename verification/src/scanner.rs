//! The scan result and the scan over collected records.
//!
//! The caller walks the root directory and hands the collector's
//! records here, together with the compiled name pattern and a digest
//! table for the hashing candidates. A scan over zero records is a
//! "source unavailable" failure, not an empty success. The result is
//! the flat, directory-agnostic record of a scan: every duplicate group
//! with its files, the total number of files seen, and the elapsed
//! time; the directory-partitioned plan is recomputed from it.

use vstd::prelude::*;
use crate::records::FileInfo;
use crate::pattern::Pattern;
use crate::detect::{DuplicateGroup, DuplicateGroupV, PathDigest, detect_spec, detect_with_digests};
use crate::errors::Error;
use crate::arith::{clamp_usize, sat_add_usize};

verus! {

/// The persisted image of one scan.
#[derive(Debug)]
pub struct ScanResult {
    /// How many files the collector saw.
    pub total_files_count: usize,
    /// How many files sit in duplicate groups, saturating.
    pub duplicate_count: usize,
    /// The duplicate groups, each of two or more files.
    pub duplicate_files: Vec<DuplicateGroup>,
    /// How long the scan took, in milliseconds.
    pub scan_time: u64,
}

/// Mathematical image of a [`ScanResult`].
#[verifier::ext_equal]
pub ghost struct ScanResultV {
    pub total_files_count: usize,
    pub duplicate_count: usize,
    pub duplicate_files: Seq<DuplicateGroupV>,
    pub scan_time: u64,
}

impl View for ScanResult {
    type V = ScanResultV;

    open spec fn view(&self) -> ScanResultV {
        ScanResultV {
            total_files_count: self.total_files_count,
            duplicate_count: self.duplicate_count,
            duplicate_files: self.duplicate_files.deep_view(),
            scan_time: self.scan_time,
        }
    }
}

/// The number of files over all duplicate groups.
pub open spec fn total_group_files(gs: Seq<DuplicateGroupV>) -> int
    decreases gs.len(),
{
    if gs.len() == 0 {
        0
    } else {
        total_group_files(gs.drop_last()) + gs.last().files.len()
    }
}

pub proof fn lemma_total_group_files_nonneg(gs: Seq<DuplicateGroupV>)
    ensures
        total_group_files(gs) >= 0,
    decreases gs.len(),
{
    if gs.len() > 0 {
        lemma_total_group_files_nonneg(gs.drop_last());
    }
}

/// Counts the files over all duplicate groups, saturating.
fn count_group_files(gs: &Vec<DuplicateGroup>) -> (r: usize)
    ensures
        r == clamp_usize(total_group_files(gs.deep_view())),
{
    let ghost gv = gs.deep_view();
    let mut count: usize = 0;
    let mut i: usize = 0;
    proof {
        assert(gv.take(0) =~= Seq::<DuplicateGroupV>::empty());
    }
    while i < gs.len()
        invariant
            i <= gs.len(),
            gv == gs.deep_view(),
            count == clamp_usize(total_group_files(gv.take(i as int))),
        decreases gs.len() - i,
    {
        proof {
            assert(gv.take(i + 1).drop_last() =~= gv.take(i as int));
            assert(gv.take(i + 1).last() == gv[i as int]);
            lemma_total_group_files_nonneg(gv.take(i as int));
        }
        count = sat_add_usize(count, gs[i].files.len());
        i = i + 1;
    }
    proof {
        assert(gv.take(gs.len() as int) =~= gv);
    }
    count
}

impl ScanResult {
    /// Assembles a scan result; the duplicate count is tallied from the
    /// groups.
    pub fn new(
        total_files_count: usize,
        duplicate_files: Vec<DuplicateGroup>,
        scan_time: u64,
    ) -> (r: ScanResult)
        ensures
            r@.total_files_count == total_files_count,
            r@.duplicate_files == duplicate_files.deep_view(),
            r@.duplicate_count == clamp_usize(total_group_files(duplicate_files.deep_view())),
            r@.scan_time == scan_time,
    {
        let duplicate_count = count_group_files(&duplicate_files);
        ScanResult { total_files_count, duplicate_count, duplicate_files, scan_time }
    }
}

/// Scans collected records for duplicates: zero records is a source
/// failure; otherwise the layered detector runs, with digests for the
/// hashing candidates taken from the table, and the result carries
/// every group found.
pub fn scan_records(
    records: &Vec<FileInfo>,
    pattern: &Pattern,
    digests: &Vec<PathDigest>,
    scan_time: u64,
) -> (r: Result<ScanResult, Error>)
    ensures
        r is Ok <==> records@.len() > 0,
        r matches Ok(sr) ==> {
            &&& sr@.duplicate_files == detect_spec(records.deep_view(), pattern@, digests.deep_view())
            &&& sr@.total_files_count == records@.len()
            &&& sr@.duplicate_count == clamp_usize(total_group_files(sr@.duplicate_files))
            &&& sr@.scan_time == scan_time
            &&& forall|i: int|
                0 <= i < sr@.duplicate_files.len() ==> (#[trigger] sr@.duplicate_files[i]).files.len() >= 2
        },
        r matches Err(e) ==> e is SourceUnavailable,
{
    if records.len() == 0 {
        return Err(Error::SourceUnavailable);
    }
    let groups = detect_with_digests(records, pattern, digests);
    Ok(ScanResult::new(records.len(), groups, scan_time))
}

} // verus!

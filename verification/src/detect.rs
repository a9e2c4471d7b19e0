//! The layered duplicate detector.
//!
//! Hashing every file is too slow, so detection runs in two phases.
//! First, records are grouped by the base identity of their names; every
//! identity shared by two or more records becomes a duplicate group
//! outright, with no content read. The remaining records are grouped by
//! exact size, and only sizes shared by two or more records stay
//! candidates for hashing. The caller digests the candidates' contents
//! (a file that cannot be read is simply absent from the digest table)
//! and the candidates are regrouped by digest; every digest shared by
//! two or more records becomes a duplicate group. The result is the
//! union of both phases, every group of size at least two, and a
//! function of the records, the pattern and the digest table alone.

use vstd::prelude::*;
use crate::records::{FileInfo, FileInfoV, name_of, clone_records, file_name};
use crate::pattern::{Pattern, base_identity_spec, base_identity};
use crate::group::{
    GroupKey, GroupKeyV, Keyed, KeyedV, Bucket, BucketV, group_spec, group_by_key,
};
use crate::hasher::{hex_of, to_hex};
use crate::bytes::{clone_bytes, bytes_eq};

verus! {

/// Two or more files judged copies of one another, under the key (a
/// name identity or a digest rendering) that joined them.
#[derive(Debug, PartialEq, Eq)]
pub struct DuplicateGroup {
    pub key: Vec<u8>,
    pub files: Vec<FileInfo>,
}

/// Mathematical image of a [`DuplicateGroup`].
#[verifier::ext_equal]
pub ghost struct DuplicateGroupV {
    pub key: Seq<u8>,
    pub files: Seq<FileInfoV>,
}

impl View for DuplicateGroup {
    type V = DuplicateGroupV;

    open spec fn view(&self) -> DuplicateGroupV {
        DuplicateGroupV { key: self.key@, files: self.files.deep_view() }
    }
}

impl DeepView for DuplicateGroup {
    type V = DuplicateGroupV;

    open spec fn deep_view(&self) -> DuplicateGroupV {
        self@
    }
}

/// A record together with the digest of its content.
#[derive(Debug)]
pub struct HashedRecord {
    pub rec: FileInfo,
    pub digest: Vec<u8>,
}

/// Mathematical image of a [`HashedRecord`].
#[verifier::ext_equal]
pub ghost struct HashedRecordV {
    pub rec: FileInfoV,
    pub digest: Seq<u8>,
}

impl View for HashedRecord {
    type V = HashedRecordV;

    open spec fn view(&self) -> HashedRecordV {
        HashedRecordV { rec: self.rec@, digest: self.digest@ }
    }
}

impl DeepView for HashedRecord {
    type V = HashedRecordV;

    open spec fn deep_view(&self) -> HashedRecordV {
        self@
    }
}

/// One entry of a digest table: a path and the digest of that file's
/// content.
#[derive(Debug)]
pub struct PathDigest {
    pub path: Vec<u8>,
    pub digest: Vec<u8>,
}

/// Mathematical image of a [`PathDigest`].
#[verifier::ext_equal]
pub ghost struct PathDigestV {
    pub path: Seq<u8>,
    pub digest: Seq<u8>,
}

impl View for PathDigest {
    type V = PathDigestV;

    open spec fn view(&self) -> PathDigestV {
        PathDigestV { path: self.path@, digest: self.digest@ }
    }
}

impl DeepView for PathDigest {
    type V = PathDigestV;

    open spec fn deep_view(&self) -> PathDigestV {
        self@
    }
}

/// Each record keyed by the base identity of its file name.
pub open spec fn identity_keyed_spec(records: Seq<FileInfoV>, pattern: Seq<char>) -> Seq<KeyedV> {
    records.map_values(
        |r: FileInfoV|
            KeyedV { key: GroupKeyV::Bytes(base_identity_spec(pattern, name_of(r.path))), rec: r },
    )
}

/// Each record keyed by its exact size.
pub open spec fn size_keyed_spec(records: Seq<FileInfoV>) -> Seq<KeyedV> {
    records.map_values(|r: FileInfoV| KeyedV { key: GroupKeyV::Size(r.size), rec: r })
}

/// Each hashed record keyed by the hexadecimal rendering of its digest.
pub open spec fn digest_keyed_spec(hashed: Seq<HashedRecordV>) -> Seq<KeyedV> {
    hashed.map_values(
        |h: HashedRecordV| KeyedV { key: GroupKeyV::Bytes(hex_of(h.digest)), rec: h.rec },
    )
}

/// The records of buckets with fewer than two members, in bucket order.
pub open spec fn singleton_items(buckets: Seq<BucketV>) -> Seq<FileInfoV>
    decreases buckets.len(),
{
    if buckets.len() == 0 {
        Seq::empty()
    } else {
        singleton_items(buckets.drop_last()) + if buckets.last().items.len() < 2 {
            buckets.last().items
        } else {
            Seq::empty()
        }
    }
}

/// The records of buckets with two or more members, in bucket order.
pub open spec fn plural_items(buckets: Seq<BucketV>) -> Seq<FileInfoV>
    decreases buckets.len(),
{
    if buckets.len() == 0 {
        Seq::empty()
    } else {
        plural_items(buckets.drop_last()) + if buckets.last().items.len() >= 2 {
            buckets.last().items
        } else {
            Seq::empty()
        }
    }
}

/// The byte key of a bucket; size keys never reach a duplicate group.
pub open spec fn key_bytes(k: GroupKeyV) -> Seq<u8> {
    match k {
        GroupKeyV::Bytes(b) => b,
        GroupKeyV::Size(_) => Seq::empty(),
    }
}

/// The buckets of two or more records, as duplicate groups.
pub open spec fn dup_groups_spec(buckets: Seq<BucketV>) -> Seq<DuplicateGroupV>
    decreases buckets.len(),
{
    if buckets.len() == 0 {
        Seq::empty()
    } else {
        dup_groups_spec(buckets.drop_last()) + if buckets.last().items.len() >= 2 {
            seq![DuplicateGroupV { key: key_bytes(buckets.last().key), files: buckets.last().items }]
        } else {
            Seq::empty()
        }
    }
}

/// The first digest recorded for a path.
pub open spec fn lookup_digest_spec(table: Seq<PathDigestV>, path: Seq<u8>) -> Option<Seq<u8>>
    decreases table.len(),
{
    if table.len() == 0 {
        None
    } else if table.first().path == path {
        Some(table.first().digest)
    } else {
        lookup_digest_spec(table.drop_first(), path)
    }
}

/// The candidates that have a digest in the table, with it attached.
pub open spec fn attach_digests_spec(candidates: Seq<FileInfoV>, table: Seq<PathDigestV>) -> Seq<
    HashedRecordV,
>
    decreases candidates.len(),
{
    if candidates.len() == 0 {
        Seq::empty()
    } else {
        let pre = attach_digests_spec(candidates.drop_last(), table);
        match lookup_digest_spec(table, candidates.last().path) {
            Some(d) => pre.push(HashedRecordV { rec: candidates.last(), digest: d }),
            None => pre,
        }
    }
}

/// The groups the pattern phase accepts.
pub open spec fn pattern_groups_spec(records: Seq<FileInfoV>, pattern: Seq<char>) -> Seq<
    DuplicateGroupV,
> {
    dup_groups_spec(group_spec(identity_keyed_spec(records, pattern)))
}

/// The records the pattern phase leaves for the content phase.
pub open spec fn pattern_remainder_spec(records: Seq<FileInfoV>, pattern: Seq<char>) -> Seq<
    FileInfoV,
> {
    singleton_items(group_spec(identity_keyed_spec(records, pattern)))
}

/// The remainder records whose size is shared, so their content is
/// worth hashing.
pub open spec fn hash_candidates_spec(remainder: Seq<FileInfoV>) -> Seq<FileInfoV> {
    plural_items(group_spec(size_keyed_spec(remainder)))
}

/// The groups the content phase accepts.
pub open spec fn content_groups_spec(hashed: Seq<HashedRecordV>) -> Seq<DuplicateGroupV> {
    dup_groups_spec(group_spec(digest_keyed_spec(hashed)))
}

/// The whole detection: pattern groups, then content groups over the
/// candidates that have a digest in the table.
pub open spec fn detect_spec(
    records: Seq<FileInfoV>,
    pattern: Seq<char>,
    table: Seq<PathDigestV>,
) -> Seq<DuplicateGroupV> {
    pattern_groups_spec(records, pattern) + content_groups_spec(
        attach_digests_spec(
            hash_candidates_spec(pattern_remainder_spec(records, pattern)),
            table,
        ),
    )
}

/// Every group a bucket sequence yields has at least two files.
pub proof fn lemma_dup_groups_plural(buckets: Seq<BucketV>)
    ensures
        forall|i: int|
            0 <= i < dup_groups_spec(buckets).len() ==> #[trigger] dup_groups_spec(
                buckets,
            )[i].files.len() >= 2,
    decreases buckets.len(),
{
    if buckets.len() > 0 {
        let bd = buckets.drop_last();
        lemma_dup_groups_plural(bd);
        let pre = dup_groups_spec(bd);
        let whole = dup_groups_spec(buckets);
        assert forall|i: int| 0 <= i < whole.len() implies #[trigger] whole[i].files.len()
            >= 2 by {
            if i < pre.len() {
                assert(whole[i] == pre[i]);
            }
        }
    }
}

/// Keys each record by the base identity of its file name.
fn identity_keyed(records: &Vec<FileInfo>, pattern: &Pattern) -> (r: Vec<Keyed>)
    ensures
        r.deep_view() == identity_keyed_spec(records.deep_view(), pattern@),
{
    let ghost goal = identity_keyed_spec(records.deep_view(), pattern@);
    let mut out: Vec<Keyed> = Vec::new();
    let mut i: usize = 0;
    while i < records.len()
        invariant
            i <= records.len(),
            goal == identity_keyed_spec(records.deep_view(), pattern@),
            goal.len() == records.deep_view().len(),
            out.deep_view() =~= goal.take(i as int),
        decreases records.len() - i,
    {
        let ghost pre = out.deep_view();
        let rec = records[i].clone();
        let name = file_name(&rec.path);
        let ident = base_identity(pattern, &name);
        out.push(Keyed { key: GroupKey::Bytes(ident), rec });
        proof {
            assert(pre.len() == i);
            assert(goal[i as int] == KeyedV {
                key: GroupKeyV::Bytes(
                    base_identity_spec(pattern@, name_of(records.deep_view()[i as int].path)),
                ),
                rec: records.deep_view()[i as int],
            });
            assert(out.deep_view() =~= goal.take(i + 1));
        }
        i = i + 1;
    }
    proof {
        assert(goal.take(records.len() as int) =~= goal);
    }
    out
}

/// Keys each record by its exact size.
fn size_keyed(records: &Vec<FileInfo>) -> (r: Vec<Keyed>)
    ensures
        r.deep_view() == size_keyed_spec(records.deep_view()),
{
    let ghost goal = size_keyed_spec(records.deep_view());
    let mut out: Vec<Keyed> = Vec::new();
    let mut i: usize = 0;
    while i < records.len()
        invariant
            i <= records.len(),
            goal == size_keyed_spec(records.deep_view()),
            goal.len() == records.deep_view().len(),
            out.deep_view() =~= goal.take(i as int),
        decreases records.len() - i,
    {
        let ghost pre = out.deep_view();
        let rec = records[i].clone();
        let size = rec.size;
        out.push(Keyed { key: GroupKey::Size(size), rec });
        proof {
            assert(pre.len() == i);
            assert(out.deep_view() =~= goal.take(i + 1));
        }
        i = i + 1;
    }
    proof {
        assert(goal.take(records.len() as int) =~= goal);
    }
    out
}

/// Keys each hashed record by the hexadecimal rendering of its digest.
fn digest_keyed(hashed: &Vec<HashedRecord>) -> (r: Vec<Keyed>)
    ensures
        r.deep_view() == digest_keyed_spec(hashed.deep_view()),
{
    let ghost goal = digest_keyed_spec(hashed.deep_view());
    let mut out: Vec<Keyed> = Vec::new();
    let mut i: usize = 0;
    while i < hashed.len()
        invariant
            i <= hashed.len(),
            goal == digest_keyed_spec(hashed.deep_view()),
            goal.len() == hashed.deep_view().len(),
            out.deep_view() =~= goal.take(i as int),
        decreases hashed.len() - i,
    {
        let ghost pre = out.deep_view();
        let rec = hashed[i].rec.clone();
        let hex = to_hex(&hashed[i].digest);
        out.push(Keyed { key: GroupKey::Bytes(hex), rec });
        proof {
            assert(pre.len() == i);
            assert(out.deep_view() =~= goal.take(i + 1));
        }
        i = i + 1;
    }
    proof {
        assert(goal.take(hashed.len() as int) =~= goal);
    }
    out
}

/// Collects the records of buckets with fewer than two members.
fn singleton_records(buckets: &Vec<Bucket>) -> (r: Vec<FileInfo>)
    ensures
        r.deep_view() == singleton_items(buckets.deep_view()),
{
    let ghost bs = buckets.deep_view();
    let mut out: Vec<FileInfo> = Vec::new();
    let mut i: usize = 0;
    proof {
        assert(bs.take(0) =~= Seq::<BucketV>::empty());
        assert(out.deep_view() =~= singleton_items(bs.take(0)));
    }
    while i < buckets.len()
        invariant
            i <= buckets.len(),
            bs == buckets.deep_view(),
            out.deep_view() == singleton_items(bs.take(i as int)),
        decreases buckets.len() - i,
    {
        let ghost pre = out.deep_view();
        proof {
            assert(bs.take(i + 1).drop_last() =~= bs.take(i as int));
            assert(bs.take(i + 1).last() == bs[i as int]);
        }
        if buckets[i].items.len() < 2 {
            let mut cl = clone_records(&buckets[i].items);
            out.append(&mut cl);
            proof {
                assert(out.deep_view() =~= pre + bs[i as int].items);
            }
        } else {
            proof {
                assert(singleton_items(bs.take(i + 1)) =~= pre + Seq::<FileInfoV>::empty());
            }
        }
        i = i + 1;
    }
    proof {
        assert(bs.take(buckets.len() as int) =~= bs);
    }
    out
}

/// Collects the records of buckets with two or more members.
fn plural_records(buckets: &Vec<Bucket>) -> (r: Vec<FileInfo>)
    ensures
        r.deep_view() == plural_items(buckets.deep_view()),
{
    let ghost bs = buckets.deep_view();
    let mut out: Vec<FileInfo> = Vec::new();
    let mut i: usize = 0;
    proof {
        assert(bs.take(0) =~= Seq::<BucketV>::empty());
        assert(out.deep_view() =~= plural_items(bs.take(0)));
    }
    while i < buckets.len()
        invariant
            i <= buckets.len(),
            bs == buckets.deep_view(),
            out.deep_view() == plural_items(bs.take(i as int)),
        decreases buckets.len() - i,
    {
        let ghost pre = out.deep_view();
        proof {
            assert(bs.take(i + 1).drop_last() =~= bs.take(i as int));
            assert(bs.take(i + 1).last() == bs[i as int]);
        }
        if buckets[i].items.len() >= 2 {
            let mut cl = clone_records(&buckets[i].items);
            out.append(&mut cl);
            proof {
                assert(out.deep_view() =~= pre + bs[i as int].items);
            }
        } else {
            proof {
                assert(plural_items(bs.take(i + 1)) =~= pre + Seq::<FileInfoV>::empty());
            }
        }
        i = i + 1;
    }
    proof {
        assert(bs.take(buckets.len() as int) =~= bs);
    }
    out
}

/// Turns the buckets of two or more records into duplicate groups.
fn dup_groups(buckets: &Vec<Bucket>) -> (r: Vec<DuplicateGroup>)
    ensures
        r.deep_view() == dup_groups_spec(buckets.deep_view()),
{
    let ghost bs = buckets.deep_view();
    let mut out: Vec<DuplicateGroup> = Vec::new();
    let mut i: usize = 0;
    proof {
        assert(bs.take(0) =~= Seq::<BucketV>::empty());
        assert(out.deep_view() =~= dup_groups_spec(bs.take(0)));
    }
    while i < buckets.len()
        invariant
            i <= buckets.len(),
            bs == buckets.deep_view(),
            out.deep_view() == dup_groups_spec(bs.take(i as int)),
        decreases buckets.len() - i,
    {
        let ghost pre = out.deep_view();
        proof {
            assert(bs.take(i + 1).drop_last() =~= bs.take(i as int));
            assert(bs.take(i + 1).last() == bs[i as int]);
        }
        if buckets[i].items.len() >= 2 {
            let key = match &buckets[i].key {
                GroupKey::Bytes(b) => clone_bytes(b),
                GroupKey::Size(_) => Vec::new(),
            };
            let files = clone_records(&buckets[i].items);
            out.push(DuplicateGroup { key, files });
            proof {
                assert(out.deep_view() =~= pre + seq![
                    DuplicateGroupV { key: key_bytes(bs[i as int].key), files: bs[i as int].items },
                ]);
            }
        } else {
            proof {
                assert(dup_groups_spec(bs.take(i + 1)) =~= pre + Seq::<DuplicateGroupV>::empty());
            }
        }
        i = i + 1;
    }
    proof {
        assert(bs.take(buckets.len() as int) =~= bs);
    }
    out
}

/// Looks up the first digest recorded for a path.
fn lookup_digest(table: &Vec<PathDigest>, path: &Vec<u8>) -> (r: Option<Vec<u8>>)
    ensures
        match r {
            Some(d) => lookup_digest_spec(table.deep_view(), path@) == Some(d@),
            None => lookup_digest_spec(table.deep_view(), path@) is None,
        },
{
    let ghost t = table.deep_view();
    let mut i: usize = 0;
    proof {
        assert(t.skip(0) =~= t);
    }
    while i < table.len()
        invariant
            i <= table.len(),
            t == table.deep_view(),
            lookup_digest_spec(t, path@) == lookup_digest_spec(t.skip(i as int), path@),
        decreases table.len() - i,
    {
        proof {
            assert(t.skip(i as int).first() == t[i as int]);
        }
        if bytes_eq(&table[i].path, path) {
            return Some(clone_bytes(&table[i].digest));
        }
        proof {
            assert(t.skip(i as int).drop_first() =~= t.skip(i + 1));
        }
        i = i + 1;
    }
    proof {
        assert(t.skip(table.len() as int) =~= Seq::<PathDigestV>::empty());
    }
    None
}

/// Attaches digests from the table to the candidates that have one.
fn attach_digests(candidates: &Vec<FileInfo>, table: &Vec<PathDigest>) -> (r: Vec<HashedRecord>)
    ensures
        r.deep_view() == attach_digests_spec(candidates.deep_view(), table.deep_view()),
{
    let ghost cs = candidates.deep_view();
    let ghost t = table.deep_view();
    let mut out: Vec<HashedRecord> = Vec::new();
    let mut i: usize = 0;
    proof {
        assert(cs.take(0) =~= Seq::<FileInfoV>::empty());
        assert(out.deep_view() =~= attach_digests_spec(cs.take(0), t));
    }
    while i < candidates.len()
        invariant
            i <= candidates.len(),
            cs == candidates.deep_view(),
            t == table.deep_view(),
            out.deep_view() == attach_digests_spec(cs.take(i as int), t),
        decreases candidates.len() - i,
    {
        let ghost pre = out.deep_view();
        proof {
            assert(cs.take(i + 1).drop_last() =~= cs.take(i as int));
            assert(cs.take(i + 1).last() == cs[i as int]);
        }
        match lookup_digest(table, &candidates[i].path) {
            Some(digest) => {
                let rec = candidates[i].clone();
                out.push(HashedRecord { rec, digest });
                proof {
                    assert(out.deep_view() =~= pre.push(
                        HashedRecordV { rec: cs[i as int], digest: out@[out@.len() - 1].digest@ },
                    ));
                    assert(out.deep_view() =~~= attach_digests_spec(cs.take(i + 1), t));
                }
            },
            None => {
                proof {
                    assert(attach_digests_spec(cs.take(i + 1), t) == pre);
                }
            },
        }
        i = i + 1;
    }
    proof {
        assert(cs.take(candidates.len() as int) =~= cs);
    }
    out
}

/// The pattern phase: groups accepted by name identity alone, and the
/// remainder left for the content phase.
pub fn pattern_phase(records: &Vec<FileInfo>, pattern: &Pattern) -> (r: (
    Vec<DuplicateGroup>,
    Vec<FileInfo>,
))
    ensures
        r.0.deep_view() == pattern_groups_spec(records.deep_view(), pattern@),
        r.1.deep_view() == pattern_remainder_spec(records.deep_view(), pattern@),
{
    let keyed = identity_keyed(records, pattern);
    let buckets = group_by_key(&keyed);
    let groups = dup_groups(&buckets);
    let remainder = singleton_records(&buckets);
    (groups, remainder)
}

/// The remainder records whose exact size is shared, so hashing their
/// content can tell copies apart; records of unique size are pruned.
pub fn hashing_candidates(remainder: &Vec<FileInfo>) -> (r: Vec<FileInfo>)
    ensures
        r.deep_view() == hash_candidates_spec(remainder.deep_view()),
{
    let keyed = size_keyed(remainder);
    let buckets = group_by_key(&keyed);
    plural_records(&buckets)
}

/// The content phase: groups of records whose digests coincide.
pub fn content_phase(hashed: &Vec<HashedRecord>) -> (r: Vec<DuplicateGroup>)
    ensures
        r.deep_view() == content_groups_spec(hashed.deep_view()),
{
    let keyed = digest_keyed(hashed);
    let buckets = group_by_key(&keyed);
    dup_groups(&buckets)
}

/// Runs the whole detection over records whose candidate digests are
/// supplied in a table; a candidate without a digest (its file could
/// not be read) is dropped from consideration. Every group returned
/// holds at least two files.
pub fn detect_with_digests(
    records: &Vec<FileInfo>,
    pattern: &Pattern,
    table: &Vec<PathDigest>,
) -> (r: Vec<DuplicateGroup>)
    ensures
        r.deep_view() == detect_spec(records.deep_view(), pattern@, table.deep_view()),
        forall|i: int| 0 <= i < r.deep_view().len() ==> #[trigger] r.deep_view()[i].files.len() >= 2,
{
    let (mut groups, remainder) = pattern_phase(records, pattern);
    let candidates = hashing_candidates(&remainder);
    let hashed = attach_digests(&candidates, table);
    let mut content = content_phase(&hashed);
    let ghost g1 = groups.deep_view();
    let ghost g2 = content.deep_view();
    groups.append(&mut content);
    proof {
        assert(groups.deep_view() =~= g1 + g2);
        lemma_dup_groups_plural(group_spec(identity_keyed_spec(records.deep_view(), pattern@)));
        lemma_dup_groups_plural(group_spec(digest_keyed_spec(hashed.deep_view())));
    }
    groups
}

/// Detection is idempotent: run twice over one unchanged file set, with
/// one pattern and one digest table, it yields identical groups.
pub proof fn lemma_detection_idempotent(
    records1: Seq<FileInfoV>,
    records2: Seq<FileInfoV>,
    pattern: Seq<char>,
    table: Seq<PathDigestV>,
)
    requires
        records1 == records2,
    ensures
        detect_spec(records1, pattern, table) == detect_spec(records2, pattern, table),
{
}

} // verus!

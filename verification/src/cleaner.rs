//! The directory partitioner, the plan builder and the execution
//! accounting.
//!
//! Each duplicate group is split by parent directory; only sub-groups
//! with two or more files in one directory can justify a deletion. A
//! retained sub-group is ordered by modification time (ties broken by
//! path, then size, so the order is total and the outcome reproducible);
//! the earliest file is kept and the rest become delete candidates,
//! filtered by the minimum-size floor. Sub-groups whose candidates are
//! all filtered out are omitted; a plan with no sub-group at all is
//! reported as "nothing to clean". After the caller has attempted the
//! deletions, the accounting here turns the per-file outcomes into a
//! [`CleaningResult`], counting only files actually removed.

use vstd::prelude::*;
use vstd::relations::{total_ordering, sorted_by};
use vstd::multiset::Multiset;
use vstd::seq_lib::lemma_sorted_unique;
use crate::records::{FileInfo, FileInfoV, parent_of, parent_dir};
use crate::bytes::{lex_le, lemma_lex_le_total, lemma_lex_le_trans, bytes_eq, bytes_le, clone_bytes};
use crate::group::{GroupKey, GroupKeyV, Keyed, KeyedV, Bucket, BucketV, group_spec, group_by_key};
use crate::detect::{DuplicateGroup, DuplicateGroupV, key_bytes};
use crate::scanner::ScanResult;
use crate::errors::Error;
use crate::arith::{clamp_usize, clamp_u64};

verus! {

/// The keep-order: by modification time, ties by path, then by size.
/// The earliest file under this order is the one to keep.
pub open spec fn rec_le(a: FileInfoV, b: FileInfoV) -> bool {
    if a.modified != b.modified {
        a.modified < b.modified
    } else if a.path != b.path {
        lex_le(a.path, b.path)
    } else {
        a.size <= b.size
    }
}

/// The keep-order as a relation value.
pub open spec fn rec_leq() -> spec_fn(FileInfoV, FileInfoV) -> bool {
    |a: FileInfoV, b: FileInfoV| rec_le(a, b)
}

/// The keep-order is a total ordering, so sorting under it has exactly
/// one outcome.
pub proof fn lemma_rec_le_total_ordering()
    ensures
        total_ordering(rec_leq()),
{
    let leq = rec_leq();
    assert forall|a: FileInfoV| #[trigger] leq(a, a) by {
        lemma_lex_le_total(a.path, a.path);
    }
    assert forall|a: FileInfoV, b: FileInfoV| #[trigger] leq(a, b) && #[trigger] leq(b, a)
        implies a == b by {
        lemma_lex_le_total(a.path, b.path);
        assert(a =~= b);
    }
    assert forall|a: FileInfoV, b: FileInfoV, c: FileInfoV|
        #[trigger] leq(a, b) && #[trigger] leq(b, c) implies leq(a, c) by {
        if a.modified == b.modified && b.modified == c.modified {
            if a.path != b.path && b.path != c.path {
                lemma_lex_le_trans(a.path, b.path, c.path);
                if a.path == c.path {
                    lemma_lex_le_total(a.path, b.path);
                }
            }
        }
    }
    assert forall|a: FileInfoV, b: FileInfoV| #[trigger] leq(a, b) || #[trigger] leq(b, a) by {
        lemma_lex_le_total(a.path, b.path);
    }
}

/// Compares two records in the keep-order.
pub fn record_le(a: &FileInfo, b: &FileInfo) -> (r: bool)
    ensures
        r == rec_le(a@, b@),
{
    if a.modified != b.modified {
        a.modified < b.modified
    } else if !bytes_eq(&a.path, &b.path) {
        bytes_le(&a.path, &b.path)
    } else {
        a.size <= b.size
    }
}

/// Sorts records in the keep-order. The result is the one sorted
/// permutation of the input.
pub fn sort_records(v: &Vec<FileInfo>) -> (r: Vec<FileInfo>)
    ensures
        r.deep_view() == v.deep_view().sort_by(rec_leq()),
        sorted_by(r.deep_view(), rec_leq()),
        r.deep_view().to_multiset() == v.deep_view().to_multiset(),
        r@.len() == v@.len(),
{
    broadcast use vstd::seq_lib::group_to_multiset_ensures;

    let ghost full = v.deep_view();
    let ghost leq = rec_leq();
    let mut out: Vec<FileInfo> = Vec::new();
    let mut i: usize = 0;
    proof {
        assert(full.take(0) =~= Seq::<FileInfoV>::empty());
        assert(out.deep_view() =~= Seq::<FileInfoV>::empty());
        assert(out.deep_view().to_multiset() =~= full.take(0).to_multiset());
    }
    while i < v.len()
        invariant
            i <= v.len(),
            full == v.deep_view(),
            leq == rec_leq(),
            sorted_by(out.deep_view(), leq),
            out.deep_view().to_multiset() == full.take(i as int).to_multiset(),
            out@.len() == i,
        decreases v.len() - i,
    {
        broadcast use vstd::seq_lib::group_to_multiset_ensures;

        let x = v[i].clone();
        let ghost xv = full[i as int];
        let mut p: usize = 0;
        while p < out.len()
            invariant_except_break
                p <= out.len(),
                xv == x@,
                leq == rec_leq(),
                forall|k: int| 0 <= k < p ==> leq(out.deep_view()[k], xv),
            ensures
                p <= out.len(),
                forall|k: int| 0 <= k < p ==> leq(out.deep_view()[k], xv),
                p < out.len() ==> !leq(out.deep_view()[p as int], xv),
            decreases out.len() - p,
        {
            if record_le(&out[p], &x) {
                p = p + 1;
            } else {
                break;
            }
        }
        proof {
            lemma_rec_le_total_ordering();
        }
        let ghost pre = out.deep_view();
        out.insert(p, x);
        proof {
            let now = out.deep_view();
            assert(now =~= pre.take(p as int) + seq![xv] + pre.skip(p as int));
            assert forall|m: int, n: int| 0 <= m < n < now.len() implies leq(now[m], now[n]) by {
                if m < p && n > p {
                    assert(leq(pre[m], xv));
                    assert(leq(now[m], now[n]));
                } else if m == p && n > p {
                    assert(!leq(pre[p as int], xv));
                    assert(leq(xv, pre[p as int]));
                    if n - 1 > p {
                        assert(leq(pre[p as int], pre[n - 1]));
                    }
                    assert(leq(xv, pre[n - 1]));
                } else if m < p && n == p {
                    assert(leq(pre[m], xv));
                }
            }
            assert(pre =~= pre.take(p as int) + pre.skip(p as int));
            vstd::seq_lib::lemma_multiset_commutative(pre.take(p as int), pre.skip(p as int));
            vstd::seq_lib::lemma_multiset_commutative(
                pre.take(p as int) + seq![xv],
                pre.skip(p as int),
            );
            vstd::seq_lib::lemma_multiset_commutative(pre.take(p as int), seq![xv]);
            assert(seq![xv].to_multiset() =~= Multiset::<FileInfoV>::empty().insert(xv));
            assert(now.to_multiset() =~= pre.to_multiset().insert(xv));
            assert(full.take(i + 1).drop_last() =~= full.take(i as int));
            assert(full.take(i + 1) =~= full.take(i as int).push(xv));
            assert(full.take(i + 1).to_multiset() =~= full.take(i as int).to_multiset().insert(xv));
        }
        i = i + 1;
    }
    proof {
        assert(full.take(v@.len() as int) =~= full);
        lemma_rec_le_total_ordering();
        full.lemma_sort_by_ensures(leq);
        lemma_sorted_unique(out.deep_view(), full.sort_by(leq), leq);
        assert(out.deep_view() == full.sort_by(leq));
    }
    out
}

/// Keeps the files at or above the minimum-size floor.
pub open spec fn min_size_pred(min: u64) -> spec_fn(FileInfoV) -> bool {
    |f: FileInfoV| f.size >= min
}

/// A sub-group of one directory: the file to keep and the files whose
/// deletion the plan proposes.
#[derive(Debug)]
pub struct PreviewGroup {
    pub parent_path: Vec<u8>,
    pub file_to_keep: FileInfo,
    pub files_to_delete: Vec<FileInfo>,
}

/// Mathematical image of a [`PreviewGroup`].
#[verifier::ext_equal]
pub ghost struct PreviewGroupV {
    pub parent_path: Seq<u8>,
    pub file_to_keep: FileInfoV,
    pub files_to_delete: Seq<FileInfoV>,
}

impl View for PreviewGroup {
    type V = PreviewGroupV;

    open spec fn view(&self) -> PreviewGroupV {
        PreviewGroupV {
            parent_path: self.parent_path@,
            file_to_keep: self.file_to_keep@,
            files_to_delete: self.files_to_delete.deep_view(),
        }
    }
}

impl DeepView for PreviewGroup {
    type V = PreviewGroupV;

    open spec fn deep_view(&self) -> PreviewGroupV {
        self@
    }
}

/// The sub-group one directory's members yield: the earliest member in
/// the keep-order is kept; the rest, filtered by the floor, are to be
/// deleted. Fewer than two members, or no candidate left after the
/// floor, yields nothing.
pub open spec fn group_preview_spec(
    parent: Seq<u8>,
    members: Seq<FileInfoV>,
    min: u64,
) -> Option<PreviewGroupV> {
    if members.len() < 2 {
        None
    } else {
        let sorted = members.sort_by(rec_leq());
        let dels = sorted.skip(1).filter(min_size_pred(min));
        if dels.len() == 0 {
            None
        } else {
            Some(
                PreviewGroupV {
                    parent_path: parent,
                    file_to_keep: sorted[0],
                    files_to_delete: dels,
                },
            )
        }
    }
}

/// Filters the delete candidates of a sorted run by the floor.
fn delete_candidates(sorted: &Vec<FileInfo>, min: u64) -> (r: Vec<FileInfo>)
    requires
        sorted@.len() >= 1,
    ensures
        r.deep_view() == sorted.deep_view().skip(1).filter(min_size_pred(min)),
{
    let ghost sv = sorted.deep_view();
    let ghost pred = min_size_pred(min);
    let mut out: Vec<FileInfo> = Vec::new();
    let mut i: usize = 1;
    proof {
        assert(sv.subrange(1, 1) =~= Seq::<FileInfoV>::empty());
        assert(out.deep_view() =~= sv.subrange(1, 1).filter(pred));
    }
    while i < sorted.len()
        invariant
            1 <= i <= sorted.len(),
            sv == sorted.deep_view(),
            pred == min_size_pred(min),
            out.deep_view() == sv.subrange(1, i as int).filter(pred),
        decreases sorted.len() - i,
    {
        let ghost base = sv.subrange(1, i as int);
        let ghost ext = sv.subrange(1, i + 1);
        proof {
            assert(ext.drop_last() =~= base);
            assert(ext.last() == sv[i as int]);
        }
        if sorted[i].size >= min {
            let ghost pre = out.deep_view();
            out.push(sorted[i].clone());
            proof {
                reveal_with_fuel(Seq::filter, 2);
                assert(pre.len() == base.filter(pred).len());
                assert(out.deep_view() =~= base.filter(pred).push(sv[i as int]));
                assert(ext.filter(pred) == base.filter(pred).push(sv[i as int]));
            }
        } else {
            proof {
                reveal_with_fuel(Seq::filter, 2);
                assert(ext.filter(pred) == base.filter(pred));
            }
        }
        i = i + 1;
    }
    proof {
        assert(sv.subrange(1, sv.len() as int) =~= sv.skip(1));
    }
    out
}

/// Builds one directory's sub-group, if its members justify one.
pub fn build_preview(parent: &Vec<u8>, members: &Vec<FileInfo>, min: u64) -> (r: Option<
    PreviewGroup,
>)
    ensures
        r is Some <==> group_preview_spec(parent@, members.deep_view(), min) is Some,
        r matches Some(g) ==> group_preview_spec(parent@, members.deep_view(), min) == Some(g@),
{
    if members.len() < 2 {
        return None;
    }
    let sorted = sort_records(members);
    let dels = delete_candidates(&sorted, min);
    if dels.len() == 0 {
        proof {
            assert(dels.deep_view().len() == 0);
        }
        return None;
    }
    let keep = sorted[0].clone();
    let g = PreviewGroup {
        parent_path: clone_bytes(parent),
        file_to_keep: keep,
        files_to_delete: dels,
    };
    proof {
        assert(Some(g@) =~~= group_preview_spec(parent@, members.deep_view(), min));
    }
    Some(g)
}

/// Each record keyed by its parent directory.
pub open spec fn parent_keyed_spec(files: Seq<FileInfoV>) -> Seq<KeyedV> {
    files.map_values(
        |r: FileInfoV| KeyedV { key: GroupKeyV::Bytes(parent_of(r.path)), rec: r },
    )
}

/// Keys each record by its parent directory.
fn parent_keyed(files: &Vec<FileInfo>) -> (r: Vec<Keyed>)
    ensures
        r.deep_view() == parent_keyed_spec(files.deep_view()),
{
    let ghost goal = parent_keyed_spec(files.deep_view());
    let mut out: Vec<Keyed> = Vec::new();
    let mut i: usize = 0;
    while i < files.len()
        invariant
            i <= files.len(),
            goal == parent_keyed_spec(files.deep_view()),
            goal.len() == files.deep_view().len(),
            out.deep_view() =~= goal.take(i as int),
        decreases files.len() - i,
    {
        let ghost pre = out.deep_view();
        let rec = files[i].clone();
        let parent = parent_dir(&rec.path);
        out.push(Keyed { key: GroupKey::Bytes(parent), rec });
        proof {
            assert(pre.len() == i);
            assert(out.deep_view() =~= goal.take(i + 1));
        }
        i = i + 1;
    }
    proof {
        assert(goal.take(files.len() as int) =~= goal);
    }
    out
}

/// The sub-groups that a sequence of directory buckets yields.
pub open spec fn previews_of_buckets(bs: Seq<BucketV>, min: u64) -> Seq<PreviewGroupV>
    decreases bs.len(),
{
    if bs.len() == 0 {
        Seq::empty()
    } else {
        previews_of_buckets(bs.drop_last(), min) + match group_preview_spec(
            key_bytes(bs.last().key),
            bs.last().items,
            min,
        ) {
            Some(g) => seq![g],
            None => Seq::empty(),
        }
    }
}

/// The sub-groups of one duplicate group, split by parent directory.
pub open spec fn previews_of_group(files: Seq<FileInfoV>, min: u64) -> Seq<PreviewGroupV> {
    previews_of_buckets(group_spec(parent_keyed_spec(files)), min)
}

/// Splits one duplicate group by parent directory and builds the
/// sub-groups that justify a deletion.
pub fn preview_one_group(files: &Vec<FileInfo>, min: u64) -> (r: Vec<PreviewGroup>)
    ensures
        r.deep_view() == previews_of_group(files.deep_view(), min),
{
    let keyed = parent_keyed(files);
    let buckets = group_by_key(&keyed);
    let ghost bs = buckets.deep_view();
    let mut out: Vec<PreviewGroup> = Vec::new();
    let mut i: usize = 0;
    proof {
        assert(bs.take(0) =~= Seq::<BucketV>::empty());
        assert(out.deep_view() =~= previews_of_buckets(bs.take(0), min));
    }
    while i < buckets.len()
        invariant
            i <= buckets.len(),
            bs == buckets.deep_view(),
            out.deep_view() == previews_of_buckets(bs.take(i as int), min),
        decreases buckets.len() - i,
    {
        let ghost pre = out.deep_view();
        proof {
            assert(bs.take(i + 1).drop_last() =~= bs.take(i as int));
            assert(bs.take(i + 1).last() == bs[i as int]);
        }
        let parent = match &buckets[i].key {
            GroupKey::Bytes(b) => clone_bytes(b),
            GroupKey::Size(_) => Vec::new(),
        };
        proof {
            assert(parent@ == key_bytes(bs[i as int].key));
        }
        match build_preview(&parent, &buckets[i].items, min) {
            Some(g) => {
                out.push(g);
                proof {
                    assert(pre.len() == previews_of_buckets(bs.take(i as int), min).len());
                    assert(out.deep_view() =~= pre + seq![out@[out@.len() - 1]@]);
                    assert(out.deep_view() =~= previews_of_buckets(bs.take(i + 1), min));
                }
            },
            None => {
                proof {
                    assert(previews_of_buckets(bs.take(i + 1), min) =~= pre + Seq::<
                        PreviewGroupV,
                    >::empty());
                }
            },
        }
        i = i + 1;
    }
    proof {
        assert(bs.take(buckets.len() as int) =~= bs);
    }
    out
}

/// Every element a filter keeps comes from the filtered sequence.
pub proof fn lemma_filter_subset(s: Seq<FileInfoV>, pred: spec_fn(FileInfoV) -> bool)
    ensures
        forall|j: int|
            0 <= j < s.filter(pred).len() ==> s.contains(#[trigger] s.filter(pred)[j]),
    decreases s.len(),
{
    reveal_with_fuel(Seq::filter, 2);
    if s.len() > 0 {
        let sd = s.drop_last();
        lemma_filter_subset(sd, pred);
        let f = s.filter(pred);
        let fd = sd.filter(pred);
        assert forall|j: int| 0 <= j < f.len() implies s.contains(#[trigger] s.filter(pred)[j]) by {
            if j < fd.len() {
                assert(f[j] == fd[j]);
                assert(sd.contains(fd[j]));
                let i0 = choose|i: int| 0 <= i < sd.len() && sd[i] == fd[j];
                assert(s[i0] == f[j]);
            } else {
                assert(f[j] == s.last());
                assert(s[s.len() - 1] == f[j]);
            }
        }
    }
}

/// What the plan promises of one directory sub-group: at least one
/// delete candidate, every candidate at or above the floor, the kept
/// file no later than any candidate in the keep-order, and every file
/// inside the sub-group's directory.
pub open spec fn preview_group_wf(g: PreviewGroupV, min: u64) -> bool {
    &&& g.files_to_delete.len() >= 1
    &&& forall|j: int|
        0 <= j < g.files_to_delete.len() ==> (#[trigger] g.files_to_delete[j]).size >= min
    &&& forall|j: int|
        0 <= j < g.files_to_delete.len() ==> rec_le(
            g.file_to_keep,
            #[trigger] g.files_to_delete[j],
        )
    &&& parent_of(g.file_to_keep.path) == g.parent_path
    &&& forall|j: int|
        0 <= j < g.files_to_delete.len() ==> parent_of(
            (#[trigger] g.files_to_delete[j]).path,
        ) == g.parent_path
}

/// A sub-group built from members of one directory keeps its promises.
pub proof fn lemma_group_preview_wf(parent: Seq<u8>, members: Seq<FileInfoV>, min: u64)
    requires
        forall|i: int| 0 <= i < members.len() ==> parent_of((#[trigger] members[i]).path) == parent,
    ensures
        group_preview_spec(parent, members, min) matches Some(g) ==> preview_group_wf(g, min),
{
    broadcast use vstd::seq_lib::group_to_multiset_ensures;
    broadcast use vstd::seq_lib::group_filter_ensures;

    if members.len() >= 2 {
        lemma_rec_le_total_ordering();
        let leq = rec_leq();
        members.lemma_sort_by_ensures(leq);
        let sorted = members.sort_by(leq);
        assert(sorted.to_multiset().len() == members.to_multiset().len());
        assert(sorted.len() == members.len());
        let pred = min_size_pred(min);
        let tail = sorted.skip(1);
        let dels = tail.filter(pred);
        if dels.len() != 0 {
            lemma_filter_subset(tail, pred);
            assert forall|x: FileInfoV| sorted.contains(x) implies members.contains(x) by {
                assert(sorted.to_multiset().count(x) > 0);
                assert(members.to_multiset().count(x) > 0);
            }
            assert forall|j: int| 0 <= j < dels.len() implies {
                &&& (#[trigger] dels[j]).size >= min
                &&& rec_le(sorted[0], dels[j])
                &&& parent_of(dels[j].path) == parent
            } by {
                assert(pred(dels[j]));
                assert(tail.contains(dels[j]));
                let t0 = choose|t: int| 0 <= t < tail.len() && tail[t] == dels[j];
                assert(sorted[t0 + 1] == dels[j]);
                assert(leq(sorted[0], sorted[t0 + 1]));
                assert(sorted.contains(dels[j]));
                assert(members.contains(dels[j]));
                let m0 = choose|i: int| 0 <= i < members.len() && members[i] == dels[j];
                assert(parent_of(members[m0].path) == parent);
            }
            assert(sorted[0] == sorted.first());
            assert(sorted.contains(sorted[0]));
            assert(members.contains(sorted[0]));
            let k0 = choose|i: int| 0 <= i < members.len() && members[i] == sorted[0];
            assert(parent_of(members[k0].path) == parent);
        }
    }
}

/// Every sub-group a bucket sequence yields keeps its promises, as
/// long as each bucket holds only files of its own directory.
pub proof fn lemma_previews_of_buckets_wf(bs: Seq<BucketV>, min: u64)
    requires
        forall|b: int, j: int|
            0 <= b < bs.len() && 0 <= j < bs[b].items.len() ==> parent_of(
                (#[trigger] bs[b].items[j]).path,
            ) == key_bytes(bs[b].key),
    ensures
        forall|i: int|
            0 <= i < previews_of_buckets(bs, min).len() ==> preview_group_wf(
                #[trigger] previews_of_buckets(bs, min)[i],
                min,
            ),
    decreases bs.len(),
{
    if bs.len() > 0 {
        let bd = bs.drop_last();
        assert forall|b: int, j: int|
            0 <= b < bd.len() && 0 <= j < bd[b].items.len() implies parent_of(
            (#[trigger] bd[b].items[j]).path,
        ) == key_bytes(bd[b].key) by {
            assert(bd[b] == bs[b]);
        }
        lemma_previews_of_buckets_wf(bd, min);
        let last = bs[bs.len() - 1];
        lemma_group_preview_wf(key_bytes(last.key), last.items, min);
        let pre = previews_of_buckets(bd, min);
        let whole = previews_of_buckets(bs, min);
        assert forall|i: int| 0 <= i < whole.len() implies preview_group_wf(
            #[trigger] whole[i],
            min,
        ) by {
            if i < pre.len() {
                assert(whole[i] == pre[i]);
            }
        }
    }
}

/// Every sub-group of one duplicate group keeps its promises.
pub proof fn lemma_previews_of_group_wf(files: Seq<FileInfoV>, min: u64)
    ensures
        forall|i: int|
            0 <= i < previews_of_group(files, min).len() ==> preview_group_wf(
                #[trigger] previews_of_group(files, min)[i],
                min,
            ),
{
    let keyed = parent_keyed_spec(files);
    let bs = group_spec(keyed);
    assert forall|b: int, j: int|
        0 <= b < bs.len() && 0 <= j < bs[b].items.len() implies parent_of(
        (#[trigger] bs[b].items[j]).path,
    ) == key_bytes(bs[b].key) by {
        let k = crate::group::dedup_first(crate::group::keys_of(keyed))[b];
        assert(bs[b].key == k);
        assert(bs[b].items == crate::group::bucket_of(keyed, k));
        crate::group::lemma_bucket_members(keyed, k);
        assert(crate::group::keyed_source(keyed, k, bs[b].items[j]));
        let i0 = choose|i: int|
            0 <= i < keyed.len() && #[trigger] keyed[i] == (KeyedV {
                key: k,
                rec: bs[b].items[j],
            });
        assert(keyed[i0].key == GroupKeyV::Bytes(parent_of(keyed[i0].rec.path)));
    }
    lemma_previews_of_buckets_wf(bs, min);
}


/// The sub-groups of every duplicate group, in order.
pub open spec fn previews_of_groups(groups: Seq<DuplicateGroupV>, min: u64) -> Seq<PreviewGroupV>
    decreases groups.len(),
{
    if groups.len() == 0 {
        Seq::empty()
    } else {
        previews_of_groups(groups.drop_last(), min) + previews_of_group(groups.last().files, min)
    }
}

/// Every sub-group of every duplicate group keeps its promises.
pub proof fn lemma_previews_of_groups_wf(groups: Seq<DuplicateGroupV>, min: u64)
    ensures
        forall|i: int|
            0 <= i < previews_of_groups(groups, min).len() ==> preview_group_wf(
                #[trigger] previews_of_groups(groups, min)[i],
                min,
            ),
    decreases groups.len(),
{
    if groups.len() > 0 {
        let gd = groups.drop_last();
        lemma_previews_of_groups_wf(gd, min);
        lemma_previews_of_group_wf(groups.last().files, min);
        let pre = previews_of_groups(gd, min);
        let tail = previews_of_group(groups.last().files, min);
        let whole = previews_of_groups(groups, min);
        assert forall|i: int| 0 <= i < whole.len() implies preview_group_wf(
            #[trigger] whole[i],
            min,
        ) by {
            if i < pre.len() {
                assert(whole[i] == pre[i]);
            } else {
                assert(whole[i] == tail[i - pre.len()]);
            }
        }
    }
}

/// Builds the sub-groups of every duplicate group.
pub fn preview_groups(groups: &Vec<DuplicateGroup>, min: u64) -> (r: Vec<PreviewGroup>)
    ensures
        r.deep_view() == previews_of_groups(groups.deep_view(), min),
{
    let ghost gv = groups.deep_view();
    let mut out: Vec<PreviewGroup> = Vec::new();
    let mut i: usize = 0;
    proof {
        assert(gv.take(0) =~= Seq::<DuplicateGroupV>::empty());
        assert(out.deep_view() =~= previews_of_groups(gv.take(0), min));
    }
    while i < groups.len()
        invariant
            i <= groups.len(),
            gv == groups.deep_view(),
            out.deep_view() == previews_of_groups(gv.take(i as int), min),
        decreases groups.len() - i,
    {
        let ghost pre = out.deep_view();
        proof {
            assert(gv.take(i + 1).drop_last() =~= gv.take(i as int));
            assert(gv.take(i + 1).last() == gv[i as int]);
        }
        let mut part = preview_one_group(&groups[i].files, min);
        let ghost pv = part.deep_view();
        out.append(&mut part);
        proof {
            assert(out.deep_view() =~= pre + pv);
        }
        i = i + 1;
    }
    proof {
        assert(gv.take(groups.len() as int) =~= gv);
    }
    out
}

/// The bytes of a run of files, as a mathematical sum.
pub open spec fn sum_sizes(fs: Seq<FileInfoV>) -> int
    decreases fs.len(),
{
    if fs.len() == 0 {
        0
    } else {
        sum_sizes(fs.drop_last()) + fs.last().size
    }
}

pub proof fn lemma_sum_sizes_nonneg(fs: Seq<FileInfoV>)
    ensures
        sum_sizes(fs) >= 0,
    decreases fs.len(),
{
    if fs.len() > 0 {
        lemma_sum_sizes_nonneg(fs.drop_last());
    }
}

/// How many deletions a plan proposes, as a mathematical sum.
pub open spec fn total_delete_count(gs: Seq<PreviewGroupV>) -> int
    decreases gs.len(),
{
    if gs.len() == 0 {
        0
    } else {
        total_delete_count(gs.drop_last()) + gs.last().files_to_delete.len()
    }
}

pub proof fn lemma_total_delete_count_nonneg(gs: Seq<PreviewGroupV>)
    ensures
        total_delete_count(gs) >= 0,
    decreases gs.len(),
{
    if gs.len() > 0 {
        lemma_total_delete_count_nonneg(gs.drop_last());
    }
}

/// How many bytes a plan would free, as a mathematical sum.
pub open spec fn total_delete_bytes(gs: Seq<PreviewGroupV>) -> int
    decreases gs.len(),
{
    if gs.len() == 0 {
        0
    } else {
        total_delete_bytes(gs.drop_last()) + sum_sizes(gs.last().files_to_delete)
    }
}

pub proof fn lemma_total_delete_bytes_nonneg(gs: Seq<PreviewGroupV>)
    ensures
        total_delete_bytes(gs) >= 0,
    decreases gs.len(),
{
    if gs.len() > 0 {
        lemma_total_delete_bytes_nonneg(gs.drop_last());
        lemma_sum_sizes_nonneg(gs.last().files_to_delete);
    }
}

/// Tallies the bytes of a run of files, saturating.
fn tally_sizes(fs: &Vec<FileInfo>) -> (r: u64)
    ensures
        r == clamp_u64(sum_sizes(fs.deep_view())),
{
    let ghost fv = fs.deep_view();
    let mut total: u64 = 0;
    let mut i: usize = 0;
    proof {
        assert(fv.take(0) =~= Seq::<FileInfoV>::empty());
    }
    while i < fs.len()
        invariant
            i <= fs.len(),
            fv == fs.deep_view(),
            total == clamp_u64(sum_sizes(fv.take(i as int))),
        decreases fs.len() - i,
    {
        proof {
            assert(fv.take(i + 1).drop_last() =~= fv.take(i as int));
            assert(fv.take(i + 1).last() == fv[i as int]);
            lemma_sum_sizes_nonneg(fv.take(i as int));
        }
        total = crate::arith::sat_add_u64(total, fs[i].size);
        i = i + 1;
    }
    proof {
        assert(fv.take(fs.len() as int) =~= fv);
    }
    total
}

/// Tallies how many deletions a plan proposes, saturating.
fn tally_count(gs: &Vec<PreviewGroup>) -> (r: usize)
    ensures
        r == clamp_usize(total_delete_count(gs.deep_view())),
{
    let ghost gv = gs.deep_view();
    let mut count: usize = 0;
    let mut i: usize = 0;
    proof {
        assert(gv.take(0) =~= Seq::<PreviewGroupV>::empty());
    }
    while i < gs.len()
        invariant
            i <= gs.len(),
            gv == gs.deep_view(),
            count == clamp_usize(total_delete_count(gv.take(i as int))),
        decreases gs.len() - i,
    {
        proof {
            assert(gv.take(i + 1).drop_last() =~= gv.take(i as int));
            assert(gv.take(i + 1).last() == gv[i as int]);
            lemma_total_delete_count_nonneg(gv.take(i as int));
        }
        count = crate::arith::sat_add_usize(count, gs[i].files_to_delete.len());
        i = i + 1;
    }
    proof {
        assert(gv.take(gs.len() as int) =~= gv);
    }
    count
}

/// Tallies how many bytes a plan would free, saturating.
fn tally_bytes(gs: &Vec<PreviewGroup>) -> (r: u64)
    ensures
        r == clamp_u64(total_delete_bytes(gs.deep_view())),
{
    let ghost gv = gs.deep_view();
    let mut total: u64 = 0;
    let mut i: usize = 0;
    proof {
        assert(gv.take(0) =~= Seq::<PreviewGroupV>::empty());
    }
    while i < gs.len()
        invariant
            i <= gs.len(),
            gv == gs.deep_view(),
            total == clamp_u64(total_delete_bytes(gv.take(i as int))),
        decreases gs.len() - i,
    {
        proof {
            assert(gv.take(i + 1).drop_last() =~= gv.take(i as int));
            assert(gv.take(i + 1).last() == gv[i as int]);
            lemma_total_delete_bytes_nonneg(gv.take(i as int));
            lemma_sum_sizes_nonneg(gv[i as int].files_to_delete);
        }
        let gsum = tally_sizes(&gs[i].files_to_delete);
        total = crate::arith::sat_add_u64(total, gsum);
        i = i + 1;
    }
    proof {
        assert(gv.take(gs.len() as int) =~= gv);
    }
    total
}

/// The computed-but-unexecuted plan: every directory sub-group plus the
/// estimated totals.
#[derive(Debug)]
pub struct CleaningPreview {
    pub file_groups: Vec<PreviewGroup>,
    pub estimated_files_count: usize,
    pub estimated_freed_space: u64,
}

/// Mathematical image of a [`CleaningPreview`].
#[verifier::ext_equal]
pub ghost struct CleaningPreviewV {
    pub file_groups: Seq<PreviewGroupV>,
    pub estimated_files_count: usize,
    pub estimated_freed_space: u64,
}

impl View for CleaningPreview {
    type V = CleaningPreviewV;

    open spec fn view(&self) -> CleaningPreviewV {
        CleaningPreviewV {
            file_groups: self.file_groups.deep_view(),
            estimated_files_count: self.estimated_files_count,
            estimated_freed_space: self.estimated_freed_space,
        }
    }
}

impl CleaningPreview {
    /// Recomputes the delete plan from a scan result under the given
    /// minimum-size floor. No surviving sub-group means nothing to
    /// clean, reported as `None`.
    pub fn from(scan_result: &ScanResult, min_file_size: u64) -> (r: Option<CleaningPreview>)
        ensures
            r is Some <==> previews_of_groups(
                scan_result@.duplicate_files,
                min_file_size,
            ).len() > 0,
            r matches Some(p) ==> {
                &&& p@.file_groups == previews_of_groups(
                    scan_result@.duplicate_files,
                    min_file_size,
                )
                &&& p@.estimated_files_count == clamp_usize(total_delete_count(p@.file_groups))
                &&& p@.estimated_files_count > 0
                &&& p@.estimated_freed_space == clamp_u64(total_delete_bytes(p@.file_groups))
                &&& forall|i: int|
                    0 <= i < p@.file_groups.len() ==> preview_group_wf(
                        #[trigger] p@.file_groups[i],
                        min_file_size,
                    )
            },
    {
        let groups = preview_groups(&scan_result.duplicate_files, min_file_size);
        if groups.len() == 0 {
            proof {
                assert(groups.deep_view().len() == 0);
            }
            return None;
        }
        let estimated_files_count = tally_count(&groups);
        let estimated_freed_space = tally_bytes(&groups);
        proof {
            lemma_previews_of_groups_wf(scan_result@.duplicate_files, min_file_size);
            let gv = groups.deep_view();
            assert(preview_group_wf(
                previews_of_groups(scan_result@.duplicate_files, min_file_size)[0],
                min_file_size,
            ));
            assert(gv[0].files_to_delete.len() >= 1);
            lemma_take_count_monotonic(gv, gv.len() as int);
            assert(gv.take(gv.len() as int) =~= gv);
            assert(total_delete_count(gv) >= 1);
        }
        Some(CleaningPreview { file_groups: groups, estimated_files_count, estimated_freed_space })
    }
}

/// A prefix tally of at least one deletion never drops back to zero.
proof fn lemma_take_count_monotonic(gs: Seq<PreviewGroupV>, n: int)
    requires
        1 <= n <= gs.len(),
        gs[0].files_to_delete.len() >= 1,
    ensures
        total_delete_count(gs.take(n)) >= 1,
    decreases n,
{
    if n == 1 {
        assert(gs.take(1).drop_last() =~= Seq::<PreviewGroupV>::empty());
        assert(gs.take(1).last() == gs[0]);
        assert(total_delete_count(Seq::<PreviewGroupV>::empty()) == 0);
    } else {
        lemma_take_count_monotonic(gs, n - 1);
        assert(gs.take(n).drop_last() =~= gs.take(n - 1));
        assert(gs.take(n).last() == gs[n - 1]);
    }
}


/// The reported fate of one planned file: removed, found already
/// missing (treated as handled), or failed (isolated, never fatal).
#[derive(Debug, Clone, Copy, PartialEq, Eq, Structural)]
pub enum DeleteStatus {
    Deleted,
    AlreadyGone,
    Failed,
}

impl View for DeleteStatus {
    type V = DeleteStatus;

    open spec fn view(&self) -> DeleteStatus {
        *self
    }
}

impl DeepView for DeleteStatus {
    type V = DeleteStatus;

    open spec fn deep_view(&self) -> DeleteStatus {
        *self
    }
}

/// What one directory actually lost.
#[derive(Debug, PartialEq, Eq)]
pub struct DirectoryDeletion {
    pub parent_path: Vec<u8>,
    pub files: Vec<FileInfo>,
}

/// Mathematical image of a [`DirectoryDeletion`].
#[verifier::ext_equal]
pub ghost struct DirectoryDeletionV {
    pub parent_path: Seq<u8>,
    pub files: Seq<FileInfoV>,
}

impl View for DirectoryDeletion {
    type V = DirectoryDeletionV;

    open spec fn view(&self) -> DirectoryDeletionV {
        DirectoryDeletionV { parent_path: self.parent_path@, files: self.files.deep_view() }
    }
}

impl DeepView for DirectoryDeletion {
    type V = DirectoryDeletionV;

    open spec fn deep_view(&self) -> DirectoryDeletionV {
        self@
    }
}

/// What a cleaning actually achieved, counted strictly from the files
/// removed, never from the plan's estimate.
#[derive(Debug, PartialEq, Eq)]
pub struct CleaningResult {
    pub files_deleted: usize,
    pub freed_space: u64,
    pub clean_time: u64,
    /// Per directory, the files actually removed; directories that
    /// lost nothing are absent.
    pub deleted_files: Vec<DirectoryDeletion>,
}

/// Statuses fit a plan when there is one run per sub-group and one
/// status per planned file.
pub open spec fn statuses_match(gs: Seq<PreviewGroupV>, sts: Seq<Seq<DeleteStatus>>) -> bool {
    &&& sts.len() == gs.len()
    &&& forall|i: int|
        0 <= i < gs.len() ==> (#[trigger] sts[i]).len() == gs[i].files_to_delete.len()
}

/// How many files one sub-group run removed.
pub open spec fn deleted_count_in(sts: Seq<DeleteStatus>) -> int
    decreases sts.len(),
{
    if sts.len() == 0 {
        0
    } else {
        deleted_count_in(sts.drop_last()) + if sts.last() is Deleted {
            1int
        } else {
            0int
        }
    }
}

/// How many bytes one sub-group run freed.
pub open spec fn freed_bytes_in(files: Seq<FileInfoV>, sts: Seq<DeleteStatus>) -> int
    decreases files.len(),
{
    if files.len() == 0 || sts.len() == 0 {
        0
    } else {
        freed_bytes_in(files.drop_last(), sts.drop_last()) + if sts.last() is Deleted {
            files.last().size as int
        } else {
            0int
        }
    }
}

/// How many files the whole execution removed.
pub open spec fn total_deleted_count(sts: Seq<Seq<DeleteStatus>>) -> int
    decreases sts.len(),
{
    if sts.len() == 0 {
        0
    } else {
        total_deleted_count(sts.drop_last()) + deleted_count_in(sts.last())
    }
}

/// How many bytes the whole execution freed.
pub open spec fn total_freed_bytes(gs: Seq<PreviewGroupV>, sts: Seq<Seq<DeleteStatus>>) -> int
    decreases gs.len(),
{
    if gs.len() == 0 || sts.len() == 0 {
        0
    } else {
        total_freed_bytes(gs.drop_last(), sts.drop_last()) + freed_bytes_in(
            gs.last().files_to_delete,
            sts.last(),
        )
    }
}

pub proof fn lemma_deleted_count_in_nonneg(sts: Seq<DeleteStatus>)
    ensures
        deleted_count_in(sts) >= 0,
    decreases sts.len(),
{
    if sts.len() > 0 {
        lemma_deleted_count_in_nonneg(sts.drop_last());
    }
}

pub proof fn lemma_freed_bytes_in_nonneg(files: Seq<FileInfoV>, sts: Seq<DeleteStatus>)
    ensures
        freed_bytes_in(files, sts) >= 0,
    decreases files.len(),
{
    if files.len() > 0 && sts.len() > 0 {
        lemma_freed_bytes_in_nonneg(files.drop_last(), sts.drop_last());
    }
}

pub proof fn lemma_total_deleted_count_nonneg(sts: Seq<Seq<DeleteStatus>>)
    ensures
        total_deleted_count(sts) >= 0,
    decreases sts.len(),
{
    if sts.len() > 0 {
        lemma_total_deleted_count_nonneg(sts.drop_last());
        lemma_deleted_count_in_nonneg(sts.last());
    }
}

pub proof fn lemma_total_freed_bytes_nonneg(gs: Seq<PreviewGroupV>, sts: Seq<Seq<DeleteStatus>>)
    ensures
        total_freed_bytes(gs, sts) >= 0,
    decreases gs.len(),
{
    if gs.len() > 0 && sts.len() > 0 {
        lemma_total_freed_bytes_nonneg(gs.drop_last(), sts.drop_last());
        lemma_freed_bytes_in_nonneg(gs.last().files_to_delete, sts.last());
    }
}

/// Counts the files one run removed, saturating.
fn tally_deleted(sts: &Vec<DeleteStatus>) -> (r: usize)
    ensures
        r == clamp_usize(deleted_count_in(sts.deep_view())),
{
    let ghost sv = sts.deep_view();
    let mut count: usize = 0;
    let mut i: usize = 0;
    proof {
        assert(sv.take(0) =~= Seq::<DeleteStatus>::empty());
    }
    while i < sts.len()
        invariant
            i <= sts.len(),
            sv == sts.deep_view(),
            count == clamp_usize(deleted_count_in(sv.take(i as int))),
        decreases sts.len() - i,
    {
        proof {
            assert(sv.take(i + 1).drop_last() =~= sv.take(i as int));
            assert(sv.take(i + 1).last() == sv[i as int]);
            lemma_deleted_count_in_nonneg(sv.take(i as int));
        }
        match sts[i] {
            DeleteStatus::Deleted => {
                count = crate::arith::sat_add_usize(count, 1);
            },
            _ => {},
        }
        i = i + 1;
    }
    proof {
        assert(sv.take(sts.len() as int) =~= sv);
    }
    count
}

/// Tallies the bytes one run freed, saturating.
fn tally_freed(files: &Vec<FileInfo>, sts: &Vec<DeleteStatus>) -> (r: u64)
    requires
        files@.len() == sts@.len(),
    ensures
        r == clamp_u64(freed_bytes_in(files.deep_view(), sts.deep_view())),
{
    let ghost fv = files.deep_view();
    let ghost sv = sts.deep_view();
    let mut total: u64 = 0;
    let mut i: usize = 0;
    proof {
        assert(fv.take(0) =~= Seq::<FileInfoV>::empty());
        assert(sv.take(0) =~= Seq::<DeleteStatus>::empty());
    }
    while i < files.len()
        invariant
            i <= files.len(),
            fv == files.deep_view(),
            sv == sts.deep_view(),
            fv.len() == sv.len(),
            total == clamp_u64(freed_bytes_in(fv.take(i as int), sv.take(i as int))),
        decreases files.len() - i,
    {
        proof {
            assert(fv.take(i + 1).drop_last() =~= fv.take(i as int));
            assert(fv.take(i + 1).last() == fv[i as int]);
            assert(sv.take(i + 1).drop_last() =~= sv.take(i as int));
            assert(sv.take(i + 1).last() == sv[i as int]);
            lemma_freed_bytes_in_nonneg(fv.take(i as int), sv.take(i as int));
        }
        match sts[i] {
            DeleteStatus::Deleted => {
                total = crate::arith::sat_add_u64(total, files[i].size);
            },
            _ => {},
        }
        i = i + 1;
    }
    proof {
        assert(fv.take(files.len() as int) =~= fv);
        assert(sv.take(sts.len() as int) =~= sv);
    }
    total
}

/// The files one sub-group run actually removed, in plan order.
pub open spec fn deleted_in(files: Seq<FileInfoV>, sts: Seq<DeleteStatus>) -> Seq<FileInfoV>
    decreases files.len(),
{
    if files.len() == 0 || sts.len() == 0 {
        Seq::empty()
    } else {
        deleted_in(files.drop_last(), sts.drop_last()) + if sts.last() is Deleted {
            seq![files.last()]
        } else {
            Seq::empty()
        }
    }
}

/// The per-directory record of what the whole execution removed;
/// directories that lost nothing are absent.
pub open spec fn deletions_record(
    gs: Seq<PreviewGroupV>,
    sts: Seq<Seq<DeleteStatus>>,
) -> Seq<DirectoryDeletionV>
    decreases gs.len(),
{
    if gs.len() == 0 || sts.len() == 0 {
        Seq::empty()
    } else {
        deletions_record(gs.drop_last(), sts.drop_last()) + {
            let removed = deleted_in(gs.last().files_to_delete, sts.last());
            if removed.len() > 0 {
                seq![DirectoryDeletionV { parent_path: gs.last().parent_path, files: removed }]
            } else {
                Seq::empty()
            }
        }
    }
}

/// Collects the files one run actually removed.
fn collect_deleted(files: &Vec<FileInfo>, sts: &Vec<DeleteStatus>) -> (r: Vec<FileInfo>)
    requires
        files@.len() == sts@.len(),
    ensures
        r.deep_view() == deleted_in(files.deep_view(), sts.deep_view()),
{
    let ghost fv = files.deep_view();
    let ghost sv = sts.deep_view();
    let mut out: Vec<FileInfo> = Vec::new();
    let mut i: usize = 0;
    proof {
        assert(fv.take(0) =~= Seq::<FileInfoV>::empty());
        assert(sv.take(0) =~= Seq::<DeleteStatus>::empty());
        assert(out.deep_view() =~= deleted_in(fv.take(0), sv.take(0)));
    }
    while i < files.len()
        invariant
            i <= files.len(),
            fv == files.deep_view(),
            sv == sts.deep_view(),
            fv.len() == sv.len(),
            out.deep_view() == deleted_in(fv.take(i as int), sv.take(i as int)),
        decreases files.len() - i,
    {
        let ghost pre = out.deep_view();
        proof {
            assert(fv.take(i + 1).drop_last() =~= fv.take(i as int));
            assert(fv.take(i + 1).last() == fv[i as int]);
            assert(sv.take(i + 1).drop_last() =~= sv.take(i as int));
            assert(sv.take(i + 1).last() == sv[i as int]);
        }
        match sts[i] {
            DeleteStatus::Deleted => {
                out.push(files[i].clone());
                proof {
                    assert(out.deep_view() =~= pre + seq![fv[i as int]]);
                }
            },
            _ => {
                proof {
                    assert(deleted_in(fv.take(i + 1), sv.take(i + 1)) =~= pre + Seq::<
                        FileInfoV,
                    >::empty());
                }
            },
        }
        i = i + 1;
    }
    proof {
        assert(fv.take(files.len() as int) =~= fv);
        assert(sv.take(sts.len() as int) =~= sv);
    }
    out
}

impl CleaningResult {
    /// Accounts for an execution of a plan from the per-file outcomes
    /// the caller reports, one run per sub-group, one status per
    /// planned file. Counts and freed bytes come strictly from the
    /// files reported removed. Statuses that do not fit the plan are a
    /// plan-invalid error; no status, not even a failed one, aborts
    /// the accounting.
    pub fn from_statuses(
        preview: &CleaningPreview,
        statuses: &Vec<Vec<DeleteStatus>>,
        clean_time: u64,
    ) -> (r: Result<CleaningResult, Error>)
        ensures
            r is Ok <==> statuses_match(preview@.file_groups, statuses.deep_view()),
            r matches Ok(c) ==> {
                &&& c.files_deleted == clamp_usize(total_deleted_count(statuses.deep_view()))
                &&& c.freed_space == clamp_u64(
                    total_freed_bytes(preview@.file_groups, statuses.deep_view()),
                )
                &&& c.clean_time == clean_time
                &&& c.deleted_files.deep_view() == deletions_record(
                    preview@.file_groups,
                    statuses.deep_view(),
                )
            },
            r matches Err(e) ==> e is PlanInvalid,
    {
        let ghost gv = preview@.file_groups;
        let ghost sv = statuses.deep_view();
        if statuses.len() != preview.file_groups.len() {
            return Err(Error::PlanInvalid(plan_shape_message()));
        }
        let mut count: usize = 0;
        let mut freed: u64 = 0;
        let mut record: Vec<DirectoryDeletion> = Vec::new();
        let mut i: usize = 0;
        proof {
            assert(gv.take(0) =~= Seq::<PreviewGroupV>::empty());
            assert(sv.take(0) =~= Seq::<Seq<DeleteStatus>>::empty());
            assert(record.deep_view() =~= deletions_record(gv.take(0), sv.take(0)));
        }
        while i < statuses.len()
            invariant
                i <= statuses.len(),
                gv == preview@.file_groups,
                sv == statuses.deep_view(),
                gv.len() == sv.len(),
                sv.len() == statuses@.len(),
                forall|k: int|
                    0 <= k < i ==> (#[trigger] sv[k]).len() == gv[k].files_to_delete.len(),
                count == clamp_usize(total_deleted_count(sv.take(i as int))),
                freed == clamp_u64(total_freed_bytes(gv.take(i as int), sv.take(i as int))),
                record.deep_view() == deletions_record(gv.take(i as int), sv.take(i as int)),
            decreases statuses.len() - i,
        {
            if statuses[i].len() != preview.file_groups[i].files_to_delete.len() {
                proof {
                    assert(sv[i as int].len() != gv[i as int].files_to_delete.len());
                }
                return Err(Error::PlanInvalid(plan_shape_message()));
            }
            proof {
                assert(gv.take(i + 1).drop_last() =~= gv.take(i as int));
                assert(gv.take(i + 1).last() == gv[i as int]);
                assert(sv.take(i + 1).drop_last() =~= sv.take(i as int));
                assert(sv.take(i + 1).last() == sv[i as int]);
                lemma_total_deleted_count_nonneg(sv.take(i as int));
                lemma_total_freed_bytes_nonneg(gv.take(i as int), sv.take(i as int));
                lemma_deleted_count_in_nonneg(sv[i as int]);
                lemma_freed_bytes_in_nonneg(gv[i as int].files_to_delete, sv[i as int]);
            }
            let part_count = tally_deleted(&statuses[i]);
            let part_freed = tally_freed(&preview.file_groups[i].files_to_delete, &statuses[i]);
            count = crate::arith::sat_add_usize(count, part_count);
            freed = crate::arith::sat_add_u64(freed, part_freed);
            let ghost pre_record = record.deep_view();
            let removed = collect_deleted(&preview.file_groups[i].files_to_delete, &statuses[i]);
            if removed.len() > 0 {
                let parent_path = clone_bytes(&preview.file_groups[i].parent_path);
                record.push(DirectoryDeletion { parent_path, files: removed });
                proof {
                    assert(record.deep_view() =~~= pre_record + seq![
                        DirectoryDeletionV {
                            parent_path: gv[i as int].parent_path,
                            files: deleted_in(gv[i as int].files_to_delete, sv[i as int]),
                        },
                    ]);
                }
            } else {
                proof {
                    assert(removed.deep_view().len() == 0);
                    assert(deletions_record(gv.take(i + 1), sv.take(i + 1)) =~= pre_record + Seq::<
                        DirectoryDeletionV,
                    >::empty());
                }
            }
            i = i + 1;
        }
        proof {
            assert(gv.take(statuses.len() as int) =~= gv);
            assert(sv.take(statuses.len() as int) =~= sv);
        }
        Ok(
            CleaningResult {
                files_deleted: count,
                freed_space: freed,
                clean_time,
                deleted_files: record,
            },
        )
    }
}

/// The message of a plan-shape mismatch.
fn plan_shape_message() -> String {
    String::from_str("statuses do not fit the plan")
}

/// Attempting a plan whose files were never removed, because each was
/// already gone or failed, deletes nothing and frees nothing; such an
/// execution is accounted for like any other, never an abort.
pub proof fn lemma_nothing_removed_frees_nothing(
    gs: Seq<PreviewGroupV>,
    sts: Seq<Seq<DeleteStatus>>,
)
    requires
        forall|i: int, j: int|
            0 <= i < sts.len() && 0 <= j < sts[i].len() ==> !((#[trigger] sts[i][j]) is Deleted),
    ensures
        total_deleted_count(sts) == 0,
        total_freed_bytes(gs, sts) == 0,
    decreases gs.len(), sts.len(),
{
    if sts.len() > 0 {
        let sd = sts.drop_last();
        assert forall|i: int, j: int|
            0 <= i < sd.len() && 0 <= j < sd[i].len() implies !((#[trigger] sd[i][j])
            is Deleted) by {
            assert(sd[i] == sts[i]);
        }
        assert forall|j: int| 0 <= j < sts.last().len() implies !((#[trigger] sts.last()[j])
            is Deleted) by {
            assert(sts.last() == sts[sts.len() - 1]);
        }
        lemma_no_deleted_in(sts.last());
        if gs.len() > 0 {
            lemma_nothing_removed_frees_nothing(gs.drop_last(), sd);
            lemma_no_freed_in(gs.last().files_to_delete, sts.last());
        } else {
            lemma_nothing_removed_frees_nothing(gs, sd);
        }
    }
}

proof fn lemma_no_deleted_in(sts: Seq<DeleteStatus>)
    requires
        forall|j: int| 0 <= j < sts.len() ==> !((#[trigger] sts[j]) is Deleted),
    ensures
        deleted_count_in(sts) == 0,
    decreases sts.len(),
{
    if sts.len() > 0 {
        assert forall|j: int| 0 <= j < sts.drop_last().len() implies !((#[trigger] sts.drop_last()[j])
            is Deleted) by {
            assert(sts.drop_last()[j] == sts[j]);
        }
        lemma_no_deleted_in(sts.drop_last());
        assert(sts.last() == sts[sts.len() - 1]);
    }
}

proof fn lemma_no_freed_in(files: Seq<FileInfoV>, sts: Seq<DeleteStatus>)
    requires
        forall|j: int| 0 <= j < sts.len() ==> !((#[trigger] sts[j]) is Deleted),
    ensures
        freed_bytes_in(files, sts) == 0,
    decreases files.len(),
{
    if files.len() > 0 && sts.len() > 0 {
        assert forall|j: int| 0 <= j < sts.drop_last().len() implies !((#[trigger] sts.drop_last()[j])
            is Deleted) by {
            assert(sts.drop_last()[j] == sts[j]);
        }
        lemma_no_freed_in(files.drop_last(), sts.drop_last());
        assert(sts.last() == sts[sts.len() - 1]);
    }
}


} // verus!

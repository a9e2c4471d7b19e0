//! Grouping of records by a key.
//!
//! Every layer of the detector and the planner groups file records by
//! some key: the base identity of the name, the exact size, the content
//! digest, or the parent directory. One verified grouping function
//! serves them all. Buckets appear in the order the keys are first seen
//! and each bucket holds, in input order, exactly the records that carry
//! its key, so grouping is a function of the input sequence alone.

use vstd::prelude::*;
use crate::records::{FileInfo, FileInfoV};
use crate::bytes::bytes_eq;

verus! {

/// A grouping key: some bytes (a name identity, a digest rendering, a
/// directory) or an exact size.
#[derive(Debug)]
pub enum GroupKey {
    Bytes(Vec<u8>),
    Size(u64),
}

/// Mathematical image of a [`GroupKey`].
#[verifier::ext_equal]
pub ghost enum GroupKeyV {
    Bytes(Seq<u8>),
    Size(u64),
}

impl View for GroupKey {
    type V = GroupKeyV;

    open spec fn view(&self) -> GroupKeyV {
        match self {
            GroupKey::Bytes(b) => GroupKeyV::Bytes(b@),
            GroupKey::Size(s) => GroupKeyV::Size(*s),
        }
    }
}

impl DeepView for GroupKey {
    type V = GroupKeyV;

    open spec fn deep_view(&self) -> GroupKeyV {
        self@
    }
}

/// A record paired with the key it is grouped under.
#[derive(Debug)]
pub struct Keyed {
    pub key: GroupKey,
    pub rec: FileInfo,
}

/// Mathematical image of a [`Keyed`].
#[verifier::ext_equal]
pub ghost struct KeyedV {
    pub key: GroupKeyV,
    pub rec: FileInfoV,
}

impl View for Keyed {
    type V = KeyedV;

    open spec fn view(&self) -> KeyedV {
        KeyedV { key: self.key@, rec: self.rec@ }
    }
}

impl DeepView for Keyed {
    type V = KeyedV;

    open spec fn deep_view(&self) -> KeyedV {
        self@
    }
}

/// One bucket of records that share a key.
#[derive(Debug)]
pub struct Bucket {
    pub key: GroupKey,
    pub items: Vec<FileInfo>,
}

/// Mathematical image of a [`Bucket`].
#[verifier::ext_equal]
pub ghost struct BucketV {
    pub key: GroupKeyV,
    pub items: Seq<FileInfoV>,
}

impl View for Bucket {
    type V = BucketV;

    open spec fn view(&self) -> BucketV {
        BucketV { key: self.key@, items: self.items.deep_view() }
    }
}

impl DeepView for Bucket {
    type V = BucketV;

    open spec fn deep_view(&self) -> BucketV {
        self@
    }
}

/// The keys of a keyed sequence, in order.
pub open spec fn keys_of(s: Seq<KeyedV>) -> Seq<GroupKeyV> {
    s.map_values(|x: KeyedV| x.key)
}

/// The distinct keys of a sequence, each at its first occurrence.
pub open spec fn dedup_first(keys: Seq<GroupKeyV>) -> Seq<GroupKeyV>
    decreases keys.len(),
{
    if keys.len() == 0 {
        Seq::empty()
    } else {
        let pre = dedup_first(keys.drop_last());
        if pre.contains(keys.last()) {
            pre
        } else {
            pre.push(keys.last())
        }
    }
}

/// The records of `s` that carry key `k`, in input order.
pub open spec fn bucket_of(s: Seq<KeyedV>, k: GroupKeyV) -> Seq<FileInfoV>
    decreases s.len(),
{
    if s.len() == 0 {
        Seq::empty()
    } else {
        let pre = bucket_of(s.drop_last(), k);
        if s.last().key == k {
            pre.push(s.last().rec)
        } else {
            pre
        }
    }
}

/// The grouping of a keyed sequence: one bucket per distinct key, keys
/// in first-seen order, each bucket holding its records in input order.
pub open spec fn group_spec(s: Seq<KeyedV>) -> Seq<BucketV> {
    let keys = dedup_first(keys_of(s));
    Seq::new(keys.len(), |i: int| BucketV { key: keys[i], items: bucket_of(s, keys[i]) })
}

pub proof fn lemma_dedup_first_props(keys: Seq<GroupKeyV>)
    ensures
        forall|m: int, n: int|
            0 <= m < n < dedup_first(keys).len() ==> dedup_first(keys)[m] != dedup_first(keys)[n],
        forall|k: GroupKeyV| dedup_first(keys).contains(k) <==> keys.contains(k),
    decreases keys.len(),
{
    if keys.len() > 0 {
        let kd = keys.drop_last();
        let last = keys.last();
        lemma_dedup_first_props(kd);
        assert forall|k: GroupKeyV| keys.contains(k) implies (kd.contains(k) || last == k) by {
            let i = choose|i: int| 0 <= i < keys.len() && keys[i] == k;
            if i < keys.len() - 1 {
                assert(kd[i] == k);
            }
        }
        assert forall|k: GroupKeyV| kd.contains(k) implies keys.contains(k) by {
            let i = choose|i: int| 0 <= i < kd.len() && kd[i] == k;
            assert(keys[i] == k);
        }
        assert(keys[keys.len() - 1] == last);
        assert(keys.contains(last));
        let pre = dedup_first(kd);
        if !pre.contains(last) {
            let out = pre.push(last);
            assert forall|k: GroupKeyV| out.contains(k) implies (pre.contains(k) || k == last) by {
                let i = choose|i: int| 0 <= i < out.len() && out[i] == k;
                if i < out.len() - 1 {
                    assert(pre[i] == k);
                }
            }
            assert forall|k: GroupKeyV| pre.contains(k) implies out.contains(k) by {
                let i = choose|i: int| 0 <= i < pre.len() && pre[i] == k;
                assert(out[i] == k);
            }
            assert(out[out.len() - 1] == last);
            assert(out.contains(last));
        }
    }
}

pub proof fn lemma_bucket_of_absent(s: Seq<KeyedV>, k: GroupKeyV)
    requires
        !keys_of(s).contains(k),
    ensures
        bucket_of(s, k) == Seq::<FileInfoV>::empty(),
    decreases s.len(),
{
    if s.len() > 0 {
        let sd = s.drop_last();
        assert forall|j: int| 0 <= j < sd.len() implies keys_of(sd)[j] != k by {
            assert(keys_of(s)[j] == sd[j].key);
            if keys_of(sd)[j] == k {
                assert(keys_of(s).contains(k));
            }
        }
        if keys_of(sd).contains(k) {
            assert(false);
        }
        lemma_bucket_of_absent(sd, k);
        assert(keys_of(s)[s.len() - 1] == s.last().key);
        if s.last().key == k {
            assert(keys_of(s).contains(k));
        }
    }
}

/// Some input element carries key `k` and record `x`.
pub open spec fn keyed_source(s: Seq<KeyedV>, k: GroupKeyV, x: FileInfoV) -> bool {
    exists|i: int| 0 <= i < s.len() && #[trigger] s[i] == (KeyedV { key: k, rec: x })
}

/// Every record of a bucket stems from an input element that carried
/// the bucket's key.
pub proof fn lemma_bucket_members(s: Seq<KeyedV>, k: GroupKeyV)
    ensures
        forall|j: int|
            0 <= j < bucket_of(s, k).len() ==> keyed_source(s, k, #[trigger] bucket_of(s, k)[j]),
    decreases s.len(),
{
    if s.len() > 0 {
        let sd = s.drop_last();
        lemma_bucket_members(sd, k);
        let b = bucket_of(s, k);
        let bd = bucket_of(sd, k);
        assert forall|j: int| 0 <= j < b.len() implies keyed_source(
            s,
            k,
            #[trigger] bucket_of(s, k)[j],
        ) by {
            if j < bd.len() {
                assert(b[j] == bd[j]);
                assert(keyed_source(sd, k, bd[j]));
                let i0 = choose|i: int|
                    0 <= i < sd.len() && #[trigger] sd[i] == (KeyedV { key: k, rec: bd[j] });
                assert(s[i0] == sd[i0]);
                assert(keyed_source(s, k, b[j]));
            } else {
                assert(s.last().key == k && s.last().rec == b[j]);
                assert(s[s.len() - 1] == (KeyedV { key: k, rec: b[j] }));
                assert(keyed_source(s, k, b[j]));
            }
        }
    }
}

/// Compares two grouping keys.
pub fn key_eq(a: &GroupKey, b: &GroupKey) -> (r: bool)
    ensures
        r == (a@ == b@),
{
    match (a, b) {
        (GroupKey::Bytes(x), GroupKey::Bytes(y)) => bytes_eq(x, y),
        (GroupKey::Size(x), GroupKey::Size(y)) => *x == *y,
        _ => false,
    }
}

impl Clone for GroupKey {
    /// A clone denotes the same key.
    fn clone(&self) -> (r: Self)
        ensures
            r@ == self@,
    {
        match self {
            GroupKey::Bytes(b) => {
                let c = crate::bytes::prefix_bytes(b, b.len());
                proof {
                    assert(c@ =~= b@);
                }
                GroupKey::Bytes(c)
            },
            GroupKey::Size(s) => GroupKey::Size(*s),
        }
    }
}

/// Groups a keyed sequence of records into buckets.
pub fn group_by_key(items: &Vec<Keyed>) -> (r: Vec<Bucket>)
    ensures
        r.deep_view() == group_spec(items.deep_view()),
{
    let ghost full = items.deep_view();
    let mut gs: Vec<Bucket> = Vec::new();
    let mut i: usize = 0;
    proof {
        assert(full.take(0) =~= Seq::<KeyedV>::empty());
        assert(keys_of(full.take(0)) =~= Seq::<GroupKeyV>::empty());
        assert(gs.deep_view() =~~= group_spec(full.take(0)));
    }
    while i < items.len()
        invariant
            i <= items.len(),
            full == items.deep_view(),
            gs.deep_view() == group_spec(full.take(i as int)),
        decreases items.len() - i,
    {
        let ghost s = full.take(i as int);
        let ghost s2 = full.take(i + 1);
        let ghost keys = dedup_first(keys_of(s));
        let ghost x = full[i as int];
        proof {
            assert(s2.drop_last() =~= s);
            assert(s2.last() == x);
            assert(keys_of(s2).drop_last() =~= keys_of(s));
            assert(keys_of(s2).last() == x.key);
            assert(keys_of(s2) =~= keys_of(s).push(x.key));
            lemma_dedup_first_props(keys_of(s));
            lemma_dedup_first_props(keys_of(s2));
        }
        let item = &items[i];
        proof {
            assert(item@ == x);
        }
        let mut j: usize = 0;
        let mut found: Option<usize> = None;
        while j < gs.len()
            invariant
                j <= gs.len(),
                gs.deep_view() == group_spec(s),
                keys == dedup_first(keys_of(s)),
                item@ == x,
                match found {
                    Some(f) => f < gs.len() && gs.deep_view()[f as int].key == x.key,
                    None => forall|m: int| 0 <= m < j ==> gs.deep_view()[m].key != x.key,
                },
                found is Some ==> keys.contains(x.key),
            decreases gs.len() - j,
        {
            if found.is_none() && key_eq(&gs[j].key, &item.key) {
                found = Some(j);
                proof {
                    let gsv = group_spec(s);
                    assert(gsv.len() == dedup_first(keys_of(s)).len());
                    assert(gsv[j as int].key == keys[j as int]);
                    assert(gs.deep_view()[j as int] == gsv[j as int]);
                    assert(gs.deep_view()[j as int].key == gs@[j as int].key@);
                    assert(keys[j as int] == x.key);
                    assert(keys.contains(x.key));
                }
            }
            j = j + 1;
        }
        match found {
            Some(f) => {
                let ghost pre = gs.deep_view();
                proof {
                    let gsv = group_spec(s);
                    assert(gsv.len() == dedup_first(keys_of(s)).len());
                    assert(gsv[f as int].key == keys[f as int]);
                    assert(pre[f as int] == gsv[f as int]);
                    assert(keys[f as int] == x.key);
                    assert(keys.contains(x.key));
                    assert(dedup_first(keys_of(s2)) == keys);
                }
                let rec = item.rec.clone();
                let slot = &mut gs[f];
                slot.items.push(rec);
                proof {
                    assert(gs@[f as int].deep_view() =~~= BucketV {
                        key: x.key,
                        items: pre[f as int].items.push(x.rec),
                    });
                    assert forall|m: int| 0 <= m < keys.len() implies #[trigger] gs.deep_view()[m]
                        =~~= group_spec(s2)[m] by {
                        assert(group_spec(s2)[m].key == keys[m]);
                        assert(group_spec(s2)[m].items == bucket_of(s2, keys[m]));
                        assert(pre[m] == group_spec(s)[m]);
                        if m == f {
                            assert(bucket_of(s2, keys[m]) == bucket_of(s, keys[m]).push(x.rec));
                            assert(gs.deep_view()[m] == gs@[m].deep_view());
                        } else {
                            assert(keys[m] != x.key);
                            assert(bucket_of(s2, keys[m]) == bucket_of(s, keys[m]));
                            assert(gs.deep_view()[m] == pre[m]);
                        }
                    }
                    assert(gs.deep_view().len() == group_spec(s2).len());
                    assert(gs.deep_view() =~~= group_spec(s2));
                }
            },
            None => {
                let ghost pre = gs.deep_view();
                proof {
                    assert(gs.deep_view().len() == dedup_first(keys_of(s)).len());
                    assert forall|m: int| 0 <= m < keys.len() implies #[trigger] keys[m]
                        != x.key by {
                        assert(pre[m] == group_spec(s)[m]);
                        assert(pre[m].key == keys[m]);
                    }
                    if keys.contains(x.key) {
                        assert(false);
                    }
                    assert(!keys_of(s).contains(x.key));
                    lemma_bucket_of_absent(s, x.key);
                    assert(dedup_first(keys_of(s2)) == keys.push(x.key));
                }
                let rec = item.rec.clone();
                let key = item.key.clone();
                let mut items_new: Vec<FileInfo> = Vec::new();
                items_new.push(rec);
                proof {
                    assert(items_new.deep_view() =~= seq![x.rec]);
                }
                gs.push(Bucket { key, items: items_new });
                proof {
                    let keys2 = keys.push(x.key);
                    assert forall|m: int| 0 <= m < keys2.len() implies #[trigger] gs.deep_view()[m]
                        =~~= group_spec(s2)[m] by {
                        assert(group_spec(s2)[m].key == keys2[m]);
                        assert(group_spec(s2)[m].items == bucket_of(s2, keys2[m]));
                        if m < keys.len() {
                            assert(keys2[m] == keys[m]);
                            assert(keys[m] != x.key);
                            assert(bucket_of(s2, keys[m]) == bucket_of(s, keys[m]));
                            assert(gs.deep_view()[m] == pre[m]);
                            assert(pre[m] == group_spec(s)[m]);
                        } else {
                            assert(keys2[m] == x.key);
                            assert(bucket_of(s2, x.key) == bucket_of(s, x.key).push(x.rec));
                            assert(bucket_of(s, x.key) == Seq::<FileInfoV>::empty());
                            assert(bucket_of(s2, x.key) =~= seq![x.rec]);
                            assert(gs.deep_view()[m] == gs@[m].deep_view());
                            assert(gs.deep_view()[m].items =~= seq![x.rec]);
                        }
                    }
                    assert(gs.deep_view().len() == group_spec(s2).len());
                    assert(gs.deep_view() =~~= group_spec(s2));
                }
            },
        }
        i = i + 1;
    }
    proof {
        assert(full.take(items.len() as int) =~= full);
    }
    gs
}

} // verus!

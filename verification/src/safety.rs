//! Band-change safety: the pending transaction record and bounded backups.
use vstd::prelude::*;

use crate::text;

verus! {

/// A band change that has been applied but not yet confirmed.
#[derive(Debug, Clone)]
pub struct BandTransaction {
    pub device_uid: String,
    pub object_path: String,
    pub previous_bands: Vec<u32>,
    pub requested_bands: Vec<u32>,
    pub created_unix: u64,
    pub guard_token: String,
}

/// A backup of band settings taken before a change.
#[derive(Debug, Clone)]
pub struct SettingsBackup {
    pub kind: String,
    pub device_uid: String,
    pub object_path: String,
    pub bands: Vec<u32>,
    pub created_unix: u64,
    pub note: String,
}

/// How many backups are kept.
pub const BACKUP_LIMIT: usize = 50;

fn copy_u32s(v: &[u32]) -> (r: Vec<u32>)
    ensures
        r@ == v@,
{
    let mut r: Vec<u32> = Vec::new();
    let mut i: usize = 0;
    while i < v.len()
        invariant
            i <= v.len(),
            r@ == v@.take(i as int),
        decreases v.len() - i,
    {
        r.push(v[i]);
        i += 1;
        assert(r@ =~= v@.take(i as int));
    }
    assert(v@.take(i as int) =~= v@);
    r
}

fn backup_record(kind: &str, prefix: &str, device_uid: &str, object_path: &str, bands: &[u32], note: &str, stamp: u64) -> (r: (SettingsBackup, String))
    ensures
        r.0.kind@ == kind@,
        r.0.device_uid@ == device_uid@,
        r.0.object_path@ == object_path@,
        r.0.bands@ == bands@,
        r.0.created_unix == stamp,
        r.0.note@ == note@,
        r.1@ == prefix@ + text::dec(stamp as nat) + ".json"@,
{
    let backup = SettingsBackup {
        kind: String::from_str(kind),
        device_uid: String::from_str(device_uid),
        object_path: String::from_str(object_path),
        bands: copy_u32s(bands),
        created_unix: stamp,
        note: String::from_str(note),
    };
    let mut name = text::chars_of(prefix);
    let d = text::dec_exec(stamp);
    text::push_all(&mut name, d.as_slice());
    text::push_str(&mut name, ".json");
    (backup, text::string_from(name.as_slice()))
}

/// The backup of a band selection taken at `stamp`, and its file name `band-<stamp>.json`.
pub fn backup_band_state(device_uid: &str, object_path: &str, bands: &[u32], note: &str, stamp: u64) -> (r: (SettingsBackup, String))
    ensures
        r.0.kind@ == "band"@,
        r.0.device_uid@ == device_uid@,
        r.0.object_path@ == object_path@,
        r.0.bands@ == bands@,
        r.0.created_unix == stamp,
        r.0.note@ == note@,
        r.1@ == "band-"@ + text::dec(stamp as nat) + ".json"@,
{
    backup_record("band", "band-", device_uid, object_path, bands, note, stamp)
}

/// The record of a cell-lock preview taken at `stamp`, and its file name
/// `cell-preview-<stamp>.json`.
pub fn backup_cell_intent(device_uid: &str, object_path: &str, bands: &[u32], note: &str, stamp: u64) -> (r: (SettingsBackup, String))
    ensures
        r.0.kind@ == "cell-lock-preview"@,
        r.0.device_uid@ == device_uid@,
        r.0.object_path@ == object_path@,
        r.0.bands@ == bands@,
        r.0.created_unix == stamp,
        r.0.note@ == note@,
        r.1@ == "cell-preview-"@ + text::dec(stamp as nat) + ".json"@,
{
    backup_record("cell-lock-preview", "cell-preview-", device_uid, object_path, bands, note, stamp)
}

/// Entry `j` comes before entry `i` when the entries are sorted by time,
/// equal times keeping their order.
pub open spec fn precedes(t: Seq<u128>, j: int, i: int) -> bool {
    t[j] < t[i] || (t[j] == t[i] && j < i)
}

/// How many of the first `m` entries come before entry `i`.
pub open spec fn rank_upto(t: Seq<u128>, i: int, m: int) -> nat
    decreases m,
{
    if m <= 0 {
        0
    } else {
        rank_upto(t, i, m - 1) + if precedes(t, m - 1, i) { 1nat } else { 0nat }
    }
}

/// Position of entry `i` in the time order (oldest first, ties in order).
pub open spec fn rank(t: Seq<u128>, i: int) -> nat {
    rank_upto(t, i, t.len() as int)
}

/// How many backups are over the limit.
pub open spec fn excess(n: nat, keep: nat) -> nat {
    if n > keep { (n - keep) as nat } else { 0 }
}

/// How many of the first `m` entries have a position below `e`.
pub open spec fn count_below(t: Seq<u128>, e: nat, m: int) -> nat
    decreases m,
{
    if m <= 0 {
        0
    } else {
        count_below(t, e, m - 1) + if rank(t, m - 1) < e { 1nat } else { 0nat }
    }
}

proof fn lemma_rank_upto_bound(t: Seq<u128>, i: int, m: int)
    requires
        0 <= i < t.len(),
        0 <= m <= t.len(),
    ensures
        rank_upto(t, i, m) + (if i < m { 1int } else { 0int }) <= m,
    decreases m,
{
    if m > 0 {
        lemma_rank_upto_bound(t, i, m - 1);
    }
}

proof fn lemma_rank_upto_order(t: Seq<u128>, i: int, k: int, m: int)
    requires
        0 <= i < t.len(),
        0 <= k < t.len(),
        0 <= m <= t.len(),
        precedes(t, i, k),
    ensures
        rank_upto(t, k, m) >= rank_upto(t, i, m) + (if i < m { 1int } else { 0int }),
    decreases m,
{
    if m > 0 {
        lemma_rank_upto_order(t, i, k, m - 1);
    }
}

/// Positions are distinct and below the number of entries.
proof fn lemma_rank_injective(t: Seq<u128>, i: int, k: int)
    requires
        0 <= i < t.len(),
        0 <= k < t.len(),
    ensures
        rank(t, i) < t.len(),
        i != k ==> rank(t, i) != rank(t, k),
{
    lemma_rank_upto_bound(t, i, t.len() as int);
    if i != k {
        if precedes(t, i, k) {
            lemma_rank_upto_order(t, i, k, t.len() as int);
        } else {
            lemma_rank_upto_order(t, k, i, t.len() as int);
        }
    }
}

proof fn lemma_count_below_set(t: Seq<u128>, e: nat, m: int)
    requires
        0 <= m <= t.len(),
    ensures
        Set::new(|i: int| 0 <= i < m && rank(t, i) < e).finite(),
        Set::new(|i: int| 0 <= i < m && rank(t, i) < e).len() == count_below(t, e, m),
    decreases m,
{
    let s = Set::new(|i: int| 0 <= i < m && rank(t, i) < e);
    if m == 0 {
        assert(s =~= Set::<int>::empty());
    } else {
        lemma_count_below_set(t, e, m - 1);
        let p = Set::new(|i: int| 0 <= i < m - 1 && rank(t, i) < e);
        if rank(t, m - 1) < e {
            assert(s =~= p.insert(m - 1));
        } else {
            assert(s =~= p);
        }
    }
}

/// Pruning leaves at most `keep` backups: of `n` entries, exactly
/// `n - keep` (none when `n <= keep`) have a position in the time order
/// below the excess, so `min(n, keep)` stay.
pub proof fn law_prune_count(t: Seq<u128>, keep: nat)
    ensures
        count_below(t, excess(t.len(), keep), t.len() as int) == excess(t.len(), keep),
        t.len() - count_below(t, excess(t.len(), keep), t.len() as int) <= keep,
{
    let n = t.len() as int;
    let e = excess(t.len(), keep);
    let f = |i: int| rank(t, i) as int;
    let x = vstd::set_lib::set_int_range(0, n);
    vstd::set_lib::lemma_int_range(0, n);
    vstd::set_lib::lemma_int_range(0, e as int);
    assert forall|a: int, b: int| x.contains(a) && x.contains(b) && #[trigger] f(a) == #[trigger] f(b) implies a == b by {
        lemma_rank_injective(t, a, b);
    }
    assert(vstd::relations::injective_on(f, x));
    let img = x.map(f);
    vstd::set_lib::lemma_map_size(x, img, f);
    assert forall|v: int| img.contains(v) implies vstd::set_lib::set_int_range(0, n).contains(v) by {
        let a = choose|a: int| x.contains(a) && f(a) == v;
        lemma_rank_injective(t, a, a);
    }
    vstd::set_lib::lemma_subset_equality(img, vstd::set_lib::set_int_range(0, n));
    let s = Set::new(|i: int| 0 <= i < n && rank(t, i) < e);
    lemma_count_below_set(t, e, n);
    assert forall|a: int, b: int| s.contains(a) && s.contains(b) && #[trigger] f(a) == #[trigger] f(b) implies a == b by {
        lemma_rank_injective(t, a, b);
    }
    assert(vstd::relations::injective_on(f, s));
    assert forall|v: int| #[trigger] vstd::set_lib::set_int_range(0, e as int).contains(v) implies s.map(f).contains(v) by {
        assert(img.contains(v));
        let a = choose|a: int| x.contains(a) && f(a) == v;
        assert(s.contains(a));
    }
    assert(s.map(f) =~= vstd::set_lib::set_int_range(0, e as int));
    vstd::set_lib::lemma_map_size(s, vstd::set_lib::set_int_range(0, e as int), f);
}

/// The indices, in increasing order, of the backups to delete so that the
/// newest `keep` remain: those whose position in the time order is below
/// the excess.
pub fn backups_to_prune(modified: &[u128], keep: usize) -> (r: Vec<usize>)
    ensures
        forall|k: int| 0 <= k < r@.len() ==> (r@[k] as int) < modified@.len()
            && rank(modified@, r@[k] as int) < excess(modified@.len(), keep as nat),
        forall|i: int| 0 <= i < modified@.len() && rank(modified@, i) < excess(modified@.len(), keep as nat)
            ==> r@.contains(i as usize),
        forall|a: int, b: int| 0 <= a < b < r@.len() ==> r@[a] < r@[b],
        r@.len() == excess(modified@.len(), keep as nat),
{
    let n = modified.len();
    let remove: usize = if n > keep { n - keep } else { 0 };
    let mut r: Vec<usize> = Vec::new();
    let mut i: usize = 0;
    while i < n
        invariant
            i <= n,
            n == modified@.len(),
            remove == excess(n as nat, keep as nat),
            forall|k: int| 0 <= k < r@.len() ==> (r@[k] as int) < i && rank(modified@, r@[k] as int) < remove,
            forall|m: int| 0 <= m < i && rank(modified@, m) < remove ==> r@.contains(m as usize),
            forall|a: int, b: int| 0 <= a < b < r@.len() ==> r@[a] < r@[b],
            r@.len() == count_below(modified@, remove as nat, i as int),
        decreases n - i,
    {
        let mut c: usize = 0;
        let mut j: usize = 0;
        while j < n
            invariant
                j <= n,
                i < n,
                n == modified@.len(),
                c == rank_upto(modified@, i as int, j as int),
                c <= j,
            decreases n - j,
        {
            if modified[j] < modified[i] || (modified[j] == modified[i] && j < i) {
                c += 1;
            }
            j += 1;
        }
        if c < remove {
            let ghost before = r@;
            r.push(i);
            assert forall|m: int| 0 <= m < i + 1 && rank(modified@, m) < remove implies r@.contains(m as usize) by {
                if m < i {
                    assert(before.contains(m as usize));
                    let k = choose|k: int| 0 <= k < before.len() && before[k] == m as usize;
                    assert(r@[k] == m as usize);
                } else {
                    assert(r@[before.len() as int] == i);
                }
            }
        } else {
            assert forall|m: int| 0 <= m < i + 1 && rank(modified@, m) < remove implies r@.contains(m as usize) by {
                if m < i {
                }
            }
        }
        i += 1;
    }
    proof {
        law_prune_count(modified@, keep as nat);
    }
    r
}

/// The pending band-change record under the configuration directory.
pub fn pending_path(config_home: &str) -> (r: String)
    ensures
        r@ == text::join_path(config_home@, "modemdeck/pending-band-change.json"@),
{
    text::join_path_exec(config_home, "modemdeck/pending-band-change.json")
}

/// The backups directory under the configuration directory.
pub fn backups_dir(config_home: &str) -> (r: String)
    ensures
        r@ == text::join_path(config_home@, "modemdeck/backups"@),
{
    text::join_path_exec(config_home, "modemdeck/backups")
}

} // verus!

//! Update manifests and version comparison.
use vstd::prelude::*;

use crate::text;

verus! {

/// The release description that the update server publishes.
#[derive(Debug, Clone)]
pub struct UpdateManifest {
    pub version: String,
    pub url: String,
    pub notes: String,
}

/// Whether the published release is newer than the running one.
#[derive(Debug, Clone)]
pub enum UpdateState {
    Current(UpdateManifest),
    Available(UpdateManifest),
}

/// The pieces of `s` between characters that are not ASCII digits.
pub open spec fn split_nondigit(s: Seq<char>) -> Seq<Seq<char>>
    decreases s.len(),
{
    if s.len() == 0 {
        seq![Seq::<char>::empty()]
    } else {
        let r = split_nondigit(s.drop_last());
        if !text::is_digit(s.last()) {
            r.push(Seq::<char>::empty())
        } else {
            r.update(r.len() - 1, r.last().push(s.last()))
        }
    }
}

proof fn lemma_split_nondigit_len(s: Seq<char>)
    ensures
        split_nondigit(s).len() >= 1,
    decreases s.len(),
{
    if s.len() > 0 {
        lemma_split_nondigit_len(s.drop_last());
    }
}

/// The runs of ASCII digits of `s`, in order.
pub open spec fn digit_runs(s: Seq<char>) -> Seq<Seq<char>> {
    split_nondigit(s).filter(|p: Seq<char>| p.len() > 0)
}

/// A digit run read as a `u64`, or 0 when it does not fit.
pub open spec fn run_value(d: Seq<char>) -> u64 {
    match text::parse_u64(d) {
        Some(v) => v,
        None => 0,
    }
}

/// The numbers of a version text: a leading `v` dropped, then the values of
/// its first four digit runs.
pub open spec fn spec_version_numbers(value: Seq<char>) -> Seq<u64> {
    let runs = digit_runs(text::trim_start_char(value, 'v'));
    let first = if runs.len() <= 4 { runs } else { runs.take(4) };
    Seq::new(first.len(), |i: int| run_value(first[i]))
}

/// `a` padded with zeros to length `n`.
pub open spec fn pad(a: Seq<u64>, n: nat) -> Seq<u64> {
    if a.len() >= n { a } else { a + Seq::new((n - a.len()) as nat, |i: int| 0u64) }
}

/// Lexicographic "greater than" of two sequences of equal length.
pub open spec fn lex_gt(a: Seq<u64>, b: Seq<u64>) -> bool
    decreases a.len(),
{
    if a.len() == 0 || b.len() == 0 {
        false
    } else if a[0] != b[0] {
        a[0] > b[0]
    } else {
        lex_gt(a.drop_first(), b.drop_first())
    }
}

/// `remote` is a later version than `local`: their numbers, padded with
/// zeros to the same length, compare greater.
pub open spec fn spec_newer_than(remote: Seq<char>, local: Seq<char>) -> bool {
    let a = spec_version_numbers(remote);
    let b = spec_version_numbers(local);
    let n = if a.len() >= b.len() { a.len() } else { b.len() };
    lex_gt(pad(a, n), pad(b, n))
}

fn split_nondigit_exec(s: &[char]) -> (r: Vec<Vec<char>>)
    ensures
        text::views(r@) == split_nondigit(s@),
{
    let mut parts: Vec<Vec<char>> = Vec::new();
    let mut cur: Vec<char> = Vec::new();
    let mut i: usize = 0;
    assert(s@.take(0) =~= Seq::<char>::empty());
    assert(text::views(parts@).push(cur@) =~= split_nondigit(s@.take(0)));
    while i < s.len()
        invariant
            i <= s.len(),
            text::views(parts@).push(cur@) == split_nondigit(s@.take(i as int)),
        decreases s.len() - i,
    {
        let ghost prev = s@.take(i as int);
        assert(s@.take(i + 1).drop_last() =~= prev);
        assert(s@.take(i + 1).last() == s@[i as int]);
        proof {
            lemma_split_nondigit_len(prev);
        }
        if !text::digit_exec(s[i]) {
            let done = cur;
            parts.push(done);
            cur = Vec::new();
            assert(text::views(parts@).push(cur@) =~= split_nondigit(s@.take(i + 1)));
        } else {
            cur.push(s[i]);
            assert(text::views(parts@).push(cur@) =~= split_nondigit(s@.take(i + 1)));
        }
        i += 1;
    }
    assert(s@.take(i as int) =~= s@);
    parts.push(cur);
    assert(text::views(parts@) =~= split_nondigit(s@));
    parts
}

pub fn version_numbers(value: &str) -> (r: Vec<u64>)
    ensures
        r@ == spec_version_numbers(value@),
{
    let v = text::chars_of(value);
    let t = text::trim_start_char_exec(v.as_slice(), 'v');
    let pieces = split_nondigit_exec(t.as_slice());
    let ghost pv = text::views(pieces@);
    let ghost pred = |p: Seq<char>| p.len() > 0;
    let mut runs: Vec<Vec<char>> = Vec::new();
    let mut i: usize = 0;
    assert(pv.take(0) =~= Seq::<Seq<char>>::empty());
    assert(text::views(runs@) =~= pv.take(0).filter(pred)) by {
        reveal_with_fuel(Seq::<_>::filter, 1);
    }
    while i < pieces.len()
        invariant
            i <= pieces.len(),
            pv == text::views(pieces@),
            pred == (|p: Seq<char>| p.len() > 0),
            text::views(runs@) == pv.take(i as int).filter(pred),
        decreases pieces.len() - i,
    {
        assert(pv.take(i + 1).drop_last() =~= pv.take(i as int));
        assert(pv[i as int] == pieces@[i as int]@);
        let ghost before = text::views(runs@);
        if pieces[i].len() > 0 {
            let p = text::slice_all(pieces[i].as_slice());
            runs.push(p);
            assert(text::views(runs@) =~= before.push(p@));
        }
        proof {
            reveal_with_fuel(Seq::<_>::filter, 1);
        }
        assert(text::views(runs@) =~= pv.take(i + 1).filter(pred));
        i += 1;
    }
    assert(pv.take(i as int) =~= pv);
    let ghost rv = text::views(runs@);
    let count: usize = if runs.len() <= 4 { runs.len() } else { 4 };
    let ghost first = if rv.len() <= 4 { rv } else { rv.take(4) };
    let mut r: Vec<u64> = Vec::new();
    let mut k: usize = 0;
    while k < count
        invariant
            k <= count,
            count == first.len(),
            count <= runs.len(),
            rv == text::views(runs@),
            first == (if rv.len() <= 4 { rv } else { rv.take(4) }),
            r@ == Seq::new(k as nat, |j: int| run_value(first[j])),
        decreases count - k,
    {
        assert(first[k as int] == runs@[k as int]@);
        let n = match text::parse_u64_exec(runs[k].as_slice()) {
            Some(x) => x,
            None => 0,
        };
        r.push(n);
        k += 1;
        assert(r@ =~= Seq::new(k as nat, |j: int| run_value(first[j])));
    }
    r
}

fn pad_exec(a: &mut Vec<u64>, n: usize)
    ensures
        final(a)@ == pad(old(a)@, n as nat),
{
    let ghost start = a@;
    while a.len() < n
        invariant
            start.len() <= a@.len() <= (if start.len() >= n { start.len() } else { n as nat }),
            a@ == start + Seq::new((a@.len() - start.len()) as nat, |i: int| 0u64),
        decreases n - a.len(),
    {
        let ghost before = a@;
        a.push(0);
        assert(a@ =~= start + Seq::new((a@.len() - start.len()) as nat, |i: int| 0u64));
    }
    assert(a@ =~= pad(start, n as nat));
}

proof fn lemma_lex_gt_skip(a: Seq<u64>, b: Seq<u64>, k: int)
    requires
        0 <= k <= a.len(),
        a.len() == b.len(),
        a.take(k) == b.take(k),
    ensures
        lex_gt(a, b) == lex_gt(a.skip(k), b.skip(k)),
    decreases k,
{
    if k > 0 {
        assert(a[0] == a.take(k)[0]);
        assert(b[0] == b.take(k)[0]);
        assert(a.drop_first().take(k - 1) =~= b.drop_first().take(k - 1)) by {
            assert forall|m: int| 0 <= m < k - 1 implies #[trigger] a.drop_first().take(k - 1)[m] == b.drop_first().take(k - 1)[m] by {
                assert(a.take(k)[m + 1] == b.take(k)[m + 1]);
                assert(a.drop_first().take(k - 1)[m] == a[m + 1]);
                assert(b.drop_first().take(k - 1)[m] == b[m + 1]);
                assert(a.take(k)[m + 1] == a[m + 1]);
                assert(b.take(k)[m + 1] == b[m + 1]);
            }
        }
        lemma_lex_gt_skip(a.drop_first(), b.drop_first(), k - 1);
        assert(a.drop_first().skip(k - 1) =~= a.skip(k));
        assert(b.drop_first().skip(k - 1) =~= b.skip(k));
    } else {
        assert(a.skip(0) =~= a);
        assert(b.skip(0) =~= b);
    }
}

pub fn newer_than(remote: &str, local: &str) -> (r: bool)
    ensures
        r == spec_newer_than(remote@, local@),
{
    let mut a = version_numbers(remote);
    let mut b = version_numbers(local);
    let n = if a.len() >= b.len() { a.len() } else { b.len() };
    pad_exec(&mut a, n);
    pad_exec(&mut b, n);
    let mut i: usize = 0;
    assert(a@.take(0) =~= b@.take(0));
    while i < n
        invariant
            a.len() == n,
            b.len() == n,
            i <= n,
            ({
                let va = spec_version_numbers(remote@);
                let vb = spec_version_numbers(local@);
                &&& n == (if va.len() >= vb.len() { va.len() } else { vb.len() })
                &&& a@ == pad(va, n as nat)
                &&& b@ == pad(vb, n as nat)
            }),
            a@.take(i as int) == b@.take(i as int),
        decreases n - i,
    {
        if a[i] != b[i] {
            proof {
                lemma_lex_gt_skip(a@, b@, i as int);
            }
            assert(a@.skip(i as int)[0] == a@[i as int]);
            assert(b@.skip(i as int)[0] == b@[i as int]);
            assert(a@.skip(i as int).len() > 0 && b@.skip(i as int).len() > 0);
            assert(lex_gt(a@.skip(i as int), b@.skip(i as int)) == (a@[i as int] > b@[i as int]));
            return a[i] > b[i];
        }
        assert(a@.take(i + 1) =~= a@.take(i as int).push(a@[i as int]));
        assert(b@.take(i + 1) =~= b@.take(i as int).push(b@[i as int]));
        i += 1;
    }
    proof {
        lemma_lex_gt_skip(a@, b@, n as int);
    }
    false
}

/// The update state for a fetched manifest and the running version.
pub open spec fn is_available(s: UpdateState) -> bool {
    s is Available
}

pub fn state_for(manifest: UpdateManifest, current: &str) -> (r: UpdateState)
    ensures
        is_available(r) == spec_newer_than(manifest.version@, current@),
        match r {
            UpdateState::Current(m) => m == manifest,
            UpdateState::Available(m) => m == manifest,
        },
{
    if newer_than(manifest.version.as_str(), current) {
        UpdateState::Available(manifest)
    } else {
        UpdateState::Current(manifest)
    }
}

proof fn lemma_lex_gt_irreflexive(a: Seq<u64>)
    ensures
        !lex_gt(a, a),
    decreases a.len(),
{
    if a.len() > 0 {
        lemma_lex_gt_irreflexive(a.drop_first());
    }
}

proof fn lemma_lex_gt_asymmetric(a: Seq<u64>, b: Seq<u64>)
    requires
        lex_gt(a, b),
    ensures
        !lex_gt(b, a),
    decreases a.len(),
{
    if a.len() > 0 && b.len() > 0 && a[0] == b[0] {
        lemma_lex_gt_asymmetric(a.drop_first(), b.drop_first());
    }
}

/// No version is newer than itself.
pub proof fn law_newer_than_irreflexive(v: Seq<char>)
    ensures
        !spec_newer_than(v, v),
{
    let a = spec_version_numbers(v);
    lemma_lex_gt_irreflexive(pad(a, a.len()));
}

/// Of two versions, at most one is newer than the other.
pub proof fn law_newer_than_asymmetric(x: Seq<char>, y: Seq<char>)
    requires
        spec_newer_than(x, y),
    ensures
        !spec_newer_than(y, x),
{
    let a = spec_version_numbers(x);
    let b = spec_version_numbers(y);
    let n = if a.len() >= b.len() { a.len() } else { b.len() };
    let m = if b.len() >= a.len() { b.len() } else { a.len() };
    assert(n == m);
    lemma_lex_gt_asymmetric(pad(a, n), pad(b, n));
}

proof fn lemma_pad_first(x: Seq<u64>, n: nat)
    requires
        x.len() <= n,
        n >= 1,
    ensures
        pad(x, n).len() == n,
        pad(x, n)[0] == (if x.len() > 0 { x[0] } else { 0u64 }),
        pad(x, n).drop_first() == pad(if x.len() > 0 { x.drop_first() } else { x }, (n - 1) as nat),
{
    if x.len() > 0 {
        assert(pad(x, n).drop_first() =~= pad(x.drop_first(), (n - 1) as nat));
    } else {
        assert(pad(x, n).drop_first() =~= pad(x, (n - 1) as nat));
    }
}

/// Padding both numbers further with zeros does not change their order.
proof fn lemma_pad_invariant(x: Seq<u64>, y: Seq<u64>, n: nat, m: nat)
    requires
        x.len() <= n,
        y.len() <= n,
        n <= m,
    ensures
        lex_gt(pad(x, n), pad(y, n)) == lex_gt(pad(x, m), pad(y, m)),
    decreases x.len() + y.len(),
{
    if x.len() == 0 && y.len() == 0 {
        assert(pad(x, n) =~= pad(y, n));
        assert(pad(x, m) =~= pad(y, m));
        lemma_lex_gt_irreflexive(pad(x, n));
        lemma_lex_gt_irreflexive(pad(x, m));
    } else {
        lemma_pad_first(x, n);
        lemma_pad_first(y, n);
        lemma_pad_first(x, m);
        lemma_pad_first(y, m);
        let tx = if x.len() > 0 { x.drop_first() } else { x };
        let ty = if y.len() > 0 { y.drop_first() } else { y };
        lemma_pad_invariant(tx, ty, (n - 1) as nat, (m - 1) as nat);
    }
}

proof fn lemma_lex_gt_transitive(a: Seq<u64>, b: Seq<u64>, c: Seq<u64>)
    requires
        a.len() == b.len(),
        b.len() == c.len(),
        lex_gt(a, b),
        lex_gt(b, c),
    ensures
        lex_gt(a, c),
    decreases a.len(),
{
    if a[0] == b[0] && b[0] == c[0] {
        lemma_lex_gt_transitive(a.drop_first(), b.drop_first(), c.drop_first());
    }
}

/// Newer is transitive: a release newer than one that is newer than a third
/// is newer than the third.
pub proof fn law_newer_than_transitive(x: Seq<char>, y: Seq<char>, z: Seq<char>)
    requires
        spec_newer_than(x, y),
        spec_newer_than(y, z),
    ensures
        spec_newer_than(x, z),
{
    let a = spec_version_numbers(x);
    let b = spec_version_numbers(y);
    let c = spec_version_numbers(z);
    let nab = if a.len() >= b.len() { a.len() } else { b.len() };
    let nbc = if b.len() >= c.len() { b.len() } else { c.len() };
    let nac = if a.len() >= c.len() { a.len() } else { c.len() };
    let big = if nab >= c.len() { nab } else { c.len() };
    lemma_pad_invariant(a, b, nab, big);
    lemma_pad_invariant(b, c, nbc, big);
    lemma_pad_invariant(a, c, nac, big);
    lemma_lex_gt_transitive(pad(a, big), pad(b, big), pad(c, big));
}

} // verus!

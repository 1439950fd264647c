//! Local data-usage accounting: per-day and per-month byte counters kept in
//! key order, the newest 120 days and 24 months.
use vstd::prelude::*;

use crate::text;

verus! {

#[derive(Debug, Clone, Copy, Default, PartialEq, Eq, Structural)]
pub struct Counter {
    pub rx: u64,
    pub tx: u64,
}

/// The counters and the last interface reading.
#[derive(Debug, Clone)]
pub struct UsageDb {
    pub last_interface: String,
    pub last_rx: u64,
    pub last_tx: u64,
    pub daily: Vec<(String, Counter)>,
    pub monthly: Vec<(String, Counter)>,
}

pub const MAX_DAYS: usize = 120;
pub const MAX_MONTHS: usize = 24;

/// Lexicographic order of character sequences (the order of `String` keys).
pub open spec fn str_lt(a: Seq<char>, b: Seq<char>) -> bool
    decreases a.len(),
{
    if a.len() == 0 {
        b.len() > 0
    } else if b.len() == 0 {
        false
    } else if a[0] != b[0] {
        a[0] < b[0]
    } else {
        str_lt(a.drop_first(), b.drop_first())
    }
}

pub proof fn lemma_str_lt_total(a: Seq<char>, b: Seq<char>)
    ensures
        a == b || str_lt(a, b) || str_lt(b, a),
    decreases a.len(),
{
    if a.len() > 0 && b.len() > 0 && a[0] == b[0] {
        lemma_str_lt_total(a.drop_first(), b.drop_first());
        if a.drop_first() == b.drop_first() {
            assert(a =~= seq![a[0]] + a.drop_first());
            assert(b =~= seq![b[0]] + b.drop_first());
        }
    } else if a.len() == 0 && b.len() == 0 {
        assert(a =~= b);
    }
}

pub proof fn lemma_str_lt_transitive(a: Seq<char>, b: Seq<char>, c: Seq<char>)
    requires
        str_lt(a, b),
        str_lt(b, c),
    ensures
        str_lt(a, c),
    decreases a.len(),
{
    if a.len() > 0 && b.len() > 0 && c.len() > 0 && a[0] == b[0] && b[0] == c[0] {
        lemma_str_lt_transitive(a.drop_first(), b.drop_first(), c.drop_first());
    }
}

pub proof fn lemma_str_lt_asymmetric(a: Seq<char>, b: Seq<char>)
    requires
        str_lt(a, b),
    ensures
        !str_lt(b, a),
    decreases a.len(),
{
    if a.len() > 0 && b.len() > 0 && a[0] == b[0] {
        lemma_str_lt_asymmetric(a.drop_first(), b.drop_first());
    }
}

pub fn str_lt_exec(a: &[char], b: &[char]) -> (r: bool)
    ensures
        r == str_lt(a@, b@),
{
    let mut i: usize = 0;
    assert(a@.skip(0) =~= a@);
    assert(b@.skip(0) =~= b@);
    while i < a.len() && i < b.len()
        invariant
            i <= a.len(),
            i <= b.len(),
            str_lt(a@, b@) == str_lt(a@.skip(i as int), b@.skip(i as int)),
        decreases a.len() - i,
    {
        if a[i] != b[i] {
            return a[i] < b[i];
        }
        assert(a@.skip(i as int).drop_first() =~= a@.skip(i + 1));
        assert(b@.skip(i as int).drop_first() =~= b@.skip(i + 1));
        i += 1;
    }
    i == a.len() && i < b.len()
}

pub open spec fn entries_view(es: Seq<(String, Counter)>) -> Seq<(Seq<char>, Counter)> {
    es.map_values(|e: (String, Counter)| (e.0@, e.1))
}

/// Keys strictly increase.
pub open spec fn sorted(es: Seq<(Seq<char>, Counter)>) -> bool {
    forall|i: int, j: int| 0 <= i < j < es.len() ==> str_lt(#[trigger] es[i].0, #[trigger] es[j].0)
}

pub open spec fn well_formed(db: UsageDb) -> bool {
    sorted(entries_view(db.daily@)) && sorted(entries_view(db.monthly@))
}

/// The first position (from `i` on) whose key is not below `k`.
pub open spec fn position_from(es: Seq<(Seq<char>, Counter)>, k: Seq<char>, i: int) -> int
    decreases es.len() - i,
{
    if i < 0 || i >= es.len() {
        es.len() as int
    } else if !str_lt(es[i].0, k) {
        i
    } else {
        position_from(es, k, i + 1)
    }
}

pub open spec fn sat_add(a: u64, b: u64) -> u64 {
    if a + b > u64::MAX { u64::MAX } else { (a + b) as u64 }
}

/// Adds received and sent bytes to the counter of `k` (saturating), creating it
/// in key order when missing.
pub open spec fn spec_add(es: Seq<(Seq<char>, Counter)>, k: Seq<char>, rx: u64, tx: u64) -> Seq<(Seq<char>, Counter)> {
    let p = position_from(es, k, 0);
    if p < es.len() && es[p].0 == k {
        es.update(p, (k, Counter { rx: sat_add(es[p].1.rx, rx), tx: sat_add(es[p].1.tx, tx) }))
    } else {
        es.insert(p, (k, Counter { rx, tx }))
    }
}

/// Only the last `n` entries, the ones with the greatest keys.
pub open spec fn keep_last(es: Seq<(Seq<char>, Counter)>, n: nat) -> Seq<(Seq<char>, Counter)> {
    if es.len() > n { es.skip(es.len() - n) } else { es }
}

/// The counter stored under `k`, or zero.
pub open spec fn lookup(es: Seq<(Seq<char>, Counter)>, k: Seq<char>) -> Counter
    decreases es.len(),
{
    if es.len() == 0 {
        Counter { rx: 0, tx: 0 }
    } else if es.last().0 == k {
        es.last().1
    } else {
        lookup(es.drop_last(), k)
    }
}

/// The bytes received and sent since the last reading: counted only for the
/// same interface and when the kernel counter did not go back.
pub open spec fn delta(same: bool, now: u64, last: u64) -> u64 {
    if same && now >= last { (now - last) as u64 } else { 0 }
}

proof fn lemma_position(es: Seq<(Seq<char>, Counter)>, k: Seq<char>, i: int)
    requires
        0 <= i <= es.len(),
    ensures
        i <= position_from(es, k, i) <= es.len(),
        forall|m: int| i <= m < position_from(es, k, i) ==> str_lt(#[trigger] es[m].0, k),
        position_from(es, k, i) < es.len() ==> !str_lt(es[position_from(es, k, i)].0, k),
    decreases es.len() - i,
{
    if i < es.len() && str_lt(es[i].0, k) {
        lemma_position(es, k, i + 1);
    }
}

proof fn lemma_add_sorted(es: Seq<(Seq<char>, Counter)>, k: Seq<char>, rx: u64, tx: u64)
    requires
        sorted(es),
    ensures
        sorted(spec_add(es, k, rx, tx)),
{
    lemma_position(es, k, 0);
    let p = position_from(es, k, 0);
    let r = spec_add(es, k, rx, tx);
    if p < es.len() && es[p].0 == k {
        assert forall|i: int, j: int| 0 <= i < j < r.len() implies str_lt(#[trigger] r[i].0, #[trigger] r[j].0) by {
            assert(r[i].0 == es[i].0);
            assert(r[j].0 == es[j].0);
        }
    } else {
        if p < es.len() {
            lemma_str_lt_total(es[p].0, k);
        }
        assert forall|i: int, j: int| 0 <= i < j < r.len() implies str_lt(#[trigger] r[i].0, #[trigger] r[j].0) by {
            if j < p {
                assert(r[i] == es[i] && r[j] == es[j]);
            } else if j == p {
                assert(r[i] == es[i]);
            } else if i < p {
                assert(r[j] == es[j - 1]);
                assert(str_lt(es[i].0, k));
                if j - 1 > p {
                    assert(str_lt(es[p].0, es[j - 1].0));
                    lemma_str_lt_transitive(k, es[p].0, es[j - 1].0);
                }
                lemma_str_lt_transitive(es[i].0, k, es[j - 1].0);
            } else if i == p {
                assert(r[j] == es[j - 1]);
                if j - 1 > p {
                    assert(str_lt(es[p].0, es[j - 1].0));
                    lemma_str_lt_transitive(k, es[p].0, es[j - 1].0);
                }
            } else {
                assert(r[i] == es[i - 1] && r[j] == es[j - 1]);
            }
        }
    }
}

fn add_entry(es: &mut Vec<(String, Counter)>, k: &[char], rx: u64, tx: u64)
    requires
        sorted(entries_view(old(es)@)),
    ensures
        entries_view(final(es)@) == spec_add(entries_view(old(es)@), k@, rx, tx),
        sorted(entries_view(final(es)@)),
{
    let ghost ev = entries_view(es@);
    proof {
        lemma_position(ev, k@, 0);
        lemma_add_sorted(ev, k@, rx, tx);
    }
    let mut p: usize = 0;
    while p < es.len()
        invariant
            p <= es.len(),
            ev == entries_view(es@),
            position_from(ev, k@, 0) == position_from(ev, k@, p as int),
        ensures
            p <= es.len(),
            position_from(ev, k@, 0) == p as int,
        decreases es.len() - p,
    {
        let key = text::chars_of(es[p].0.as_str());
        assert(ev[p as int] == (es@[p as int].0@, es@[p as int].1));
        if !str_lt_exec(key.as_slice(), k) {
            break;
        }
        p += 1;
    }
    assert(position_from(ev, k@, 0) == p as int);
    let found = if p < es.len() {
        let key = text::chars_of(es[p].0.as_str());
        assert(ev[p as int] == (es@[p as int].0@, es@[p as int].1));
        text::seq_eq(key.as_slice(), k)
    } else {
        false
    };
    if found {
        let c = es[p].1;
        let nrx = if c.rx > u64::MAX - rx { u64::MAX } else { c.rx + rx };
        let ntx = if c.tx > u64::MAX - tx { u64::MAX } else { c.tx + tx };
        let e = (text::string_from(k), Counter { rx: nrx, tx: ntx });
        es.set(p, e);
        assert(entries_view(es@) =~= ev.update(p as int, (k@, Counter { rx: nrx, tx: ntx })));
    } else {
        let e = (text::string_from(k), Counter { rx, tx });
        es.insert(p, e);
        assert(entries_view(es@) =~= ev.insert(p as int, (k@, Counter { rx, tx })));
    }
}

fn keep_last_exec(es: &mut Vec<(String, Counter)>, n: usize)
    ensures
        entries_view(final(es)@) == keep_last(entries_view(old(es)@), n as nat),
{
    if es.len() > n {
        let ghost ev = entries_view(es@);
        let start = es.len() - n;
        let mut kept: Vec<(String, Counter)> = Vec::new();
        let mut i: usize = start;
        while i < es.len()
            invariant
                start <= i <= es.len(),
                ev == entries_view(es@),
                entries_view(kept@) == ev.subrange(start as int, i as int),
            decreases es.len() - i,
        {
            let e = (es[i].0.clone(), es[i].1);
            let ghost before = entries_view(kept@);
            kept.push(e);
            assert(entries_view(kept@) =~= before.push((e.0@, e.1)));
            assert(ev[i as int] == (es@[i as int].0@, es@[i as int].1));
            i += 1;
            assert(entries_view(kept@) =~= ev.subrange(start as int, i as int));
        }
        assert(ev.subrange(start as int, i as int) =~= ev.skip(start as int));
        *es = kept;
    }
}

proof fn lemma_keep_last_sorted(es: Seq<(Seq<char>, Counter)>, n: nat)
    requires
        sorted(es),
    ensures
        sorted(keep_last(es, n)),
{
    if es.len() > n {
        let s = es.len() - n;
        let r = keep_last(es, n);
        assert forall|i: int, j: int| 0 <= i < j < r.len() implies str_lt(#[trigger] r[i].0, #[trigger] r[j].0) by {
            assert(r[i] == es[i + s]);
            assert(r[j] == es[j + s]);
        }
    }
}

fn lookup_exec(es: &Vec<(String, Counter)>, k: &[char]) -> (r: Counter)
    ensures
        r == lookup(entries_view(es@), k@),
{
    let ghost ev = entries_view(es@);
    let mut j: usize = es.len();
    assert(ev.take(j as int) =~= ev);
    while j > 0
        invariant
            j <= es.len(),
            ev == entries_view(es@),
            lookup(ev, k@) == lookup(ev.take(j as int), k@),
        decreases j,
    {
        assert(ev.take(j as int).drop_last() =~= ev.take(j - 1));
        assert(ev[j - 1] == (es@[j - 1].0@, es@[j - 1].1));
        let key = text::chars_of(es[j - 1].0.as_str());
        if text::seq_eq(key.as_slice(), k) {
            return es[j - 1].1;
        }
        j -= 1;
    }
    Counter { rx: 0, tx: 0 }
}

/// The counters after a reading of `rx`/`tx` on `interface`, filed under `day` and `month`.
pub open spec fn spec_record(db: UsageDb, interface: Seq<char>, rx: u64, tx: u64, day: Seq<char>, month: Seq<char>) -> (Seq<(Seq<char>, Counter)>, Seq<(Seq<char>, Counter)>) {
    let same = db.last_interface@ == interface;
    let drx = delta(same, rx, db.last_rx);
    let dtx = delta(same, tx, db.last_tx);
    let d = entries_view(db.daily@);
    let m = entries_view(db.monthly@);
    if drx > 0 || dtx > 0 {
        (keep_last(spec_add(d, day, drx, dtx), 120), keep_last(spec_add(m, month, drx, dtx), 24))
    } else {
        (keep_last(d, 120), keep_last(m, 24))
    }
}

/// What one reading adds and the totals of the current day and month.
#[derive(Debug, Clone, Copy)]
pub struct Recorded {
    pub rx_delta: u64,
    pub tx_delta: u64,
    pub today: Counter,
    pub month: Counter,
}

/// Records a reading of the interface counters: the growth since the last
/// reading is added to the day and month, the oldest entries beyond 120 days
/// and 24 months are dropped, and the reading becomes the last one.
pub fn record(db: &mut UsageDb, interface: &str, rx: u64, tx: u64, day: &str, month: &str) -> (r: Recorded)
    requires
        well_formed(*old(db)),
    ensures
        well_formed(*final(db)),
        ({
            let same = old(db).last_interface@ == interface@;
            &&& r.rx_delta == delta(same, rx, old(db).last_rx)
            &&& r.tx_delta == delta(same, tx, old(db).last_tx)
        }),
        (entries_view(final(db).daily@), entries_view(final(db).monthly@)) == spec_record(*old(db), interface@, rx, tx, day@, month@),
        final(db).last_interface@ == interface@,
        final(db).last_rx == rx,
        final(db).last_tx == tx,
        r.today == lookup(entries_view(final(db).daily@), day@),
        r.month == lookup(entries_view(final(db).monthly@), month@),
{
    let iv = text::chars_of(interface);
    let li = text::chars_of(db.last_interface.as_str());
    let same = text::seq_eq(li.as_slice(), iv.as_slice());
    let drx = if same && rx >= db.last_rx { rx - db.last_rx } else { 0 };
    let dtx = if same && tx >= db.last_tx { tx - db.last_tx } else { 0 };
    let dv = text::chars_of(day);
    let mv = text::chars_of(month);
    if drx > 0 || dtx > 0 {
        add_entry(&mut db.daily, dv.as_slice(), drx, dtx);
        add_entry(&mut db.monthly, mv.as_slice(), drx, dtx);
    }
    let ghost d1 = entries_view(db.daily@);
    let ghost m1 = entries_view(db.monthly@);
    keep_last_exec(&mut db.daily, MAX_DAYS);
    keep_last_exec(&mut db.monthly, MAX_MONTHS);
    proof {
        lemma_keep_last_sorted(d1, 120);
        lemma_keep_last_sorted(m1, 24);
    }
    db.last_interface = String::from_str(interface);
    db.last_rx = rx;
    db.last_tx = tx;
    let today = lookup_exec(&db.daily, dv.as_slice());
    let this_month = lookup_exec(&db.monthly, mv.as_slice());
    Recorded { rx_delta: drx, tx_delta: dtx, today, month: this_month }
}

/// Clears the daily and monthly counters.
pub fn reset_usage(db: &mut UsageDb)
    ensures
        final(db).daily@.len() == 0,
        final(db).monthly@.len() == 0,
        final(db).last_interface == old(db).last_interface,
        final(db).last_rx == old(db).last_rx,
        final(db).last_tx == old(db).last_tx,
        well_formed(*final(db)),
{
    db.daily.clear();
    db.monthly.clear();
}

/// Whether the keys of both tables strictly increase.
pub fn is_well_formed(db: &UsageDb) -> (r: bool)
    ensures
        r == well_formed(*db),
{
    sorted_exec(&db.daily) && sorted_exec(&db.monthly)
}

fn sorted_exec(es: &Vec<(String, Counter)>) -> (r: bool)
    ensures
        r == sorted(entries_view(es@)),
{
    let ghost ev = entries_view(es@);
    if es.len() < 2 {
        return true;
    }
    let mut i: usize = 1;
    while i < es.len()
        invariant
            1 <= i <= es.len(),
            ev == entries_view(es@),
            forall|a: int, b: int| 0 <= a < b < i ==> str_lt(#[trigger] ev[a].0, #[trigger] ev[b].0),
        decreases es.len() - i,
    {
        let a = text::chars_of(es[i - 1].0.as_str());
        let b = text::chars_of(es[i].0.as_str());
        assert(ev[i - 1] == (es@[i - 1].0@, es@[i - 1].1));
        assert(ev[i as int] == (es@[i as int].0@, es@[i as int].1));
        if !str_lt_exec(a.as_slice(), b.as_slice()) {
            assert(!str_lt(ev[i - 1].0, ev[i as int].0));
            return false;
        }
        assert forall|x: int, y: int| 0 <= x < y < i + 1 implies str_lt(#[trigger] ev[x].0, #[trigger] ev[y].0) by {
            if y == i && x < i - 1 {
                lemma_str_lt_transitive(ev[x].0, ev[i - 1].0, ev[i as int].0);
            }
        }
        i += 1;
    }
    true
}

/// Interface names that a modem's network port usually has: `ww*`, `rmnet*`, `usb*`.
pub fn looks_like_wwan(name: &str) -> (r: bool)
    ensures
        r == (text::starts_with(name@, "ww"@) || text::starts_with(name@, "rmnet"@) || text::starts_with(name@, "usb"@)),
{
    let v = text::chars_of(name);
    text::starts_with_str(v.as_slice(), "ww") || text::starts_with_str(v.as_slice(), "rmnet") || text::starts_with_str(v.as_slice(), "usb")
}

pub open spec fn spec_looks_like_wwan(name: Seq<char>) -> bool {
    text::starts_with(name, "ww"@) || text::starts_with(name, "rmnet"@) || text::starts_with(name, "usb"@)
}

/// The first candidate from `i` on that exists.
pub open spec fn first_present(candidates: Seq<Seq<char>>, exists: Seq<bool>, i: int) -> Option<int>
    decreases candidates.len() - i,
{
    if i < 0 || i >= candidates.len() {
        None
    } else if exists[i] {
        Some(i)
    } else {
        first_present(candidates, exists, i + 1)
    }
}

/// The first listed name from `i` on that looks like a modem's port.
pub open spec fn first_wwan(listed: Seq<Seq<char>>, i: int) -> Option<int>
    decreases listed.len() - i,
{
    if i < 0 || i >= listed.len() {
        None
    } else if spec_looks_like_wwan(listed[i]) {
        Some(i)
    } else {
        first_wwan(listed, i + 1)
    }
}

/// The interface to account: the first of the modem's network ports that
/// exists (`exists[i]` for `candidates[i]`), else the first interface of
/// the system's list that looks like a modem's.
pub fn pick_interface(candidates: &[String], exists: &[bool], listed: &[String]) -> (r: Option<String>)
    requires
        exists.len() == candidates.len(),
    ensures
        ({
            let cv = candidates@.map_values(|c: String| c@);
            let lv = listed@.map_values(|c: String| c@);
            match first_present(cv, exists@, 0) {
                Some(i) => r matches Some(n) && n@ == cv[i],
                None => match first_wwan(lv, 0) {
                    Some(j) => r matches Some(n) && n@ == lv[j],
                    None => r is None,
                },
            }
        }),
{
    let ghost cv = candidates@.map_values(|c: String| c@);
    let ghost lv = listed@.map_values(|c: String| c@);
    let mut i: usize = 0;
    while i < candidates.len()
        invariant
            i <= candidates.len(),
            exists.len() == candidates.len(),
            cv == candidates@.map_values(|c: String| c@),
            first_present(cv, exists@, 0) == first_present(cv, exists@, i as int),
        decreases candidates.len() - i,
    {
        assert(cv[i as int] == candidates@[i as int]@);
        if exists[i] {
            return Some(candidates[i].clone());
        }
        i += 1;
    }
    let mut j: usize = 0;
    while j < listed.len()
        invariant
            j <= listed.len(),
            lv == listed@.map_values(|c: String| c@),
            first_wwan(lv, 0) == first_wwan(lv, j as int),
            first_present(cv, exists@, 0) is None,
            cv == candidates@.map_values(|c: String| c@),
        decreases listed.len() - j,
    {
        assert(lv[j as int] == listed@[j as int]@);
        if looks_like_wwan(listed[j].as_str()) {
            return Some(listed[j].clone());
        }
        j += 1;
    }
    None
}

/// The usage tables never hold more than 120 days and 24 months after a reading.
pub proof fn law_usage_bounded(db: UsageDb, interface: Seq<char>, rx: u64, tx: u64, day: Seq<char>, month: Seq<char>)
    ensures
        spec_record(db, interface, rx, tx, day, month).0.len() <= 120,
        spec_record(db, interface, rx, tx, day, month).1.len() <= 24,
        spec_record(db, interface, rx, tx, day, month).0.len() >= (if db.daily@.len() >= 120 { 120 } else { db.daily@.len() }),
        spec_record(db, interface, rx, tx, day, month).1.len() >= (if db.monthly@.len() >= 24 { 24 } else { db.monthly@.len() }),
{
    let same = db.last_interface@ == interface;
    let drx = delta(same, rx, db.last_rx);
    let dtx = delta(same, tx, db.last_tx);
    let d = entries_view(db.daily@);
    let m = entries_view(db.monthly@);
    lemma_add_len(d, day, drx, dtx);
    lemma_add_len(m, month, drx, dtx);
}

proof fn lemma_add_len(es: Seq<(Seq<char>, Counter)>, k: Seq<char>, rx: u64, tx: u64)
    ensures
        spec_add(es, k, rx, tx).len() >= es.len(),
{
    lemma_position(es, k, 0);
}

/// `a + b`, or the largest `u64` when the sum does not fit.
pub open spec fn saturating_sum(a: u64, b: u64) -> u64 {
    if a as int + b as int > 0xffff_ffff_ffff_ffff { 0xffff_ffff_ffff_ffffu64 } else { (a + b) as u64 }
}

/// `k` is filed in `es`.
pub open spec fn has_key(es: Seq<(Seq<char>, Counter)>, k: Seq<char>) -> bool {
    exists|i: int| 0 <= i < es.len() && #[trigger] es[i].0 == k
}

proof fn lemma_sorted_distinct(es: Seq<(Seq<char>, Counter)>, i: int, j: int)
    requires
        sorted(es),
        0 <= i < es.len(),
        0 <= j < es.len(),
        i != j,
    ensures
        es[i].0 != es[j].0,
{
    if i < j {
        assert(str_lt(es[i].0, es[j].0));
        if es[i].0 == es[j].0 {
            lemma_str_lt_asymmetric(es[i].0, es[j].0);
        }
    } else {
        assert(str_lt(es[j].0, es[i].0));
        if es[i].0 == es[j].0 {
            lemma_str_lt_asymmetric(es[j].0, es[i].0);
        }
    }
}

/// In a table with distinct keys, the counter of a filed key is the one at its entry.
proof fn lemma_lookup_at(es: Seq<(Seq<char>, Counter)>, k: Seq<char>, i: int)
    requires
        0 <= i < es.len(),
        es[i].0 == k,
        forall|j: int| 0 <= j < es.len() && j != i ==> #[trigger] es[j].0 != k,
    ensures
        lookup(es, k) == es[i].1,
    decreases es.len(),
{
    if i != es.len() - 1 {
        assert(es.drop_last()[i] == es[i]);
        assert forall|j: int| 0 <= j < es.drop_last().len() && j != i implies #[trigger] es.drop_last()[j].0 != k by {
            assert(es.drop_last()[j] == es[j]);
        }
        lemma_lookup_at(es.drop_last(), k, i);
    }
}

/// A key that is not filed has the zero counter.
proof fn lemma_lookup_absent(es: Seq<(Seq<char>, Counter)>, k: Seq<char>)
    requires
        forall|j: int| 0 <= j < es.len() ==> #[trigger] es[j].0 != k,
    ensures
        lookup(es, k) == (Counter { rx: 0, tx: 0 }),
    decreases es.len(),
{
    if es.len() > 0 {
        assert forall|j: int| 0 <= j < es.drop_last().len() implies #[trigger] es.drop_last()[j].0 != k by {
            assert(es.drop_last()[j] == es[j]);
        }
        lemma_lookup_absent(es.drop_last(), k);
    }
}

/// Filing a reading adds it to the counter of its key: after adding `rx`
/// and `tx` under `k`, the counter of `k` is the saturating sum of what it
/// held before (zero when `k` was new) and the reading.
pub proof fn law_add_accumulates(es: Seq<(Seq<char>, Counter)>, k: Seq<char>, rx: u64, tx: u64)
    requires
        sorted(es),
    ensures
        lookup(spec_add(es, k, rx, tx), k) == (Counter {
            rx: saturating_sum(lookup(es, k).rx, rx),
            tx: saturating_sum(lookup(es, k).tx, tx),
        }),
        has_key(spec_add(es, k, rx, tx), k),
{
    lemma_position(es, k, 0);
    lemma_add_sorted(es, k, rx, tx);
    let p = position_from(es, k, 0);
    let r = spec_add(es, k, rx, tx);
    if p < es.len() && es[p].0 == k {
        assert forall|j: int| 0 <= j < es.len() && j != p implies #[trigger] es[j].0 != k by {
            lemma_sorted_distinct(es, j, p);
        }
        lemma_lookup_at(es, k, p);
        assert forall|j: int| 0 <= j < r.len() && j != p implies #[trigger] r[j].0 != k by {
            lemma_sorted_distinct(r, j, p);
        }
        lemma_lookup_at(r, k, p);
        assert(r[p].0 == k);
    } else {
        assert forall|j: int| 0 <= j < es.len() implies #[trigger] es[j].0 != k by {
            if j < p {
                assert(str_lt(es[j].0, k));
                if es[j].0 == k {
                    lemma_str_lt_asymmetric(k, k);
                }
            } else {
                assert(p < es.len());
                assert(!str_lt(es[p].0, k));
                lemma_str_lt_total(es[p].0, k);
                assert(str_lt(k, es[p].0));
                if j > p {
                    assert(str_lt(es[p].0, es[j].0));
                    lemma_str_lt_transitive(k, es[p].0, es[j].0);
                }
                if es[j].0 == k {
                    lemma_str_lt_asymmetric(k, k);
                }
            }
        }
        lemma_lookup_absent(es, k);
        es.insert_ensures(p, (k, Counter { rx, tx }));
        assert(r[p].0 == k);
        assert forall|j: int| 0 <= j < r.len() && j != p implies #[trigger] r[j].0 != k by {
            lemma_sorted_distinct(r, j, p);
        }
        lemma_lookup_at(r, k, p);
    }
}

/// Dropping the oldest entries keeps the counters of the keys that stay.
proof fn lemma_keep_last_lookup(es: Seq<(Seq<char>, Counter)>, n: nat, k: Seq<char>)
    requires
        sorted(es),
        has_key(keep_last(es, n), k),
    ensures
        lookup(keep_last(es, n), k) == lookup(es, k),
{
    let r = keep_last(es, n);
    let m = es.len() - r.len();
    let i = choose|i: int| 0 <= i < r.len() && #[trigger] r[i].0 == k;
    assert(r[i] == es[i + m]);
    assert forall|j: int| 0 <= j < es.len() && j != i + m implies #[trigger] es[j].0 != k by {
        lemma_sorted_distinct(es, j, i + m);
    }
    lemma_lookup_at(es, k, i + m);
    assert forall|j: int| 0 <= j < r.len() && j != i implies #[trigger] r[j].0 != k by {
        assert(r[j] == es[j + m]);
        lemma_sorted_distinct(es, j + m, i + m);
    }
    lemma_lookup_at(r, k, i);
}

/// A reading adds the growth of the interface counters to its day and its
/// month: the growth is `now - last` for the same interface when the
/// counter did not go back, zero otherwise, and the counter of the day (or
/// month), when still kept, is the saturating sum of what it held and that
/// growth.
pub proof fn law_record_accumulates(db: UsageDb, interface: Seq<char>, rx: u64, tx: u64, day: Seq<char>, month: Seq<char>)
    requires
        well_formed(db),
    ensures
        ({
            let same = db.last_interface@ == interface;
            let drx: u64 = if same && rx >= db.last_rx { (rx - db.last_rx) as u64 } else { 0 };
            let dtx: u64 = if same && tx >= db.last_tx { (tx - db.last_tx) as u64 } else { 0 };
            let (d, m) = spec_record(db, interface, rx, tx, day, month);
            &&& has_key(d, day) ==> lookup(d, day) == (Counter {
                rx: saturating_sum(lookup(entries_view(db.daily@), day).rx, drx),
                tx: saturating_sum(lookup(entries_view(db.daily@), day).tx, dtx),
            })
            &&& has_key(m, month) ==> lookup(m, month) == (Counter {
                rx: saturating_sum(lookup(entries_view(db.monthly@), month).rx, drx),
                tx: saturating_sum(lookup(entries_view(db.monthly@), month).tx, dtx),
            })
        }),
{
    let same = db.last_interface@ == interface;
    let drx = delta(same, rx, db.last_rx);
    let dtx = delta(same, tx, db.last_tx);
    let dv = entries_view(db.daily@);
    let mv = entries_view(db.monthly@);
    if drx > 0 || dtx > 0 {
        law_add_accumulates(dv, day, drx, dtx);
        law_add_accumulates(mv, month, drx, dtx);
        lemma_add_sorted(dv, day, drx, dtx);
        lemma_add_sorted(mv, month, drx, dtx);
        if has_key(keep_last(spec_add(dv, day, drx, dtx), 120), day) {
            lemma_keep_last_lookup(spec_add(dv, day, drx, dtx), 120, day);
        }
        if has_key(keep_last(spec_add(mv, month, drx, dtx), 24), month) {
            lemma_keep_last_lookup(spec_add(mv, month, drx, dtx), 24, month);
        }
    } else {
        if has_key(keep_last(dv, 120), day) {
            lemma_keep_last_lookup(dv, 120, day);
        }
        if has_key(keep_last(mv, 24), month) {
            lemma_keep_last_lookup(mv, 24, month);
        }
    }
}

/// The data-usage database under the configuration directory.
pub fn path(config_home: &str) -> (r: String)
    ensures
        r@ == text::join_path(config_home@, "modemdeck/data-usage.json"@),
{
    text::join_path_exec(config_home, "modemdeck/data-usage.json")
}

// ---------------------------------------------------------------------------
// Byte counts for display
// ---------------------------------------------------------------------------

pub open spec fn pow2(n: nat) -> nat
    decreases n,
{
    if n == 0 {
        1
    } else {
        2 * pow2((n - 1) as nat)
    }
}

/// How many halvings bring `v` below 2^53: the low bits that `v as f64` drops.
pub open spec fn dropped_bits(v: nat) -> nat
    decreases v,
{
    if v < 0x20_0000_0000_0000 {
        0
    } else {
        1 + dropped_bits(v / 2)
    }
}

/// `num / den` rounded to the nearest integer, a tie to the even one.
pub open spec fn round_half_even(num: nat, den: nat) -> nat {
    let q = num / den;
    let r = num % den;
    if 2 * r > den {
        q + 1
    } else if 2 * r < den {
        q
    } else if q % 2 == 0 {
        q
    } else {
        q + 1
    }
}

/// The value of `v as f64`: `v` rounded to 53 significant bits, a tie to the
/// even neighbour.
pub open spec fn f64_of(v: nat) -> nat {
    let unit = pow2(dropped_bits(v));
    round_half_even(v, unit) * unit
}

/// A count of hundredths written with two decimals.
pub open spec fn two_decimals(n: nat) -> Seq<char> {
    text::dec(n / 100) + seq!['.', text::digit_char((n / 10) % 10), text::digit_char(n % 10)]
}

/// A count of tenths written with one decimal.
pub open spec fn one_decimal(n: nat) -> Seq<char> {
    text::dec(n / 10) + seq!['.', text::digit_char(n % 10)]
}

pub const KIB: u64 = 0x400;
pub const MIB: u64 = 0x10_0000;
pub const GIB: u64 = 0x4000_0000;

/// What `human_bytes` writes: the count in GiB or MiB with two decimals, in
/// KiB with one, or in bytes, each decimal rounded half to even as
/// `format!("{:.2}", ..)` rounds the exact value of the `f64`.
pub open spec fn human_bytes_text(v: nat) -> Seq<char> {
    if v >= GIB {
        two_decimals(round_half_even(f64_of(v) * 100, GIB as nat)) + " GiB"@
    } else if v >= MIB {
        two_decimals(round_half_even(v * 100, MIB as nat)) + " MiB"@
    } else if v >= KIB {
        one_decimal(round_half_even(v * 10, KIB as nat)) + " KiB"@
    } else {
        text::dec(v) + " B"@
    }
}

fn round_half_even_exec(num: u128, den: u128) -> (r: u128)
    requires
        0 < den <= 0x1_0000_0000_0000_0000,
        num <= 0x1_0000_0000_0000_0000_0000_0000,
    ensures
        r == round_half_even(num as nat, den as nat),
        r * den <= num + den,
{
    let q = num / den;
    let rem = num % den;
    proof {
        vstd::arithmetic::div_mod::lemma_fundamental_div_mod(num as int, den as int);
    }
    assert(q * den <= num) by (nonlinear_arith)
        requires
            num == den * q + rem,
            rem >= 0,
    ;
    assert((q + 1) * den <= num + den) by (nonlinear_arith)
        requires
            q * den <= num,
    ;
    if 2 * rem > den {
        q + 1
    } else if 2 * rem < den {
        q
    } else if q % 2 == 0 {
        q
    } else {
        q + 1
    }
}

fn f64_value(v: u64) -> (r: u128)
    ensures
        r == f64_of(v as nat),
        r <= 2 * (v as nat) + 1,
{
    let mut t: u64 = v;
    let mut unit: u128 = 1;
    let ghost mut e: nat = 0;
    while t >= 0x20_0000_0000_0000
        invariant
            unit as nat == pow2(e),
            1 <= unit,
            unit == 1 || unit <= v,
            t as nat == (v as nat) / (unit as nat),
            dropped_bits(v as nat) == e + dropped_bits(t as nat),
        decreases t,
    {
        proof {
            vstd::arithmetic::div_mod::lemma_fundamental_div_mod(v as int, unit as int);
            vstd::arithmetic::div_mod::lemma_div_denominator(v as int, unit as int, 2);
        }
        assert(unit * 2 <= v) by (nonlinear_arith)
            requires
                v as int == unit * t + ((v as int) % (unit as int)),
                (v as int) % (unit as int) >= 0,
                t >= 2,
        ;
        t = t / 2;
        unit = unit * 2;
        proof {
            e = e + 1;
        }
    }
    let n = round_half_even_exec(v as u128, unit);
    assert(n * unit <= 2 * (v as nat) + 1) by (nonlinear_arith)
        requires
            n * unit <= v + unit,
            unit == 1 || unit <= v,
    ;
    n * unit
}

fn two_decimals_exec(n: u64) -> (r: Vec<char>)
    ensures
        r@ == two_decimals(n as nat),
{
    let mut r = text::dec_exec(n / 100);
    r.push('.');
    r.push(text::digit_char_exec((n / 10) % 10));
    r.push(text::digit_char_exec(n % 10));
    r
}

fn one_decimal_exec(n: u64) -> (r: Vec<char>)
    ensures
        r@ == one_decimal(n as nat),
{
    let mut r = text::dec_exec(n / 10);
    r.push('.');
    r.push(text::digit_char_exec(n % 10));
    r
}

/// A byte count for display ("1.50 GiB", "12.0 KiB", "512 B").
pub fn human_bytes(value: u64) -> (r: String)
    ensures
        r@ == human_bytes_text(value as nat),
{
    let mut out: Vec<char>;
    if value >= GIB {
        let f = f64_value(value);
        let n = round_half_even_exec(f * 100, GIB as u128);
        assert(n < 0x1_0000_0000_0000) by (nonlinear_arith)
            requires
                n * 0x4000_0000 <= f * 100 + 0x4000_0000,
                f <= 0x2_0000_0000_0000_0000,
        ;
        out = two_decimals_exec(n as u64);
        text::push_str(&mut out, " GiB");
    } else if value >= MIB {
        let n = round_half_even_exec(value as u128 * 100, MIB as u128);
        assert(n < 0x1_0000_0000_0000) by (nonlinear_arith)
            requires
                n * 0x10_0000 <= value * 100 + 0x10_0000,
                value < 0x4000_0000,
        ;
        out = two_decimals_exec(n as u64);
        text::push_str(&mut out, " MiB");
    } else if value >= KIB {
        let n = round_half_even_exec(value as u128 * 10, KIB as u128);
        assert(n < 0x1_0000_0000_0000) by (nonlinear_arith)
            requires
                n * 0x400 <= value * 10 + 0x400,
                value < 0x10_0000,
        ;
        out = one_decimal_exec(n as u64);
        text::push_str(&mut out, " KiB");
    } else {
        out = text::dec_exec(value);
        text::push_str(&mut out, " B");
    }
    text::string_from(&out)
}

} // verus!

//! The per-modem signal history: at most 180 samples, oldest first.
use vstd::prelude::*;

use crate::model::ModemInfo;
use crate::text;

verus! {

/// One signal reading; the measurements are IEEE-754 bit patterns.
#[derive(Debug, Clone, Copy, PartialEq, Eq, Structural)]
pub struct SignalSample {
    pub timestamp: u64,
    pub signal_percent: u32,
    pub rsrp: Option<u64>,
    pub rsrq: Option<u64>,
    pub snr: Option<u64>,
}

pub const MAX_SAMPLES_PER_MODEM: usize = 180;

/// A modem's history is filed under its device UID, or its D-Bus path when it has none.
pub open spec fn spec_history_key(device_uid: Seq<char>, object_path: Seq<char>) -> Seq<char> {
    if text::trim(device_uid).len() > 0 { device_uid } else { object_path }
}

pub fn history_key(modem: &ModemInfo) -> (r: String)
    ensures
        r@ == spec_history_key(modem.device_uid@, modem.object_path@),
{
    let u = text::chars_of(modem.device_uid.as_str());
    let t = text::trim_exec(u.as_slice());
    if t.len() > 0 {
        modem.device_uid.clone()
    } else {
        modem.object_path.clone()
    }
}

/// The sample of a modem at time `now`, from its preferred signal (the 5G NR
/// one when it reports anything, else the LTE one).
pub open spec fn spec_sample(m: ModemInfo, now: u64) -> SignalSample {
    let nr = m.nr5g_signal;
    let s = if nr.rssi is Some || nr.rsrp is Some || nr.rsrq is Some || nr.snr is Some {
        m.nr5g_signal
    } else {
        m.lte_signal
    };
    SignalSample { timestamp: now, signal_percent: m.signal_percent, rsrp: s.rsrp, rsrq: s.rsrq, snr: s.snr }
}

/// The sample of a modem at time `now`, from its preferred signal.
pub fn sample_for(modem: &ModemInfo, now: u64) -> (r: SignalSample)
    ensures
        r == spec_sample(*modem, now),
        r.timestamp == now,
        r.signal_percent == modem.signal_percent,
        ({
            let nr = modem.nr5g_signal;
            let s = if nr.rssi is Some || nr.rsrp is Some || nr.rsrq is Some || nr.snr is Some {
                modem.nr5g_signal
            } else {
                modem.lte_signal
            };
            r.rsrp == s.rsrp && r.rsrq == s.rsrq && r.snr == s.snr
        }),
{
    let (_, signal) = modem.preferred_signal();
    SignalSample { timestamp: now, signal_percent: modem.signal_percent, rsrp: signal.rsrp, rsrq: signal.rsrq, snr: signal.snr }
}

/// A sample that repeats the time and percentage of the last one is skipped;
/// otherwise it is appended and only the newest 180 samples are kept.
pub open spec fn spec_push_sample(s: Seq<SignalSample>, x: SignalSample) -> Seq<SignalSample> {
    if s.len() > 0 && s.last().timestamp == x.timestamp && s.last().signal_percent == x.signal_percent {
        s
    } else {
        let t = s.push(x);
        if t.len() > 180 { t.skip(t.len() - 180) } else { t }
    }
}

pub fn push_sample(samples: &mut Vec<SignalSample>, sample: SignalSample)
    ensures
        final(samples)@ == spec_push_sample(old(samples)@, sample),
{
    let n = samples.len();
    if n > 0 && samples[n - 1].timestamp == sample.timestamp && samples[n - 1].signal_percent == sample.signal_percent {
        return;
    }
    samples.push(sample);
    if samples.len() > MAX_SAMPLES_PER_MODEM {
        let remove = samples.len() - MAX_SAMPLES_PER_MODEM;
        let mut kept: Vec<SignalSample> = Vec::new();
        let mut i: usize = remove;
        while i < samples.len()
            invariant
                remove <= i <= samples.len(),
                kept@ == samples@.subrange(remove as int, i as int),
            decreases samples.len() - i,
        {
            kept.push(samples[i]);
            i += 1;
            assert(kept@ =~= samples@.subrange(remove as int, i as int));
        }
        assert(kept@ =~= samples@.skip(remove as int));
        *samples = kept;
    }
}

/// The history never grows past 180 samples, and a new sample ends up last.
pub proof fn law_history_bounded(s: Seq<SignalSample>, x: SignalSample)
    requires
        s.len() <= 180,
    ensures
        spec_push_sample(s, x).len() <= 180,
        spec_push_sample(s, x).len() > 0,
        spec_push_sample(s, x).last().timestamp == x.timestamp,
        spec_push_sample(s, x).last().signal_percent == x.signal_percent,
{
}

/// The histories of all modems, each filed under its key.
#[derive(Debug, Clone)]
pub struct HistoryStore {
    pub entries: Vec<(String, Vec<SignalSample>)>,
}

pub open spec fn entries_view(es: Seq<(String, Vec<SignalSample>)>) -> Seq<(Seq<char>, Seq<SignalSample>)> {
    Seq::new(es.len(), |i: int| (es[i].0@, es[i].1@))
}

impl View for HistoryStore {
    type V = Seq<(Seq<char>, Seq<SignalSample>)>;

    open spec fn view(&self) -> Seq<(Seq<char>, Seq<SignalSample>)> {
        entries_view(self.entries@)
    }
}

/// No key is filed twice.
pub open spec fn keys_distinct(es: Seq<(Seq<char>, Seq<SignalSample>)>) -> bool {
    forall|i: int, j: int| 0 <= i < j < es.len() ==> es[i].0 != es[j].0
}

/// The first entry from `i` on that is filed under `k`.
pub open spec fn key_index(es: Seq<(Seq<char>, Seq<SignalSample>)>, k: Seq<char>, i: int) -> Option<int>
    decreases es.len() - i,
{
    if i < 0 || i >= es.len() {
        None
    } else if es[i].0 == k {
        Some(i)
    } else {
        key_index(es, k, i + 1)
    }
}

/// The history filed under `k`, empty when there is none.
pub open spec fn spec_history_of(es: Seq<(Seq<char>, Seq<SignalSample>)>, k: Seq<char>) -> Seq<SignalSample> {
    match key_index(es, k, 0) {
        Some(i) => es[i].1,
        None => Seq::empty(),
    }
}

/// `x` pushed onto the history filed under `k` (a new history when there is none).
pub open spec fn with_sample(
    es: Seq<(Seq<char>, Seq<SignalSample>)>,
    k: Seq<char>,
    x: SignalSample,
) -> Seq<(Seq<char>, Seq<SignalSample>)> {
    match key_index(es, k, 0) {
        Some(i) => es.update(i, (k, spec_push_sample(es[i].1, x))),
        None => es.push((k, spec_push_sample(Seq::empty(), x))),
    }
}

/// The store after recording the first `n` modems at time `now`.
pub open spec fn spec_record(
    es: Seq<(Seq<char>, Seq<SignalSample>)>,
    ms: Seq<ModemInfo>,
    now: u64,
    n: nat,
) -> Seq<(Seq<char>, Seq<SignalSample>)>
    decreases n,
{
    if n == 0 {
        es
    } else {
        let m = ms[n - 1];
        with_sample(
            spec_record(es, ms, now, (n - 1) as nat),
            spec_history_key(m.device_uid@, m.object_path@),
            spec_sample(m, now),
        )
    }
}

proof fn lemma_key_index(es: Seq<(Seq<char>, Seq<SignalSample>)>, k: Seq<char>, i: int)
    requires
        0 <= i <= es.len(),
    ensures
        key_index(es, k, i) matches Some(j) ==> i <= j < es.len() && es[j].0 == k,
        key_index(es, k, i) is None ==> forall|j: int| i <= j < es.len() ==> es[j].0 != k,
    decreases es.len() - i,
{
    if i < es.len() {
        lemma_key_index(es, k, i + 1);
    }
}

fn find_key(entries: &Vec<(String, Vec<SignalSample>)>, k: &[char]) -> (r: Option<usize>)
    ensures
        match r {
            Some(i) => key_index(entries_view(entries@), k@, 0) == Some(i as int) && i < entries@.len(),
            None => key_index(entries_view(entries@), k@, 0) is None,
        },
{
    let ghost ev = entries_view(entries@);
    let mut i: usize = 0;
    while i < entries.len()
        invariant
            i <= entries.len(),
            ev == entries_view(entries@),
            key_index(ev, k@, 0) == key_index(ev, k@, i as int),
        decreases entries.len() - i,
    {
        let kv = text::chars_of(entries[i].0.as_str());
        if text::seq_eq(kv.as_slice(), k) {
            return Some(i);
        }
        i += 1;
    }
    None
}

fn add_sample(store: &mut HistoryStore, key: String, x: SignalSample)
    ensures
        final(store)@ == with_sample(old(store)@, key@, x),
{
    let kv = text::chars_of(key.as_str());
    match find_key(&store.entries, kv.as_slice()) {
        Some(i) => {
            let ghost before = store@;
            let (k, mut samples) = store.entries.remove(i);
            push_sample(&mut samples, x);
            store.entries.insert(i, (key, samples));
            assert(store@ =~= with_sample(before, kv@, x));
        },
        None => {
            let ghost before = store@;
            let mut samples: Vec<SignalSample> = Vec::new();
            push_sample(&mut samples, x);
            store.entries.push((key, samples));
            assert(store@ =~= with_sample(before, kv@, x));
        },
    }
}

/// Records a sample of every modem at time `now` in its history.
pub fn record(store: &mut HistoryStore, modems: &[ModemInfo], now: u64)
    ensures
        final(store)@ == spec_record(old(store)@, modems@, now, modems@.len()),
{
    let mut i: usize = 0;
    while i < modems.len()
        invariant
            i <= modems.len(),
            store@ == spec_record(old(store)@, modems@, now, i as nat),
        decreases modems.len() - i,
    {
        let key = history_key(&modems[i]);
        let x = sample_for(&modems[i], now);
        add_sample(store, key, x);
        i += 1;
    }
}

/// The history of `modem`, taken out of a loaded store; empty when it has none.
pub fn load_for(store: HistoryStore, modem: &ModemInfo) -> (r: Vec<SignalSample>)
    ensures
        r@ == spec_history_of(store@, spec_history_key(modem.device_uid@, modem.object_path@)),
{
    let key = history_key(modem);
    let kv = text::chars_of(key.as_str());
    let mut entries = store.entries;
    match find_key(&entries, kv.as_slice()) {
        Some(i) => {
            let ghost ev = entries_view(entries@);
            let (_, samples) = entries.remove(i);
            assert(samples@ == ev[i as int].1);
            samples
        },
        None => Vec::new(),
    }
}

/// Recording keeps every history within 180 samples and keeps keys distinct;
/// afterwards each recorded modem's history ends with its new sample.
pub proof fn law_record_bounded(
    es: Seq<(Seq<char>, Seq<SignalSample>)>,
    ms: Seq<ModemInfo>,
    now: u64,
    n: nat,
)
    requires
        n <= ms.len(),
        keys_distinct(es),
        forall|i: int| 0 <= i < es.len() ==> (#[trigger] es[i]).1.len() <= 180,
    ensures
        keys_distinct(spec_record(es, ms, now, n)),
        forall|i: int| 0 <= i < spec_record(es, ms, now, n).len()
            ==> (#[trigger] spec_record(es, ms, now, n)[i]).1.len() <= 180,
    decreases n,
{
    if n > 0 {
        law_record_bounded(es, ms, now, (n - 1) as nat);
        let prev = spec_record(es, ms, now, (n - 1) as nat);
        let m = ms[n - 1];
        let k = spec_history_key(m.device_uid@, m.object_path@);
        let x = spec_sample(m, now);
        lemma_key_index(prev, k, 0);
        match key_index(prev, k, 0) {
            Some(j) => {
                law_history_bounded(prev[j].1, x);
            },
            None => {
                law_history_bounded(Seq::empty(), x);
            },
        }
    }
}

proof fn lemma_push_sample_last(t: Seq<SignalSample>, x: SignalSample)
    ensures
        spec_push_sample(t, x).len() > 0,
        spec_push_sample(t, x).last().timestamp == x.timestamp,
        spec_push_sample(t, x).last().signal_percent == x.signal_percent,
{
}

proof fn lemma_key_index_same_keys(
    a: Seq<(Seq<char>, Seq<SignalSample>)>,
    b: Seq<(Seq<char>, Seq<SignalSample>)>,
    k: Seq<char>,
    i: int,
)
    requires
        0 <= i <= a.len(),
        a.len() == b.len(),
        forall|j: int| 0 <= j < a.len() ==> a[j].0 == b[j].0,
    ensures
        key_index(a, k, i) == key_index(b, k, i),
    decreases a.len() - i,
{
    if i < a.len() {
        lemma_key_index_same_keys(a, b, k, i + 1);
    }
}

proof fn lemma_key_index_pushed(
    a: Seq<(Seq<char>, Seq<SignalSample>)>,
    k: Seq<char>,
    v: Seq<SignalSample>,
    i: int,
)
    requires
        0 <= i <= a.len(),
        forall|j: int| i <= j < a.len() ==> a[j].0 != k,
    ensures
        key_index(a.push((k, v)), k, i) == Some(a.len() as int),
    decreases a.len() - i,
{
    if i < a.len() {
        lemma_key_index_pushed(a, k, v, i + 1);
    }
}

/// After recording, the history of the last recorded modem ends with the
/// sample just taken, or with one of the same time and percentage.
pub proof fn law_record_then_history(
    es: Seq<(Seq<char>, Seq<SignalSample>)>,
    ms: Seq<ModemInfo>,
    now: u64,
)
    requires
        ms.len() > 0,
    ensures
        ({
            let m = ms.last();
            let h = spec_history_of(
                spec_record(es, ms, now, ms.len()),
                spec_history_key(m.device_uid@, m.object_path@),
            );
            h.len() > 0 && h.last().timestamp == now && h.last().signal_percent == m.signal_percent
        }),
{
    let prev = spec_record(es, ms, now, (ms.len() - 1) as nat);
    let m = ms.last();
    let k = spec_history_key(m.device_uid@, m.object_path@);
    let x = spec_sample(m, now);
    lemma_key_index(prev, k, 0);
    let next = with_sample(prev, k, x);
    assert(next == spec_record(es, ms, now, ms.len()));
    match key_index(prev, k, 0) {
        Some(j) => {
            lemma_push_sample_last(prev[j].1, x);
            lemma_key_index_same_keys(prev, next, k, 0);
        },
        None => {
            lemma_push_sample_last(Seq::empty(), x);
            lemma_key_index_pushed(prev, k, spec_push_sample(Seq::empty(), x), 0);
        },
    }
}

/// The signal-history file under the runtime directory.
pub fn history_path(runtime_dir: &str) -> (r: String)
    ensures
        r@ == text::join_path(runtime_dir@, "modemdeck-history.json"@),
{
    text::join_path_exec(runtime_dir, "modemdeck-history.json")
}

} // verus!

//! The privacy-safe diagnostics report: what it says of each modem, and where
//! it is written. Equipment identifiers never appear in it.
use vstd::prelude::*;

use crate::model::{
    band_label, spec_band_label, spec_ca_active, spec_display_name, spec_network_label,
    spec_operator_label, spec_state_label, ModemInfo,
};
use crate::settings::{clamp, Settings};
use crate::text;

verus! {

/// The `{:?}` text of the preferred signal's RSRP, RSRQ and SNR readings of
/// one modem (`Some(-95.0)`, `None`).
pub struct SignalText {
    pub rsrp: String,
    pub rsrq: String,
    pub snr: String,
}

/// `format!("{}", b)`.
pub open spec fn bool_text(b: bool) -> Seq<char> {
    if b {
        "true"@
    } else {
        "false"@
    }
}

/// `format!("{:?}", o)` for an `Option<u32>`.
pub open spec fn debug_opt_u32(o: Option<u32>) -> Seq<char> {
    match o {
        Some(v) => "Some("@ + text::dec(v as nat) + ")"@,
        None => "None"@,
    }
}

/// `format!("{:?}", o)` for an `Option<bool>`.
pub open spec fn debug_opt_bool(o: Option<bool>) -> Seq<char> {
    match o {
        Some(v) => "Some("@ + bool_text(v) + ")"@,
        None => "None"@,
    }
}

/// The labels of the configured bands, separated by ", ".
pub open spec fn band_list(bands: Seq<u32>) -> Seq<char> {
    text::join(Seq::new(bands.len(), |i: int| spec_band_label(bands[i])), ", "@)
}

/// The report's opening lines.
pub open spec fn header(s: Settings, version: Seq<char>) -> Seq<char> {
    "ModemDeck diagnostics (privacy-safe)\n"@ + "======================================\n"@
        + "IMEI/equipment identifiers are intentionally omitted.\n\n"@ + "ModemDeck version: "@
        + version + "\n"@ + "Signal refresh: "@ + text::dec(
        clamp(s.signal_refresh_seconds, 5, 60) as nat,
    ) + " seconds\n"@ + "Notifications: "@ + bool_text(s.notifications) + "\n"@
        + "Background monitor preference: "@ + bool_text(s.background_monitor) + "\n\n"@
}

/// `p` followed by a line that is written only when its text is not empty.
pub open spec fn with_note(p: Seq<char>, label: Seq<char>, t: Seq<char>) -> Seq<char> {
    if t.len() == 0 {
        p
    } else {
        p + label + t + "\n"@
    }
}

/// `p` followed by the identity lines of the modem at position `index`
/// (counted from zero).
pub open spec fn with_identity(p: Seq<char>, index: nat, m: ModemInfo) -> Seq<char> {
    p + "Modem "@ + text::dec(index + 1) + "\n"@ + "  Name: "@ + spec_display_name(
        m.manufacturer@,
        m.model@,
    ) + "\n"@ + "  Firmware: "@ + m.revision@ + "\n"@ + "  Plugin: "@ + m.plugin@ + "\n"@
        + "  State: "@ + spec_state_label(m.state) + "\n"@ + "  Operator: "@
        + spec_operator_label(m.operator_name@, m.operator_code@) + "\n"@ + "  Network: "@
        + spec_network_label(m.access_technologies, spec_ca_active(m)) + "\n"@
}

/// `p` followed by the signal lines.
pub open spec fn with_readings(p: Seq<char>, m: ModemInfo, sig: SignalText) -> Seq<char> {
    p + "  Signal: "@ + text::dec(m.signal_percent as nat) + "%\n"@ + "  RSRP: "@ + sig.rsrp@
        + "\n"@ + "  RSRQ: "@ + sig.rsrq@ + "\n"@ + "  SNR: "@ + sig.snr@ + "\n"@
}

/// `p` followed by the vendor-read and band lines.
pub open spec fn with_vendor(p: Seq<char>, m: ModemInfo) -> Seq<char> {
    p + "  Vendor driver: "@ + m.vendor.driver_name@ + "\n"@ + "  CA detected: "@
        + debug_opt_bool(m.vendor.ca_active) + "\n"@ + "  Serving band: "@ + debug_opt_u32(
        m.vendor.serving_band,
    ) + "\n"@ + "  EARFCN: "@ + debug_opt_u32(m.vendor.earfcn) + "\n"@ + "  PCI: "@
        + debug_opt_u32(m.vendor.pci) + "\n"@ + "  Configured bands: "@ + band_list(
        m.current_bands@,
    ) + "\n"@
}

/// `p` followed by the error notes, when there are any, and a blank line.
pub open spec fn with_notes(p: Seq<char>, m: ModemInfo) -> Seq<char> {
    with_note(
        with_note(p, "  Cell-info error: "@, m.cell_info_error@),
        "  Vendor-read note: "@,
        m.vendor.error@,
    ) + "\n"@
}

/// `p` followed by the block of the modem at position `index`.
pub open spec fn with_modem(p: Seq<char>, index: nat, m: ModemInfo, sig: SignalText) -> Seq<char> {
    with_notes(with_vendor(with_readings(with_identity(p, index, m), m, sig), m), m)
}

/// `p` followed by the blocks of the first `n` modems.
pub open spec fn with_blocks(p: Seq<char>, ms: Seq<ModemInfo>, sigs: Seq<SignalText>, n: nat) -> Seq<char>
    decreases n,
{
    if n == 0 {
        p
    } else {
        with_modem(
            with_blocks(p, ms, sigs, (n - 1) as nat),
            (n - 1) as nat,
            ms[n - 1],
            sigs[n - 1],
        )
    }
}

/// The whole report.
pub open spec fn report_text(
    ms: Seq<ModemInfo>,
    s: Settings,
    version: Seq<char>,
    sigs: Seq<SignalText>,
) -> Seq<char> {
    let head = if ms.len() == 0 {
        header(s, version) + "No modem detected.\n"@
    } else {
        header(s, version)
    };
    with_blocks(head, ms, sigs, ms.len())
}

fn push_bool(out: &mut Vec<char>, b: bool)
    ensures
        final(out)@ == old(out)@ + bool_text(b),
{
    if b {
        text::push_str(out, "true");
    } else {
        text::push_str(out, "false");
    }
}

fn push_dec(out: &mut Vec<char>, n: u64)
    ensures
        final(out)@ == old(out)@ + text::dec(n as nat),
{
    let d = text::dec_exec(n);
    text::push_all(out, &d);
}

fn push_debug_u32(out: &mut Vec<char>, o: Option<u32>)
    ensures
        final(out)@ == old(out)@ + debug_opt_u32(o),
{
    match o {
        Some(v) => {
            let ghost start = out@;
            text::push_str(out, "Some(");
            push_dec(out, v as u64);
            text::push_str(out, ")");
            assert(out@ =~= start + debug_opt_u32(o));
        },
        None => {
            text::push_str(out, "None");
        },
    }
}

fn push_debug_bool(out: &mut Vec<char>, o: Option<bool>)
    ensures
        final(out)@ == old(out)@ + debug_opt_bool(o),
{
    match o {
        Some(v) => {
            let ghost start = out@;
            text::push_str(out, "Some(");
            push_bool(out, v);
            text::push_str(out, ")");
            assert(out@ =~= start + debug_opt_bool(o));
        },
        None => {
            text::push_str(out, "None");
        },
    }
}

fn push_note(out: &mut Vec<char>, label: &str, t: &str)
    ensures
        final(out)@ == with_note(old(out)@, label@, t@),
{
    let tv = text::chars_of(t);
    if tv.len() > 0 {
        text::push_str(out, label);
        text::push_all(out, &tv);
        text::push_str(out, "\n");
    }
}

fn band_list_exec(bands: &Vec<u32>) -> (r: Vec<char>)
    ensures
        r@ == band_list(bands@),
{
    let mut parts: Vec<Vec<char>> = Vec::new();
    let mut i: usize = 0;
    while i < bands.len()
        invariant
            i <= bands.len(),
            parts.len() == i,
            forall|k: int| 0 <= k < i ==> #[trigger] parts@[k]@ == spec_band_label(bands@[k]),
        decreases bands.len() - i,
    {
        let label = band_label(bands[i]);
        parts.push(text::chars_of(label.as_str()));
        i += 1;
    }
    assert(text::views(parts@) =~= Seq::new(bands@.len(), |k: int| spec_band_label(bands@[k])));
    text::join_exec(&parts, ", ")
}

fn header_exec(s: &Settings, version: &str) -> (r: Vec<char>)
    ensures
        r@ == header(*s, version@),
{
    let mut out = text::chars_of("ModemDeck diagnostics (privacy-safe)\n");
    text::push_str(&mut out, "======================================\n");
    text::push_str(&mut out, "IMEI/equipment identifiers are intentionally omitted.\n\n");
    text::push_str(&mut out, "ModemDeck version: ");
    text::push_str(&mut out, version);
    text::push_str(&mut out, "\n");
    text::push_str(&mut out, "Signal refresh: ");
    push_dec(&mut out, s.normalized_refresh_seconds() as u64);
    text::push_str(&mut out, " seconds\n");
    text::push_str(&mut out, "Notifications: ");
    push_bool(&mut out, s.notifications);
    text::push_str(&mut out, "\n");
    text::push_str(&mut out, "Background monitor preference: ");
    push_bool(&mut out, s.background_monitor);
    text::push_str(&mut out, "\n\n");
    out
}

fn push_identity(out: &mut Vec<char>, index: usize, m: &ModemInfo)
    requires
        index < usize::MAX,
    ensures
        final(out)@ == with_identity(old(out)@, index as nat, *m),
{
    text::push_str(out, "Modem ");
    push_dec(out, (index + 1) as u64);
    text::push_str(out, "\n");
    text::push_str(out, "  Name: ");
    let name = m.display_name();
    text::push_str(out, name.as_str());
    text::push_str(out, "\n");
    text::push_str(out, "  Firmware: ");
    text::push_str(out, m.revision.as_str());
    text::push_str(out, "\n");
    text::push_str(out, "  Plugin: ");
    text::push_str(out, m.plugin.as_str());
    text::push_str(out, "\n");
    text::push_str(out, "  State: ");
    text::push_str(out, m.state_label());
    text::push_str(out, "\n");
    text::push_str(out, "  Operator: ");
    let operator = m.operator_label();
    text::push_str(out, operator.as_str());
    text::push_str(out, "\n");
    text::push_str(out, "  Network: ");
    let network = m.network_label();
    text::push_str(out, network.as_str());
    text::push_str(out, "\n");
}

fn push_readings(out: &mut Vec<char>, m: &ModemInfo, sig: &SignalText)
    ensures
        final(out)@ == with_readings(old(out)@, *m, *sig),
{
    text::push_str(out, "  Signal: ");
    push_dec(out, m.signal_percent as u64);
    text::push_str(out, "%\n");
    text::push_str(out, "  RSRP: ");
    text::push_str(out, sig.rsrp.as_str());
    text::push_str(out, "\n");
    text::push_str(out, "  RSRQ: ");
    text::push_str(out, sig.rsrq.as_str());
    text::push_str(out, "\n");
    text::push_str(out, "  SNR: ");
    text::push_str(out, sig.snr.as_str());
    text::push_str(out, "\n");
}

fn push_vendor(out: &mut Vec<char>, m: &ModemInfo)
    ensures
        final(out)@ == with_vendor(old(out)@, *m),
{
    text::push_str(out, "  Vendor driver: ");
    text::push_str(out, m.vendor.driver_name.as_str());
    text::push_str(out, "\n");
    text::push_str(out, "  CA detected: ");
    push_debug_bool(out, m.vendor.ca_active);
    text::push_str(out, "\n");
    text::push_str(out, "  Serving band: ");
    push_debug_u32(out, m.vendor.serving_band);
    text::push_str(out, "\n");
    text::push_str(out, "  EARFCN: ");
    push_debug_u32(out, m.vendor.earfcn);
    text::push_str(out, "\n");
    text::push_str(out, "  PCI: ");
    push_debug_u32(out, m.vendor.pci);
    text::push_str(out, "\n");
    text::push_str(out, "  Configured bands: ");
    let bands = band_list_exec(&m.current_bands);
    text::push_all(out, &bands);
    text::push_str(out, "\n");
}

fn push_modem(out: &mut Vec<char>, index: usize, m: &ModemInfo, sig: &SignalText)
    requires
        index < usize::MAX,
    ensures
        final(out)@ == with_modem(old(out)@, index as nat, *m, *sig),
{
    push_identity(out, index, m);
    push_readings(out, m, sig);
    push_vendor(out, m);
    push_note(out, "  Cell-info error: ", m.cell_info_error.as_str());
    push_note(out, "  Vendor-read note: ", m.vendor.error.as_str());
    text::push_str(out, "\n");
}

/// The report for `modems`, where `signals[i]` holds the `{:?}` texts of the
/// readings of `modems[i]`'s preferred signal.
pub fn report(modems: &[ModemInfo], settings: &Settings, version: &str, signals: &[SignalText]) -> (r: String)
    requires
        signals.len() == modems.len(),
    ensures
        r@ == report_text(modems@, *settings, version@, signals@),
{
    let mut out = header_exec(settings, version);
    if modems.len() == 0 {
        text::push_str(&mut out, "No modem detected.\n");
    }
    let ghost head = out@;
    let mut i: usize = 0;
    while i < modems.len()
        invariant
            i <= modems.len(),
            signals.len() == modems.len(),
            out@ == with_blocks(head, modems@, signals@, i as nat),
        decreases modems.len() - i,
    {
        push_modem(&mut out, i, &modems[i], &signals[i]);
        i += 1;
    }
    text::string_from(&out)
}

/// The downloads directory: `Downloads` under `$HOME`, or under the current
/// directory where `HOME` is not set.
pub fn downloads_dir(home: Option<&str>) -> (r: String)
    ensures
        r@ == text::join_path(
            match home {
                Some(h) => h@,
                None => "."@,
            },
            "Downloads"@,
        ),
{
    match home {
        Some(h) => text::join_path_exec(h, "Downloads"),
        None => text::join_path_exec(".", "Downloads"),
    }
}

/// The report's file name for a moment given in seconds since the epoch.
pub fn report_file_name(stamp: u64) -> (r: String)
    ensures
        r@ == "modemdeck-diagnostics-"@ + text::dec(stamp as nat) + ".txt"@,
{
    let mut out = text::chars_of("modemdeck-diagnostics-");
    push_dec(&mut out, stamp);
    text::push_str(&mut out, ".txt");
    text::string_from(&out)
}

/// `a` and `b` describe the same modem but for its equipment identifier and
/// device identifier.
pub open spec fn same_but_identifiers(a: ModemInfo, b: ModemInfo) -> bool {
    b == ModemInfo { equipment_id: b.equipment_id, device_uid: b.device_uid, ..a }
}

/// The report omits equipment identifiers: two lists of modems that differ
/// only in their equipment and device identifiers give the same report.
pub proof fn law_report_omits_identifiers(
    a: Seq<ModemInfo>,
    b: Seq<ModemInfo>,
    s: Settings,
    version: Seq<char>,
    sigs: Seq<SignalText>,
)
    requires
        a.len() == b.len(),
        forall|i: int| 0 <= i < a.len() ==> #[trigger] same_but_identifiers(a[i], b[i]),
    ensures
        report_text(a, s, version, sigs) == report_text(b, s, version, sigs),
{
    let head = if a.len() == 0 {
        header(s, version) + "No modem detected.\n"@
    } else {
        header(s, version)
    };
    lemma_blocks_omit_identifiers(head, a, b, sigs, a.len());
}

proof fn lemma_blocks_omit_identifiers(
    p: Seq<char>,
    a: Seq<ModemInfo>,
    b: Seq<ModemInfo>,
    sigs: Seq<SignalText>,
    n: nat,
)
    requires
        n <= a.len(),
        a.len() == b.len(),
        forall|i: int| 0 <= i < a.len() ==> #[trigger] same_but_identifiers(a[i], b[i]),
    ensures
        with_blocks(p, a, sigs, n) == with_blocks(p, b, sigs, n),
    decreases n,
{
    if n > 0 {
        lemma_blocks_omit_identifiers(p, a, b, sigs, (n - 1) as nat);
        assert(same_but_identifiers(a[n - 1], b[n - 1]));
    }
}

} // verus!

//! The status snapshot that the background monitor publishes for the desktop indicator.
use vstd::prelude::*;

use crate::model::{
    spec_ca_active, spec_display_name, spec_network_label, spec_operator_label, spec_state_label,
    ModemInfo, ServingCellInfo,
};
use crate::text;

verus! {

#[derive(Debug, Clone)]
pub struct RuntimeStatus {
    pub modem_name: String,
    pub operator: String,
    pub state: String,
    pub network: String,
    pub signal_percent: u32,
    pub band: String,
    pub carrier_aggregation: bool,
    pub updated_unix: u64,
}

pub struct StatusView {
    pub modem_name: Seq<char>,
    pub operator: Seq<char>,
    pub state: Seq<char>,
    pub network: Seq<char>,
    pub signal_percent: u32,
    pub band: Seq<char>,
    pub carrier_aggregation: bool,
    pub updated_unix: u64,
}

impl View for RuntimeStatus {
    type V = StatusView;

    open spec fn view(&self) -> StatusView {
        StatusView {
            modem_name: self.modem_name@,
            operator: self.operator@,
            state: self.state@,
            network: self.network@,
            signal_percent: self.signal_percent,
            band: self.band@,
            carrier_aggregation: self.carrier_aggregation,
            updated_unix: self.updated_unix,
        }
    }
}

impl Default for RuntimeStatus {
    fn default() -> (r: Self)
        ensures
            r@ == (StatusView {
                modem_name: Seq::empty(),
                operator: Seq::empty(),
                state: Seq::empty(),
                network: Seq::empty(),
                signal_percent: 0,
                band: Seq::empty(),
                carrier_aggregation: false,
                updated_unix: 0,
            }),
    {
        RuntimeStatus {
            modem_name: String::new(),
            operator: String::new(),
            state: String::new(),
            network: String::new(),
            signal_percent: 0,
            band: String::new(),
            carrier_aggregation: false,
            updated_unix: 0,
        }
    }
}

/// Index of the first connected modem (state 11) from `i` on.
pub open spec fn connected_from(ms: Seq<ModemInfo>, i: int) -> Option<int>
    decreases ms.len() - i,
{
    if i < 0 || i >= ms.len() {
        None
    } else if ms[i].state == 11 {
        Some(i)
    } else {
        connected_from(ms, i + 1)
    }
}

/// The modem a status is about: the first connected one, else the first one.
pub open spec fn spec_selected_modem(ms: Seq<ModemInfo>) -> Option<int> {
    match connected_from(ms, 0) {
        Some(i) => Some(i),
        None => if ms.len() > 0 { Some(0) } else { None },
    }
}

/// The band label of the first serving cell (from `i` on) whose band is known:
/// `n<band>` for 5G NR cells, `B<band>` otherwise.
pub open spec fn cell_band_from(cells: Seq<ServingCellInfo>, i: int) -> Option<Seq<char>>
    decreases cells.len() - i,
{
    if i < 0 || i >= cells.len() {
        None
    } else {
        match cells[i].band {
            Some(b) => Some(if cells[i].cell_type == 6 { "n"@ + text::dec(b as nat) } else { "B"@ + text::dec(b as nat) }),
            None => cell_band_from(cells, i + 1),
        }
    }
}

/// The vendor-read serving band, else the band of the first serving cell, else empty.
pub open spec fn spec_status_band(m: ModemInfo) -> Seq<char> {
    match m.vendor.serving_band {
        Some(v) => "B"@ + text::dec(v as nat),
        None => match cell_band_from(m.serving_cells@, 0) {
            Some(b) => b,
            None => Seq::empty(),
        },
    }
}

/// The status of a set of modems at time `now`.
pub open spec fn spec_status(ms: Seq<ModemInfo>, now: u64) -> StatusView {
    match spec_selected_modem(ms) {
        None => StatusView {
            modem_name: Seq::empty(),
            operator: Seq::empty(),
            state: "No modem"@,
            network: "—"@,
            signal_percent: 0,
            band: Seq::empty(),
            carrier_aggregation: false,
            updated_unix: now,
        },
        Some(i) => {
            let m = ms[i];
            StatusView {
                modem_name: spec_display_name(m.manufacturer@, m.model@),
                operator: spec_operator_label(m.operator_name@, m.operator_code@),
                state: spec_state_label(m.state),
                network: spec_network_label(m.access_technologies, spec_ca_active(m)),
                signal_percent: m.signal_percent,
                band: spec_status_band(m),
                carrier_aggregation: spec_ca_active(m),
                updated_unix: now,
            }
        },
    }
}

proof fn lemma_connected_from(ms: Seq<ModemInfo>, i: int)
    requires
        0 <= i <= ms.len(),
    ensures
        connected_from(ms, i) matches Some(j) ==> i <= j < ms.len() && ms[j].state == 11
            && forall|k: int| i <= k < j ==> #[trigger] ms[k].state != 11,
        connected_from(ms, i) is None ==> forall|k: int| i <= k < ms.len() ==> #[trigger] ms[k].state != 11,
    decreases ms.len() - i,
{
    if i < ms.len() {
        lemma_connected_from(ms, i + 1);
    }
}

/// A status is about the first connected modem (ModemManager state 11),
/// or the first modem when none is connected.
pub proof fn law_selected_modem(ms: Seq<ModemInfo>)
    ensures
        spec_selected_modem(ms) matches Some(j) ==> 0 <= j < ms.len() && (ms[j].state == 11 || (j == 0
            && forall|k: int| 0 <= k < ms.len() ==> #[trigger] ms[k].state != 11))
            && forall|k: int| 0 <= k < j ==> #[trigger] ms[k].state != 11,
        spec_selected_modem(ms) is None <==> ms.len() == 0,
{
    lemma_connected_from(ms, 0);
}

/// Index of the modem a status is about.
pub fn selected_modem(modems: &[ModemInfo]) -> (r: Option<usize>)
    ensures
        r matches Some(i) ==> spec_selected_modem(modems@) == Some(i as int) && i < modems.len(),
        r is None ==> spec_selected_modem(modems@) is None,
{
    let mut i: usize = 0;
    while i < modems.len()
        invariant
            i <= modems.len(),
            connected_from(modems@, 0) == connected_from(modems@, i as int),
        decreases modems.len() - i,
    {
        if modems[i].state == 11 {
            return Some(i);
        }
        i += 1;
    }
    if modems.len() > 0 { Some(0) } else { None }
}

fn status_band(m: &ModemInfo) -> (r: String)
    ensures
        r@ == spec_status_band(*m),
{
    if let Some(v) = m.vendor.serving_band {
        return crate::model::prefixed_number("B", v as u64);
    }
    let cells = &m.serving_cells;
    let mut i: usize = 0;
    while i < cells.len()
        invariant
            i <= cells.len(),
            m.vendor.serving_band is None,
            cells@ == m.serving_cells@,
            cell_band_from(cells@, 0) == cell_band_from(cells@, i as int),
        decreases cells.len() - i,
    {
        if let Some(b) = cells[i].band {
            if cells[i].cell_type == 6 {
                return crate::model::prefixed_number("n", b as u64);
            } else {
                return crate::model::prefixed_number("B", b as u64);
            }
        }
        i += 1;
    }
    String::new()
}

/// The status of `modems` stamped with the given time.
pub fn status_at(modems: &[ModemInfo], now: u64) -> (r: RuntimeStatus)
    ensures
        r@ == spec_status(modems@, now),
{
    match selected_modem(modems) {
        None => RuntimeStatus {
            modem_name: String::new(),
            operator: String::new(),
            state: String::from_str("No modem"),
            network: String::from_str("—"),
            signal_percent: 0,
            band: String::new(),
            carrier_aggregation: false,
            updated_unix: now,
        },
        Some(i) => {
            let m = &modems[i];
            RuntimeStatus {
                modem_name: m.display_name(),
                operator: m.operator_label(),
                state: String::from_str(m.state_label()),
                network: m.network_label(),
                signal_percent: m.signal_percent,
                band: status_band(m),
                carrier_aggregation: m.carrier_aggregation_active(),
                updated_unix: now,
            }
        },
    }
}

/// Seconds since the Unix epoch by the system clock (`SystemTime::now`), 0
/// when the clock is before the epoch. Nothing is claimed of the value.
#[verifier::external_body]
pub(crate) fn now_unix() -> u64 {
    std::time::SystemTime::now().duration_since(std::time::UNIX_EPOCH).map(|d| d.as_secs()).unwrap_or(0)
}

/// The status of `modems`, stamped with the current time.
pub fn status_from_modems(modems: &[ModemInfo]) -> (r: RuntimeStatus)
    ensures
        r@ == spec_status(modems@, r.updated_unix),
{
    let now = now_unix();
    status_at(modems, now)
}

/// The runtime directory: `$XDG_RUNTIME_DIR` when it is set, else
/// `modemdeck-runtime` under the system's temporary directory.
pub fn runtime_dir(xdg_runtime_dir: Option<&str>, temp_dir: &str) -> (r: String)
    ensures
        r@ == match xdg_runtime_dir {
            Some(x) => x@,
            None => text::join_path(temp_dir@, "modemdeck-runtime"@),
        },
{
    match xdg_runtime_dir {
        Some(x) => x.to_string(),
        None => text::join_path_exec(temp_dir, "modemdeck-runtime"),
    }
}

/// The status snapshot under the runtime directory.
pub fn status_path(runtime_dir: &str) -> (r: String)
    ensures
        r@ == text::join_path(runtime_dir@, "modemdeck-status.json"@),
{
    text::join_path_exec(runtime_dir, "modemdeck-status.json")
}

} // verus!

//! Vendor driver profiles: modem identification, capabilities, the read-only
//! AT commands of each vendor and the parsers of their answers.
pub mod dw5821e;
pub mod quectel;
pub mod fibocom;
pub mod huawei;
pub mod sierra;
pub mod simcom;
pub mod telit;

use vstd::prelude::*;

use crate::model::{empty_vendor, result_view, VendorInfo, VendorView};
use crate::text;

verus! {

/// The character views of (command, answer) pairs.
pub open spec fn pairs_view(rs: Seq<(String, String)>) -> Seq<(Seq<char>, Seq<char>)> {
    rs.map_values(|p: (String, String)| (p.0@, p.1@))
}

/// The answer to the first command (from index `i` on) whose name equals
/// `command` ignoring ASCII case.
pub open spec fn response_for_from(rs: Seq<(Seq<char>, Seq<char>)>, command: Seq<char>, i: int) -> Option<Seq<char>>
    decreases rs.len() - i,
{
    if i < 0 || i >= rs.len() {
        None
    } else if text::eq_ignore_case(rs[i].0, command) {
        Some(rs[i].1)
    } else {
        response_for_from(rs, command, i + 1)
    }
}

pub open spec fn spec_response_for(rs: Seq<(Seq<char>, Seq<char>)>, command: Seq<char>) -> Option<Seq<char>> {
    response_for_from(rs, command, 0)
}

/// `response_for(..).unwrap_or_default()`.
pub open spec fn response_or_empty(rs: Seq<(Seq<char>, Seq<char>)>, command: Seq<char>) -> Seq<char> {
    match spec_response_for(rs, command) {
        Some(v) => v,
        None => Seq::empty(),
    }
}

/// The answer recorded for `command`, compared without regard to ASCII case.
pub fn response_for(responses: &[(String, String)], command: &str) -> (r: Option<Vec<char>>)
    ensures
        r matches Some(v) ==> spec_response_for(pairs_view(responses@), command@) == Some(v@),
        r is None ==> spec_response_for(pairs_view(responses@), command@) is None,
{
    let cmd = text::chars_of(command);
    let ghost rs = pairs_view(responses@);
    let mut i: usize = 0;
    while i < responses.len()
        invariant
            i <= responses.len(),
            cmd@ == command@,
            rs == pairs_view(responses@),
            spec_response_for(rs, command@) == response_for_from(rs, command@, i as int),
        decreases responses.len() - i,
    {
        let name = text::chars_of(responses[i].0.as_str());
        assert(rs[i as int] == (responses@[i as int].0@, responses@[i as int].1@));
        if text::eq_ignore_case_exec(name.as_slice(), cmd.as_slice()) {
            return Some(text::chars_of(responses[i].1.as_str()));
        }
        i += 1;
    }
    None
}

/// `response_for(..).unwrap_or_default()`.
pub fn response_or_empty_exec(responses: &[(String, String)], command: &str) -> (r: Vec<char>)
    ensures
        r@ == response_or_empty(pairs_view(responses@), command@),
{
    match response_for(responses, command) {
        Some(v) => v,
        None => Vec::new(),
    }
}

} // verus!

verus! {

/// The vendor driver families that ModemDeck knows.
#[derive(Debug, Clone, Copy, PartialEq, Eq, Structural)]
pub enum DriverKind {
    Generic,
    Dw5821e,
    Quectel,
    Fibocom,
    Sierra,
    Huawei,
    Telit,
    Simcom,
}

/// Which radio details a driver can read or show.
#[derive(Debug, Clone, Copy, Default, PartialEq, Eq, Structural)]
pub struct DriverCapabilities {
    pub vendor_read: bool,
    pub serving_cell: bool,
    pub carrier_aggregation: bool,
    pub neighbour_cells: bool,
    pub lte_cell_lock_preview: bool,
    pub nr5g_diagnostics: bool,
}

/// Some needle of `needles` occurs in `h`.
pub open spec fn any_contains(h: Seq<char>, needles: Seq<&str>) -> bool {
    exists|i: int| 0 <= i < needles.len() && text::contains(h, #[trigger] needles[i]@)
}

/// Whether any of `needles` occurs in `haystack`.
pub fn matches_any(haystack: &[char], needles: &[&str]) -> (r: bool)
    ensures
        r == any_contains(haystack@, needles@),
{
    let mut i: usize = 0;
    while i < needles.len()
        invariant
            i <= needles.len(),
            forall|k: int| 0 <= k < i ==> !text::contains(haystack@, #[trigger] needles@[k]@),
        decreases needles.len() - i,
    {
        if text::contains_str(haystack, needles[i]) {
            return true;
        }
        i += 1;
    }
    false
}

pub open spec fn quectel_models() -> Seq<&'static str> {
    seq!["rm500", "rm502", "rm520", "rm530", "em05", "em06", "em12", "ep06", "ec20", "ec21", "ec25", "eg12", "eg18"]
}

pub open spec fn fibocom_models() -> Seq<&'static str> {
    seq!["l850", "l860", "fm350", "fm160", "fm150", "dw5931"]
}

pub open spec fn sierra_models() -> Seq<&'static str> {
    seq!["em74", "mc74", "em75", "em91", "em92"]
}

/// The driver for a modem, from its lowercased "manufacturer model" text.
pub open spec fn spec_identify_in(h: Seq<char>) -> DriverKind {
    if text::contains(h, "dw5821e"@) || text::contains(h, "t77w968"@) {
        DriverKind::Dw5821e
    } else if text::contains(h, "quectel"@) || any_contains(h, quectel_models()) {
        DriverKind::Quectel
    } else if text::contains(h, "fibocom"@) || any_contains(h, fibocom_models()) {
        DriverKind::Fibocom
    } else if text::contains(h, "sierra"@) || text::contains(h, "airprime"@) || any_contains(h, sierra_models()) {
        DriverKind::Sierra
    } else if text::contains(h, "huawei"@) || text::contains(h, "mobile connect"@) {
        DriverKind::Huawei
    } else if text::contains(h, "telit"@) || text::contains(h, "cinterion"@) {
        DriverKind::Telit
    } else if text::contains(h, "simcom"@) || text::contains(h, "simcom_wwan"@) {
        DriverKind::Simcom
    } else {
        DriverKind::Generic
    }
}

pub open spec fn spec_identify(manufacturer: Seq<char>, model: Seq<char>) -> DriverKind {
    spec_identify_in(text::lower(manufacturer + " "@ + model))
}

pub open spec fn spec_key(k: DriverKind) -> Seq<char> {
    match k {
        DriverKind::Generic => "generic"@,
        DriverKind::Dw5821e => "dw5821e"@,
        DriverKind::Quectel => "quectel"@,
        DriverKind::Fibocom => "fibocom"@,
        DriverKind::Sierra => "sierra"@,
        DriverKind::Huawei => "huawei"@,
        DriverKind::Telit => "telit"@,
        DriverKind::Simcom => "simcom"@,
    }
}

pub open spec fn spec_from_key(key: Seq<char>) -> Option<DriverKind> {
    if key == "dw5821e"@ { Some(DriverKind::Dw5821e) }
    else if key == "quectel"@ { Some(DriverKind::Quectel) }
    else if key == "fibocom"@ { Some(DriverKind::Fibocom) }
    else if key == "sierra"@ { Some(DriverKind::Sierra) }
    else if key == "huawei"@ { Some(DriverKind::Huawei) }
    else if key == "telit"@ { Some(DriverKind::Telit) }
    else if key == "simcom"@ { Some(DriverKind::Simcom) }
    else if key == "generic"@ { Some(DriverKind::Generic) }
    else { None }
}

pub open spec fn spec_label(k: DriverKind) -> Seq<char> {
    match k {
        DriverKind::Generic => "Generic ModemManager"@,
        DriverKind::Dw5821e => "Dell/Foxconn DW5821e (T77W968)"@,
        DriverKind::Quectel => "Quectel"@,
        DriverKind::Fibocom => "Fibocom"@,
        DriverKind::Sierra => "Sierra Wireless / AirPrime"@,
        DriverKind::Huawei => "Huawei"@,
        DriverKind::Telit => "Telit / Cinterion"@,
        DriverKind::Simcom => "SIMCom"@,
    }
}

pub open spec fn caps(vendor_read: bool, serving_cell: bool, carrier_aggregation: bool, neighbour_cells: bool, lte_cell_lock_preview: bool, nr5g_diagnostics: bool) -> DriverCapabilities {
    DriverCapabilities { vendor_read, serving_cell, carrier_aggregation, neighbour_cells, lte_cell_lock_preview, nr5g_diagnostics }
}

pub open spec fn nr5g_fibocom() -> Seq<&'static str> {
    seq!["fm350", "fm160", "fm190", "dw5931"]
}

/// What each driver can do, given the lowercased model name.
pub open spec fn spec_capabilities(k: DriverKind, lower: Seq<char>) -> DriverCapabilities {
    match k {
        DriverKind::Generic => caps(false, false, false, false, false, false),
        DriverKind::Dw5821e => caps(true, true, true, false, true, false),
        DriverKind::Quectel => caps(true, true, true, true, true, any_contains(lower, seq!["rm5", "rg5"])),
        DriverKind::Fibocom => caps(true, true, true, text::contains(lower, "l850"@) || text::contains(lower, "l860"@), false, any_contains(lower, nr5g_fibocom())),
        DriverKind::Sierra => caps(true, true, true, true, false, any_contains(lower, seq!["em91", "em92"])),
        DriverKind::Huawei => caps(true, false, false, false, false, false),
        DriverKind::Telit => caps(true, true, false, true, false, false),
        DriverKind::Simcom => caps(true, true, false, false, false, any_contains(lower, seq!["sim82", "sim83"])),
    }
}

/// The read-only AT commands of each driver, given the lowercased model name.
pub open spec fn spec_read_commands(k: DriverKind, lower: Seq<char>) -> Seq<&'static str> {
    match k {
        DriverKind::Generic => seq![],
        DriverKind::Dw5821e => seq!["AT^DEBUG?", "AT^CA_INFO?"],
        DriverKind::Quectel => seq!["AT+QENG=\"servingcell\"", "AT+QCAINFO", "AT+QNWINFO"],
        DriverKind::Fibocom => if any_contains(lower, nr5g_fibocom()) {
            seq!["AT+GTCCINFO?", "AT+GTCAINFO?", "AT+GTACT?"]
        } else {
            seq!["AT+XCELLINFO?", "AT+GTCAINFO?"]
        },
        DriverKind::Sierra => if any_contains(lower, seq!["em91", "em92"]) {
            seq!["AT!GSTATUS?", "AT!NRINFO?", "AT!LTEINFO?"]
        } else {
            seq!["AT!GSTATUS?", "AT!LTEINFO?"]
        },
        DriverKind::Huawei => seq!["AT^SYSINFOEX", "AT^HCSQ?"],
        DriverKind::Telit => seq!["AT#MONI"],
        DriverKind::Simcom => seq!["AT+CPSI?", "AT+CESQ"],
    }
}

impl DriverKind {
    pub fn identify(manufacturer: &str, model: &str) -> (r: Self)
        ensures
            r == spec_identify(manufacturer@, model@),
    {
        let mut h = text::chars_of(manufacturer);
        text::push_str(&mut h, " ");
        text::push_str(&mut h, model);
        let h = text::to_lower(h.as_slice());
        let hs = h.as_slice();
        let quectel: [&str; 13] = ["rm500", "rm502", "rm520", "rm530", "em05", "em06", "em12", "ep06", "ec20", "ec21", "ec25", "eg12", "eg18"];
        let fibocom: [&str; 6] = ["l850", "l860", "fm350", "fm160", "fm150", "dw5931"];
        let sierra: [&str; 5] = ["em74", "mc74", "em75", "em91", "em92"];
        assert(quectel@ =~= quectel_models());
        assert(fibocom@ =~= fibocom_models());
        assert(sierra@ =~= sierra_models());
        if text::contains_str(hs, "dw5821e") || text::contains_str(hs, "t77w968") {
            Self::Dw5821e
        } else if text::contains_str(hs, "quectel") || matches_any(hs, &quectel) {
            Self::Quectel
        } else if text::contains_str(hs, "fibocom") || matches_any(hs, &fibocom) {
            Self::Fibocom
        } else if text::contains_str(hs, "sierra") || text::contains_str(hs, "airprime") || matches_any(hs, &sierra) {
            Self::Sierra
        } else if text::contains_str(hs, "huawei") || text::contains_str(hs, "mobile connect") {
            Self::Huawei
        } else if text::contains_str(hs, "telit") || text::contains_str(hs, "cinterion") {
            Self::Telit
        } else if text::contains_str(hs, "simcom") || text::contains_str(hs, "simcom_wwan") {
            Self::Simcom
        } else {
            Self::Generic
        }
    }

    pub fn from_key(key: &str) -> (r: Option<Self>)
        ensures
            r == spec_from_key(key@),
    {
        let k = text::chars_of(key);
        let ks = k.as_slice();
        if text::eq_str(ks, "dw5821e") { Some(Self::Dw5821e) }
        else if text::eq_str(ks, "quectel") { Some(Self::Quectel) }
        else if text::eq_str(ks, "fibocom") { Some(Self::Fibocom) }
        else if text::eq_str(ks, "sierra") { Some(Self::Sierra) }
        else if text::eq_str(ks, "huawei") { Some(Self::Huawei) }
        else if text::eq_str(ks, "telit") { Some(Self::Telit) }
        else if text::eq_str(ks, "simcom") { Some(Self::Simcom) }
        else if text::eq_str(ks, "generic") { Some(Self::Generic) }
        else { None }
    }

    pub fn key(self) -> (r: &'static str)
        ensures
            r@ == spec_key(self),
    {
        match self {
            Self::Generic => "generic",
            Self::Dw5821e => "dw5821e",
            Self::Quectel => "quectel",
            Self::Fibocom => "fibocom",
            Self::Sierra => "sierra",
            Self::Huawei => "huawei",
            Self::Telit => "telit",
            Self::Simcom => "simcom",
        }
    }

    pub fn label(self) -> (r: &'static str)
        ensures
            r@ == spec_label(self),
    {
        match self {
            Self::Generic => "Generic ModemManager",
            Self::Dw5821e => "Dell/Foxconn DW5821e (T77W968)",
            Self::Quectel => "Quectel",
            Self::Fibocom => "Fibocom",
            Self::Sierra => "Sierra Wireless / AirPrime",
            Self::Huawei => "Huawei",
            Self::Telit => "Telit / Cinterion",
            Self::Simcom => "SIMCom",
        }
    }

    pub fn capabilities(self, model: &str) -> (r: DriverCapabilities)
        ensures
            r == spec_capabilities(self, text::lower(model@)),
    {
        let lv = text::chars_of(model);
        let lower = text::to_lower(lv.as_slice());
        let l = lower.as_slice();
        match self {
            Self::Generic => DriverCapabilities { vendor_read: false, serving_cell: false, carrier_aggregation: false, neighbour_cells: false, lte_cell_lock_preview: false, nr5g_diagnostics: false },
            Self::Dw5821e => DriverCapabilities { vendor_read: true, serving_cell: true, carrier_aggregation: true, neighbour_cells: false, lte_cell_lock_preview: true, nr5g_diagnostics: false },
            Self::Quectel => {
                let n: [&str; 2] = ["rm5", "rg5"];
                assert(n@ =~= seq!["rm5", "rg5"]);
                DriverCapabilities { vendor_read: true, serving_cell: true, carrier_aggregation: true, neighbour_cells: true, lte_cell_lock_preview: true, nr5g_diagnostics: matches_any(l, &n) }
            },
            Self::Fibocom => {
                let n: [&str; 4] = ["fm350", "fm160", "fm190", "dw5931"];
                assert(n@ =~= nr5g_fibocom());
                let neighbour = text::contains_str(l, "l850") || text::contains_str(l, "l860");
                DriverCapabilities { vendor_read: true, serving_cell: true, carrier_aggregation: true, neighbour_cells: neighbour, lte_cell_lock_preview: false, nr5g_diagnostics: matches_any(l, &n) }
            },
            Self::Sierra => {
                let n: [&str; 2] = ["em91", "em92"];
                assert(n@ =~= seq!["em91", "em92"]);
                DriverCapabilities { vendor_read: true, serving_cell: true, carrier_aggregation: true, neighbour_cells: true, lte_cell_lock_preview: false, nr5g_diagnostics: matches_any(l, &n) }
            },
            Self::Huawei => DriverCapabilities { vendor_read: true, serving_cell: false, carrier_aggregation: false, neighbour_cells: false, lte_cell_lock_preview: false, nr5g_diagnostics: false },
            Self::Telit => DriverCapabilities { vendor_read: true, serving_cell: true, carrier_aggregation: false, neighbour_cells: true, lte_cell_lock_preview: false, nr5g_diagnostics: false },
            Self::Simcom => {
                let n: [&str; 2] = ["sim82", "sim83"];
                assert(n@ =~= seq!["sim82", "sim83"]);
                DriverCapabilities { vendor_read: true, serving_cell: true, carrier_aggregation: false, neighbour_cells: false, lte_cell_lock_preview: false, nr5g_diagnostics: matches_any(l, &n) }
            },
        }
    }

    pub fn has_vendor_deep_read(self) -> (r: bool)
        ensures
            r == (self != DriverKind::Generic),
    {
        self != Self::Generic
    }

    pub fn read_commands(self, model: &str) -> (r: Vec<&'static str>)
        ensures
            r@ == spec_read_commands(self, text::lower(model@)),
    {
        let lv = text::chars_of(model);
        let lower = text::to_lower(lv.as_slice());
        let l = lower.as_slice();
        let r: Vec<&'static str> = match self {
            Self::Generic => vec![],
            Self::Dw5821e => vec!["AT^DEBUG?", "AT^CA_INFO?"],
            Self::Quectel => vec!["AT+QENG=\"servingcell\"", "AT+QCAINFO", "AT+QNWINFO"],
            Self::Fibocom => {
                let n: [&str; 4] = ["fm350", "fm160", "fm190", "dw5931"];
                assert(n@ =~= nr5g_fibocom());
                if matches_any(l, &n) {
                    vec!["AT+GTCCINFO?", "AT+GTCAINFO?", "AT+GTACT?"]
                } else {
                    vec!["AT+XCELLINFO?", "AT+GTCAINFO?"]
                }
            },
            Self::Sierra => {
                let n: [&str; 2] = ["em91", "em92"];
                assert(n@ =~= seq!["em91", "em92"]);
                if matches_any(l, &n) {
                    vec!["AT!GSTATUS?", "AT!NRINFO?", "AT!LTEINFO?"]
                } else {
                    vec!["AT!GSTATUS?", "AT!LTEINFO?"]
                }
            },
            Self::Huawei => vec!["AT^SYSINFOEX", "AT^HCSQ?"],
            Self::Telit => vec!["AT#MONI"],
            Self::Simcom => vec!["AT+CPSI?", "AT+CESQ"],
        };
        assert(r@ =~= spec_read_commands(self, text::lower(model@)));
        r
    }
}

/// The parsed view of a driver's answers.
pub open spec fn spec_parse(k: DriverKind, model: Seq<char>, rs: Seq<(Seq<char>, Seq<char>)>) -> VendorView {
    match k {
        DriverKind::Dw5821e => dw5821e::spec_parse(response_or_empty(rs, "AT^DEBUG?"@), response_or_empty(rs, "AT^CA_INFO?"@)),
        DriverKind::Quectel => quectel::spec_parse(rs),
        DriverKind::Fibocom => fibocom::spec_parse(model, rs),
        DriverKind::Sierra => sierra::spec_parse(rs),
        DriverKind::Huawei => huawei::spec_parse(rs),
        DriverKind::Telit => telit::spec_parse(rs),
        DriverKind::Simcom => simcom::spec_parse(rs),
        DriverKind::Generic => empty_vendor(),
    }
}

pub open spec fn pci_out_of_range() -> Seq<char> {
    "LTE PCI must be between 0 and 503."@
}

pub open spec fn earfcn_out_of_range() -> Seq<char> {
    "EARFCN is outside the supported LTE range."@
}

pub open spec fn no_lock_recipe() -> Seq<char> {
    "This driver does not expose a verified LTE cell-lock recipe in ModemDeck."@
}

/// A cell-lock preview: the PCI must be a valid LTE PCI (0 to 503) and the
/// EARFCN at most 262143; only the DW5821e and Quectel drivers have a recipe.
pub open spec fn spec_cell_lock_preview(k: DriverKind, earfcn: u32, pci: u32) -> Result<Seq<char>, Seq<char>> {
    if pci > 503 {
        Err(pci_out_of_range())
    } else if earfcn > 262_143 {
        Err(earfcn_out_of_range())
    } else {
        match k {
            DriverKind::Dw5821e => dw5821e::spec_cell_lock_preview(earfcn, pci),
            DriverKind::Quectel => Ok(quectel::preview_head() + text::dec(earfcn as nat) + ","@ + text::dec(pci as nat) + quectel::preview_tail()),
            _ => Err(no_lock_recipe()),
        }
    }
}

impl DriverKind {
    pub fn parse(self, model: &str, responses: &[(String, String)]) -> (r: VendorInfo)
        ensures
            r@ == spec_parse(self, model@, pairs_view(responses@)),
    {
        match self {
            Self::Dw5821e => dw5821e::parse_responses(responses),
            Self::Quectel => quectel::parse(responses),
            Self::Fibocom => fibocom::parse(model, responses),
            Self::Sierra => sierra::parse(responses),
            Self::Huawei => huawei::parse(responses),
            Self::Telit => telit::parse(responses),
            Self::Simcom => simcom::parse(responses),
            Self::Generic => VendorInfo::default(),
        }
    }

    pub fn cell_lock_preview(self, earfcn: u32, pci: u32) -> (r: Result<String, String>)
        ensures
            result_view(r) == spec_cell_lock_preview(self, earfcn, pci),
    {
        if pci > 503 {
            return Err(String::from_str("LTE PCI must be between 0 and 503."));
        }
        if earfcn > 262_143 {
            return Err(String::from_str("EARFCN is outside the supported LTE range."));
        }
        match self {
            Self::Dw5821e => dw5821e::cell_lock_preview(earfcn, pci),
            Self::Quectel => quectel::cell_lock_preview(earfcn, pci),
            _ => Err(String::from_str("This driver does not expose a verified LTE cell-lock recipe in ModemDeck.")),
        }
    }
}

/// Every driver's key names that driver again.
pub proof fn law_key_round_trip(k: DriverKind)
    ensures
        spec_from_key(spec_key(k)) == Some(k),
{
    reveal_strlit("generic");
    reveal_strlit("dw5821e");
    reveal_strlit("quectel");
    reveal_strlit("fibocom");
    reveal_strlit("sierra");
    reveal_strlit("huawei");
    reveal_strlit("telit");
    reveal_strlit("simcom");
    let keys = seq!["dw5821e"@, "quectel"@, "fibocom"@, "sierra"@, "huawei"@, "telit"@, "simcom"@, "generic"@];
    assert forall|i: int, j: int| 0 <= i < j < 8 implies keys[i] != keys[j] by {
        assert(keys[i][0] != keys[j][0] || keys[i][2] != keys[j][2]);
    }
    assert(keys[0] != keys[1] && keys[0] != keys[2]);
}

} // verus!

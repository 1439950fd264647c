//! Modem, radio and band data, and the labels derived from them.
//!
//! Radio measurements are carried as the IEEE-754 bit patterns of the
//! values ModemManager reports (`f64::to_bits`); the library only tests
//! whether they are present and passes them on unchanged.
use vstd::prelude::*;

use crate::text;
use crate::text::{chars_of, dec, dec_exec, digit_char, push_all, string_from};

verus! {

#[derive(Debug, Clone, Copy, Default)]
pub struct RadioSignal {
    pub rssi: Option<u64>,
    pub rsrp: Option<u64>,
    pub rsrq: Option<u64>,
    pub snr: Option<u64>,
}

impl RadioSignal {
    pub fn has_any(&self) -> (r: bool)
        ensures
            r == (self.rssi is Some || self.rsrp is Some || self.rsrq is Some || self.snr is Some),
    {
        self.rssi.is_some() || self.rsrp.is_some() || self.rsrq.is_some() || self.snr.is_some()
    }
}

/// One carrier of a carrier-aggregation set. `bandwidth_mhz` is the decimal
/// text the modem reported, present only when it is a valid number.
#[derive(Debug, Clone)]
pub struct CarrierComponent {
    pub role: String,
    pub band: Option<u32>,
    pub bandwidth_mhz: Option<String>,
}

pub struct ComponentView {
    pub role: Seq<char>,
    pub band: Option<u32>,
    pub bandwidth_mhz: Option<Seq<char>>,
}

pub open spec fn opt_view(o: Option<String>) -> Option<Seq<char>> {
    match o {
        Some(s) => Some(s@),
        None => None,
    }
}

impl View for CarrierComponent {
    type V = ComponentView;

    open spec fn view(&self) -> ComponentView {
        ComponentView { role: self.role@, band: self.band, bandwidth_mhz: opt_view(self.bandwidth_mhz) }
    }
}

/// The character views of a `Result` of strings.
pub open spec fn result_view(r: Result<String, String>) -> Result<Seq<char>, Seq<char>> {
    match r {
        Ok(s) => Ok(s@),
        Err(e) => Err(e@),
    }
}

pub open spec fn components_view(v: Seq<CarrierComponent>) -> Seq<ComponentView> {
    v.map_values(|c: CarrierComponent| c@)
}

/// What a vendor-specific AT read found out about the radio.
#[derive(Debug, Clone)]
pub struct VendorInfo {
    pub driver_name: String,
    pub read_source: String,
    pub deep_read_available: bool,
    pub serving_band: Option<u32>,
    pub earfcn: Option<u32>,
    pub pci: Option<u32>,
    pub bandwidth: String,
    pub ca_active: Option<bool>,
    pub ca_components: Vec<CarrierComponent>,
    pub ca_summary: String,
    pub raw_debug: String,
    pub raw_ca: String,
    pub error: String,
}

pub struct VendorView {
    pub driver_name: Seq<char>,
    pub read_source: Seq<char>,
    pub deep_read_available: bool,
    pub serving_band: Option<u32>,
    pub earfcn: Option<u32>,
    pub pci: Option<u32>,
    pub bandwidth: Seq<char>,
    pub ca_active: Option<bool>,
    pub ca_components: Seq<ComponentView>,
    pub ca_summary: Seq<char>,
    pub raw_debug: Seq<char>,
    pub raw_ca: Seq<char>,
    pub error: Seq<char>,
}

impl View for VendorInfo {
    type V = VendorView;

    open spec fn view(&self) -> VendorView {
        VendorView {
            driver_name: self.driver_name@,
            read_source: self.read_source@,
            deep_read_available: self.deep_read_available,
            serving_band: self.serving_band,
            earfcn: self.earfcn,
            pci: self.pci,
            bandwidth: self.bandwidth@,
            ca_active: self.ca_active,
            ca_components: components_view(self.ca_components@),
            ca_summary: self.ca_summary@,
            raw_debug: self.raw_debug@,
            raw_ca: self.raw_ca@,
            error: self.error@,
        }
    }
}

/// The view of `VendorInfo::default()`: every text empty, nothing known.
pub open spec fn empty_vendor() -> VendorView {
    VendorView {
        driver_name: Seq::empty(),
        read_source: Seq::empty(),
        deep_read_available: false,
        serving_band: None,
        earfcn: None,
        pci: None,
        bandwidth: Seq::empty(),
        ca_active: None,
        ca_components: Seq::empty(),
        ca_summary: Seq::empty(),
        raw_debug: Seq::empty(),
        raw_ca: Seq::empty(),
        error: Seq::empty(),
    }
}

impl Default for VendorInfo {
    fn default() -> (r: Self)
        ensures
            r@ == empty_vendor(),
    {
        let r = VendorInfo {
            driver_name: String::new(),
            read_source: String::new(),
            deep_read_available: false,
            serving_band: None,
            earfcn: None,
            pci: None,
            bandwidth: String::new(),
            ca_active: None,
            ca_components: Vec::new(),
            ca_summary: String::new(),
            raw_debug: String::new(),
            raw_ca: String::new(),
            error: String::new(),
        };
        assert(components_view(r.ca_components@) =~= Seq::<ComponentView>::empty());
        r
    }
}

/// A serving cell as ModemManager's `GetCellInfo` reports it.
#[derive(Debug, Clone)]
pub struct ServingCellInfo {
    pub cell_type: u32,
    pub serving_cell_type: Option<u32>,
    pub operator_id: String,
    pub tac: String,
    pub ci: String,
    pub physical_ci: String,
    pub earfcn: Option<u32>,
    pub nrarfcn: Option<u32>,
    pub band: Option<u32>,
    pub bandwidth: Option<u32>,
    pub rsrp: Option<u64>,
    pub rsrq: Option<u64>,
    pub sinr: Option<u64>,
}

pub open spec fn spec_technology_label(cell_type: u32) -> Seq<char> {
    if cell_type == 1 { "CDMA"@ }
    else if cell_type == 2 { "GSM"@ }
    else if cell_type == 3 { "UMTS"@ }
    else if cell_type == 4 { "TD-SCDMA"@ }
    else if cell_type == 5 { "LTE"@ }
    else if cell_type == 6 { "5G NR"@ }
    else { "Unknown"@ }
}

pub open spec fn spec_role_label(t: Option<u32>) -> Seq<char> {
    match t {
        Some(1) => "Primary cell"@,
        Some(2) => "Secondary cell"@,
        Some(3) => "Primary SCG cell"@,
        Some(4) => "Secondary SCG cell"@,
        _ => "Serving cell"@,
    }
}

pub open spec fn spec_channel_label(earfcn: Option<u32>, nrarfcn: Option<u32>) -> Seq<char> {
    match earfcn {
        Some(e) => "EARFCN "@ + dec(e as nat),
        None => match nrarfcn {
            Some(n) => "NR-ARFCN "@ + dec(n as nat),
            None => "—"@,
        },
    }
}

pub open spec fn spec_cell_band_label(cell_type: u32, band: Option<u32>) -> Seq<char> {
    match band {
        Some(b) => if cell_type == 5 {
            "LTE B"@ + dec(b as nat) + " • "@ + (if spec_is_lte_tdd_band(b) { "TDD"@ } else { "FDD"@ })
        } else if cell_type == 6 {
            "5G n"@ + dec(b as nat)
        } else {
            "—"@
        },
        None => "—"@,
    }
}

/// `trim_start_matches("0x")`: every leading `0x` removed.
pub open spec fn strip_hex_prefixes(s: Seq<char>) -> Seq<char>
    decreases s.len(),
{
    if s.len() >= 2 && s[0] == '0' && s[1] == 'x' {
        strip_hex_prefixes(s.skip(2))
    } else {
        s
    }
}

pub open spec fn is_hex_digit(c: char) -> bool {
    ('0' <= c && c <= '9') || ('a' <= c && c <= 'f') || ('A' <= c && c <= 'F')
}

pub open spec fn hex_value(c: char) -> nat {
    if '0' <= c && c <= '9' {
        ((c as int) - 48) as nat
    } else if 'a' <= c && c <= 'f' {
        ((c as int) - 87) as nat
    } else {
        ((c as int) - 55) as nat
    }
}

pub open spec fn all_hex(d: Seq<char>) -> bool {
    forall|i: int| 0 <= i < d.len() ==> is_hex_digit(#[trigger] d[i])
}

pub open spec fn hex_digits_value(d: Seq<char>) -> nat
    decreases d.len(),
{
    if d.len() == 0 { 0 } else { hex_digits_value(d.drop_last()) * 16 + hex_value(d.last()) }
}

/// `u32::from_str_radix(s, 16).ok()`: an optional `+`, then one or more
/// hexadecimal digits of either case, with a value that fits in 32 bits.
pub open spec fn parse_hex_u32(s: Seq<char>) -> Option<u32> {
    let d = if s.len() > 0 && s[0] == '+' { s.drop_first() } else { s };
    if d.len() > 0 && all_hex(d) && hex_digits_value(d) <= u32::MAX {
        Some(hex_digits_value(d) as u32)
    } else {
        None
    }
}

/// The physical cell id as "decimal (0xhex)", or the raw text when it is not hexadecimal.
pub open spec fn spec_pci_label(physical_ci: Seq<char>) -> Seq<char> {
    let raw = text::trim(physical_ci);
    if raw.len() == 0 {
        "—"@
    } else {
        match parse_hex_u32(strip_hex_prefixes(raw)) {
            Some(d) => dec(d as nat) + " (0x"@ + raw + ")"@,
            None => raw,
        }
    }
}

proof fn lemma_hex_mono(d: Seq<char>, k: int)
    requires
        0 <= k <= d.len(),
    ensures
        hex_digits_value(d.take(k)) <= hex_digits_value(d),
    decreases d.len() - k,
{
    if k < d.len() {
        lemma_hex_mono(d, k + 1);
        assert(d.take(k + 1).drop_last() =~= d.take(k));
    } else {
        assert(d.take(k) =~= d);
    }
}

fn parse_hex_u32_exec(v: &[char]) -> (r: Option<u32>)
    ensures
        r == parse_hex_u32(v@),
{
    let start: usize = if v.len() > 0 && v[0] == '+' { 1 } else { 0 };
    let ghost d = if v@.len() > 0 && v@[0] == '+' { v@.drop_first() } else { v@ };
    assert(d =~= v@.subrange(start as int, v@.len() as int));
    if start >= v.len() {
        return None;
    }
    let mut acc: u64 = 0;
    let mut i: usize = start;
    assert(d.take(0) =~= Seq::<char>::empty());
    while i < v.len()
        invariant
            start <= i <= v.len(),
            d == v@.subrange(start as int, v@.len() as int),
            d == (if v@.len() > 0 && v@[0] == '+' { v@.drop_first() } else { v@ }),
            acc == hex_digits_value(d.take(i - start)),
            acc <= u32::MAX,
            forall|k: int| 0 <= k < i - start ==> is_hex_digit(#[trigger] d[k]),
        decreases v.len() - i,
    {
        let c = v[i];
        assert(d[i - start] == c);
        let h: u64 = if '0' <= c && c <= '9' {
            ((c as u32) - 48) as u64
        } else if 'a' <= c && c <= 'f' {
            ((c as u32) - 87) as u64
        } else if 'A' <= c && c <= 'F' {
            ((c as u32) - 55) as u64
        } else {
            assert(!is_hex_digit(d[i - start]));
            return None;
        };
        assert(d.take(i - start + 1).drop_last() =~= d.take(i - start));
        assert(d.take(i - start + 1).last() == c);
        acc = acc * 16 + h;
        i += 1;
        assert(acc == hex_digits_value(d.take(i - start)));
        if acc > 0xffff_ffff {
            proof {
                lemma_hex_mono(d, i - start);
            }
            return None;
        }
    }
    assert(d.take(i - start) =~= d);
    Some(acc as u32)
}

fn strip_hex_prefixes_exec(v: &[char]) -> (r: Vec<char>)
    ensures
        r@ == strip_hex_prefixes(v@),
{
    let mut i: usize = 0;
    assert(v@.skip(0) =~= v@);
    while v.len() >= 2 && i <= v.len() - 2 && v[i] == '0' && v[i + 1] == 'x'
        invariant
            i <= v.len(),
            strip_hex_prefixes(v@) == strip_hex_prefixes(v@.skip(i as int)),
        decreases v.len() - i,
    {
        assert(v@.skip(i as int).skip(2) =~= v@.skip(i + 2));
        i += 2;
    }
    let r = text::slice(v, i, v.len());
    assert(r@ =~= v@.skip(i as int));
    r
}

impl ServingCellInfo {
    pub fn technology_label(&self) -> (r: &'static str)
        ensures
            r@ == spec_technology_label(self.cell_type),
    {
        match self.cell_type {
            1 => "CDMA",
            2 => "GSM",
            3 => "UMTS",
            4 => "TD-SCDMA",
            5 => "LTE",
            6 => "5G NR",
            _ => "Unknown",
        }
    }

    pub fn role_label(&self) -> (r: &'static str)
        ensures
            r@ == spec_role_label(self.serving_cell_type),
    {
        match self.serving_cell_type {
            Some(1) => "Primary cell",
            Some(2) => "Secondary cell",
            Some(3) => "Primary SCG cell",
            Some(4) => "Secondary SCG cell",
            _ => "Serving cell",
        }
    }

    pub fn channel_label(&self) -> (r: String)
        ensures
            r@ == spec_channel_label(self.earfcn, self.nrarfcn),
    {
        if let Some(earfcn) = self.earfcn {
            prefixed_number("EARFCN ", earfcn as u64)
        } else if let Some(nrarfcn) = self.nrarfcn {
            prefixed_number("NR-ARFCN ", nrarfcn as u64)
        } else {
            String::from_str("—")
        }
    }

    pub fn band_label(&self) -> (r: String)
        ensures
            r@ == spec_cell_band_label(self.cell_type, self.band),
    {
        match self.band {
            Some(band) => {
                if self.cell_type == 5 {
                    let mut v = chars_of("LTE B");
                    let d = dec_exec(band as u64);
                    push_all(&mut v, d.as_slice());
                    text::push_str(&mut v, " • ");
                    if is_lte_tdd_band(band) {
                        text::push_str(&mut v, "TDD");
                    } else {
                        text::push_str(&mut v, "FDD");
                    }
                    string_from(v.as_slice())
                } else if self.cell_type == 6 {
                    prefixed_number("5G n", band as u64)
                } else {
                    String::from_str("—")
                }
            },
            None => String::from_str("—"),
        }
    }

    pub fn pci_label(&self) -> (r: String)
        ensures
            r@ == spec_pci_label(self.physical_ci@),
    {
        let pv = chars_of(self.physical_ci.as_str());
        let raw = text::trim_exec(pv.as_slice());
        if raw.len() == 0 {
            return String::from_str("—");
        }
        let stripped = strip_hex_prefixes_exec(raw.as_slice());
        match parse_hex_u32_exec(stripped.as_slice()) {
            Some(decimal) => {
                let mut v = dec_exec(decimal as u64);
                text::push_str(&mut v, " (0x");
                push_all(&mut v, raw.as_slice());
                text::push_str(&mut v, ")");
                string_from(v.as_slice())
            },
            None => string_from(raw.as_slice()),
        }
    }
}

/// The band settings in flight and the outcome of the last change.
#[derive(Debug, Clone)]
pub struct BandChangeState {
    pub previous_bands: Vec<u32>,
    pub requested_bands: Vec<u32>,
    pub pending_confirmation: bool,
    pub generation: u64,
    pub message: String,
}

// ---------------------------------------------------------------------------
// LTE bands and ModemManager band enums
// ---------------------------------------------------------------------------

/// The 3GPP LTE downlink EARFCN ranges: (first, last, band).
pub open spec fn earfcn_ranges() -> Seq<(u32, u32, u32)> {
    seq![(0,599,1),(600,1199,2),(1200,1949,3),(1950,2399,4),(2400,2649,5),(2650,2749,6),(2750,3449,7),(3450,3799,8),(3800,4149,9),(4150,4749,10),(4750,4949,11),(5010,5179,12),(5180,5279,13),(5280,5379,14),(5730,5849,17),(5850,5999,18),(6000,6149,19),(6150,6449,20),(6450,6599,21),(6600,7399,22),(7500,7699,23),(7700,8039,24),(8040,8689,25),(8690,9039,26),(9040,9209,27),(9210,9659,28),(9660,9769,29),(9770,9869,30),(9870,9919,31),(9920,10359,32),(36000,36199,33),(36200,36349,34),(36350,36949,35),(36950,37549,36),(37550,37749,37),(37750,38249,38),(38250,38649,39),(38650,39649,40),(39650,41589,41),(41590,43589,42),(43590,45589,43),(45590,46589,44),(46590,46789,45),(46790,54539,46),(54540,55239,47),(55240,56739,48),(65536,66435,65),(66436,67335,66),(67336,67535,67),(67536,67835,68),(67836,68335,69),(68336,68585,70),(68586,68935,71),(68936,68985,72),(68986,69035,73),(69036,69465,74),(69466,70315,75),(70316,70365,76),(70366,70545,85),(70546,70595,87),(70596,70645,88)]
}

/// The band of the first range in `ranges` (from index `i` on) that holds `e`.
pub open spec fn band_of_range_from(ranges: Seq<(u32, u32, u32)>, e: u32, i: int) -> Option<u32>
    decreases ranges.len() - i,
{
    if i < 0 || i >= ranges.len() {
        None
    } else if ranges[i].0 <= e && e <= ranges[i].1 {
        Some(ranges[i].2)
    } else {
        band_of_range_from(ranges, e, i + 1)
    }
}

/// LTE band of a downlink EARFCN, when it lies in a known range.
pub open spec fn spec_lte_band_from_earfcn(e: u32) -> Option<u32> {
    band_of_range_from(earfcn_ranges(), e, 0)
}

pub fn lte_band_from_earfcn(earfcn: u32) -> (r: Option<u32>)
    ensures
        r == spec_lte_band_from_earfcn(earfcn),
{
    let ranges: [(u32, u32, u32); 61] = [(0,599,1),(600,1199,2),(1200,1949,3),(1950,2399,4),(2400,2649,5),(2650,2749,6),(2750,3449,7),(3450,3799,8),(3800,4149,9),(4150,4749,10),(4750,4949,11),(5010,5179,12),(5180,5279,13),(5280,5379,14),(5730,5849,17),(5850,5999,18),(6000,6149,19),(6150,6449,20),(6450,6599,21),(6600,7399,22),(7500,7699,23),(7700,8039,24),(8040,8689,25),(8690,9039,26),(9040,9209,27),(9210,9659,28),(9660,9769,29),(9770,9869,30),(9870,9919,31),(9920,10359,32),(36000,36199,33),(36200,36349,34),(36350,36949,35),(36950,37549,36),(37550,37749,37),(37750,38249,38),(38250,38649,39),(38650,39649,40),(39650,41589,41),(41590,43589,42),(43590,45589,43),(45590,46589,44),(46590,46789,45),(46790,54539,46),(54540,55239,47),(55240,56739,48),(65536,66435,65),(66436,67335,66),(67336,67535,67),(67536,67835,68),(67836,68335,69),(68336,68585,70),(68586,68935,71),(68936,68985,72),(68986,69035,73),(69036,69465,74),(69466,70315,75),(70316,70365,76),(70366,70545,85),(70546,70595,87),(70596,70645,88)];
    assert(ranges@ =~= earfcn_ranges());
    let mut i: usize = 0;
    while i < 61
        invariant
            i <= 61,
            ranges@ == earfcn_ranges(),
            spec_lte_band_from_earfcn(earfcn) == band_of_range_from(earfcn_ranges(), earfcn, i as int),
        decreases 61 - i,
    {
        let (start, end, band) = ranges[i];
        if earfcn >= start && earfcn <= end {
            return Some(band);
        }
        i += 1;
    }
    None
}

/// The LTE operating band of a downlink EARFCN, as 3GPP TS 36.101 table
/// 5.7.3-1 assigns them (N_DL ranges per band); EARFCNs between the listed
/// ranges, and beyond band 88, belong to no band.
pub proof fn law_earfcn_bands(e: u32)
    ensures
        0 <= e <= 599 ==> spec_lte_band_from_earfcn(e) == Some(1u32),
        600 <= e <= 1199 ==> spec_lte_band_from_earfcn(e) == Some(2u32),
        1200 <= e <= 1949 ==> spec_lte_band_from_earfcn(e) == Some(3u32),
        1950 <= e <= 2399 ==> spec_lte_band_from_earfcn(e) == Some(4u32),
        2400 <= e <= 2649 ==> spec_lte_band_from_earfcn(e) == Some(5u32),
        2650 <= e <= 2749 ==> spec_lte_band_from_earfcn(e) == Some(6u32),
        2750 <= e <= 3449 ==> spec_lte_band_from_earfcn(e) == Some(7u32),
        3450 <= e <= 3799 ==> spec_lte_band_from_earfcn(e) == Some(8u32),
        3800 <= e <= 4149 ==> spec_lte_band_from_earfcn(e) == Some(9u32),
        4150 <= e <= 4749 ==> spec_lte_band_from_earfcn(e) == Some(10u32),
        4750 <= e <= 4949 ==> spec_lte_band_from_earfcn(e) == Some(11u32),
        5010 <= e <= 5179 ==> spec_lte_band_from_earfcn(e) == Some(12u32),
        5180 <= e <= 5279 ==> spec_lte_band_from_earfcn(e) == Some(13u32),
        5280 <= e <= 5379 ==> spec_lte_band_from_earfcn(e) == Some(14u32),
        5730 <= e <= 5849 ==> spec_lte_band_from_earfcn(e) == Some(17u32),
        5850 <= e <= 5999 ==> spec_lte_band_from_earfcn(e) == Some(18u32),
        6000 <= e <= 6149 ==> spec_lte_band_from_earfcn(e) == Some(19u32),
        6150 <= e <= 6449 ==> spec_lte_band_from_earfcn(e) == Some(20u32),
        6450 <= e <= 6599 ==> spec_lte_band_from_earfcn(e) == Some(21u32),
        6600 <= e <= 7399 ==> spec_lte_band_from_earfcn(e) == Some(22u32),
        7500 <= e <= 7699 ==> spec_lte_band_from_earfcn(e) == Some(23u32),
        7700 <= e <= 8039 ==> spec_lte_band_from_earfcn(e) == Some(24u32),
        8040 <= e <= 8689 ==> spec_lte_band_from_earfcn(e) == Some(25u32),
        8690 <= e <= 9039 ==> spec_lte_band_from_earfcn(e) == Some(26u32),
        9040 <= e <= 9209 ==> spec_lte_band_from_earfcn(e) == Some(27u32),
        9210 <= e <= 9659 ==> spec_lte_band_from_earfcn(e) == Some(28u32),
        9660 <= e <= 9769 ==> spec_lte_band_from_earfcn(e) == Some(29u32),
        9770 <= e <= 9869 ==> spec_lte_band_from_earfcn(e) == Some(30u32),
        9870 <= e <= 9919 ==> spec_lte_band_from_earfcn(e) == Some(31u32),
        9920 <= e <= 10359 ==> spec_lte_band_from_earfcn(e) == Some(32u32),
        36000 <= e <= 36199 ==> spec_lte_band_from_earfcn(e) == Some(33u32),
        36200 <= e <= 36349 ==> spec_lte_band_from_earfcn(e) == Some(34u32),
        36350 <= e <= 36949 ==> spec_lte_band_from_earfcn(e) == Some(35u32),
        36950 <= e <= 37549 ==> spec_lte_band_from_earfcn(e) == Some(36u32),
        37550 <= e <= 37749 ==> spec_lte_band_from_earfcn(e) == Some(37u32),
        37750 <= e <= 38249 ==> spec_lte_band_from_earfcn(e) == Some(38u32),
        38250 <= e <= 38649 ==> spec_lte_band_from_earfcn(e) == Some(39u32),
        38650 <= e <= 39649 ==> spec_lte_band_from_earfcn(e) == Some(40u32),
        39650 <= e <= 41589 ==> spec_lte_band_from_earfcn(e) == Some(41u32),
        41590 <= e <= 43589 ==> spec_lte_band_from_earfcn(e) == Some(42u32),
        43590 <= e <= 45589 ==> spec_lte_band_from_earfcn(e) == Some(43u32),
        45590 <= e <= 46589 ==> spec_lte_band_from_earfcn(e) == Some(44u32),
        46590 <= e <= 46789 ==> spec_lte_band_from_earfcn(e) == Some(45u32),
        46790 <= e <= 54539 ==> spec_lte_band_from_earfcn(e) == Some(46u32),
        54540 <= e <= 55239 ==> spec_lte_band_from_earfcn(e) == Some(47u32),
        55240 <= e <= 56739 ==> spec_lte_band_from_earfcn(e) == Some(48u32),
        65536 <= e <= 66435 ==> spec_lte_band_from_earfcn(e) == Some(65u32),
        66436 <= e <= 67335 ==> spec_lte_band_from_earfcn(e) == Some(66u32),
        67336 <= e <= 67535 ==> spec_lte_band_from_earfcn(e) == Some(67u32),
        67536 <= e <= 67835 ==> spec_lte_band_from_earfcn(e) == Some(68u32),
        67836 <= e <= 68335 ==> spec_lte_band_from_earfcn(e) == Some(69u32),
        68336 <= e <= 68585 ==> spec_lte_band_from_earfcn(e) == Some(70u32),
        68586 <= e <= 68935 ==> spec_lte_band_from_earfcn(e) == Some(71u32),
        68936 <= e <= 68985 ==> spec_lte_band_from_earfcn(e) == Some(72u32),
        68986 <= e <= 69035 ==> spec_lte_band_from_earfcn(e) == Some(73u32),
        69036 <= e <= 69465 ==> spec_lte_band_from_earfcn(e) == Some(74u32),
        69466 <= e <= 70315 ==> spec_lte_band_from_earfcn(e) == Some(75u32),
        70316 <= e <= 70365 ==> spec_lte_band_from_earfcn(e) == Some(76u32),
        70366 <= e <= 70545 ==> spec_lte_band_from_earfcn(e) == Some(85u32),
        70546 <= e <= 70595 ==> spec_lte_band_from_earfcn(e) == Some(87u32),
        70596 <= e <= 70645 ==> spec_lte_band_from_earfcn(e) == Some(88u32),
        4950 <= e <= 5009 ==> spec_lte_band_from_earfcn(e) is None,
        5380 <= e <= 5729 ==> spec_lte_band_from_earfcn(e) is None,
        7400 <= e <= 7499 ==> spec_lte_band_from_earfcn(e) is None,
        10360 <= e <= 35999 ==> spec_lte_band_from_earfcn(e) is None,
        56740 <= e <= 65535 ==> spec_lte_band_from_earfcn(e) is None,
        e > 70645 ==> spec_lte_band_from_earfcn(e) is None,
{
    reveal_with_fuel(band_of_range_from, 62);
}

/// LTE bands 33 to 53 are TDD.
pub open spec fn spec_is_lte_tdd_band(band: u32) -> bool {
    33 <= band && band <= 53
}

pub fn is_lte_tdd_band(band: u32) -> (r: bool)
    ensures
        r == spec_is_lte_tdd_band(band),
{
    33 <= band && band <= 53
}

/// The LTE band number of a ModemManager `MMModemBand` value.
pub open spec fn spec_lte_band_number(value: u32) -> Option<u32> {
    if (31 <= value <= 44) || (47 <= value <= 101) {
        Some((value - 30) as u32)
    } else if value == 115 {
        Some(85)
    } else if 1031 <= value <= 1199 {
        Some((value - 1030) as u32)
    } else {
        None
    }
}

pub fn lte_band_number_from_mm_enum(value: u32) -> (r: Option<u32>)
    ensures
        r == spec_lte_band_number(value),
{
    if (31 <= value && value <= 44) || (47 <= value && value <= 101) {
        Some(value - 30)
    } else if value == 115 {
        Some(85)
    } else if 1031 <= value && value <= 1199 {
        Some(value - 1030)
    } else {
        None
    }
}

pub fn is_lte_mm_band(value: u32) -> (r: bool)
    ensures
        r == spec_lte_band_number(value) is Some,
{
    lte_band_number_from_mm_enum(value).is_some()
}

pub fn is_lte_tdd_mm_band(value: u32) -> (r: bool)
    ensures
        r == (spec_lte_band_number(value) matches Some(b) && spec_is_lte_tdd_band(b)),
{
    match lte_band_number_from_mm_enum(value) {
        Some(b) => is_lte_tdd_band(b),
        None => false,
    }
}

/// Human-readable name of a ModemManager `MMModemBand` value.
pub open spec fn spec_band_label(value: u32) -> Seq<char> {
    if value == 0 { "Unknown"@ }
    else if value == 1 { "GSM 900"@ }
    else if value == 2 { "GSM 1800"@ }
    else if value == 3 { "GSM 1900"@ }
    else if value == 4 { "GSM 850"@ }
    else if value == 5 { "3G B1"@ }
    else if value == 6 { "3G B3"@ }
    else if value == 7 { "3G B4"@ }
    else if value == 8 { "3G B6"@ }
    else if value == 9 { "3G B5"@ }
    else if value == 10 { "3G B8"@ }
    else if value == 11 { "3G B9"@ }
    else if value == 12 { "3G B2"@ }
    else if value == 13 { "3G B7"@ }
    else if (31 <= value <= 44) || (47 <= value <= 101) { "LTE B"@ + dec((value - 30) as nat) }
    else if value == 115 { "LTE B85"@ }
    else if (210 <= value <= 214) || (219 <= value <= 222) || (225 <= value <= 226) || value == 232 {
        "3G B"@ + dec((value - 200) as nat)
    }
    else if value == 256 { "Auto / any band"@ }
    else if (301 <= value <= 395) || (557 <= value <= 561) { "5G n"@ + dec((value - 300) as nat) }
    else if value >= 1031 { "LTE B"@ + dec((value - 1030) as nat) }
    else { "Band enum #"@ + dec(value as nat) }
}

/// `prefix` followed by the decimal form of `n`, as a `String`.
pub fn prefixed_number(prefix: &str, n: u64) -> (r: String)
    ensures
        r@ == prefix@ + dec(n as nat),
{
    let mut v = chars_of(prefix);
    let d = dec_exec(n);
    push_all(&mut v, d.as_slice());
    string_from(v.as_slice())
}

pub fn band_label(value: u32) -> (r: String)
    ensures
        r@ == spec_band_label(value),
{
    if value == 0 { String::from_str("Unknown") }
    else if value == 1 { String::from_str("GSM 900") }
    else if value == 2 { String::from_str("GSM 1800") }
    else if value == 3 { String::from_str("GSM 1900") }
    else if value == 4 { String::from_str("GSM 850") }
    else if value == 5 { String::from_str("3G B1") }
    else if value == 6 { String::from_str("3G B3") }
    else if value == 7 { String::from_str("3G B4") }
    else if value == 8 { String::from_str("3G B6") }
    else if value == 9 { String::from_str("3G B5") }
    else if value == 10 { String::from_str("3G B8") }
    else if value == 11 { String::from_str("3G B9") }
    else if value == 12 { String::from_str("3G B2") }
    else if value == 13 { String::from_str("3G B7") }
    else if (31 <= value && value <= 44) || (47 <= value && value <= 101) { prefixed_number("LTE B", (value - 30) as u64) }
    else if value == 115 { String::from_str("LTE B85") }
    else if (210 <= value && value <= 214) || (219 <= value && value <= 222) || (225 <= value && value <= 226) || value == 232 {
        prefixed_number("3G B", (value - 200) as u64)
    }
    else if value == 256 { String::from_str("Auto / any band") }
    else if (301 <= value && value <= 395) || (557 <= value && value <= 561) { prefixed_number("5G n", (value - 300) as u64) }
    else if value >= 1031 { prefixed_number("LTE B", (value - 1030) as u64) }
    else { prefixed_number("Band enum #", value as u64) }
}

/// Every LTE band enum is labelled "LTE B" and the band number that
/// `lte_band_number_from_mm_enum` gives for it.
pub proof fn law_lte_band_label(value: u32)
    requires
        spec_lte_band_number(value) is Some,
    ensures
        spec_band_label(value) == "LTE B"@ + dec(spec_lte_band_number(value).unwrap() as nat),
{
    if value == 115 {
        reveal_strlit("LTE B85");
        reveal_strlit("LTE B");
        assert(dec(85) =~= seq!['8', '5']) by {
            assert(dec(8) == seq![digit_char(8)]);
        }
        assert("LTE B85"@ =~= "LTE B"@ + dec(85));
    }
}

} // verus!

verus! {

/// Everything ModemDeck knows about one modem.
#[derive(Debug, Clone)]
pub struct ModemInfo {
    pub object_path: String,
    pub manufacturer: String,
    pub model: String,
    pub revision: String,
    pub equipment_id: String,
    pub device_uid: String,
    pub plugin: String,
    pub primary_port: String,
    pub at_ports: Vec<String>,
    pub net_ports: Vec<String>,
    pub sim_path: String,
    pub unlock_required: u32,
    pub primary_sim_slot: u32,
    pub operator_name: String,
    pub operator_code: String,
    pub state: i32,
    pub current_capabilities: u32,
    pub access_technologies: u32,
    pub signal_percent: u32,
    pub signal_recent: bool,
    pub supported_bands: Vec<u32>,
    pub current_bands: Vec<u32>,
    pub lte_signal: RadioSignal,
    pub nr5g_signal: RadioSignal,
    pub serving_cells: Vec<ServingCellInfo>,
    pub cell_info_error: String,
    pub cell_info_source: String,
    pub vendor: VendorInfo,
    pub band_change: BandChangeState,
}

pub open spec fn spec_display_name(manufacturer: Seq<char>, model: Seq<char>) -> Seq<char> {
    let m = text::trim(manufacturer);
    let d = text::trim(model);
    if m.len() == 0 && d.len() == 0 {
        "Unknown modem"@
    } else if m.len() == 0 {
        d
    } else if d.len() == 0 {
        m
    } else {
        m + " "@ + d
    }
}

pub open spec fn spec_sim_lock_label(u: u32) -> Seq<char> {
    if u == 0 { "Unknown"@ }
    else if u == 1 { "Unlocked"@ }
    else if u == 2 { "SIM PIN required"@ }
    else if u == 3 { "SIM PIN2 required"@ }
    else if u == 4 { "SIM PUK required"@ }
    else if u == 5 { "SIM PUK2 required"@ }
    else if u == 6 { "Network PIN required"@ }
    else if u == 7 { "Network subset PIN required"@ }
    else if u == 8 { "Service provider PIN required"@ }
    else if u == 9 { "Corporate PIN required"@ }
    else { "SIM/network lock required"@ }
}

pub open spec fn spec_state_label(s: i32) -> Seq<char> {
    if s == -1 { "Failed"@ }
    else if s == 0 { "Unknown"@ }
    else if s == 1 { "Initializing"@ }
    else if s == 2 { "Locked"@ }
    else if s == 3 { "Disabled"@ }
    else if s == 4 { "Disabling"@ }
    else if s == 5 { "Enabling"@ }
    else if s == 6 { "Enabled"@ }
    else if s == 7 { "Searching"@ }
    else if s == 8 { "Registered"@ }
    else if s == 9 { "Disconnecting"@ }
    else if s == 10 { "Connecting"@ }
    else if s == 11 { "Connected"@ }
    else { "Unknown"@ }
}

/// Some serving cell is a secondary cell (`MM_CELL_SERVING_TYPE` 2 or 4).
pub open spec fn has_secondary_cell(cells: Seq<ServingCellInfo>) -> bool {
    exists|i: int| 0 <= i < cells.len() && (#[trigger] cells[i].serving_cell_type == Some(2u32) || cells[i].serving_cell_type == Some(4u32))
}

pub open spec fn spec_ca_active(m: ModemInfo) -> bool {
    m.vendor.ca_active == Some(true) || has_secondary_cell(m.serving_cells@)
}

/// The network generation shown for a set of `MMModemAccessTechnology` bits.
pub open spec fn spec_network_label(access: u32, ca_active: bool) -> Seq<char> {
    if access & 0x8000 != 0 { "5G"@ }
    else if access & 0x4000 != 0 { if ca_active { "4G+"@ } else { "4G"@ } }
    else if access & 0x300 != 0 { "3G+"@ }
    else if access & 0x20 != 0 { "3G"@ }
    else if access & 0x10 != 0 { "2G E"@ }
    else if access & 0xa != 0 { "2G"@ }
    else { "—"@ }
}

/// "B<band>" for every carrier component whose band is known.
pub open spec fn component_bands(cs: Seq<ComponentView>) -> Seq<Seq<char>>
    decreases cs.len(),
{
    if cs.len() == 0 {
        Seq::empty()
    } else {
        let r = component_bands(cs.drop_last());
        match cs.last().band {
            Some(b) => r.push("B"@ + dec(b as nat)),
            None => r,
        }
    }
}

/// The names of the `MMModemCapability` bits that are set, in display order.
pub open spec fn capability_parts(c: u32) -> Seq<Seq<char>> {
    let p0: Seq<Seq<char>> = Seq::empty();
    let p1 = if c & 4 != 0 { p0.push("2G/3G"@) } else { p0 };
    let p2 = if c & 8 != 0 { p1.push("4G LTE"@) } else { p1 };
    let p3 = if c & 64 != 0 { p2.push("5G NR"@) } else { p2 };
    let p4 = if c & 2 != 0 { p3.push("CDMA/EVDO"@) } else { p3 };
    let p5 = if c & 128 != 0 { p4.push("TD-SCDMA"@) } else { p4 };
    let p6 = if c & 32 != 0 { p5.push("Iridium"@) } else { p5 };
    if c & 1 != 0 { p6.push("POTS"@) } else { p6 }
}

pub open spec fn spec_capabilities_label(c: u32) -> Seq<char> {
    if capability_parts(c).len() == 0 {
        "Not reported"@
    } else {
        text::join(capability_parts(c), " • "@)
    }
}

pub open spec fn spec_operator_label(name: Seq<char>, code: Seq<char>) -> Seq<char> {
    if text::trim(name).len() > 0 {
        name
    } else if text::trim(code).len() > 0 {
        code
    } else {
        "No operator"@
    }
}

/// "4G+" is shown only for an LTE connection (and no 5G one) whose carrier
/// aggregation is known to be active.
pub proof fn law_4g_plus_needs_aggregation(access: u32, ca_active: bool)
    ensures
        spec_network_label(access, ca_active) == "4G+"@ ==> ca_active && access & 0x4000 != 0
            && access & 0x8000 == 0,
{
    reveal_strlit("4G+");
    reveal_strlit("5G");
    reveal_strlit("4G");
    reveal_strlit("3G+");
    reveal_strlit("3G");
    reveal_strlit("2G E");
    reveal_strlit("2G");
    reveal_strlit("—");
    if spec_network_label(access, ca_active) == "4G+"@ {
        assert("4G+"@[0] == '4');
        assert("3G+"@[0] == '3');
        assert("4G+"@.len() == 3);
    }
}

/// The generation shown for a set of ModemManager access-technology bits
/// (`MMModemAccessTechnology`: GSM 1<<1, GPRS 1<<3, EDGE 1<<4, UMTS 1<<5,
/// HSPA 1<<8, HSPA+ 1<<9, LTE 1<<14, 5G NR 1<<15): the most advanced
/// technology present decides, and LTE shows as "4G+" exactly when carrier
/// aggregation is active.
pub proof fn law_network_generation(a: u32, ca: bool)
    ensures
        (spec_network_label(a, ca) == "5G"@) <==> a & (1u32 << 15) != 0,
        (spec_network_label(a, ca) == "4G+"@) <==> (a & (1u32 << 15) == 0 && a & (1u32 << 14) != 0 && ca),
        (spec_network_label(a, ca) == "4G"@) <==> (a & (1u32 << 15) == 0 && a & (1u32 << 14) != 0 && !ca),
        (spec_network_label(a, ca) == "3G+"@) <==> (a & (1u32 << 15) == 0 && a & (1u32 << 14) == 0
            && (a & (1u32 << 8) != 0 || a & (1u32 << 9) != 0)),
        (spec_network_label(a, ca) == "3G"@) <==> (a & (1u32 << 15) == 0 && a & (1u32 << 14) == 0
            && a & (1u32 << 8) == 0 && a & (1u32 << 9) == 0 && a & (1u32 << 5) != 0),
        (spec_network_label(a, ca) == "2G E"@) <==> (a & (1u32 << 15) == 0 && a & (1u32 << 14) == 0
            && a & (1u32 << 8) == 0 && a & (1u32 << 9) == 0 && a & (1u32 << 5) == 0 && a & (1u32 << 4) != 0),
        (spec_network_label(a, ca) == "2G"@) <==> (a & (1u32 << 15) == 0 && a & (1u32 << 14) == 0
            && a & (1u32 << 8) == 0 && a & (1u32 << 9) == 0 && a & (1u32 << 5) == 0 && a & (1u32 << 4) == 0
            && (a & (1u32 << 3) != 0 || a & (1u32 << 1) != 0)),
{
    assert((a & 0x8000 != 0) == (a & (1u32 << 15) != 0)) by (bit_vector);
    assert((a & 0x4000 != 0) == (a & (1u32 << 14) != 0)) by (bit_vector);
    assert((a & 0x300 != 0) == (a & (1u32 << 8) != 0 || a & (1u32 << 9) != 0)) by (bit_vector);
    assert((a & 0x20 != 0) == (a & (1u32 << 5) != 0)) by (bit_vector);
    assert((a & 0x10 != 0) == (a & (1u32 << 4) != 0)) by (bit_vector);
    assert((a & 0xa != 0) == (a & (1u32 << 3) != 0 || a & (1u32 << 1) != 0)) by (bit_vector);
    reveal_strlit("5G");
    reveal_strlit("4G+");
    reveal_strlit("4G");
    reveal_strlit("3G+");
    reveal_strlit("3G");
    reveal_strlit("2G E");
    reveal_strlit("2G");
    reveal_strlit("—");
    assert("5G"@.len() == 2 && "5G"@[0] == '5');
    assert("4G+"@.len() == 3 && "4G+"@[0] == '4');
    assert("4G"@.len() == 2 && "4G"@[0] == '4');
    assert("3G+"@.len() == 3 && "3G+"@[0] == '3');
    assert("3G"@.len() == 2 && "3G"@[0] == '3');
    assert("2G E"@.len() == 4 && "2G E"@[0] == '2');
    assert("2G"@.len() == 2 && "2G"@[0] == '2');
    assert("—"@.len() == 1 && "—"@[0] == '—');
    assert("5G"@ != "4G+"@);
    assert("5G"@ != "4G"@);
    assert("5G"@ != "3G+"@);
    assert("5G"@ != "3G"@);
    assert("5G"@ != "2G E"@);
    assert("5G"@ != "2G"@);
    assert("5G"@ != "—"@);
    assert("4G+"@ != "4G"@);
    assert("4G+"@ != "3G+"@);
    assert("4G+"@ != "3G"@);
    assert("4G+"@ != "2G E"@);
    assert("4G+"@ != "2G"@);
    assert("4G+"@ != "—"@);
    assert("4G"@ != "3G+"@);
    assert("4G"@ != "3G"@);
    assert("4G"@ != "2G E"@);
    assert("4G"@ != "2G"@);
    assert("4G"@ != "—"@);
    assert("3G+"@ != "3G"@);
    assert("3G+"@ != "2G E"@);
    assert("3G+"@ != "2G"@);
    assert("3G+"@ != "—"@);
    assert("3G"@ != "2G E"@);
    assert("3G"@ != "2G"@);
    assert("3G"@ != "—"@);
    assert("2G E"@ != "2G"@);
    assert("2G E"@ != "—"@);
    assert("2G"@ != "—"@);
}

fn lit_chars(s: &str) -> (v: Vec<char>)
    ensures
        v@ == s@,
{
    chars_of(s)
}

impl ModemInfo {
    pub fn display_name(&self) -> (r: String)
        ensures
            r@ == spec_display_name(self.manufacturer@, self.model@),
    {
        let mv = chars_of(self.manufacturer.as_str());
        let dv = chars_of(self.model.as_str());
        let m = text::trim_exec(mv.as_slice());
        let d = text::trim_exec(dv.as_slice());
        if m.len() == 0 && d.len() == 0 {
            String::from_str("Unknown modem")
        } else if m.len() == 0 {
            string_from(d.as_slice())
        } else if d.len() == 0 {
            string_from(m.as_slice())
        } else {
            let mut v = m;
            text::push_str(&mut v, " ");
            push_all(&mut v, d.as_slice());
            string_from(v.as_slice())
        }
    }

    pub fn sim_lock_label(&self) -> (r: &'static str)
        ensures
            r@ == spec_sim_lock_label(self.unlock_required),
    {
        match self.unlock_required {
            0 => "Unknown",
            1 => "Unlocked",
            2 => "SIM PIN required",
            3 => "SIM PIN2 required",
            4 => "SIM PUK required",
            5 => "SIM PUK2 required",
            6 => "Network PIN required",
            7 => "Network subset PIN required",
            8 => "Service provider PIN required",
            9 => "Corporate PIN required",
            _ => "SIM/network lock required",
        }
    }

    pub fn state_label(&self) -> (r: &'static str)
        ensures
            r@ == spec_state_label(self.state),
    {
        match self.state {
            -1 => "Failed",
            0 => "Unknown",
            1 => "Initializing",
            2 => "Locked",
            3 => "Disabled",
            4 => "Disabling",
            5 => "Enabling",
            6 => "Enabled",
            7 => "Searching",
            8 => "Registered",
            9 => "Disconnecting",
            10 => "Connecting",
            11 => "Connected",
            _ => "Unknown",
        }
    }

    pub fn carrier_aggregation_active(&self) -> (r: bool)
        ensures
            r == spec_ca_active(*self),
    {
        if self.vendor.ca_active == Some(true) {
            return true;
        }
        let mut i: usize = 0;
        while i < self.serving_cells.len()
            invariant
                i <= self.serving_cells.len(),
                forall|k: int| 0 <= k < i ==> !(#[trigger] self.serving_cells@[k].serving_cell_type == Some(2u32)
                    || self.serving_cells@[k].serving_cell_type == Some(4u32)),
            decreases self.serving_cells.len() - i,
        {
            let t = self.serving_cells[i].serving_cell_type;
            if t == Some(2u32) || t == Some(4u32) {
                return true;
            }
            i += 1;
        }
        false
    }

    pub fn network_label(&self) -> (r: String)
        ensures
            r@ == spec_network_label(self.access_technologies, spec_ca_active(*self)),
    {
        let a = self.access_technologies;
        if a & 0x8000 != 0 {
            String::from_str("5G")
        } else if a & 0x4000 != 0 {
            if self.carrier_aggregation_active() {
                String::from_str("4G+")
            } else {
                String::from_str("4G")
            }
        } else if a & 0x300 != 0 {
            String::from_str("3G+")
        } else if a & 0x20 != 0 {
            String::from_str("3G")
        } else if a & 0x10 != 0 {
            String::from_str("2G E")
        } else if a & 0xa != 0 {
            String::from_str("2G")
        } else {
            String::from_str("—")
        }
    }

    pub fn carrier_aggregation_count(&self) -> (r: usize)
        ensures
            r == if self.vendor.ca_components@.len() > 0 {
                self.vendor.ca_components@.len()
            } else if spec_ca_active(*self) {
                2
            } else {
                1
            },
    {
        if self.vendor.ca_components.len() > 0 {
            self.vendor.ca_components.len()
        } else if self.carrier_aggregation_active() {
            2
        } else {
            1
        }
    }

    pub fn ca_layout_label(&self) -> (r: String)
        ensures
            r@ == if self.vendor.ca_components@.len() == 0 {
                if spec_ca_active(*self) { "CA active"@ } else { "—"@ }
            } else {
                text::join(component_bands(components_view(self.vendor.ca_components@)), " + "@)
            },
    {
        if self.vendor.ca_components.len() == 0 {
            return if self.carrier_aggregation_active() {
                String::from_str("CA active")
            } else {
                String::from_str("—")
            };
        }
        let cs = &self.vendor.ca_components;
        let ghost cv = components_view(cs@);
        let mut parts: Vec<Vec<char>> = Vec::new();
        let mut i: usize = 0;
        assert(cv.take(0) =~= Seq::<ComponentView>::empty());
        assert(text::views(parts@) =~= Seq::<Seq<char>>::empty());
        while i < cs.len()
            invariant
                i <= cs.len(),
                cv == components_view(cs@),
                text::views(parts@) == component_bands(cv.take(i as int)),
            decreases cs.len() - i,
        {
            assert(cv.take(i + 1).drop_last() =~= cv.take(i as int));
            assert(cv[i as int] == cs@[i as int]@);
            if let Some(band) = cs[i].band {
                let mut v = lit_chars("B");
                let d = dec_exec(band as u64);
                push_all(&mut v, d.as_slice());
                let ghost before = text::views(parts@);
                parts.push(v);
                assert(text::views(parts@) =~= before.push(v@));
            }
            i += 1;
        }
        assert(cv.take(i as int) =~= cv);
        let j = text::join_exec(&parts, " + ");
        string_from(j.as_slice())
    }

    pub fn capabilities_label(&self) -> (r: String)
        ensures
            r@ == spec_capabilities_label(self.current_capabilities),
    {
        let c = self.current_capabilities;
        let mut parts: Vec<Vec<char>> = Vec::new();
        assert(text::views(parts@) =~= Seq::<Seq<char>>::empty());
        let ghost p0 = text::views(parts@);
        if c & 4 != 0 { parts.push(lit_chars("2G/3G")); }
        let ghost p1 = if c & 4 != 0 { p0.push("2G/3G"@) } else { p0 };
        assert(text::views(parts@) =~= p1);
        if c & 8 != 0 { parts.push(lit_chars("4G LTE")); }
        let ghost p2 = if c & 8 != 0 { p1.push("4G LTE"@) } else { p1 };
        assert(text::views(parts@) =~= p2);
        if c & 64 != 0 { parts.push(lit_chars("5G NR")); }
        let ghost p3 = if c & 64 != 0 { p2.push("5G NR"@) } else { p2 };
        assert(text::views(parts@) =~= p3);
        if c & 2 != 0 { parts.push(lit_chars("CDMA/EVDO")); }
        let ghost p4 = if c & 2 != 0 { p3.push("CDMA/EVDO"@) } else { p3 };
        assert(text::views(parts@) =~= p4);
        if c & 128 != 0 { parts.push(lit_chars("TD-SCDMA")); }
        let ghost p5 = if c & 128 != 0 { p4.push("TD-SCDMA"@) } else { p4 };
        assert(text::views(parts@) =~= p5);
        if c & 32 != 0 { parts.push(lit_chars("Iridium")); }
        let ghost p6 = if c & 32 != 0 { p5.push("Iridium"@) } else { p5 };
        assert(text::views(parts@) =~= p6);
        if c & 1 != 0 { parts.push(lit_chars("POTS")); }
        assert(text::views(parts@) =~= capability_parts(c));
        if parts.len() == 0 {
            String::from_str("Not reported")
        } else {
            let j = text::join_exec(&parts, " • ");
            string_from(j.as_slice())
        }
    }

    pub fn operator_label(&self) -> (r: String)
        ensures
            r@ == spec_operator_label(self.operator_name@, self.operator_code@),
    {
        let n = chars_of(self.operator_name.as_str());
        let nt = text::trim_exec(n.as_slice());
        if nt.len() > 0 {
            return self.operator_name.clone();
        }
        let c = chars_of(self.operator_code.as_str());
        let ct = text::trim_exec(c.as_slice());
        if ct.len() > 0 {
            self.operator_code.clone()
        } else {
            String::from_str("No operator")
        }
    }

    /// The 5G NR signal when any of its values is known, else the LTE signal.
    pub fn preferred_signal(&self) -> (r: (&'static str, &RadioSignal))
        ensures
            ({
                let nr = self.nr5g_signal;
                let nr_known = nr.rssi is Some || nr.rsrp is Some || nr.rsrq is Some || nr.snr is Some;
                if nr_known {
                    r.0@ == "5G NR"@ && *r.1 == self.nr5g_signal
                } else {
                    r.0@ == "LTE"@ && *r.1 == self.lte_signal
                }
            }),
    {
        if self.nr5g_signal.has_any() {
            ("5G NR", &self.nr5g_signal)
        } else {
            ("LTE", &self.lte_signal)
        }
    }
}

} // verus!

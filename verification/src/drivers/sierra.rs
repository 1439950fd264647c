//! Sierra Wireless / AirPrime: `AT!GSTATUS?`, `AT!LTEINFO?` and `AT!NRINFO?` answers.
use vstd::prelude::*;

use crate::drivers::{pairs_view, response_or_empty, response_or_empty_exec};
use crate::model::{components_view, ComponentView, VendorInfo, VendorView};
use crate::text;

verus! {

/// The text after `needle` in `line`, found without regard to ASCII case.
pub open spec fn spec_split_value(line: Seq<char>, needle: Seq<char>) -> Option<Seq<char>> {
    match text::find(text::lower(line), text::lower(needle)) {
        Some(p) => Some(line.skip(p + needle.len())),
        None => None,
    }
}

pub struct StatusFields {
    pub band: Option<u32>,
    pub earfcn: Option<u32>,
    pub pci: Option<u32>,
    pub bandwidth: Seq<char>,
}

/// One `AT!GSTATUS?` line: band and channel take the last value found, PCI
/// and bandwidth the first.
pub open spec fn status_step(st: StatusFields, raw: Seq<char>) -> StatusFields {
    let line = text::trim(raw);
    let lower = text::lower(line);
    let band = if text::contains(lower, "lte band:"@) {
        match spec_split_value(line, "LTE band:"@) {
            Some(a) => text::first_number(a),
            None => st.band,
        }
    } else {
        st.band
    };
    let earfcn = if text::contains(lower, "lte rx chan:"@) {
        match spec_split_value(line, "LTE Rx chan:"@) {
            Some(a) => text::first_number(a),
            None => st.earfcn,
        }
    } else {
        st.earfcn
    };
    let pci = if text::contains(lower, "pci:"@) && st.pci is None {
        match spec_split_value(line, "PCI:"@) {
            Some(a) => text::first_number(a),
            None => st.pci,
        }
    } else {
        st.pci
    };
    let bandwidth = if text::contains(lower, "lte bw:"@) && st.bandwidth.len() == 0 {
        match spec_split_value(line, "LTE bw:"@) {
            Some(a) => text::trim(a),
            None => st.bandwidth,
        }
    } else {
        st.bandwidth
    };
    StatusFields { band, earfcn, pci, bandwidth }
}

pub open spec fn status_fields(ls: Seq<Seq<char>>) -> StatusFields
    decreases ls.len(),
{
    if ls.len() == 0 {
        StatusFields { band: None, earfcn: None, pci: None, bandwidth: Seq::empty() }
    } else {
        status_step(status_fields(ls.drop_last()), ls.last())
    }
}

/// Trimmed status lines about the CA state or a secondary cell.
pub open spec fn ca_lines(ls: Seq<Seq<char>>) -> Seq<Seq<char>>
    decreases ls.len(),
{
    if ls.len() == 0 {
        Seq::empty()
    } else {
        let r = ca_lines(ls.drop_last());
        let t = text::trim(ls.last());
        let l = text::lower(t);
        if text::contains(l, "ca state"@) || text::contains(l, "scell"@) { r.push(t) } else { r }
    }
}

pub open spec fn spec_parse_parts(status: Seq<char>, lte: Seq<char>, nr: Seq<char>) -> VendorView {
    let f = status_fields(text::lines(status));
    let combined = text::lower(status + "\n"@ + lte + "\n"@ + nr);
    VendorView {
        driver_name: "Sierra Wireless / AirPrime"@,
        read_source: Seq::empty(),
        deep_read_available: true,
        serving_band: f.band,
        earfcn: f.earfcn,
        pci: f.pci,
        bandwidth: f.bandwidth,
        ca_active: if text::contains(combined, "scell"@) && !text::contains(combined, "scell band: --"@) {
            Some(true)
        } else if text::contains(combined, "lte ca state"@) || text::contains(combined, "scell"@) {
            Some(false)
        } else {
            None
        },
        ca_components: Seq::empty(),
        ca_summary: text::join(ca_lines(text::lines(status)), "\n"@),
        raw_debug: text::trim(status),
        raw_ca: if text::trim(nr).len() == 0 { text::trim(lte) } else { text::trim(lte) + "\n"@ + text::trim(nr) },
        error: Seq::empty(),
    }
}

pub open spec fn spec_parse(rs: Seq<(Seq<char>, Seq<char>)>) -> VendorView {
    spec_parse_parts(
        response_or_empty(rs, "AT!GSTATUS?"@),
        response_or_empty(rs, "AT!LTEINFO?"@),
        response_or_empty(rs, "AT!NRINFO?"@),
    )
}

pub fn split_value(line: &[char], needle: &str) -> (r: Option<Vec<char>>)
    ensures
        r matches Some(v) ==> spec_split_value(line@, needle@) == Some(v@),
        r is None ==> spec_split_value(line@, needle@) is None,
{
    let l = text::to_lower(line);
    let nv = text::chars_of(needle);
    let nl = text::to_lower(nv.as_slice());
    match text::find_exec(l.as_slice(), nl.as_slice()) {
        Some(p) => {
            let r = text::slice(line, p + nv.len(), line.len());
            assert(r@ =~= line@.skip(p + needle@.len()));
            Some(r)
        },
        None => None,
    }
}

pub fn first_number(value: &[char]) -> (r: Option<u32>)
    ensures
        r == text::first_number(value@),
{
    text::first_number_exec(value)
}

pub fn parse(responses: &[(String, String)]) -> (info: VendorInfo)
    ensures
        info@ == spec_parse(pairs_view(responses@)),
{
    let status = response_or_empty_exec(responses, "AT!GSTATUS?");
    let lte = response_or_empty_exec(responses, "AT!LTEINFO?");
    let nr = response_or_empty_exec(responses, "AT!NRINFO?");
    parse_parts(status.as_slice(), lte.as_slice(), nr.as_slice())
}

fn parse_parts(status: &[char], lte: &[char], nr: &[char]) -> (info: VendorInfo)
    ensures
        info@ == spec_parse_parts(status@, lte@, nr@),
{
    let ls = text::lines_exec(status);
    let ghost lv = text::views(ls@);
    let mut band: Option<u32> = None;
    let mut earfcn: Option<u32> = None;
    let mut pci: Option<u32> = None;
    let mut bandwidth: Vec<char> = Vec::new();
    let mut summary_lines: Vec<Vec<char>> = Vec::new();
    let mut i: usize = 0;
    assert(lv.take(0) =~= Seq::<Seq<char>>::empty());
    assert(text::views(summary_lines@) =~= Seq::<Seq<char>>::empty());
    while i < ls.len()
        invariant
            i <= ls.len(),
            lv == text::views(ls@),
            status_fields(lv.take(i as int)) == (StatusFields { band, earfcn, pci, bandwidth: bandwidth@ }),
            text::views(summary_lines@) == ca_lines(lv.take(i as int)),
        decreases ls.len() - i,
    {
        assert(lv.take(i + 1).drop_last() =~= lv.take(i as int));
        assert(lv[i as int] == ls@[i as int]@);
        let line = text::trim_exec(ls[i].as_slice());
        let lower = text::to_lower(line.as_slice());
        if text::contains_str(lower.as_slice(), "lte band:") {
            if let Some(after) = split_value(line.as_slice(), "LTE band:") {
                band = first_number(after.as_slice());
            }
        }
        if text::contains_str(lower.as_slice(), "lte rx chan:") {
            if let Some(after) = split_value(line.as_slice(), "LTE Rx chan:") {
                earfcn = first_number(after.as_slice());
            }
        }
        if text::contains_str(lower.as_slice(), "pci:") && pci.is_none() {
            if let Some(after) = split_value(line.as_slice(), "PCI:") {
                pci = first_number(after.as_slice());
            }
        }
        if text::contains_str(lower.as_slice(), "lte bw:") && bandwidth.len() == 0 {
            if let Some(after) = split_value(line.as_slice(), "LTE bw:") {
                bandwidth = text::trim_exec(after.as_slice());
            }
        }
        if text::contains_str(lower.as_slice(), "ca state") || text::contains_str(lower.as_slice(), "scell") {
            let ghost before = text::views(summary_lines@);
            summary_lines.push(line);
            assert(text::views(summary_lines@) =~= before.push(line@));
        }
        i += 1;
    }
    assert(lv.take(i as int) =~= lv);

    let mut combined = text::slice_all(status);
    text::push_str(&mut combined, "\n");
    text::push_all(&mut combined, lte);
    text::push_str(&mut combined, "\n");
    text::push_all(&mut combined, nr);
    let combined = text::to_lower(combined.as_slice());
    let cs = combined.as_slice();
    let has_scell = text::contains_str(cs, "scell");
    let ca_active = if has_scell && !text::contains_str(cs, "scell band: --") {
        Some(true)
    } else if text::contains_str(cs, "lte ca state") || has_scell {
        Some(false)
    } else {
        None
    };
    let nr_trim = text::trim_exec(nr);
    let lte_trim = text::trim_exec(lte);
    let raw_ca = if nr_trim.len() == 0 {
        lte_trim
    } else {
        let mut r = lte_trim;
        text::push_str(&mut r, "\n");
        text::push_all(&mut r, nr_trim.as_slice());
        r
    };
    let summary = text::join_exec(&summary_lines, "\n");
    let status_trim = text::trim_exec(status);
    let components = Vec::new();
    let info = VendorInfo {
        driver_name: String::from_str("Sierra Wireless / AirPrime"),
        read_source: String::new(),
        deep_read_available: true,
        serving_band: band,
        earfcn,
        pci,
        bandwidth: text::string_from(bandwidth.as_slice()),
        ca_active,
        ca_components: components,
        ca_summary: text::string_from(summary.as_slice()),
        raw_debug: text::string_from(status_trim.as_slice()),
        raw_ca: text::string_from(raw_ca.as_slice()),
        error: String::new(),
    };
    assert(components_view(info.ca_components@) =~= Seq::<ComponentView>::empty());
    info
}

} // verus!

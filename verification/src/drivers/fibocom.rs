//! Fibocom: primary cell read and `AT+GTCAINFO?` answers.
use vstd::prelude::*;

use crate::drivers::pairs_view;
use crate::model::{components_view, ComponentView, VendorInfo, VendorView};
use crate::text;

verus! {

/// The answer to the first command, or empty.
pub open spec fn first_answer(rs: Seq<(Seq<char>, Seq<char>)>) -> Seq<char> {
    if rs.len() > 0 { rs[0].1 } else { Seq::empty() }
}

/// The answer to the first command (from `i` on) whose uppercased name contains `CAINFO`.
pub open spec fn cainfo_from(rs: Seq<(Seq<char>, Seq<char>)>, i: int) -> Seq<char>
    decreases rs.len() - i,
{
    if i < 0 || i >= rs.len() {
        Seq::empty()
    } else if text::contains(text::upper(rs[i].0), "CAINFO"@) {
        rs[i].1
    } else {
        cainfo_from(rs, i + 1)
    }
}

/// Where the band code of a `PCC:` or `SCC...:` line starts.
pub open spec fn band_code_marker(up: Seq<char>) -> Option<int> {
    match text::find(up, "PCC:"@) {
        Some(p) => Some(p + 4),
        None => match text::find(up, "SCC"@) {
            Some(p) => match text::find_char(up.skip(p), ':') {
                Some(rel) => Some(p + rel + 1),
                None => None,
            },
            None => None,
        },
    }
}

/// The first number after the `PCC:` marker (or after the `:` that follows `SCC`).
pub open spec fn spec_carrier_band_code(line: Seq<char>) -> Option<u32> {
    match band_code_marker(text::upper(line)) {
        Some(m) => text::first_number(line.skip(m)),
        None => None,
    }
}

/// Fibocom's band codes: 100 plus the LTE band number.
pub open spec fn spec_fibocom_band_code(code: u32) -> Option<u32> {
    if code == 101 { Some(1) }
    else if code == 103 { Some(3) }
    else if code == 107 { Some(7) }
    else if code == 120 { Some(20) }
    else if code == 128 { Some(28) }
    else if code == 138 { Some(38) }
    else if code == 140 { Some(40) }
    else if code == 141 { Some(41) }
    else if code == 142 { Some(42) }
    else if code == 143 { Some(43) }
    else { None }
}

/// Fibocom writes an LTE band `b` as the code `100 + b`: every code read
/// names the band 100 below it, and the codes of bands 1, 3, 7, 20, 28, 38,
/// 40, 41, 42 and 43 are read.
pub proof fn law_band_code_offset(code: u32, b: u32)
    ensures
        spec_fibocom_band_code(code) matches Some(x) ==> code == 100 + x,
        (b == 1 || b == 3 || b == 7 || b == 20 || b == 28 || b == 38 || b == 40 || b == 41 || b == 42 || b == 43)
            ==> spec_fibocom_band_code((100 + b) as u32) == Some(b),
{
}

/// Serving band from the first PCC line with a known band code.
pub open spec fn pcc_band(ls: Seq<Seq<char>>) -> Option<u32>
    decreases ls.len(),
{
    if ls.len() == 0 {
        None
    } else {
        let st = pcc_band(ls.drop_last());
        let line = text::trim(ls.last());
        match spec_carrier_band_code(line) {
            Some(code) => if text::contains(text::upper(line), "PCC"@) && st is None {
                spec_fibocom_band_code(code)
            } else {
                st
            },
            None => st,
        }
    }
}

/// Trimmed lines that are not empty, in order.
pub open spec fn nonempty_lines(ls: Seq<Seq<char>>) -> Seq<Seq<char>>
    decreases ls.len(),
{
    if ls.len() == 0 {
        Seq::empty()
    } else {
        let r = nonempty_lines(ls.drop_last());
        let t = text::trim(ls.last());
        if t.len() > 0 { r.push(t) } else { r }
    }
}

pub open spec fn take_at_most(s: Seq<Seq<char>>, n: int) -> Seq<Seq<char>> {
    if s.len() <= n { s } else { s.take(n) }
}

pub open spec fn is_5g_model(model: Seq<char>) -> bool {
    let l = text::lower(model);
    text::contains(l, "fm350"@) || text::contains(l, "fm160"@) || text::contains(l, "dw5931"@)
}

pub open spec fn spec_parse(model: Seq<char>, rs: Seq<(Seq<char>, Seq<char>)>) -> VendorView {
    let primary = first_answer(rs);
    let ca = cainfo_from(rs, 0);
    VendorView {
        driver_name: "Fibocom"@,
        read_source: Seq::empty(),
        deep_read_available: true,
        serving_band: if is_5g_model(model) { pcc_band(text::lines(primary)) } else { None },
        earfcn: None,
        pci: None,
        bandwidth: Seq::empty(),
        ca_active: if text::contains(text::upper(ca), "SCC"@) {
            Some(true)
        } else if text::trim(ca).len() > 0 {
            Some(false)
        } else {
            None
        },
        ca_components: Seq::empty(),
        ca_summary: text::join(take_at_most(nonempty_lines(text::lines(ca)), 12), "\n"@),
        raw_debug: text::trim(primary),
        raw_ca: text::trim(ca),
        error: Seq::empty(),
    }
}

pub fn carrier_band_code(line: &[char]) -> (r: Option<u32>)
    ensures
        r == spec_carrier_band_code(line@),
{
    let up = text::to_upper(line);
    proof {
        reveal_strlit("PCC:");
        reveal_strlit("SCC");
    }
    let marker: usize = match text::find_str(up.as_slice(), "PCC:") {
        Some(p) => p + 4,
        None => match text::find_str(up.as_slice(), "SCC") {
            Some(p) => {
                let tail = text::slice(up.as_slice(), p, up.len());
                assert(tail@ =~= up@.skip(p as int));
                match text::find_char_exec(tail.as_slice(), ':') {
                    Some(rel) => p + rel + 1,
                    None => return None,
                }
            },
            None => return None,
        },
    };
    let rest = text::slice(line, marker, line.len());
    assert(rest@ =~= line@.skip(marker as int));
    text::first_number_exec(rest.as_slice())
}

pub fn fibocom_band_code(code: u32) -> (r: Option<u32>)
    ensures
        r == spec_fibocom_band_code(code),
{
    if code == 101 { Some(1) }
    else if code == 103 { Some(3) }
    else if code == 107 { Some(7) }
    else if code == 120 { Some(20) }
    else if code == 128 { Some(28) }
    else if code == 138 { Some(38) }
    else if code == 140 { Some(40) }
    else if code == 141 { Some(41) }
    else if code == 142 { Some(42) }
    else if code == 143 { Some(43) }
    else { None }
}

pub fn parse(model: &str, responses: &[(String, String)]) -> (info: VendorInfo)
    ensures
        info@ == spec_parse(model@, pairs_view(responses@)),
{
    let ghost rs = pairs_view(responses@);
    let primary: Vec<char> = if responses.len() > 0 {
        assert(rs[0] == (responses@[0].0@, responses@[0].1@));
        text::chars_of(responses[0].1.as_str())
    } else {
        Vec::new()
    };
    let mut ca: Vec<char> = Vec::new();
    let mut i: usize = 0;
    while i < responses.len()
        invariant_except_break
            ca@.len() == 0,
        invariant
            i <= responses.len(),
            rs == pairs_view(responses@),
            cainfo_from(rs, 0) == cainfo_from(rs, i as int),
        ensures
            ca@ == cainfo_from(rs, 0),
        decreases responses.len() - i,
    {
        assert(rs[i as int] == (responses@[i as int].0@, responses@[i as int].1@));
        let name = text::chars_of(responses[i].0.as_str());
        let up = text::to_upper(name.as_slice());
        if text::contains_str(up.as_slice(), "CAINFO") {
            ca = text::chars_of(responses[i].1.as_str());
            break;
        }
        i += 1;
    }
    assert(ca@ == cainfo_from(rs, 0));

    let mv = text::chars_of(model);
    let lower_model = text::to_lower(mv.as_slice());
    let mut band: Option<u32> = None;
    if text::contains_str(lower_model.as_slice(), "fm350") || text::contains_str(lower_model.as_slice(), "fm160")
        || text::contains_str(lower_model.as_slice(), "dw5931") {
        let ls = text::lines_exec(primary.as_slice());
        let ghost lv = text::views(ls@);
        let mut k: usize = 0;
        assert(lv.take(0) =~= Seq::<Seq<char>>::empty());
        while k < ls.len()
            invariant
                k <= ls.len(),
                lv == text::views(ls@),
                band == pcc_band(lv.take(k as int)),
            decreases ls.len() - k,
        {
            assert(lv.take(k + 1).drop_last() =~= lv.take(k as int));
            assert(lv[k as int] == ls@[k as int]@);
            let line = text::trim_exec(ls[k].as_slice());
            match carrier_band_code(line.as_slice()) {
                Some(code) => {
                    let up = text::to_upper(line.as_slice());
                    if text::contains_str(up.as_slice(), "PCC") && band.is_none() {
                        band = fibocom_band_code(code);
                    }
                },
                None => {},
            }
            k += 1;
        }
        assert(lv.take(k as int) =~= lv);
    }

    let ca_up = text::to_upper(ca.as_slice());
    let ca_trim = text::trim_exec(ca.as_slice());
    let ca_active = if text::contains_str(ca_up.as_slice(), "SCC") {
        Some(true)
    } else if ca_trim.len() > 0 {
        Some(false)
    } else {
        None
    };

    let cls = text::lines_exec(ca.as_slice());
    let ghost cv = text::views(cls@);
    let mut kept: Vec<Vec<char>> = Vec::new();
    let mut j: usize = 0;
    assert(cv.take(0) =~= Seq::<Seq<char>>::empty());
    assert(text::views(kept@) =~= Seq::<Seq<char>>::empty());
    while j < cls.len()
        invariant
            j <= cls.len(),
            cv == text::views(cls@),
            text::views(kept@) == nonempty_lines(cv.take(j as int)),
        decreases cls.len() - j,
    {
        assert(cv.take(j + 1).drop_last() =~= cv.take(j as int));
        assert(cv[j as int] == cls@[j as int]@);
        let t = text::trim_exec(cls[j].as_slice());
        if t.len() > 0 {
            let ghost before = text::views(kept@);
            kept.push(t);
            assert(text::views(kept@) =~= before.push(t@));
        }
        j += 1;
    }
    assert(cv.take(j as int) =~= cv);
    if kept.len() > 12 {
        let ghost full = text::views(kept@);
        kept.truncate(12);
        assert(text::views(kept@) =~= full.take(12));
    }
    let summary = text::join_exec(&kept, "\n");
    let primary_trim = text::trim_exec(primary.as_slice());
    let components = Vec::new();
    let info = VendorInfo {
        driver_name: String::from_str("Fibocom"),
        read_source: String::new(),
        deep_read_available: true,
        serving_band: band,
        earfcn: None,
        pci: None,
        bandwidth: String::new(),
        ca_active,
        ca_components: components,
        ca_summary: text::string_from(summary.as_slice()),
        raw_debug: text::string_from(primary_trim.as_slice()),
        raw_ca: text::string_from(ca_trim.as_slice()),
        error: String::new(),
    };
    assert(components_view(info.ca_components@) =~= Seq::<ComponentView>::empty());
    info
}

} // verus!

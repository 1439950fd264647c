//! Quectel: `AT+QENG="servingcell"`, `AT+QCAINFO` and `AT+QNWINFO` answers.
use vstd::prelude::*;

use crate::drivers::{pairs_view, response_or_empty, response_or_empty_exec};
use crate::model::{components_view, ComponentView, VendorInfo, VendorView};
use crate::text;

verus! {

/// Comma-separated fields, each trimmed and stripped of double quotes.
pub open spec fn spec_csv_fields(v: Seq<char>) -> Seq<Seq<char>> {
    let parts = text::split_char(v, ',');
    Seq::new(parts.len(), |i: int| text::trim_char(text::trim(parts[i]), '"'))
}

/// The text after the first `:`, or the whole line when there is none.
pub open spec fn after_colon(line: Seq<char>) -> Seq<char> {
    match text::find_char(line, ':') {
        Some(i) => line.skip(i + 1),
        None => line,
    }
}

/// A `+QENG:` line about an LTE serving cell with at least ten fields.
pub open spec fn is_lte_serving(line: Seq<char>) -> bool {
    &&& text::contains(line, "+QENG:"@)
    &&& text::contains(line, "\"LTE\""@)
    &&& spec_csv_fields(after_colon(line)).len() >= 10
    &&& spec_csv_fields(after_colon(line))[2] == "LTE"@
}

/// The first trimmed line (from index `i` on) that is an LTE serving-cell line.
pub open spec fn first_serving_from(ls: Seq<Seq<char>>, i: int) -> Option<Seq<char>>
    decreases ls.len() - i,
{
    if i < 0 || i >= ls.len() {
        None
    } else if is_lte_serving(text::trim(ls[i])) {
        Some(text::trim(ls[i]))
    } else {
        first_serving_from(ls, i + 1)
    }
}

/// Trimmed lines that mention `+QCAINFO`, in order.
pub open spec fn qca_lines(ls: Seq<Seq<char>>) -> Seq<Seq<char>>
    decreases ls.len(),
{
    if ls.len() == 0 {
        Seq::empty()
    } else {
        let r = qca_lines(ls.drop_last());
        let t = text::trim(ls.last());
        if text::contains(t, "+QCAINFO"@) {
            r.push(t)
        } else {
            r
        }
    }
}

pub open spec fn spec_bandwidth(f: Seq<Seq<char>>) -> Seq<char> {
    if f.len() > 11 && (f[10].len() > 0 || f[11].len() > 0) {
        "UL "@ + f[10] + " / DL "@ + f[11]
    } else {
        Seq::empty()
    }
}

/// The band after `LTE BAND ` in the `AT+QNWINFO` answer.
pub open spec fn qnw_band(qnw: Seq<char>) -> Option<u32> {
    match text::find(text::upper(qnw), "LTE BAND "@) {
        Some(p) => text::parse_u32(text::take_digits(qnw.skip(p + 9))),
        None => None,
    }
}

pub open spec fn spec_parse_parts(qeng: Seq<char>, qca: Seq<char>, qnw: Seq<char>) -> VendorView {
    let serving = first_serving_from(text::lines(qeng), 0);
    let f = match serving {
        Some(line) => spec_csv_fields(after_colon(line)),
        None => Seq::empty(),
    };
    let band0 = if serving is Some { text::parse_u32(text::trim(f[9])) } else { None };
    let cal = qca_lines(text::lines(qca));
    let has_scc = exists|i: int| 0 <= i < cal.len() && text::contains(text::upper(#[trigger] cal[i]), "SCC"@);
    VendorView {
        driver_name: "Quectel"@,
        read_source: Seq::empty(),
        deep_read_available: true,
        serving_band: if band0 is None { qnw_band(qnw) } else { band0 },
        earfcn: if serving is Some { text::parse_u32(text::trim(f[8])) } else { None },
        pci: if serving is Some { text::parse_u32(text::trim(f[7])) } else { None },
        bandwidth: if serving is Some { spec_bandwidth(f) } else { Seq::empty() },
        ca_active: if has_scc { Some(true) } else if text::trim(qca).len() > 0 { Some(false) } else { None },
        ca_components: Seq::empty(),
        ca_summary: text::join(cal, "\n"@),
        raw_debug: text::trim(qeng),
        raw_ca: text::trim(qca),
        error: Seq::empty(),
    }
}

pub open spec fn spec_parse(rs: Seq<(Seq<char>, Seq<char>)>) -> VendorView {
    spec_parse_parts(
        response_or_empty(rs, "AT+QENG=\"servingcell\""@),
        response_or_empty(rs, "AT+QCAINFO"@),
        response_or_empty(rs, "AT+QNWINFO"@),
    )
}

fn csv_fields(v: &[char]) -> (r: Vec<Vec<char>>)
    ensures
        text::views(r@) == spec_csv_fields(v@),
{
    let parts = text::split_char_exec(v, ',');
    let ghost p = text::split_char(v@, ',');
    let mut r: Vec<Vec<char>> = Vec::new();
    let mut i: usize = 0;
    while i < parts.len()
        invariant
            i <= parts.len(),
            text::views(parts@) == p,
            text::views(r@) == Seq::new(i as nat, |k: int| text::trim_char(text::trim(p[k]), '"')),
        decreases parts.len() - i,
    {
        assert(text::views(parts@)[i as int] == parts@[i as int]@);
        let t = text::trim_exec(parts[i].as_slice());
        let f = text::trim_char_exec(t.as_slice(), '"');
        let ghost before = text::views(r@);
        r.push(f);
        assert(text::views(r@) =~= before.push(f@));
        i += 1;
        assert(text::views(r@) =~= Seq::new(i as nat, |k: int| text::trim_char(text::trim(p[k]), '"')));
    }
    r
}

fn after_colon_exec(line: &[char]) -> (r: Vec<char>)
    ensures
        r@ == after_colon(line@),
{
    match text::find_char_exec(line, ':') {
        Some(i) => {
            let r = text::slice(line, i + 1, line.len());
            assert(r@ =~= line@.skip(i + 1));
            r
        },
        None => text::slice_all(line),
    }
}

fn parse_u32_field(f: &Vec<Vec<char>>, i: usize) -> (r: Option<u32>)
    requires
        i < f.len(),
    ensures
        r == text::parse_u32(text::trim(f@[i as int]@)),
{
    let t = text::trim_exec(f[i].as_slice());
    text::parse_u32_exec(t.as_slice())
}

pub fn parse(responses: &[(String, String)]) -> (info: VendorInfo)
    ensures
        info@ == spec_parse(pairs_view(responses@)),
{
    let qeng = response_or_empty_exec(responses, "AT+QENG=\"servingcell\"");
    let qca = response_or_empty_exec(responses, "AT+QCAINFO");
    let qnw = response_or_empty_exec(responses, "AT+QNWINFO");
    parse_parts(qeng.as_slice(), qca.as_slice(), qnw.as_slice())
}

fn parse_parts(qeng: &[char], qca: &[char], qnw: &[char]) -> (info: VendorInfo)
    ensures
        info@ == spec_parse_parts(qeng@, qca@, qnw@),
{
    let ls = text::lines_exec(qeng);
    let ghost lv = text::views(ls@);
    let mut serving: Option<Vec<char>> = None;
    let mut i: usize = 0;
    while i < ls.len()
        invariant_except_break
            serving is None,
        invariant
            i <= ls.len(),
            lv == text::views(ls@),
            first_serving_from(lv, 0) == first_serving_from(lv, i as int),
        ensures
            serving matches Some(l) ==> first_serving_from(lv, 0) == Some(l@) && is_lte_serving(l@),
            serving is None ==> first_serving_from(lv, 0) is None,
        decreases ls.len() - i,
    {
        assert(lv[i as int] == ls@[i as int]@);
        let line = text::trim_exec(ls[i].as_slice());
        if text::contains_str(line.as_slice(), "+QENG:") && text::contains_str(line.as_slice(), "\"LTE\"") {
            let payload = after_colon_exec(line.as_slice());
            let fields = csv_fields(payload.as_slice());
            if fields.len() >= 10 && text::eq_str(fields[2].as_slice(), "LTE") {
                assert(text::views(fields@)[2] == fields@[2]@);
                serving = Some(line);
                break;
            }
            proof {
                if fields.len() >= 10 {
                    assert(text::views(fields@)[2] == fields@[2]@);
                }
            }
        }
        i += 1;
    }

    let mut band: Option<u32> = None;
    let mut earfcn: Option<u32> = None;
    let mut pci: Option<u32> = None;
    let mut bandwidth: Vec<char> = Vec::new();
    match &serving {
        Some(line) => {
            let payload = after_colon_exec(line.as_slice());
            let f = csv_fields(payload.as_slice());
            proof {
                assert(text::views(f@)[7] == f@[7]@);
                assert(text::views(f@)[8] == f@[8]@);
                assert(text::views(f@)[9] == f@[9]@);
            }
            pci = parse_u32_field(&f, 7);
            earfcn = parse_u32_field(&f, 8);
            band = parse_u32_field(&f, 9);
            if f.len() > 11 {
                assert(text::views(f@)[10] == f@[10]@);
                assert(text::views(f@)[11] == f@[11]@);
                if f[10].len() > 0 || f[11].len() > 0 {
                    let mut b = text::chars_of("UL ");
                    text::push_all(&mut b, f[10].as_slice());
                    text::push_str(&mut b, " / DL ");
                    text::push_all(&mut b, f[11].as_slice());
                    bandwidth = b;
                }
            }
        },
        None => {},
    }

    if band.is_none() {
        let up = text::to_upper(qnw);
        proof {
            reveal_strlit("LTE BAND ");
        }
        match text::find_str(up.as_slice(), "LTE BAND ") {
            Some(p) => {
                let rest = text::slice(qnw, p + 9, qnw.len());
                assert(rest@ =~= qnw@.skip(p + 9));
                let d = text::take_digits_exec(rest.as_slice());
                band = text::parse_u32_exec(d.as_slice());
            },
            None => {},
        }
    }

    let cls = text::lines_exec(qca);
    let ghost cv = text::views(cls@);
    let mut cal: Vec<Vec<char>> = Vec::new();
    let mut has_scc = false;
    let mut k: usize = 0;
    assert(cv.take(0) =~= Seq::<Seq<char>>::empty());
    assert(text::views(cal@) =~= Seq::<Seq<char>>::empty());
    while k < cls.len()
        invariant
            k <= cls.len(),
            cv == text::views(cls@),
            text::views(cal@) == qca_lines(cv.take(k as int)),
            has_scc == exists|m: int| 0 <= m < cal@.len() && text::contains(text::upper(#[trigger] text::views(cal@)[m]), "SCC"@),
        decreases cls.len() - k,
    {
        assert(cv.take(k + 1).drop_last() =~= cv.take(k as int));
        assert(cv[k as int] == cls@[k as int]@);
        let t = text::trim_exec(cls[k].as_slice());
        if text::contains_str(t.as_slice(), "+QCAINFO") {
            let up = text::to_upper(t.as_slice());
            let scc = text::contains_str(up.as_slice(), "SCC");
            let ghost before = text::views(cal@);
            cal.push(t);
            assert(text::views(cal@) =~= before.push(t@));
            has_scc = has_scc || scc;
            proof {
                if scc {
                    assert(text::views(cal@)[cal@.len() - 1] == t@);
                }
                if !has_scc {
                    assert forall|m: int| 0 <= m < cal@.len() implies !text::contains(text::upper(#[trigger] text::views(cal@)[m]), "SCC"@) by {
                        if m < cal@.len() - 1 {
                            assert(text::views(cal@)[m] == before[m]);
                        }
                    }
                } else if !scc {
                    let m = choose|m: int| 0 <= m < before.len() && text::contains(text::upper(#[trigger] before[m]), "SCC"@);
                    assert(text::views(cal@)[m] == before[m]);
                }
            }
        }
        k += 1;
    }
    assert(cv.take(k as int) =~= cv);
    let qca_trim = text::trim_exec(qca);
    let ca_active = if has_scc {
        Some(true)
    } else if qca_trim.len() > 0 {
        Some(false)
    } else {
        None
    };
    let summary = text::join_exec(&cal, "\n");
    let qeng_trim = text::trim_exec(qeng);
    let components = Vec::new();
    let info = VendorInfo {
        driver_name: String::from_str("Quectel"),
        read_source: String::new(),
        deep_read_available: true,
        serving_band: band,
        earfcn,
        pci,
        bandwidth: text::string_from(bandwidth.as_slice()),
        ca_active,
        ca_components: components,
        ca_summary: text::string_from(summary.as_slice()),
        raw_debug: text::string_from(qeng_trim.as_slice()),
        raw_ca: text::string_from(qca_trim.as_slice()),
        error: String::new(),
    };
    assert(components_view(info.ca_components@) =~= Seq::<ComponentView>::empty());
    info
}

pub open spec fn preview_head() -> Seq<char> {
    "Preview only — not executed\n\nLTE-only mode required by many Quectel firmwares:\nAT+QCFG=\"NWSCANMODE\",3\n\nLock EARFCN + PCI:\nAT+QNWLOCK=\"common/lte\",2,"@
}

pub open spec fn preview_tail() -> Seq<char> {
    "\n\nUnlock:\nAT+QNWLOCK=\"common/lte\",0\n\nExact persistence/reboot behavior varies by Quectel family and firmware. ModemDeck will not execute this until the detected model has a verified write profile."@
}

/// The AT commands that would lock the modem to one LTE cell; shown, never sent.
pub fn cell_lock_preview(earfcn: u32, pci: u32) -> (r: Result<String, String>)
    ensures
        r matches Ok(s) && s@ == preview_head() + text::dec(earfcn as nat) + ","@ + text::dec(pci as nat) + preview_tail(),
{
    let mut v = text::chars_of("Preview only — not executed\n\nLTE-only mode required by many Quectel firmwares:\nAT+QCFG=\"NWSCANMODE\",3\n\nLock EARFCN + PCI:\nAT+QNWLOCK=\"common/lte\",2,");
    let e = text::dec_exec(earfcn as u64);
    text::push_all(&mut v, e.as_slice());
    text::push_str(&mut v, ",");
    let p = text::dec_exec(pci as u64);
    text::push_all(&mut v, p.as_slice());
    text::push_str(&mut v, "\n\nUnlock:\nAT+QNWLOCK=\"common/lte\",0\n\nExact persistence/reboot behavior varies by Quectel family and firmware. ModemDeck will not execute this until the detected model has a verified write profile.");
    Ok(text::string_from(v.as_slice()))
}

} // verus!

//! Dell/Foxconn DW5821e (T77W968): `AT^DEBUG?` and `AT^CA_INFO?` answers.
use vstd::prelude::*;

use crate::drivers::{pairs_view, response_or_empty, response_or_empty_exec};
use crate::model::{components_view, CarrierComponent, ComponentView, VendorInfo, VendorView};
use crate::text;

verus! {

/// What the `AT^DEBUG?` lines tell.
pub struct DebugFields {
    pub band: Option<u32>,
    pub earfcn: Option<u32>,
    pub bandwidth: Seq<char>,
    pub pci: Option<u32>,
}

/// The PCI in brackets of an `eNB ID(PCI):` line: the text between the last
/// `(` and the `)` after it.
pub open spec fn pci_step(st: DebugFields, line: Seq<char>) -> DebugFields {
    match text::rfind_char(line, '(') {
        Some(open) => {
            let tail = line.skip(open + 1);
            match text::find_char(tail, ')') {
                Some(close) => DebugFields {
                    band: st.band,
                    earfcn: st.earfcn,
                    bandwidth: st.bandwidth,
                    pci: text::parse_u32(text::trim(tail.take(close))),
                },
                None => st,
            }
        },
        None => st,
    }
}

/// One `AT^DEBUG?` line. Band, EARFCN and bandwidth keep the first value
/// found; the PCI is taken from the last `eNB ID(PCI):` line.
pub open spec fn debug_step(st: DebugFields, raw: Seq<char>) -> DebugFields {
    let line = text::trim(raw);
    match text::strip_prefix(line, "BAND:"@) {
        Some(v) => if st.band is None {
            DebugFields { band: text::parse_u32(text::trim(v)), earfcn: st.earfcn, bandwidth: st.bandwidth, pci: st.pci }
        } else {
            st
        },
        None => match text::strip_prefix(line, "EARFCN(DL/UL):"@) {
            Some(v) => if st.earfcn is None {
                DebugFields {
                    band: st.band,
                    earfcn: text::parse_u32(text::trim(text::split_char(text::trim(v), '/')[0])),
                    bandwidth: st.bandwidth,
                    pci: st.pci,
                }
            } else {
                st
            },
            None => match text::strip_prefix(line, "BW:"@) {
                Some(v) => if st.bandwidth.len() == 0 {
                    DebugFields { band: st.band, earfcn: st.earfcn, bandwidth: text::trim(v), pci: st.pci }
                } else {
                    st
                },
                None => if text::starts_with(line, "eNB ID(PCI):"@) {
                    pci_step(st, line)
                } else {
                    st
                },
            },
        },
    }
}

pub open spec fn debug_fields(lines: Seq<Seq<char>>) -> DebugFields
    decreases lines.len(),
{
    if lines.len() == 0 {
        DebugFields { band: None, earfcn: None, bandwidth: Seq::empty(), pci: None }
    } else {
        debug_step(debug_fields(lines.drop_last()), lines.last())
    }
}

/// The EARFCN of an `EARFCN(DL/UL): <downlink>/<uplink>` line is the
/// downlink one, the number before the `/`.
pub proof fn law_earfcn_is_downlink(d: u32, u: u32)
    ensures
        debug_fields(seq!["EARFCN(DL/UL): "@ + text::dec(d as nat) + "/"@ + text::dec(u as nat)]).earfcn == Some(d),
{
    reveal_strlit("EARFCN(DL/UL): ");
    reveal_strlit("EARFCN(DL/UL):");
    reveal_strlit("BAND:");
    reveal_strlit("/");
    let dd = text::dec(d as nat);
    let du = text::dec(u as nat);
    text::lemma_dec_digits(d as nat);
    text::lemma_dec_digits(u as nat);
    let line = "EARFCN(DL/UL): "@ + dd + "/"@ + du;
    assert(line[0] == 'E');
    assert(line.last() == du.last());
    assert(text::is_digit(du[du.len() - 1]));
    text::lemma_trim_unchanged(line);
    assert(!text::starts_with(line, "BAND:"@)) by {
        assert(line.take(5)[0] == 'E');
        assert("BAND:"@[0] == 'B');
    }
    let v = line.skip(14);
    assert(line.take(14) =~= "EARFCN(DL/UL):"@);
    assert(v =~= seq![' '] + dd + seq!['/'] + du);
    let w = dd + seq!['/'] + du;
    assert(v.drop_first() =~= w);
    assert(w[0] == dd[0]);
    assert(text::is_digit(dd[0]));
    assert(w.last() == du.last());
    assert(text::trim(v) == w) by {
        assert(text::trim_start(v) == text::trim_start(v.drop_first()));
        assert(text::trim_start(w) == w);
        assert(text::trim_end(w) == w);
    }
    assert forall|i: int| 0 <= i < dd.len() implies dd[i] != '/' by {
        assert(text::is_digit(dd[i]));
    }
    text::lemma_split_char_first(dd, '/', du);
    assert(text::is_digit(dd.last()));
    text::lemma_trim_unchanged(dd);
    let fields = debug_fields(seq![line]);
    assert(seq![line].drop_last() =~= Seq::<Seq<char>>::empty());
    assert(fields == debug_step(debug_fields(Seq::<Seq<char>>::empty()), line));
}

/// A `BAND: <n>` line gives the serving band `n`.
pub proof fn law_band_line(n: u32)
    ensures
        debug_fields(seq!["BAND: "@ + text::dec(n as nat)]).band == Some(n),
{
    reveal_strlit("BAND: ");
    reveal_strlit("BAND:");
    let dn = text::dec(n as nat);
    text::lemma_dec_digits(n as nat);
    let line = "BAND: "@ + dn;
    assert(line[0] == 'B');
    assert(line.last() == dn.last());
    assert(text::is_digit(dn[dn.len() - 1]));
    text::lemma_trim_unchanged(line);
    assert(line.take(5) =~= "BAND:"@);
    let v = line.skip(5);
    assert(v =~= seq![' '] + dn);
    assert(v.drop_first() =~= dn);
    assert(text::is_digit(dn[0]));
    text::lemma_trim_unchanged(dn);
    assert(text::trim(v) == dn) by {
        assert(text::trim_start(v) == text::trim_start(v.drop_first()));
    }
    let fields = debug_fields(seq![line]);
    assert(seq![line].drop_last() =~= Seq::<Seq<char>>::empty());
    assert(fields == debug_step(debug_fields(Seq::<Seq<char>>::empty()), line));
}

/// A PCC/SCC line of `AT^CA_INFO?`: its role (first word without trailing
/// `:`), the digits after `LTE_B`, and the number after `Band_width is`.
pub open spec fn spec_parse_ca_component(line: Seq<char>) -> Option<ComponentView> {
    let role = text::trim_end_char(
        match text::first_word(line) {
            Some(w) => w,
            None => Seq::empty(),
        },
        ':',
    );
    let band = match text::after_first(line, "LTE_B"@) {
        Some(t) => text::parse_u32(text::take_digits(t)),
        None => None,
    };
    let bandwidth = match text::after_first(line, "Band_width is"@) {
        Some(t) => match text::first_word(text::trim(t)) {
            Some(w) => if text::is_float_literal(w) { Some(w) } else { None },
            None => None,
        },
        None => None,
    };
    if band is None && bandwidth is None {
        None
    } else {
        Some(ComponentView { role, band, bandwidth_mhz: bandwidth })
    }
}

/// What the `AT^CA_INFO?` lines tell.
pub struct CaFields {
    pub has_pcc: bool,
    pub has_scc: bool,
    pub lines: Seq<Seq<char>>,
    pub components: Seq<ComponentView>,
}

pub open spec fn with_component(cs: Seq<ComponentView>, c: Option<ComponentView>) -> Seq<ComponentView> {
    match c {
        Some(x) => cs.push(x),
        None => cs,
    }
}

pub open spec fn ca_step(st: CaFields, raw: Seq<char>) -> CaFields {
    let line = text::trim(raw);
    if text::contains(line, "PCC"@) && text::contains(line, "Band"@) {
        CaFields {
            has_pcc: true,
            has_scc: st.has_scc,
            lines: st.lines.push(line),
            components: with_component(st.components, spec_parse_ca_component(line)),
        }
    } else if text::contains(line, "SCC"@) && text::contains(line, "Band"@) {
        CaFields {
            has_pcc: st.has_pcc,
            has_scc: true,
            lines: st.lines.push(line),
            components: with_component(st.components, spec_parse_ca_component(line)),
        }
    } else {
        st
    }
}

pub open spec fn ca_fields(lines: Seq<Seq<char>>) -> CaFields
    decreases lines.len(),
{
    if lines.len() == 0 {
        CaFields { has_pcc: false, has_scc: false, lines: Seq::empty(), components: Seq::empty() }
    } else {
        ca_step(ca_fields(lines.drop_last()), lines.last())
    }
}

/// Carrier aggregation is on with a secondary carrier or more than one
/// component, off when only a primary (or nothing, or a bare `OK`) was
/// reported, and unknown otherwise.
pub open spec fn spec_ca_active(c: CaFields, ca: Seq<char>) -> Option<bool> {
    if c.has_scc || c.components.len() > 1 {
        Some(true)
    } else if c.has_pcc || c.components.len() > 0 || text::trim(ca).len() == 0
        || text::eq_ignore_case(text::trim(ca), "OK"@) {
        Some(false)
    } else {
        None
    }
}

pub open spec fn spec_parse(debug: Seq<char>, ca: Seq<char>) -> VendorView {
    let d = debug_fields(text::lines(debug));
    let c = ca_fields(text::lines(ca));
    VendorView {
        driver_name: "Dell/Foxconn DW5821e (T77W968)"@,
        read_source: Seq::empty(),
        deep_read_available: true,
        serving_band: d.band,
        earfcn: d.earfcn,
        pci: d.pci,
        bandwidth: d.bandwidth,
        ca_active: spec_ca_active(c, ca),
        ca_components: c.components,
        ca_summary: text::join(c.lines, "\n"@),
        raw_debug: text::trim(debug),
        raw_ca: text::trim(ca),
        error: Seq::empty(),
    }
}

fn pci_step_exec(st: Ghost<DebugFields>, line: &[char], pci: Option<u32>) -> (r: Option<u32>)
    requires
        st@.pci == pci,
    ensures
        r == pci_step(st@, line@).pci,
{
    proof {
        text::lemma_rfind_char(line@, '(');
    }
    match text::rfind_char_exec(line, '(') {
        Some(open) => {
            let tail = text::slice(line, open + 1, line.len());
            assert(tail@ =~= line@.skip(open + 1));
            match text::find_char_exec(tail.as_slice(), ')') {
                Some(close) => {
                    let inner = text::slice(tail.as_slice(), 0, close);
                    assert(inner@ =~= tail@.take(close as int));
                    let t = text::trim_exec(inner.as_slice());
                    text::parse_u32_exec(t.as_slice())
                },
                None => pci,
            }
        },
        None => pci,
    }
}

fn parse_ca_component(line: &[char]) -> (r: Option<CarrierComponent>)
    ensures
        r matches Some(c) ==> spec_parse_ca_component(line@) == Some(c@),
        r is None ==> spec_parse_ca_component(line@) is None,
{
    let word = match text::first_word_exec(line) {
        Some(w) => w,
        None => Vec::new(),
    };
    let role = text::trim_end_char_exec(word.as_slice(), ':');
    let band = match text::after_first_exec(line, "LTE_B") {
        Some(t) => {
            let d = text::take_digits_exec(t.as_slice());
            text::parse_u32_exec(d.as_slice())
        },
        None => None,
    };
    let bandwidth: Option<Vec<char>> = match text::after_first_exec(line, "Band_width is") {
        Some(t) => {
            let tt = text::trim_exec(t.as_slice());
            match text::first_word_exec(tt.as_slice()) {
                Some(w) => if text::is_float_literal_exec(w.as_slice()) { Some(w) } else { None },
                None => None,
            }
        },
        None => None,
    };
    if band.is_none() && bandwidth.is_none() {
        return None;
    }
    let bw = match bandwidth {
        Some(w) => Some(text::string_from(w.as_slice())),
        None => None,
    };
    Some(CarrierComponent { role: text::string_from(role.as_slice()), band, bandwidth_mhz: bw })
}

pub fn parse(debug: &str, ca: &str) -> (info: VendorInfo)
    ensures
        info@ == spec_parse(debug@, ca@),
{
    let dv = text::chars_of(debug);
    let cv = text::chars_of(ca);
    let dlines = text::lines_exec(dv.as_slice());
    let ghost dl = text::views(dlines@);
    let mut band: Option<u32> = None;
    let mut earfcn: Option<u32> = None;
    let mut bandwidth: Vec<char> = Vec::new();
    let mut pci: Option<u32> = None;
    let mut i: usize = 0;
    assert(dl.take(0) =~= Seq::<Seq<char>>::empty());
    while i < dlines.len()
        invariant
            i <= dlines.len(),
            dl == text::views(dlines@),
            debug_fields(dl.take(i as int)) == (DebugFields { band, earfcn, bandwidth: bandwidth@, pci }),
        decreases dlines.len() - i,
    {
        let ghost st = debug_fields(dl.take(i as int));
        assert(dl.take(i + 1).drop_last() =~= dl.take(i as int));
        assert(dl[i as int] == dlines@[i as int]@);
        let line = text::trim_exec(dlines[i].as_slice());
        if let Some(v) = text::strip_prefix_str(line.as_slice(), "BAND:") {
            if band.is_none() {
                let t = text::trim_exec(v.as_slice());
                band = text::parse_u32_exec(t.as_slice());
            }
        } else if let Some(v) = text::strip_prefix_str(line.as_slice(), "EARFCN(DL/UL):") {
            if earfcn.is_none() {
                let t = text::trim_exec(v.as_slice());
                let pieces = text::split_char_exec(t.as_slice(), '/');
                proof {
                    text::lemma_split_char_len(t@, '/');
                }
                assert(text::views(pieces@)[0] == pieces@[0]@);
                let first = text::trim_exec(pieces[0].as_slice());
                earfcn = text::parse_u32_exec(first.as_slice());
            }
        } else if let Some(v) = text::strip_prefix_str(line.as_slice(), "BW:") {
            if bandwidth.len() == 0 {
                bandwidth = text::trim_exec(v.as_slice());
            }
        } else if text::starts_with_str(line.as_slice(), "eNB ID(PCI):") {
            pci = pci_step_exec(Ghost(st), line.as_slice(), pci);
        }
        i += 1;
    }
    assert(dl.take(i as int) =~= dl);

    let clines = text::lines_exec(cv.as_slice());
    let ghost cl = text::views(clines@);
    let mut has_pcc = false;
    let mut has_scc = false;
    let mut ca_lines: Vec<Vec<char>> = Vec::new();
    let mut components: Vec<CarrierComponent> = Vec::new();
    let mut k: usize = 0;
    assert(cl.take(0) =~= Seq::<Seq<char>>::empty());
    assert(text::views(ca_lines@) =~= Seq::<Seq<char>>::empty());
    assert(components_view(components@) =~= Seq::<ComponentView>::empty());
    while k < clines.len()
        invariant
            k <= clines.len(),
            cl == text::views(clines@),
            ca_fields(cl.take(k as int)) == (CaFields {
                has_pcc,
                has_scc,
                lines: text::views(ca_lines@),
                components: components_view(components@),
            }),
        decreases clines.len() - k,
    {
        assert(cl.take(k + 1).drop_last() =~= cl.take(k as int));
        assert(cl[k as int] == clines@[k as int]@);
        let line = text::trim_exec(clines[k].as_slice());
        let is_pcc = text::contains_str(line.as_slice(), "PCC") && text::contains_str(line.as_slice(), "Band");
        let is_scc = !is_pcc && text::contains_str(line.as_slice(), "SCC") && text::contains_str(line.as_slice(), "Band");
        if is_pcc || is_scc {
            if is_pcc {
                has_pcc = true;
            } else {
                has_scc = true;
            }
            let comp = parse_ca_component(line.as_slice());
            let ghost before_lines = text::views(ca_lines@);
            let ghost before_comps = components_view(components@);
            ca_lines.push(line);
            assert(text::views(ca_lines@) =~= before_lines.push(line@));
            match comp {
                Some(c) => {
                    components.push(c);
                    assert(components_view(components@) =~= before_comps.push(c@));
                },
                None => {},
            }
        }
        k += 1;
    }
    assert(cl.take(k as int) =~= cl);

    let ca_trim = text::trim_exec(cv.as_slice());
    let ca_active = if has_scc || components.len() > 1 {
        Some(true)
    } else if has_pcc || components.len() > 0 || ca_trim.len() == 0 || {
        let ok = text::chars_of("OK");
        text::eq_ignore_case_exec(ca_trim.as_slice(), ok.as_slice())
    } {
        Some(false)
    } else {
        None
    };
    let summary = text::join_exec(&ca_lines, "\n");
    let debug_trim = text::trim_exec(dv.as_slice());
    let info = VendorInfo {
        driver_name: String::from_str("Dell/Foxconn DW5821e (T77W968)"),
        read_source: String::new(),
        deep_read_available: true,
        serving_band: band,
        earfcn,
        pci,
        bandwidth: text::string_from(bandwidth.as_slice()),
        ca_active,
        ca_components: components,
        ca_summary: text::string_from(summary.as_slice()),
        raw_debug: text::string_from(debug_trim.as_slice()),
        raw_ca: text::string_from(ca_trim.as_slice()),
        error: String::new(),
    };
    info
}

/// The DW5821e parser applied to the recorded `AT^DEBUG?` and `AT^CA_INFO?` answers.
pub fn parse_responses(responses: &[(String, String)]) -> (info: VendorInfo)
    ensures
        info@ == spec_parse(
            response_or_empty(pairs_view(responses@), "AT^DEBUG?"@),
            response_or_empty(pairs_view(responses@), "AT^CA_INFO?"@),
        ),
{
    let debug = response_or_empty_exec(responses, "AT^DEBUG?");
    let ca = response_or_empty_exec(responses, "AT^CA_INFO?");
    let ds = text::string_from(debug.as_slice());
    let cs = text::string_from(ca.as_slice());
    parse(ds.as_str(), cs.as_str())
}


/// Uppercase hexadecimal digit of `d < 16`.
pub open spec fn hex_digit(d: nat) -> char {
    if d < 10 { ((d + 48) as u32) as char } else { ((d + 55) as u32) as char }
}

/// `format!("{:02X}", b)` for a byte.
pub open spec fn hex2(b: nat) -> Seq<char> {
    seq![hex_digit(b / 16), hex_digit(b % 16)]
}

pub open spec fn efs_head() -> Seq<char> {
    "Preview only — not executed\n\nLock EARFCN + PCI:\nat^efs=\"/nv/item_files/modem/lte/rrc/csp/pci_lock\",4,\""@
}

pub open spec fn efs_tail() -> Seq<char> {
    "\"\n\nUnlock:\nat^efs=\"/nv/item_files/modem/lte/rrc/csp/pci_lock\",0\n\nA modem restart is normally required. This EFS method can disable carrier aggregation on some networks, so ModemDeck does not execute it automatically in this alpha."@
}

pub open spec fn earfcn_too_wide() -> Seq<char> {
    "DW5821e EFS cell lock stores EARFCN in 16 bits; this EARFCN cannot be represented safely."@
}

pub open spec fn pci_too_wide() -> Seq<char> {
    "PCI cannot be represented safely by the DW5821e lock format."@
}

/// The EFS write that would lock EARFCN and PCI, each as two little-endian bytes.
pub open spec fn spec_cell_lock_preview(earfcn: u32, pci: u32) -> Result<Seq<char>, Seq<char>> {
    if earfcn > 0xffff {
        Err(earfcn_too_wide())
    } else if pci > 0xffff {
        Err(pci_too_wide())
    } else {
        Ok(efs_head() + hex2((earfcn % 256) as nat) + ","@ + hex2((earfcn / 256) as nat) + ","@
            + hex2((pci % 256) as nat) + ","@ + hex2((pci / 256) as nat) + efs_tail())
    }
}

fn hex_digit_exec(d: u32) -> (c: char)
    requires
        d < 16,
    ensures
        c == hex_digit(d as nat),
{
    if d < 10 {
        ((d as u8) + 48) as char
    } else {
        ((d as u8) + 55) as char
    }
}

fn push_hex2(v: &mut Vec<char>, b: u32)
    requires
        b < 256,
    ensures
        final(v)@ == old(v)@ + hex2(b as nat),
{
    v.push(hex_digit_exec(b / 16));
    v.push(hex_digit_exec(b % 16));
    assert(v@ =~= old(v)@ + hex2(b as nat));
}

/// The AT commands that would lock the modem to one LTE cell; shown, never sent.
pub fn cell_lock_preview(earfcn: u32, pci: u32) -> (r: Result<String, String>)
    ensures
        crate::model::result_view(r) == spec_cell_lock_preview(earfcn, pci),
{
    if earfcn > 0xffff {
        return Err(String::from_str("DW5821e EFS cell lock stores EARFCN in 16 bits; this EARFCN cannot be represented safely."));
    }
    if pci > 0xffff {
        return Err(String::from_str("PCI cannot be represented safely by the DW5821e lock format."));
    }
    let mut v = text::chars_of("Preview only — not executed\n\nLock EARFCN + PCI:\nat^efs=\"/nv/item_files/modem/lte/rrc/csp/pci_lock\",4,\"");
    push_hex2(&mut v, earfcn % 256);
    text::push_str(&mut v, ",");
    push_hex2(&mut v, earfcn / 256);
    text::push_str(&mut v, ",");
    push_hex2(&mut v, pci % 256);
    text::push_str(&mut v, ",");
    push_hex2(&mut v, pci / 256);
    text::push_str(&mut v, "\"\n\nUnlock:\nat^efs=\"/nv/item_files/modem/lte/rrc/csp/pci_lock\",0\n\nA modem restart is normally required. This EFS method can disable carrier aggregation on some networks, so ModemDeck does not execute it automatically in this alpha.");
    Ok(text::string_from(v.as_slice()))
}

} // verus!

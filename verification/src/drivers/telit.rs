//! Telit / Cinterion: `AT#MONI` answer.
use vstd::prelude::*;

use crate::drivers::fibocom::first_answer;
use crate::drivers::pairs_view;
use crate::model::{components_view, ComponentView, VendorInfo, VendorView};
use crate::text;

verus! {

/// The first number after the first occurrence of `label` in `t`.
pub open spec fn spec_find_after_label_number(t: Seq<char>, label: Seq<char>) -> Option<u32> {
    match text::find(t, label) {
        Some(p) => text::first_number(t.skip(p + label.len())),
        None => None,
    }
}

pub open spec fn spec_parse(rs: Seq<(Seq<char>, Seq<char>)>) -> VendorView {
    let raw = first_answer(rs);
    let up = text::upper(raw);
    VendorView {
        driver_name: "Telit / Cinterion"@,
        read_source: Seq::empty(),
        deep_read_available: true,
        serving_band: spec_find_after_label_number(up, "BAND:"@),
        earfcn: spec_find_after_label_number(up, "EARFCN:"@),
        pci: spec_find_after_label_number(up, "PCI:"@),
        bandwidth: Seq::empty(),
        ca_active: None,
        ca_components: Seq::empty(),
        ca_summary: Seq::empty(),
        raw_debug: raw,
        raw_ca: Seq::empty(),
        error: Seq::empty(),
    }
}

pub fn find_after_label_number(t: &[char], label: &str) -> (r: Option<u32>)
    ensures
        r == spec_find_after_label_number(t@, label@),
{
    match text::find_str(t, label) {
        Some(p) => {
            let lv = text::chars_of(label);
            let rest = text::slice(t, p + lv.len(), t.len());
            assert(rest@ =~= t@.skip(p + label@.len()));
            text::first_number_exec(rest.as_slice())
        },
        None => None,
    }
}

pub fn parse(responses: &[(String, String)]) -> (info: VendorInfo)
    ensures
        info@ == spec_parse(pairs_view(responses@)),
{
    let ghost rs = pairs_view(responses@);
    let raw: Vec<char> = if responses.len() > 0 {
        assert(rs[0] == (responses@[0].0@, responses@[0].1@));
        text::chars_of(responses[0].1.as_str())
    } else {
        Vec::new()
    };
    let up = text::to_upper(raw.as_slice());
    let components = Vec::new();
    let info = VendorInfo {
        driver_name: String::from_str("Telit / Cinterion"),
        read_source: String::new(),
        deep_read_available: true,
        serving_band: find_after_label_number(up.as_slice(), "BAND:"),
        earfcn: find_after_label_number(up.as_slice(), "EARFCN:"),
        pci: find_after_label_number(up.as_slice(), "PCI:"),
        bandwidth: String::new(),
        ca_active: None,
        ca_components: components,
        ca_summary: String::new(),
        raw_debug: text::string_from(raw.as_slice()),
        raw_ca: String::new(),
        error: String::new(),
    };
    assert(components_view(info.ca_components@) =~= Seq::<ComponentView>::empty());
    info
}

} // verus!

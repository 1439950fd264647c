//! SIMCom: `AT+CPSI?` answer.
use vstd::prelude::*;

use crate::drivers::fibocom::first_answer;
use crate::drivers::pairs_view;
use crate::model::{components_view, ComponentView, VendorInfo, VendorView};
use crate::text;

verus! {

/// The first number after the first `BAND` of the uppercased answer.
pub open spec fn simcom_band(up: Seq<char>) -> Option<u32> {
    match text::find(up, "BAND"@) {
        Some(p) => text::first_number(up.skip(p + 4)),
        None => None,
    }
}

pub open spec fn spec_parse(rs: Seq<(Seq<char>, Seq<char>)>) -> VendorView {
    let raw = first_answer(rs);
    VendorView {
        driver_name: "SIMCom"@,
        read_source: Seq::empty(),
        deep_read_available: true,
        serving_band: simcom_band(text::upper(raw)),
        earfcn: None,
        pci: None,
        bandwidth: Seq::empty(),
        ca_active: None,
        ca_components: Seq::empty(),
        ca_summary: Seq::empty(),
        raw_debug: raw,
        raw_ca: Seq::empty(),
        error: Seq::empty(),
    }
}

pub fn parse(responses: &[(String, String)]) -> (info: VendorInfo)
    ensures
        info@ == spec_parse(pairs_view(responses@)),
{
    let ghost rs = pairs_view(responses@);
    let raw: Vec<char> = if responses.len() > 0 {
        assert(rs[0] == (responses@[0].0@, responses@[0].1@));
        text::chars_of(responses[0].1.as_str())
    } else {
        Vec::new()
    };
    let up = text::to_upper(raw.as_slice());
    proof {
        reveal_strlit("BAND");
    }
    let band = match text::find_str(up.as_slice(), "BAND") {
        Some(p) => {
            let rest = text::slice(up.as_slice(), p + 4, up.len());
            assert(rest@ =~= up@.skip(p + 4));
            text::first_number_exec(rest.as_slice())
        },
        None => None,
    };
    let components = Vec::new();
    let info = VendorInfo {
        driver_name: String::from_str("SIMCom"),
        read_source: String::new(),
        deep_read_available: true,
        serving_band: band,
        earfcn: None,
        pci: None,
        bandwidth: String::new(),
        ca_active: None,
        ca_components: components,
        ca_summary: String::new(),
        raw_debug: text::string_from(raw.as_slice()),
        raw_ca: String::new(),
        error: String::new(),
    };
    assert(components_view(info.ca_components@) =~= Seq::<ComponentView>::empty());
    info
}

} // verus!

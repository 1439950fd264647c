//! Huawei: the raw answers are kept for display.
use vstd::prelude::*;

use crate::drivers::pairs_view;
use crate::model::{components_view, ComponentView, VendorInfo, VendorView};
use crate::text;

verus! {

/// Each command followed by its answer on the next line; blocks separated by a blank line.
pub open spec fn transcript(rs: Seq<(Seq<char>, Seq<char>)>) -> Seq<char> {
    text::join(Seq::new(rs.len(), |i: int| rs[i].0 + "\n"@ + rs[i].1), "\n\n"@)
}

pub open spec fn spec_parse(rs: Seq<(Seq<char>, Seq<char>)>) -> VendorView {
    VendorView {
        driver_name: "Huawei"@,
        read_source: Seq::empty(),
        deep_read_available: true,
        serving_band: None,
        earfcn: None,
        pci: None,
        bandwidth: Seq::empty(),
        ca_active: None,
        ca_components: Seq::empty(),
        ca_summary: Seq::empty(),
        raw_debug: transcript(rs),
        raw_ca: Seq::empty(),
        error: Seq::empty(),
    }
}

pub fn parse(responses: &[(String, String)]) -> (info: VendorInfo)
    ensures
        info@ == spec_parse(pairs_view(responses@)),
{
    let ghost rs = pairs_view(responses@);
    let mut blocks: Vec<Vec<char>> = Vec::new();
    let mut i: usize = 0;
    while i < responses.len()
        invariant
            i <= responses.len(),
            rs == pairs_view(responses@),
            text::views(blocks@) == Seq::new(i as nat, |k: int| rs[k].0 + "\n"@ + rs[k].1),
        decreases responses.len() - i,
    {
        assert(rs[i as int] == (responses@[i as int].0@, responses@[i as int].1@));
        let mut b = text::chars_of(responses[i].0.as_str());
        text::push_str(&mut b, "\n");
        let v = text::chars_of(responses[i].1.as_str());
        text::push_all(&mut b, v.as_slice());
        let ghost before = text::views(blocks@);
        blocks.push(b);
        assert(text::views(blocks@) =~= before.push(b@));
        i += 1;
        assert(text::views(blocks@) =~= Seq::new(i as nat, |k: int| rs[k].0 + "\n"@ + rs[k].1));
    }
    let raw = text::join_exec(&blocks, "\n\n");
    let components = Vec::new();
    let info = VendorInfo {
        driver_name: String::from_str("Huawei"),
        read_source: String::new(),
        deep_read_available: true,
        serving_band: None,
        earfcn: None,
        pci: None,
        bandwidth: String::new(),
        ca_active: None,
        ca_components: components,
        ca_summary: String::new(),
        raw_debug: text::string_from(raw.as_slice()),
        raw_ca: String::new(),
        error: String::new(),
    };
    assert(components_view(info.ca_components@) =~= Seq::<ComponentView>::empty());
    info
}

} // verus!

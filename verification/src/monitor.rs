//! Decisions of the background monitor: desktop notifications, profile
//! restore and the rollback guard.
use vstd::prelude::*;

use crate::profiles::{ProfileStore, ProfileView, StoreView};
use crate::runtime_status::{RuntimeStatus, StatusView};
use crate::settings::Settings;
use crate::text;

verus! {

/// A desktop notification: title and body.
#[derive(Debug, Clone)]
pub struct Notification {
    pub title: String,
    pub body: String,
}

pub open spec fn notes_view(v: Seq<Notification>) -> Seq<(Seq<char>, Seq<char>)> {
    v.map_values(|n: Notification| (n.title@, n.body@))
}

/// What changed between two published statuses, in order: a different
/// network (unless there was none before), carrier aggregation turning on,
/// and the modem becoming connected.
pub open spec fn spec_notifications(prev: StatusView, cur: StatusView) -> Seq<(Seq<char>, Seq<char>)> {
    let n0: Seq<(Seq<char>, Seq<char>)> = Seq::empty();
    let n1 = if prev.network != cur.network && prev.network != "—"@ {
        n0.push(("Mobile network changed"@, prev.network + " → "@ + cur.network))
    } else {
        n0
    };
    let n2 = if prev.carrier_aggregation != cur.carrier_aggregation && cur.carrier_aggregation {
        n1.push(("4G+ active"@, "Carrier aggregation was detected by ModemDeck."@))
    } else {
        n1
    };
    if prev.state != cur.state && cur.state == "Connected"@ {
        n2.push(("Mobile data connected"@, cur.operator + " • "@ + cur.network))
    } else {
        n2
    }
}

fn note(title: &str, body: Vec<char>) -> (r: Notification)
    ensures
        r.title@ == title@,
        r.body@ == body@,
{
    Notification { title: String::from_str(title), body: text::string_from(body.as_slice()) }
}

/// The notifications for a new status after `prev`.
pub fn notifications(prev: &RuntimeStatus, cur: &RuntimeStatus) -> (r: Vec<Notification>)
    ensures
        notes_view(r@) == spec_notifications(prev@, cur@),
{
    let pn = text::chars_of(prev.network.as_str());
    let cn = text::chars_of(cur.network.as_str());
    let ps = text::chars_of(prev.state.as_str());
    let cs = text::chars_of(cur.state.as_str());
    let mut r: Vec<Notification> = Vec::new();
    let ghost n0 = notes_view(r@);
    assert(n0 =~= Seq::<(Seq<char>, Seq<char>)>::empty());
    if !text::seq_eq(pn.as_slice(), cn.as_slice()) && !text::eq_str(pn.as_slice(), "—") {
        let mut b = text::slice_all(pn.as_slice());
        text::push_str(&mut b, " → ");
        text::push_all(&mut b, cn.as_slice());
        let x = note("Mobile network changed", b);
        r.push(x);
    }
    let ghost n1 = notes_view(r@);
    assert(n1 =~= (if prev@.network != cur@.network && prev@.network != "—"@ {
        n0.push(("Mobile network changed"@, prev@.network + " → "@ + cur@.network))
    } else {
        n0
    }));
    if prev.carrier_aggregation != cur.carrier_aggregation && cur.carrier_aggregation {
        let x = note("4G+ active", text::chars_of("Carrier aggregation was detected by ModemDeck."));
        r.push(x);
    }
    let ghost n2 = notes_view(r@);
    assert(n2 =~= (if prev@.carrier_aggregation != cur@.carrier_aggregation && cur@.carrier_aggregation {
        n1.push(("4G+ active"@, "Carrier aggregation was detected by ModemDeck."@))
    } else {
        n1
    }));
    if !text::seq_eq(ps.as_slice(), cs.as_slice()) && text::eq_str(cs.as_slice(), "Connected") {
        let mut b = text::chars_of(cur.operator.as_str());
        text::push_str(&mut b, " • ");
        text::push_all(&mut b, cn.as_slice());
        let x = note("Mobile data connected", b);
        r.push(x);
    }
    assert(notes_view(r@) =~= spec_notifications(prev@, cur@));
    r
}

/// The notifications to show when a new status is published: none for the
/// first status or when notifications are turned off.
pub fn notifications_for(prev: Option<&RuntimeStatus>, cur: &RuntimeStatus, enabled: bool) -> (r: Vec<Notification>)
    ensures
        notes_view(r@) == match prev {
            Some(p) => if enabled { spec_notifications(p@, cur@) } else { Seq::empty() },
            None => Seq::empty(),
        },
{
    match prev {
        Some(p) => {
            if enabled {
                notifications(p, cur)
            } else {
                let r: Vec<Notification> = Vec::new();
                assert(notes_view(r@) =~= Seq::<(Seq<char>, Seq<char>)>::empty());
                r
            }
        },
        None => {
            let r: Vec<Notification> = Vec::new();
            assert(notes_view(r@) =~= Seq::<(Seq<char>, Seq<char>)>::empty());
            r
        },
    }
}

/// The bands to restore at start-up or after resume: those of the active
/// profile, when restoring is enabled and no band change is pending.
pub open spec fn spec_bands_to_restore(restore: bool, pending: bool, s: StoreView) -> Option<Seq<u32>> {
    if !restore || pending {
        None
    } else {
        match crate::profiles::spec_find(s, s.active_profile) {
            Some(p) => Some(p.bands),
            None => None,
        }
    }
}

pub fn bands_to_restore(settings: &Settings, pending: bool, store: &ProfileStore) -> (r: Option<Vec<u32>>)
    ensures
        match r {
            Some(b) => spec_bands_to_restore(settings.restore_profile_on_startup, pending, store@) == Some(b@),
            None => spec_bands_to_restore(settings.restore_profile_on_startup, pending, store@) is None,
        },
{
    if !settings.restore_profile_on_startup || pending {
        return None;
    }
    match crate::profiles::find(store, store.active_profile.as_str()) {
        Some(p) => Some(p.bands),
        None => None,
    }
}

/// The guard's wait in seconds: the argument as a number, or 47.
pub open spec fn spec_guard_seconds(arg: Option<Seq<char>>) -> u64 {
    match arg {
        Some(a) => match text::parse_u64(a) {
            Some(v) => v,
            None => 47,
        },
        None => 47,
    }
}

pub fn guard_seconds(arg: Option<&str>) -> (r: u64)
    ensures
        r == spec_guard_seconds(match arg { Some(a) => Some(a@), None => None }),
{
    match arg {
        Some(a) => {
            let v = text::chars_of(a);
            match text::parse_u64_exec(v.as_slice()) {
                Some(x) => x,
                None => 47,
            }
        },
        None => 47,
    }
}

/// The rollback guard acts only on the pending change it was started for:
/// a pending change exists and carries the guard's non-empty token.
pub fn guard_still_ours(pending_token: Option<&str>, token: &str) -> (r: bool)
    ensures
        r == (match pending_token {
            Some(p) => token@.len() > 0 && p@ == token@,
            None => false,
        }),
{
    match pending_token {
        Some(p) => {
            let t = text::chars_of(token);
            let pv = text::chars_of(p);
            t.len() > 0 && text::seq_eq(pv.as_slice(), t.as_slice())
        },
        None => false,
    }
}

/// The rollback guard waits 47 seconds unless its argument is a valid
/// number of seconds.
pub proof fn law_guard_default_wait(arg: Option<Seq<char>>)
    ensures
        (arg is None || text::parse_u64(arg.unwrap()) is None) ==> spec_guard_seconds(arg) == 47,
        (arg matches Some(a) && text::parse_u64(a) is Some) ==> spec_guard_seconds(arg) == text::parse_u64(arg.unwrap()).unwrap(),
{
}

} // verus!

//! Band profiles: named sets of ModemManager band values, three of them built in.
use vstd::prelude::*;

use crate::text;

verus! {

broadcast use vstd::multiset::group_multiset_axioms;

#[derive(Debug, Clone)]
pub struct BandProfile {
    pub name: String,
    pub bands: Vec<u32>,
    pub built_in: bool,
}

pub struct ProfileView {
    pub name: Seq<char>,
    pub bands: Seq<u32>,
    pub built_in: bool,
}

impl View for BandProfile {
    type V = ProfileView;

    open spec fn view(&self) -> ProfileView {
        ProfileView { name: self.name@, bands: self.bands@, built_in: self.built_in }
    }
}

pub open spec fn profiles_view(v: Seq<BandProfile>) -> Seq<ProfileView> {
    v.map_values(|p: BandProfile| p@)
}

/// The saved profiles and the name of the profile last applied.
#[derive(Debug, Clone)]
pub struct ProfileStore {
    pub profiles: Vec<BandProfile>,
    pub active_profile: String,
}

pub struct StoreView {
    pub profiles: Seq<ProfileView>,
    pub active_profile: Seq<char>,
}

impl View for ProfileStore {
    type V = StoreView;

    open spec fn view(&self) -> StoreView {
        StoreView { profiles: profiles_view(self.profiles@), active_profile: self.active_profile@ }
    }
}

pub open spec fn builtin(name: Seq<char>, bands: Seq<u32>) -> ProfileView {
    ProfileView { name, bands, built_in: true }
}

/// `Auto` (any band), `B42 TD-LTE` and `B1+B3+B7`.
pub open spec fn spec_default_profiles() -> Seq<ProfileView> {
    seq![
        builtin("Auto"@, seq![256u32]),
        builtin("B42 TD-LTE"@, seq![72u32]),
        builtin("B1+B3+B7"@, seq![31u32, 33u32, 37u32]),
    ]
}

pub fn default_profiles() -> (r: Vec<BandProfile>)
    ensures
        profiles_view(r@) == spec_default_profiles(),
{
    let r = vec![
        BandProfile { name: String::from_str("Auto"), bands: vec![256], built_in: true },
        BandProfile { name: String::from_str("B42 TD-LTE"), bands: vec![72], built_in: true },
        BandProfile { name: String::from_str("B1+B3+B7"), bands: vec![31, 33, 37], built_in: true },
    ];
    assert(r@[0].bands@ =~= seq![256u32]);
    assert(r@[1].bands@ =~= seq![72u32]);
    assert(r@[2].bands@ =~= seq![31u32, 33u32, 37u32]);
    assert(profiles_view(r@) =~= spec_default_profiles());
    r
}

impl Default for ProfileStore {
    fn default() -> (r: Self)
        ensures
            r@.profiles == spec_default_profiles(),
            r@.active_profile == "Auto"@,
    {
        ProfileStore { profiles: default_profiles(), active_profile: String::from_str("Auto") }
    }
}

fn copy_bands(v: &Vec<u32>) -> (r: Vec<u32>)
    ensures
        r@ == v@,
{
    let mut r: Vec<u32> = Vec::new();
    let mut i: usize = 0;
    while i < v.len()
        invariant
            i <= v.len(),
            r@ == v@.take(i as int),
        decreases v.len() - i,
    {
        r.push(v[i]);
        i += 1;
        assert(r@ =~= v@.take(i as int));
    }
    assert(v@.take(i as int) =~= v@);
    r
}

fn copy_profile(p: &BandProfile) -> (r: BandProfile)
    ensures
        r@ == p@,
{
    BandProfile { name: p.name.clone(), bands: copy_bands(&p.bands), built_in: p.built_in }
}

/// Index of the first profile (from `i` on) named exactly `name`.
pub open spec fn first_named_from(ps: Seq<ProfileView>, name: Seq<char>, i: int) -> Option<int>
    decreases ps.len() - i,
{
    if i < 0 || i >= ps.len() {
        None
    } else if ps[i].name == name {
        Some(i)
    } else {
        first_named_from(ps, name, i + 1)
    }
}

/// Index of the first profile (from `i` on) named `name` ignoring ASCII case.
pub open spec fn first_named_ci_from(ps: Seq<ProfileView>, name: Seq<char>, i: int) -> Option<int>
    decreases ps.len() - i,
{
    if i < 0 || i >= ps.len() {
        None
    } else if text::eq_ignore_case(ps[i].name, name) {
        Some(i)
    } else {
        first_named_ci_from(ps, name, i + 1)
    }
}

pub proof fn lemma_first_named_from(ps: Seq<ProfileView>, name: Seq<char>, i: int)
    requires
        0 <= i,
    ensures
        first_named_from(ps, name, i) matches Some(k) ==> i <= k < ps.len() && ps[k].name == name
            && forall|m: int| i <= m < k ==> ps[m].name != name,
        first_named_from(ps, name, i) is None ==> forall|m: int| i <= m < ps.len() ==> ps[m].name != name,
    decreases ps.len() - i,
{
    if i < ps.len() && ps[i].name != name {
        lemma_first_named_from(ps, name, i + 1);
    }
}

pub proof fn lemma_first_named_ci_from(ps: Seq<ProfileView>, name: Seq<char>, i: int)
    requires
        0 <= i,
    ensures
        first_named_ci_from(ps, name, i) matches Some(k) ==> i <= k < ps.len()
            && text::eq_ignore_case(ps[k].name, name)
            && forall|m: int| i <= m < k ==> !text::eq_ignore_case(#[trigger] ps[m].name, name),
        first_named_ci_from(ps, name, i) is None ==> forall|m: int| i <= m < ps.len() ==> !text::eq_ignore_case(#[trigger] ps[m].name, name),
    decreases ps.len() - i,
{
    if i < ps.len() && !text::eq_ignore_case(ps[i].name, name) {
        lemma_first_named_ci_from(ps, name, i + 1);
    }
}

fn first_named(ps: &Vec<BandProfile>, name: &[char]) -> (r: Option<usize>)
    ensures
        r matches Some(k) ==> first_named_from(profiles_view(ps@), name@, 0) == Some(k as int) && k < ps.len(),
        r is None ==> first_named_from(profiles_view(ps@), name@, 0) is None,
{
    let ghost pv = profiles_view(ps@);
    let mut i: usize = 0;
    while i < ps.len()
        invariant
            i <= ps.len(),
            pv == profiles_view(ps@),
            first_named_from(pv, name@, 0) == first_named_from(pv, name@, i as int),
        decreases ps.len() - i,
    {
        assert(pv[i as int] == ps@[i as int]@);
        let n = text::chars_of(ps[i].name.as_str());
        if text::seq_eq(n.as_slice(), name) {
            return Some(i);
        }
        i += 1;
    }
    None
}

fn first_named_ci(ps: &Vec<BandProfile>, name: &[char]) -> (r: Option<usize>)
    ensures
        r matches Some(k) ==> first_named_ci_from(profiles_view(ps@), name@, 0) == Some(k as int) && k < ps.len(),
        r is None ==> first_named_ci_from(profiles_view(ps@), name@, 0) is None,
{
    let ghost pv = profiles_view(ps@);
    let mut i: usize = 0;
    while i < ps.len()
        invariant
            i <= ps.len(),
            pv == profiles_view(ps@),
            first_named_ci_from(pv, name@, 0) == first_named_ci_from(pv, name@, i as int),
        decreases ps.len() - i,
    {
        assert(pv[i as int] == ps@[i as int]@);
        let n = text::chars_of(ps[i].name.as_str());
        if text::eq_ignore_case_exec(n.as_slice(), name) {
            return Some(i);
        }
        i += 1;
    }
    None
}

/// Makes `name` the active profile.
pub fn set_active(store: &mut ProfileStore, name: &str)
    ensures
        final(store)@.active_profile == name@,
        final(store)@.profiles == old(store)@.profiles,
{
    store.active_profile = String::from_str(name);
}

pub open spec fn name_empty_error() -> Seq<char> {
    "Profile name cannot be empty."@
}

pub open spec fn bands_empty_error() -> Seq<char> {
    "A profile must contain at least one band."@
}

pub open spec fn builtin_overwrite_error() -> Seq<char> {
    "Built-in profiles cannot be overwritten. Choose another name."@
}

pub open spec fn not_found_error() -> Seq<char> {
    "Profile not found."@
}

pub open spec fn builtin_delete_error() -> Seq<char> {
    "Built-in profiles cannot be deleted."@
}

/// Saving `bands` under `name` (trimmed): the first profile with that name,
/// ignoring ASCII case, is renamed and given the bands unless it is built in;
/// with no such profile a new one is appended.
pub open spec fn spec_upsert(s: StoreView, name: Seq<char>, bands: Seq<u32>) -> Result<StoreView, Seq<char>> {
    let n = text::trim(name);
    if n.len() == 0 {
        Err(name_empty_error())
    } else if bands.len() == 0 {
        Err(bands_empty_error())
    } else {
        match first_named_ci_from(s.profiles, n, 0) {
            Some(i) => if s.profiles[i].built_in {
                Err(builtin_overwrite_error())
            } else {
                Ok(StoreView {
                    profiles: s.profiles.update(i, ProfileView { name: n, bands, built_in: s.profiles[i].built_in }),
                    active_profile: s.active_profile,
                })
            },
            None => Ok(StoreView {
                profiles: s.profiles.push(ProfileView { name: n, bands, built_in: false }),
                active_profile: s.active_profile,
            }),
        }
    }
}

pub fn upsert(store: &mut ProfileStore, name: &str, bands: Vec<u32>) -> (r: Result<(), String>)
    ensures
        match spec_upsert(old(store)@, name@, bands@) {
            Ok(s) => r is Ok && final(store)@ == s,
            Err(e) => r matches Err(m) && m@ == e && final(store)@ == old(store)@,
        },
{
    let nv = text::chars_of(name);
    let n = text::trim_exec(nv.as_slice());
    if n.len() == 0 {
        return Err(String::from_str("Profile name cannot be empty."));
    }
    if bands.len() == 0 {
        return Err(String::from_str("A profile must contain at least one band."));
    }
    let ghost old_pv = profiles_view(store.profiles@);
    match first_named_ci(&store.profiles, n.as_slice()) {
        Some(i) => {
            assert(old_pv[i as int] == store.profiles@[i as int]@);
            if store.profiles[i].built_in {
                return Err(String::from_str("Built-in profiles cannot be overwritten. Choose another name."));
            }
            let built_in = store.profiles[i].built_in;
            let updated = BandProfile { name: text::string_from(n.as_slice()), bands, built_in };
            store.profiles.set(i, updated);
            assert(profiles_view(store.profiles@) =~= old_pv.update(i as int, updated@));
        },
        None => {
            let added = BandProfile { name: text::string_from(n.as_slice()), bands, built_in: false };
            store.profiles.push(added);
            assert(profiles_view(store.profiles@) =~= old_pv.push(added@));
        },
    }
    Ok(())
}

/// The profiles not named `name`.
pub open spec fn without_named(ps: Seq<ProfileView>, name: Seq<char>) -> Seq<ProfileView> {
    ps.filter(|p: ProfileView| p.name != name)
}

/// Deleting the profiles named `name`, unless the first of them is built in;
/// an active profile of that name falls back to `Auto`.
pub open spec fn spec_remove(s: StoreView, name: Seq<char>) -> Result<StoreView, Seq<char>> {
    match first_named_from(s.profiles, name, 0) {
        None => Err(not_found_error()),
        Some(i) => if s.profiles[i].built_in {
            Err(builtin_delete_error())
        } else {
            Ok(StoreView {
                profiles: without_named(s.profiles, name),
                active_profile: if s.active_profile == name { "Auto"@ } else { s.active_profile },
            })
        },
    }
}

pub fn remove(store: &mut ProfileStore, name: &str) -> (r: Result<(), String>)
    ensures
        match spec_remove(old(store)@, name@) {
            Ok(s) => r is Ok && final(store)@ == s,
            Err(e) => r matches Err(m) && m@ == e && final(store)@ == old(store)@,
        },
{
    let nv = text::chars_of(name);
    let ghost old_pv = profiles_view(store.profiles@);
    match first_named(&store.profiles, nv.as_slice()) {
        None => {
            return Err(String::from_str("Profile not found."));
        },
        Some(i) => {
            assert(old_pv[i as int] == store.profiles@[i as int]@);
            if store.profiles[i].built_in {
                return Err(String::from_str("Built-in profiles cannot be deleted."));
            }
        },
    }
    let mut kept: Vec<BandProfile> = Vec::new();
    let mut k: usize = 0;
    let ghost pred = |p: ProfileView| p.name != name@;
    assert(old_pv.take(0) =~= Seq::<ProfileView>::empty());
    assert(profiles_view(kept@) =~= old_pv.take(0).filter(pred)) by {
        reveal_with_fuel(Seq::<_>::filter, 1);
    }
    while k < store.profiles.len()
        invariant
            k <= store.profiles.len(),
            old_pv == profiles_view(store.profiles@),
            nv@ == name@,
            pred == (|p: ProfileView| p.name != name@),
            profiles_view(kept@) == old_pv.take(k as int).filter(pred),
        decreases store.profiles.len() - k,
    {
        assert(old_pv.take(k + 1).drop_last() =~= old_pv.take(k as int));
        assert(old_pv[k as int] == store.profiles@[k as int]@);
        let n = text::chars_of(store.profiles[k].name.as_str());
        let ghost before = profiles_view(kept@);
        if !text::seq_eq(n.as_slice(), nv.as_slice()) {
            let p = copy_profile(&store.profiles[k]);
            kept.push(p);
            assert(profiles_view(kept@) =~= before.push(p@));
        }
        proof {
            reveal_with_fuel(Seq::<_>::filter, 1);
        }
        assert(profiles_view(kept@) =~= old_pv.take(k + 1).filter(pred));
        k += 1;
    }
    assert(old_pv.take(k as int) =~= old_pv);
    store.profiles = kept;
    let a = text::chars_of(store.active_profile.as_str());
    if text::seq_eq(a.as_slice(), nv.as_slice()) {
        store.active_profile = String::from_str("Auto");
    }
    Ok(())
}

pub open spec fn spec_find(s: StoreView, name: Seq<char>) -> Option<ProfileView> {
    match first_named_from(s.profiles, name, 0) {
        Some(i) => Some(s.profiles[i]),
        None => None,
    }
}

/// The first profile named exactly `name`.
pub fn find(store: &ProfileStore, name: &str) -> (r: Option<BandProfile>)
    ensures
        r matches Some(p) ==> spec_find(store@, name@) == Some(p@),
        r is None ==> spec_find(store@, name@) is None,
{
    let nv = text::chars_of(name);
    match first_named(&store.profiles, nv.as_slice()) {
        Some(i) => {
            assert(profiles_view(store.profiles@)[i as int] == store.profiles@[i as int]@);
            Some(copy_profile(&store.profiles[i]))
        },
        None => None,
    }
}


/// Number of occurrences of `x` in `s`.
pub open spec fn count(s: Seq<u32>, x: u32) -> nat
    decreases s.len(),
{
    if s.len() == 0 {
        0
    } else {
        count(s.drop_last(), x) + if s.last() == x { 1nat } else { 0nat }
    }
}

proof fn lemma_count_multiset(s: Seq<u32>, x: u32)
    ensures
        s.to_multiset().count(x) == count(s, x),
    decreases s.len(),
{
    broadcast use vstd::seq_lib::group_to_multiset_ensures;
    if s.len() == 0 {
        assert(s.to_multiset() =~= vstd::multiset::Multiset::<u32>::empty());
    } else {
        lemma_count_multiset(s.drop_last(), x);
        assert(s =~= s.drop_last().push(s.last()));
        assert(s.drop_last().push(s.last()).to_multiset() =~= s.drop_last().to_multiset().insert(s.last()));
    }
}

fn count_exec(s: &[u32], x: u32) -> (r: usize)
    ensures
        r == count(s@, x),
{
    let mut c: usize = 0;
    let mut i: usize = 0;
    assert(s@.take(0) =~= Seq::<u32>::empty());
    while i < s.len()
        invariant
            i <= s.len(),
            c == count(s@.take(i as int), x),
            c <= i,
        decreases s.len() - i,
    {
        assert(s@.take(i + 1).drop_last() =~= s@.take(i as int));
        if s[i] == x {
            c += 1;
        }
        i += 1;
    }
    assert(s@.take(i as int) =~= s@);
    c
}

/// Whether `a` and `b` hold the same bands, each as often, in any order.
pub fn same_bands(a: &[u32], b: &[u32]) -> (r: bool)
    ensures
        r == (a@.to_multiset() == b@.to_multiset()),
{
    let mut i: usize = 0;
    while i < a.len()
        invariant
            i <= a.len(),
            forall|k: int| 0 <= k < i ==> count(a@, #[trigger] a@[k]) == count(b@, a@[k]),
        decreases a.len() - i,
    {
        if count_exec(a, a[i]) != count_exec(b, a[i]) {
            proof {
                lemma_count_multiset(a@, a@[i as int]);
                lemma_count_multiset(b@, a@[i as int]);
            }
            return false;
        }
        i += 1;
    }
    let mut j: usize = 0;
    while j < b.len()
        invariant
            j <= b.len(),
            forall|k: int| 0 <= k < j ==> count(a@, #[trigger] b@[k]) == count(b@, b@[k]),
        decreases b.len() - j,
    {
        if count_exec(a, b[j]) != count_exec(b, b[j]) {
            proof {
                lemma_count_multiset(a@, b@[j as int]);
                lemma_count_multiset(b@, b@[j as int]);
            }
            return false;
        }
        j += 1;
    }
    proof {
        broadcast use vstd::seq_lib::group_to_multiset_ensures;
        assert forall|x: u32| a@.to_multiset().count(x) == b@.to_multiset().count(x) by {
            lemma_count_multiset(a@, x);
            lemma_count_multiset(b@, x);
            if a@.contains(x) {
                let k = choose|k: int| 0 <= k < a@.len() && a@[k] == x;
                assert(count(a@, a@[k]) == count(b@, a@[k]));
            } else if b@.contains(x) {
                let k = choose|k: int| 0 <= k < b@.len() && b@[k] == x;
                assert(count(a@, b@[k]) == count(b@, b@[k]));
            } else {
                assert(a@.to_multiset().count(x) == 0);
                assert(b@.to_multiset().count(x) == 0);
            }
        }
        assert(a@.to_multiset() =~= b@.to_multiset());
    }
    true
}

/// The name of the first profile (from `i` on) whose bands equal `target` up to order.
pub open spec fn matching_from(ps: Seq<ProfileView>, target: Seq<u32>, i: int) -> Option<Seq<char>>
    decreases ps.len() - i,
{
    if i < 0 || i >= ps.len() {
        None
    } else if ps[i].bands.to_multiset() == target.to_multiset() {
        Some(ps[i].name)
    } else {
        matching_from(ps, target, i + 1)
    }
}

/// The name of the first profile that holds exactly `bands`, in any order.
pub fn matching_name(store: &ProfileStore, bands: &[u32]) -> (r: Option<String>)
    ensures
        r matches Some(n) ==> matching_from(store@.profiles, bands@, 0) == Some(n@),
        r is None ==> matching_from(store@.profiles, bands@, 0) is None,
{
    let ghost pv = profiles_view(store.profiles@);
    let mut i: usize = 0;
    while i < store.profiles.len()
        invariant
            i <= store.profiles.len(),
            pv == profiles_view(store.profiles@),
            matching_from(pv, bands@, 0) == matching_from(pv, bands@, i as int),
        decreases store.profiles.len() - i,
    {
        assert(pv[i as int] == store.profiles@[i as int]@);
        if same_bands(store.profiles[i].bands.as_slice(), bands) {
            return Some(store.profiles[i].name.clone());
        }
        i += 1;
    }
    None
}

/// Some profile in `ps` is named `name`.
pub open spec fn has_named(ps: Seq<ProfileView>, name: Seq<char>) -> bool {
    exists|i: int| 0 <= i < ps.len() && (#[trigger] ps[i]).name == name
}

/// `ps` with each profile of `ds` appended, in order, unless one of that name is already there.
pub open spec fn with_missing(ps: Seq<ProfileView>, ds: Seq<ProfileView>) -> Seq<ProfileView>
    decreases ds.len(),
{
    if ds.len() == 0 {
        ps
    } else {
        let r = with_missing(ps, ds.drop_last());
        if has_named(r, ds.last().name) { r } else { r.push(ds.last()) }
    }
}

/// Appends every built-in profile whose name is missing from the store.
pub fn add_missing_builtins(store: &mut ProfileStore)
    ensures
        final(store)@.profiles == with_missing(old(store)@.profiles, spec_default_profiles()),
        final(store)@.active_profile == old(store)@.active_profile,
{
    let defaults = default_profiles();
    let ghost dv = profiles_view(defaults@);
    let ghost start = profiles_view(store.profiles@);
    let mut k: usize = 0;
    assert(dv.take(0) =~= Seq::<ProfileView>::empty());
    while k < defaults.len()
        invariant
            k <= defaults.len(),
            dv == profiles_view(defaults@),
            dv == spec_default_profiles(),
            store.active_profile@ == old(store).active_profile@,
            profiles_view(store.profiles@) == with_missing(start, dv.take(k as int)),
            start == profiles_view(old(store).profiles@),
        decreases defaults.len() - k,
    {
        assert(dv.take(k + 1).drop_last() =~= dv.take(k as int));
        assert(dv[k as int] == defaults@[k as int]@);
        let dn = text::chars_of(defaults[k].name.as_str());
        let ghost cur = profiles_view(store.profiles@);
        match first_named(&store.profiles, dn.as_slice()) {
            Some(i) => {
                proof {
                    lemma_first_named_from(cur, dn@, 0);
                }
                assert(cur[i as int].name == dn@);
            },
            None => {
                proof {
                    lemma_first_named_from(cur, dn@, 0);
                }
                let p = copy_profile(&defaults[k]);
                store.profiles.push(p);
                assert(profiles_view(store.profiles@) =~= cur.push(p@));
            },
        }
        k += 1;
    }
    assert(dv.take(k as int) =~= dv);
}

// ---------------------------------------------------------------------------
// Laws
// ---------------------------------------------------------------------------

/// After a profile is saved, looking up its (trimmed) name finds it with the saved bands.
pub proof fn law_upsert_then_find(s: StoreView, name: Seq<char>, bands: Seq<u32>)
    requires
        spec_upsert(s, name, bands) is Ok,
    ensures
        spec_find(spec_upsert(s, name, bands)->Ok_0, text::trim(name)) == Some(
            ProfileView { name: text::trim(name), bands, built_in: false },
        ),
{
    let n = text::trim(name);
    let t = spec_upsert(s, name, bands)->Ok_0;
    lemma_first_named_ci_from(s.profiles, n, 0);
    lemma_first_named_from(t.profiles, n, 0);
    match first_named_ci_from(s.profiles, n, 0) {
        Some(i) => {
            assert(t.profiles[i].name == n);
            assert forall|m: int| 0 <= m < i implies t.profiles[m].name != n by {
                assert(t.profiles[m] == s.profiles[m]);
                assert(!text::eq_ignore_case(s.profiles[m].name, n));
            }
        },
        None => {
            let last = s.profiles.len() as int;
            assert(t.profiles[last].name == n);
            assert forall|m: int| 0 <= m < last implies t.profiles[m].name != n by {
                assert(t.profiles[m] == s.profiles[m]);
                assert(!text::eq_ignore_case(s.profiles[m].name, n));
            }
        },
    }
}

/// After a profile is deleted, no profile of that name is left.
pub proof fn law_remove_then_find(s: StoreView, name: Seq<char>)
    requires
        spec_remove(s, name) is Ok,
    ensures
        spec_find(spec_remove(s, name)->Ok_0, name) is None,
{
    let t = spec_remove(s, name)->Ok_0;
    let pred = |p: ProfileView| p.name != name;
    lemma_first_named_from(t.profiles, name, 0);
    assert forall|m: int| 0 <= m < t.profiles.len() implies t.profiles[m].name != name by {
        s.profiles.lemma_filter_pred(pred, m);
    }
    if first_named_from(t.profiles, name, 0) is Some {
        let k = first_named_from(t.profiles, name, 0)->Some_0;
        assert(t.profiles[k].name == name);
    }
}

/// Saving a profile never changes a built-in profile.
pub proof fn law_upsert_keeps_builtins(s: StoreView, name: Seq<char>, bands: Seq<u32>, i: int)
    requires
        spec_upsert(s, name, bands) is Ok,
        0 <= i < s.profiles.len(),
        s.profiles[i].built_in,
    ensures
        spec_upsert(s, name, bands)->Ok_0.profiles[i] == s.profiles[i],
{
    lemma_first_named_ci_from(s.profiles, text::trim(name), 0);
}

/// Deleting a profile keeps every built-in profile of another name.
pub proof fn law_remove_keeps_builtins(s: StoreView, name: Seq<char>, i: int)
    requires
        spec_remove(s, name) is Ok,
        0 <= i < s.profiles.len(),
        s.profiles[i].built_in,
        s.profiles[i].name != name,
    ensures
        spec_remove(s, name)->Ok_0.profiles.contains(s.profiles[i]),
{
    let pred = |p: ProfileView| p.name != name;
    s.profiles.lemma_filter_contains(pred, i);
}

/// Whatever was saved, every built-in profile name is present once the built-ins are merged in.
pub proof fn law_builtins_present(ps: Seq<ProfileView>, k: int)
    requires
        0 <= k < spec_default_profiles().len(),
    ensures
        has_named(with_missing(ps, spec_default_profiles()), spec_default_profiles()[k].name),
{
    lemma_with_missing_has(ps, spec_default_profiles(), k);
}

proof fn lemma_with_missing_has(ps: Seq<ProfileView>, ds: Seq<ProfileView>, k: int)
    requires
        0 <= k < ds.len(),
    ensures
        has_named(with_missing(ps, ds), ds[k].name),
    decreases ds.len(),
{
    let r = with_missing(ps, ds.drop_last());
    if k < ds.len() - 1 {
        lemma_with_missing_has(ps, ds.drop_last(), k);
        assert(ds.drop_last()[k] == ds[k]);
        if !has_named(r, ds.last().name) {
            let j = choose|j: int| 0 <= j < r.len() && (#[trigger] r[j]).name == ds[k].name;
            assert(r.push(ds.last())[j] == r[j]);
        }
    } else {
        if !has_named(r, ds.last().name) {
            assert(r.push(ds.last())[r.len() as int] == ds.last());
        }
    }
}

/// The profile store under the configuration directory.
pub fn path(config_home: &str) -> (r: String)
    ensures
        r@ == text::join_path(config_home@, "modemdeck/profiles.json"@),
{
    text::join_path_exec(config_home, "modemdeck/profiles.json")
}

proof fn lemma_matching_reaches(ps: Seq<ProfileView>, target: Seq<u32>, j: int, i: int)
    requires
        0 <= j <= i < ps.len(),
        ps[i].bands.to_multiset() == target.to_multiset(),
    ensures
        matching_from(ps, target, j) is Some,
    decreases i - j,
{
    if j < i && ps[j].bands.to_multiset() != target.to_multiset() {
        lemma_matching_reaches(ps, target, j + 1, i);
    }
}

/// The bands of any stored profile are recognised as a profile (the first
/// one holding the same bands).
pub proof fn law_profile_bands_match(s: StoreView, i: int)
    requires
        0 <= i < s.profiles.len(),
    ensures
        matching_from(s.profiles, s.profiles[i].bands, 0) is Some,
{
    lemma_matching_reaches(s.profiles, s.profiles[i].bands, 0, i);
}

} // verus!

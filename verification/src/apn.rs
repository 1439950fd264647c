//! GSM/APN connection profiles of NetworkManager: the `nmcli` calls that
//! create, edit, activate and delete them, and the reading of its listings.
use vstd::prelude::*;

use crate::text;

verus! {

#[derive(Debug, Clone)]
pub struct ApnProfile {
    pub name: String,
    pub uuid: String,
    pub apn: String,
    pub username: String,
    pub autoconnect: bool,
    pub active: bool,
}

pub struct ApnView {
    pub name: Seq<char>,
    pub uuid: Seq<char>,
    pub apn: Seq<char>,
    pub username: Seq<char>,
    pub autoconnect: bool,
    pub active: bool,
}

impl View for ApnProfile {
    type V = ApnView;

    open spec fn view(&self) -> ApnView {
        ApnView {
            name: self.name@,
            uuid: self.uuid@,
            apn: self.apn@,
            username: self.username@,
            autoconnect: self.autoconnect,
            active: self.active,
        }
    }
}

/// One `nmcli` invocation; when `must_succeed` is false its failure is ignored.
#[derive(Debug, Clone)]
pub struct NmcliCall {
    pub args: Vec<String>,
    pub must_succeed: bool,
}

pub open spec fn strings_view(v: Seq<String>) -> Seq<Seq<char>> {
    v.map_values(|s: String| s@)
}

pub open spec fn calls_view(v: Seq<NmcliCall>) -> Seq<(Seq<Seq<char>>, bool)> {
    v.map_values(|c: NmcliCall| (strings_view(c.args@), c.must_succeed))
}

/// An APN is not empty and holds only lowercase ASCII letters, digits, `.` and `-`.
pub open spec fn spec_valid_apn(a: Seq<char>) -> bool {
    a.len() > 0 && forall|i: int| 0 <= i < a.len() ==> {
        let c = #[trigger] a[i];
        text::is_lower(c) || text::is_digit(c) || c == '.' || c == '-'
    }
}

pub fn valid_apn(apn: &[char]) -> (r: bool)
    ensures
        r == spec_valid_apn(apn@),
{
    if apn.len() == 0 {
        return false;
    }
    let mut i: usize = 0;
    while i < apn.len()
        invariant
            i <= apn.len(),
            forall|k: int| 0 <= k < i ==> {
                let c = #[trigger] apn@[k];
                text::is_lower(c) || text::is_digit(c) || c == '.' || c == '-'
            },
        decreases apn.len() - i,
    {
        let c = apn[i];
        if !(('a' <= c && c <= 'z') || ('0' <= c && c <= '9') || c == '.' || c == '-') {
            assert(!({
                let c = apn@[i as int];
                text::is_lower(c) || text::is_digit(c) || c == '.' || c == '-'
            }));
            return false;
        }
        i += 1;
    }
    true
}

pub open spec fn name_empty() -> Seq<char> {
    "Connection name cannot be empty."@
}

pub open spec fn apn_invalid() -> Seq<char> {
    "APN may only contain lowercase letters, digits, dots and hyphens."@
}

pub open spec fn yes_no(b: bool) -> Seq<char> {
    if b { "yes"@ } else { "no"@ }
}

/// The calls that create a profile: add the connection (with the user name
/// when one is given), set autoconnect (its failure ignored), then set the
/// password when one is given. Name, APN and user name are trimmed and the
/// APN lowercased.
pub open spec fn spec_create(name: Seq<char>, apn: Seq<char>, username: Seq<char>, password: Seq<char>, autoconnect: bool) -> Result<Seq<(Seq<Seq<char>>, bool)>, Seq<char>> {
    let n = text::trim(name);
    let a = text::lower(text::trim(apn));
    let u = text::trim(username);
    if n.len() == 0 {
        Err(name_empty())
    } else if !spec_valid_apn(a) {
        Err(apn_invalid())
    } else {
        let add = seq!["connection"@, "add"@, "type"@, "gsm"@, "ifname"@, "*"@, "con-name"@, n, "apn"@, a]
            + if u.len() > 0 { seq!["user"@, u] } else { Seq::empty() };
        let auto = seq!["connection"@, "modify"@, "id"@, n, "connection.autoconnect"@, yes_no(autoconnect)];
        let calls = seq![(add, true), (auto, false)];
        Ok(if password.len() > 0 {
            calls.push((seq!["connection"@, "modify"@, "id"@, n, "gsm.password"@, password], true))
        } else {
            calls
        })
    }
}

/// The calls that edit a profile: one modify of name, autoconnect, APN and
/// user name, then the password when one is given.
pub open spec fn spec_update(uuid: Seq<char>, name: Seq<char>, apn: Seq<char>, username: Seq<char>, password: Seq<char>, autoconnect: bool) -> Result<Seq<(Seq<Seq<char>>, bool)>, Seq<char>> {
    let a = text::lower(text::trim(apn));
    if text::trim(name).len() == 0 {
        Err(name_empty())
    } else if !spec_valid_apn(a) {
        Err(apn_invalid())
    } else {
        let modify = seq![
            "connection"@, "modify"@, "uuid"@, uuid,
            "connection.id"@, text::trim(name),
            "connection.autoconnect"@, yes_no(autoconnect),
            "gsm.apn"@, a,
            "gsm.username"@, text::trim(username)
        ];
        let calls = seq![(modify, true)];
        Ok(if password.len() > 0 {
            calls.push((seq!["connection"@, "modify"@, "uuid"@, uuid, "gsm.password"@, password], true))
        } else {
            calls
        })
    }
}

pub open spec fn result_calls(r: Result<Vec<NmcliCall>, String>) -> Result<Seq<(Seq<Seq<char>>, bool)>, Seq<char>> {
    match r {
        Ok(v) => Ok(calls_view(v@)),
        Err(e) => Err(e@),
    }
}

fn strings_from(parts: &Vec<Vec<char>>) -> (r: Vec<String>)
    ensures
        strings_view(r@) == text::views(parts@),
{
    let mut r: Vec<String> = Vec::new();
    let mut i: usize = 0;
    while i < parts.len()
        invariant
            i <= parts.len(),
            strings_view(r@) == text::views(parts@).take(i as int),
        decreases parts.len() - i,
    {
        let s = text::string_from(parts[i].as_slice());
        let ghost before = strings_view(r@);
        r.push(s);
        assert(strings_view(r@) =~= before.push(s@));
        assert(text::views(parts@)[i as int] == parts@[i as int]@);
        i += 1;
        assert(strings_view(r@) =~= text::views(parts@).take(i as int));
    }
    assert(text::views(parts@).take(i as int) =~= text::views(parts@));
    r
}

fn lit(s: &str) -> (v: Vec<char>)
    ensures
        v@ == s@,
{
    text::chars_of(s)
}

fn push_part(parts: &mut Vec<Vec<char>>, p: Vec<char>)
    ensures
        text::views(final(parts)@) == text::views(old(parts)@).push(p@),
{
    parts.push(p);
    assert(text::views(parts@) =~= text::views(old(parts)@).push(p@));
}

fn yes_no_exec(b: bool) -> (v: Vec<char>)
    ensures
        v@ == yes_no(b),
{
    if b { lit("yes") } else { lit("no") }
}

pub fn create(name: &str, apn: &str, username: &str, password: &str, autoconnect: bool) -> (r: Result<Vec<NmcliCall>, String>)
    ensures
        result_calls(r) == spec_create(name@, apn@, username@, password@, autoconnect),
{
    let nv = text::chars_of(name);
    let n = text::trim_exec(nv.as_slice());
    let av = text::chars_of(apn);
    let at = text::trim_exec(av.as_slice());
    let a = text::to_lower(at.as_slice());
    let uv = text::chars_of(username);
    let u = text::trim_exec(uv.as_slice());
    if n.len() == 0 {
        return Err(String::from_str("Connection name cannot be empty."));
    }
    if !valid_apn(a.as_slice()) {
        return Err(String::from_str("APN may only contain lowercase letters, digits, dots and hyphens."));
    }
    let mut add: Vec<Vec<char>> = Vec::new();
    push_part(&mut add, lit("connection"));
    push_part(&mut add, lit("add"));
    push_part(&mut add, lit("type"));
    push_part(&mut add, lit("gsm"));
    push_part(&mut add, lit("ifname"));
    push_part(&mut add, lit("*"));
    push_part(&mut add, lit("con-name"));
    push_part(&mut add, text::slice_all(n.as_slice()));
    push_part(&mut add, lit("apn"));
    push_part(&mut add, text::slice_all(a.as_slice()));
    let ghost base = text::views(add@);
    assert(base =~= seq!["connection"@, "add"@, "type"@, "gsm"@, "ifname"@, "*"@, "con-name"@, n@, "apn"@, a@]);
    if u.len() > 0 {
        push_part(&mut add, lit("user"));
        push_part(&mut add, text::slice_all(u.as_slice()));
    }
    assert(text::views(add@) =~= base + if u@.len() > 0 { seq!["user"@, u@] } else { Seq::<Seq<char>>::empty() });
    let mut auto: Vec<Vec<char>> = Vec::new();
    push_part(&mut auto, lit("connection"));
    push_part(&mut auto, lit("modify"));
    push_part(&mut auto, lit("id"));
    push_part(&mut auto, text::slice_all(n.as_slice()));
    push_part(&mut auto, lit("connection.autoconnect"));
    push_part(&mut auto, yes_no_exec(autoconnect));
    assert(text::views(auto@) =~= seq!["connection"@, "modify"@, "id"@, n@, "connection.autoconnect"@, yes_no(autoconnect)]);
    let mut calls: Vec<NmcliCall> = Vec::new();
    let c1 = NmcliCall { args: strings_from(&add), must_succeed: true };
    let c2 = NmcliCall { args: strings_from(&auto), must_succeed: false };
    calls.push(c1);
    calls.push(c2);
    let pv = text::chars_of(password);
    if pv.len() > 0 {
        let mut pw: Vec<Vec<char>> = Vec::new();
        push_part(&mut pw, lit("connection"));
        push_part(&mut pw, lit("modify"));
        push_part(&mut pw, lit("id"));
        push_part(&mut pw, text::slice_all(n.as_slice()));
        push_part(&mut pw, lit("gsm.password"));
        push_part(&mut pw, pv);
        assert(text::views(pw@) =~= seq!["connection"@, "modify"@, "id"@, n@, "gsm.password"@, password@]);
        let c3 = NmcliCall { args: strings_from(&pw), must_succeed: true };
        calls.push(c3);
    }
    assert(calls_view(calls@)[0] == (strings_view(calls@[0].args@), true));
    assert(calls_view(calls@)[1] == (strings_view(calls@[1].args@), false));
    assert(pv@.len() > 0 ==> calls_view(calls@)[2] == (strings_view(calls@[2].args@), true));
    assert(calls_view(calls@) =~= spec_create(name@, apn@, username@, password@, autoconnect)->Ok_0);
    Ok(calls)
}

pub fn update(uuid: &str, name: &str, apn: &str, username: &str, password: &str, autoconnect: bool) -> (r: Result<Vec<NmcliCall>, String>)
    ensures
        result_calls(r) == spec_update(uuid@, name@, apn@, username@, password@, autoconnect),
{
    let av = text::chars_of(apn);
    let at = text::trim_exec(av.as_slice());
    let a = text::to_lower(at.as_slice());
    let nv = text::chars_of(name);
    let n = text::trim_exec(nv.as_slice());
    if n.len() == 0 {
        return Err(String::from_str("Connection name cannot be empty."));
    }
    if !valid_apn(a.as_slice()) {
        return Err(String::from_str("APN may only contain lowercase letters, digits, dots and hyphens."));
    }
    let uv = text::chars_of(username);
    let u = text::trim_exec(uv.as_slice());
    let mut m: Vec<Vec<char>> = Vec::new();
    push_part(&mut m, lit("connection"));
    push_part(&mut m, lit("modify"));
    push_part(&mut m, lit("uuid"));
    push_part(&mut m, text::chars_of(uuid));
    push_part(&mut m, lit("connection.id"));
    push_part(&mut m, n);
    push_part(&mut m, lit("connection.autoconnect"));
    push_part(&mut m, yes_no_exec(autoconnect));
    push_part(&mut m, lit("gsm.apn"));
    push_part(&mut m, a);
    push_part(&mut m, lit("gsm.username"));
    push_part(&mut m, u);
    assert(text::views(m@) =~= seq![
        "connection"@, "modify"@, "uuid"@, uuid@,
        "connection.id"@, text::trim(name@),
        "connection.autoconnect"@, yes_no(autoconnect),
        "gsm.apn"@, text::lower(text::trim(apn@)),
        "gsm.username"@, text::trim(username@)
    ]);
    let mut calls: Vec<NmcliCall> = Vec::new();
    let c1 = NmcliCall { args: strings_from(&m), must_succeed: true };
    calls.push(c1);
    let pv = text::chars_of(password);
    if pv.len() > 0 {
        let mut pw: Vec<Vec<char>> = Vec::new();
        push_part(&mut pw, lit("connection"));
        push_part(&mut pw, lit("modify"));
        push_part(&mut pw, lit("uuid"));
        push_part(&mut pw, text::chars_of(uuid));
        push_part(&mut pw, lit("gsm.password"));
        push_part(&mut pw, pv);
        assert(text::views(pw@) =~= seq!["connection"@, "modify"@, "uuid"@, uuid@, "gsm.password"@, password@]);
        let c2 = NmcliCall { args: strings_from(&pw), must_succeed: true };
        calls.push(c2);
    }
    assert(calls_view(calls@)[0] == (strings_view(calls@[0].args@), true));
    assert(pv@.len() > 0 ==> calls_view(calls@)[1] == (strings_view(calls@[1].args@), true));
    assert(calls_view(calls@) =~= spec_update(uuid@, name@, apn@, username@, password@, autoconnect)->Ok_0);
    Ok(calls)
}

fn uuid_call(verb: &str, uuid: &str) -> (r: NmcliCall)
    ensures
        strings_view(r.args@) == seq!["connection"@, verb@, "uuid"@, uuid@],
        r.must_succeed,
{
    let mut m: Vec<Vec<char>> = Vec::new();
    push_part(&mut m, lit("connection"));
    push_part(&mut m, text::chars_of(verb));
    push_part(&mut m, lit("uuid"));
    push_part(&mut m, text::chars_of(uuid));
    let r = NmcliCall { args: strings_from(&m), must_succeed: true };
    assert(strings_view(r.args@) =~= seq!["connection"@, verb@, "uuid"@, uuid@]);
    r
}

/// `nmcli connection up uuid <uuid>`.
pub fn activate(uuid: &str) -> (r: NmcliCall)
    ensures
        strings_view(r.args@) == seq!["connection"@, "up"@, "uuid"@, uuid@],
        r.must_succeed,
{
    uuid_call("up", uuid)
}

/// `nmcli connection delete uuid <uuid>`.
pub fn delete(uuid: &str) -> (r: NmcliCall)
    ensures
        strings_view(r.args@) == seq!["connection"@, "delete"@, "uuid"@, uuid@],
        r.must_succeed,
{
    uuid_call("delete", uuid)
}

/// The GSM connections of a terse `NAME,UUID,TYPE,AUTOCONNECT` listing, as
/// (name, uuid, autoconnect); lines with fewer than four `:`-separated
/// fields, or of another type, are skipped.
pub open spec fn gsm_rows_of(ls: Seq<Seq<char>>) -> Seq<(Seq<char>, Seq<char>, bool)>
    decreases ls.len(),
{
    if ls.len() == 0 {
        Seq::empty()
    } else {
        let r = gsm_rows_of(ls.drop_last());
        let parts = text::split_char(ls.last(), ':');
        if parts.len() >= 4 && parts[2] == "gsm"@ {
            r.push((parts[0], parts[1], text::eq_ignore_case(parts[3], "yes"@)))
        } else {
            r
        }
    }
}

pub open spec fn spec_gsm_rows(raw: Seq<char>) -> Seq<(Seq<char>, Seq<char>, bool)> {
    gsm_rows_of(text::lines(raw))
}

pub struct GsmRow {
    pub name: String,
    pub uuid: String,
    pub autoconnect: bool,
}

pub open spec fn rows_view(v: Seq<GsmRow>) -> Seq<(Seq<char>, Seq<char>, bool)> {
    v.map_values(|r: GsmRow| (r.name@, r.uuid@, r.autoconnect))
}

/// The GSM connections of an `nmcli -t -f NAME,UUID,TYPE,AUTOCONNECT connection show` listing.
pub fn gsm_rows(raw: &str) -> (r: Vec<GsmRow>)
    ensures
        rows_view(r@) == spec_gsm_rows(raw@),
{
    let rv = text::chars_of(raw);
    let ls = text::lines_exec(rv.as_slice());
    let ghost lv = text::views(ls@);
    let mut rows: Vec<GsmRow> = Vec::new();
    let mut i: usize = 0;
    assert(lv.take(0) =~= Seq::<Seq<char>>::empty());
    assert(rows_view(rows@) =~= Seq::<(Seq<char>, Seq<char>, bool)>::empty());
    while i < ls.len()
        invariant
            i <= ls.len(),
            lv == text::views(ls@),
            rows_view(rows@) == gsm_rows_of(lv.take(i as int)),
        decreases ls.len() - i,
    {
        assert(lv.take(i + 1).drop_last() =~= lv.take(i as int));
        assert(lv[i as int] == ls@[i as int]@);
        let parts = text::split_char_exec(ls[i].as_slice(), ':');
        if parts.len() >= 4 {
            assert(text::views(parts@)[2] == parts@[2]@);
            assert(text::views(parts@)[0] == parts@[0]@);
            assert(text::views(parts@)[1] == parts@[1]@);
            assert(text::views(parts@)[3] == parts@[3]@);
            if text::eq_str(parts[2].as_slice(), "gsm") {
                let yes = lit("yes");
                let row = GsmRow {
                    name: text::string_from(parts[0].as_slice()),
                    uuid: text::string_from(parts[1].as_slice()),
                    autoconnect: text::eq_ignore_case_exec(parts[3].as_slice(), yes.as_slice()),
                };
                let ghost before = rows_view(rows@);
                rows.push(row);
                assert(rows_view(rows@) =~= before.push((row.name@, row.uuid@, row.autoconnect)));
            }
        }
        i += 1;
    }
    assert(lv.take(i as int) =~= lv);
    rows
}

/// The trimmed `i`-th line of `s`, or empty when there is none.
pub open spec fn line_or_empty(s: Seq<char>, i: int) -> Seq<char> {
    if 0 <= i < text::lines(s).len() { text::trim(text::lines(s)[i]) } else { Seq::empty() }
}

/// The profiles of a listing: `details[i]` is the `gsm.apn,gsm.username`
/// answer for the `i`-th GSM row (empty when missing), and a profile is
/// active when its UUID is one of the trimmed lines of `active_raw`.
pub open spec fn spec_list(raw: Seq<char>, active_raw: Seq<char>, details: Seq<Seq<char>>) -> Seq<ApnView> {
    let rows = spec_gsm_rows(raw);
    let active = text::lines(active_raw).map_values(|l: Seq<char>| text::trim(l));
    Seq::new(rows.len(), |i: int| {
        let d = if i < details.len() { details[i] } else { Seq::empty() };
        ApnView {
            name: rows[i].0,
            uuid: rows[i].1,
            apn: line_or_empty(d, 0),
            username: line_or_empty(d, 1),
            autoconnect: rows[i].2,
            active: active.contains(rows[i].1),
        }
    })
}

pub open spec fn apns_view(v: Seq<ApnProfile>) -> Seq<ApnView> {
    v.map_values(|p: ApnProfile| p@)
}

fn line_or_empty_exec(ls: &Vec<Vec<char>>, i: usize) -> (r: Vec<char>)
    ensures
        i < ls@.len() ==> r@ == text::trim(ls@[i as int]@),
        i >= ls@.len() ==> r@ == Seq::<char>::empty(),
{
    if i < ls.len() { text::trim_exec(ls[i].as_slice()) } else { Vec::new() }
}

/// The APN profiles of NetworkManager's answers.
pub fn list(raw: &str, active_raw: &str, details: &[String]) -> (r: Vec<ApnProfile>)
    ensures
        apns_view(r@) == spec_list(raw@, active_raw@, details@.map_values(|s: String| s@)),
{
    let rows = gsm_rows(raw);
    let av = text::chars_of(active_raw);
    let als = text::lines_exec(av.as_slice());
    let ghost active = text::lines(active_raw@).map_values(|l: Seq<char>| text::trim(l));
    let mut act: Vec<Vec<char>> = Vec::new();
    let mut k: usize = 0;
    while k < als.len()
        invariant
            k <= als.len(),
            text::views(als@) == text::lines(active_raw@),
            active == text::lines(active_raw@).map_values(|l: Seq<char>| text::trim(l)),
            text::views(act@) == active.take(k as int),
        decreases als.len() - k,
    {
        assert(text::views(als@)[k as int] == als@[k as int]@);
        let t = text::trim_exec(als[k].as_slice());
        let ghost before = text::views(act@);
        act.push(t);
        assert(text::views(act@) =~= before.push(t@));
        k += 1;
        assert(text::views(act@) =~= active.take(k as int));
    }
    assert(active.take(k as int) =~= active);
    let ghost dv = details@.map_values(|s: String| s@);
    let ghost spec = spec_list(raw@, active_raw@, dv);
    let mut out: Vec<ApnProfile> = Vec::new();
    let mut i: usize = 0;
    while i < rows.len()
        invariant
            i <= rows.len(),
            rows_view(rows@) == spec_gsm_rows(raw@),
            text::views(act@) == active,
            active == text::lines(active_raw@).map_values(|l: Seq<char>| text::trim(l)),
            dv == details@.map_values(|s: String| s@),
            spec == spec_list(raw@, active_raw@, dv),
            apns_view(out@) == spec.take(i as int),
        decreases rows.len() - i,
    {
        let d: Vec<char> = if i < details.len() { text::chars_of(details[i].as_str()) } else { Vec::new() };
        let dls = text::lines_exec(d.as_slice());
        let apn = line_or_empty_exec(&dls, 0);
        let user = line_or_empty_exec(&dls, 1);
        let uuid = text::chars_of(rows[i].uuid.as_str());
        let mut found = false;
        let mut j: usize = 0;
        while j < act.len()
            invariant
                j <= act.len(),
                found == text::views(act@).take(j as int).contains(uuid@),
            decreases act.len() - j,
        {
            let ghost prev = text::views(act@).take(j as int);
            assert(text::views(act@).take(j + 1) =~= prev.push(act@[j as int]@));
            if text::seq_eq(act[j].as_slice(), uuid.as_slice()) {
                found = true;
                assert(text::views(act@).take(j + 1)[j as int] == uuid@);
            } else if found {
                proof {
                    let w = choose|w: int| 0 <= w < prev.len() && prev[w] == uuid@;
                    assert(text::views(act@).take(j + 1)[w] == uuid@);
                }
            } else {
                assert(!text::views(act@).take(j + 1).contains(uuid@)) by {
                    if text::views(act@).take(j + 1).contains(uuid@) {
                        let w = choose|w: int| 0 <= w < j + 1 && #[trigger] text::views(act@).take(j + 1)[w] == uuid@;
                        if w < j {
                            assert(prev[w] == uuid@);
                        }
                    }
                }
            }
            j += 1;
        }
        assert(text::views(act@).take(j as int) =~= text::views(act@));
        let p = ApnProfile {
            name: rows[i].name.clone(),
            uuid: rows[i].uuid.clone(),
            apn: text::string_from(apn.as_slice()),
            username: text::string_from(user.as_slice()),
            autoconnect: rows[i].autoconnect,
            active: found,
        };
        assert(rows_view(rows@)[i as int] == (rows@[i as int].name@, rows@[i as int].uuid@, rows@[i as int].autoconnect));
        proof {
            if i < details@.len() {
                assert(dv[i as int] == details@[i as int]@);
            }
            assert(d@ == (if (i as int) < dv.len() { dv[i as int] } else { Seq::<char>::empty() }));
        }
        let ghost before = apns_view(out@);
        out.push(p);
        assert(apns_view(out@) =~= before.push(p@));
        assert(p@ == spec[i as int]);
        i += 1;
        assert(apns_view(out@) =~= spec.take(i as int));
    }
    assert(spec.take(i as int) =~= spec);
    out
}

/// The error of a failed `nmcli` run: its trimmed error output, or a
/// general message when that is empty.
pub fn nmcli_failure(stderr: &str) -> (r: String)
    ensures
        r@ == (if text::trim(stderr@).len() > 0 {
            text::trim(stderr@)
        } else {
            "NetworkManager rejected the APN operation."@
        }),
{
    let v = text::chars_of(stderr);
    let t = text::trim_exec(v.as_slice());
    if t.len() > 0 {
        text::string_from(t.as_slice())
    } else {
        String::from_str("NetworkManager rejected the APN operation.")
    }
}

/// An edit always sets every field it manages: its first call modifies the
/// connection by UUID and ends with the user name, trimmed, even when that
/// is empty (which clears it); a password call follows exactly when a
/// password is given. An edit is refused only for a blank name or an APN
/// outside `[a-z0-9.-]`.
pub proof fn law_update_sets_every_field(
    uuid: Seq<char>,
    name: Seq<char>,
    apn: Seq<char>,
    username: Seq<char>,
    password: Seq<char>,
    autoconnect: bool,
)
    ensures
        (spec_update(uuid, name, apn, username, password, autoconnect) is Ok) <==> (text::trim(name).len() > 0
            && spec_valid_apn(text::lower(text::trim(apn)))),
        spec_update(uuid, name, apn, username, password, autoconnect) matches Ok(calls) ==> {
            &&& calls.len() == (if password.len() > 0 { 2int } else { 1int })
            &&& calls[0].1
            &&& calls[0].0.len() == 12
            &&& calls[0].0[2] == "uuid"@ && calls[0].0[3] == uuid
            &&& calls[0].0[4] == "connection.id"@ && calls[0].0[5] == text::trim(name)
            &&& calls[0].0[6] == "connection.autoconnect"@ && calls[0].0[7] == (if autoconnect { "yes"@ } else { "no"@ })
            &&& calls[0].0[8] == "gsm.apn"@ && calls[0].0[9] == text::lower(text::trim(apn))
            &&& calls[0].0[10] == "gsm.username"@ && calls[0].0[11] == text::trim(username)
            &&& password.len() > 0 ==> calls[1].0[4] == "gsm.password"@ && calls[1].0[5] == password
        },
{
}

/// Creating a profile adds a GSM connection under the trimmed name with the
/// trimmed, lowercased APN (and the trimmed user name only when there is
/// one), then sets autoconnect without failing on it, then sets the
/// password exactly when one is given.
pub proof fn law_create_calls(
    name: Seq<char>,
    apn: Seq<char>,
    username: Seq<char>,
    password: Seq<char>,
    autoconnect: bool,
)
    ensures
        (spec_create(name, apn, username, password, autoconnect) is Ok) <==> (text::trim(name).len() > 0
            && spec_valid_apn(text::lower(text::trim(apn)))),
        spec_create(name, apn, username, password, autoconnect) matches Ok(calls) ==> {
            &&& calls.len() == (if password.len() > 0 { 3int } else { 2int })
            &&& calls[0].1 && !calls[1].1
            &&& calls[0].0.len() == (if text::trim(username).len() > 0 { 12int } else { 10int })
            &&& calls[0].0[1] == "add"@ && calls[0].0[3] == "gsm"@
            &&& calls[0].0[6] == "con-name"@ && calls[0].0[7] == text::trim(name)
            &&& calls[0].0[8] == "apn"@ && calls[0].0[9] == text::lower(text::trim(apn))
            &&& text::trim(username).len() > 0 ==> calls[0].0[10] == "user"@ && calls[0].0[11] == text::trim(username)
            &&& calls[1].0[3] == text::trim(name) && calls[1].0[4] == "connection.autoconnect"@
            &&& calls[1].0[5] == (if autoconnect { "yes"@ } else { "no"@ })
            &&& password.len() > 0 ==> calls[2].1 && calls[2].0[4] == "gsm.password"@ && calls[2].0[5] == password
        },
{
}

} // verus!

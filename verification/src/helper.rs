//! The privileged helper: its command line, the AT port it reads and the
//! handling of the modem's answers.
use vstd::prelude::*;

use crate::drivers::{spec_from_key, DriverKind};
use crate::model::{lte_band_from_earfcn, spec_lte_band_from_earfcn, ServingCellInfo};
use crate::text;

verus! {

/// One AT command and the modem's answer to it.
#[derive(Debug, Clone)]
pub struct AtResponse {
    pub command: String,
    pub response: String,
}

/// What a direct vendor read of an AT port produced.
#[derive(Debug, Clone)]
pub struct DirectVendorRead {
    pub port: String,
    pub responses: Vec<AtResponse>,
    pub warning: String,
}

/// Whether some line of the answer, carriage returns removed and trimmed, is `OK`.
pub open spec fn spec_response_ok(response: Seq<char>) -> bool {
    let ls = text::lines(text::remove_char(response, '\r'));
    exists|i: int| 0 <= i < ls.len() && text::trim(#[trigger] ls[i]) == "OK"@
}

pub fn response_ok(response: &str) -> (r: bool)
    ensures
        r == spec_response_ok(response@),
{
    let v = text::chars_of(response);
    let n = text::remove_char_exec(v.as_slice(), '\r');
    let ls = text::lines_exec(n.as_slice());
    let ghost lv = text::views(ls@);
    let mut i: usize = 0;
    while i < ls.len()
        invariant
            i <= ls.len(),
            lv == text::views(ls@),
            lv == text::lines(text::remove_char(response@, '\r')),
            forall|k: int| 0 <= k < i ==> text::trim(#[trigger] lv[k]) != "OK"@,
        decreases ls.len() - i,
    {
        assert(lv[i as int] == ls@[i as int]@);
        let t = text::trim_exec(ls[i].as_slice());
        if text::eq_str(t.as_slice(), "OK") {
            return true;
        }
        i += 1;
    }
    false
}

/// The kept lines of an answer: trimmed, not empty, not the echoed command and not `OK`.
pub open spec fn kept_lines(ls: Seq<Seq<char>>, command: Seq<char>) -> Seq<Seq<char>>
    decreases ls.len(),
{
    if ls.len() == 0 {
        Seq::empty()
    } else {
        let r = kept_lines(ls.drop_last(), command);
        let t = text::trim(ls.last());
        if t.len() > 0 && t != command && t != "OK"@ { r.push(t) } else { r }
    }
}

/// An answer without carriage returns, blank lines, the echoed command or the final `OK`.
pub open spec fn spec_clean_at_response(raw: Seq<char>, command: Seq<char>) -> Seq<char> {
    text::join(kept_lines(text::lines(text::remove_char(raw, '\r')), command), "\n"@)
}

pub fn clean_at_response(raw: &str, command: &str) -> (r: String)
    ensures
        r@ == spec_clean_at_response(raw@, command@),
{
    let v = text::chars_of(raw);
    let cmd = text::chars_of(command);
    let n = text::remove_char_exec(v.as_slice(), '\r');
    let ls = text::lines_exec(n.as_slice());
    let ghost lv = text::views(ls@);
    let mut kept: Vec<Vec<char>> = Vec::new();
    let mut i: usize = 0;
    assert(lv.take(0) =~= Seq::<Seq<char>>::empty());
    assert(text::views(kept@) =~= Seq::<Seq<char>>::empty());
    while i < ls.len()
        invariant
            i <= ls.len(),
            lv == text::views(ls@),
            cmd@ == command@,
            text::views(kept@) == kept_lines(lv.take(i as int), command@),
        decreases ls.len() - i,
    {
        assert(lv.take(i + 1).drop_last() =~= lv.take(i as int));
        assert(lv[i as int] == ls@[i as int]@);
        let t = text::trim_exec(ls[i].as_slice());
        if t.len() > 0 && !text::seq_eq(t.as_slice(), cmd.as_slice()) && !text::eq_str(t.as_slice(), "OK") {
            let ghost before = text::views(kept@);
            kept.push(t);
            assert(text::views(kept@) =~= before.push(t@));
        }
        i += 1;
    }
    assert(lv.take(i as int) =~= lv);
    let j = text::join_exec(&kept, "\n");
    text::string_from(j.as_slice())
}

/// The first 24 words of an answer on one line, separated by single spaces.
pub open spec fn spec_compact_response(raw: Seq<char>) -> Seq<char> {
    let w = text::words(raw);
    text::join(if w.len() <= 24 { w } else { w.take(24) }, " "@)
}

pub fn compact_response(raw: &str) -> (r: String)
    ensures
        r@ == spec_compact_response(raw@),
{
    let v = text::chars_of(raw);
    let mut w = text::words_exec(v.as_slice());
    if w.len() > 24 {
        let ghost full = text::views(w@);
        w.truncate(24);
        assert(text::views(w@) =~= full.take(24));
    }
    let j = text::join_exec(&w, " ");
    text::string_from(j.as_slice())
}

/// Whether an answer read so far is complete: it holds a final `OK`, an
/// `ERROR` line, or a `+CME ERROR`/`+CMS ERROR`.
pub open spec fn spec_reply_complete(t: Seq<char>) -> bool {
    text::contains(t, "\r\nOK\r\n"@) || text::contains(t, "\nOK\n"@) || text::contains(t, "\r\nERROR\r\n"@)
        || text::contains(t, "+CME ERROR"@) || text::contains(t, "+CMS ERROR"@)
}

pub fn reply_complete(t: &str) -> (r: bool)
    ensures
        r == spec_reply_complete(t@),
{
    let v = text::chars_of(t);
    let s = v.as_slice();
    text::contains_str(s, "\r\nOK\r\n") || text::contains_str(s, "\nOK\n") || text::contains_str(s, "\r\nERROR\r\n")
        || text::contains_str(s, "+CME ERROR") || text::contains_str(s, "+CMS ERROR")
}

/// A port name that is not an absolute path is taken to be under `/dev`.
pub open spec fn spec_port_path(name: Seq<char>) -> Seq<char> {
    if name.len() > 0 && name[0] == '/' { name } else { "/dev/"@ + name }
}

pub fn port_path(name: &str) -> (r: String)
    ensures
        r@ == spec_port_path(name@),
{
    let v = text::chars_of(name);
    if v.len() > 0 && v[0] == '/' {
        String::from_str(name)
    } else {
        let mut p = text::chars_of("/dev/");
        text::push_all(&mut p, v.as_slice());
        text::string_from(p.as_slice())
    }
}

pub open spec fn no_uid_error() -> Seq<char> {
    "ModemManager did not report a device UID, so the modem cannot be safely inhibited."@
}

pub open spec fn no_port_error() -> Seq<char> {
    "No AT serial port was reported by ModemManager for this modem."@
}

pub open spec fn no_profile_error() -> Seq<char> {
    "No vendor AT read profile is available for this modem."@
}

pub open spec fn strings_view(v: Seq<String>) -> Seq<Seq<char>> {
    v.map_values(|s: String| s@)
}

/// The helper's command line for a vendor read: refused without a device
/// UID, without AT ports or for the generic driver.
pub open spec fn spec_vendor_read_args(driver: DriverKind, uid: Seq<char>, model: Seq<char>, ports: Seq<Seq<char>>) -> Result<Seq<Seq<char>>, Seq<char>> {
    if text::trim(uid).len() == 0 {
        Err(no_uid_error())
    } else if ports.len() == 0 {
        Err(no_port_error())
    } else if driver == DriverKind::Generic {
        Err(no_profile_error())
    } else {
        Ok(seq!["vendor-read"@, crate::drivers::spec_key(driver), uid, model] + ports)
    }
}

pub fn vendor_read_args(driver: DriverKind, uid: &str, model: &str, ports: &[String]) -> (r: Result<Vec<String>, String>)
    ensures
        match r {
            Ok(v) => spec_vendor_read_args(driver, uid@, model@, strings_view(ports@)) == Ok::<Seq<Seq<char>>, Seq<char>>(strings_view(v@)),
            Err(e) => spec_vendor_read_args(driver, uid@, model@, strings_view(ports@)) == Err::<Seq<Seq<char>>, Seq<char>>(e@),
        },
{
    let u = text::chars_of(uid);
    let ut = text::trim_exec(u.as_slice());
    if ut.len() == 0 {
        return Err(String::from_str("ModemManager did not report a device UID, so the modem cannot be safely inhibited."));
    }
    if ports.len() == 0 {
        return Err(String::from_str("No AT serial port was reported by ModemManager for this modem."));
    }
    if !driver.has_vendor_deep_read() {
        return Err(String::from_str("No vendor AT read profile is available for this modem."));
    }
    let mut args: Vec<String> = Vec::new();
    args.push(String::from_str("vendor-read"));
    args.push(String::from_str(driver.key()));
    args.push(String::from_str(uid));
    args.push(String::from_str(model));
    let ghost head = strings_view(args@);
    let mut i: usize = 0;
    while i < ports.len()
        invariant
            i <= ports.len(),
            strings_view(args@) == head + strings_view(ports@).take(i as int),
        decreases ports.len() - i,
    {
        let p = ports[i].clone();
        let ghost before = strings_view(args@);
        args.push(p);
        assert(strings_view(args@) =~= before.push(p@));
        i += 1;
        assert(strings_view(args@) =~= head + strings_view(ports@).take(i as int));
    }
    assert(strings_view(ports@).take(i as int) =~= strings_view(ports@));
    assert(head =~= seq!["vendor-read"@, crate::drivers::spec_key(driver), uid@, model@]);
    Ok(args)
}

/// What the command line asks of the program.
#[derive(Debug, Clone)]
pub enum HelperAction {
    /// Not a helper invocation.
    NotHelper,
    /// Read the serving cells of a modem object.
    CellInfo { object_path: String },
    /// Read a vendor profile directly from AT ports.
    VendorRead { driver: DriverKind, uid: String, model: String, ports: Vec<String> },
    /// A malformed request: the message and the exit status.
    Fail { message: String, code: i32 },
}

pub open spec fn arg(args: Seq<Seq<char>>, i: int) -> Option<Seq<char>> {
    if 0 <= i < args.len() { Some(args[i]) } else { None }
}

pub open spec fn fail(message: Seq<char>) -> HelperActionView {
    HelperActionView::Fail { message, code: 2 }
}

pub enum HelperActionView {
    NotHelper,
    CellInfo { object_path: Seq<char> },
    VendorRead { driver: DriverKind, uid: Seq<char>, model: Seq<char>, ports: Seq<Seq<char>> },
    Fail { message: Seq<char>, code: i32 },
}

pub open spec fn action_view(a: HelperAction) -> HelperActionView {
    match a {
        HelperAction::NotHelper => HelperActionView::NotHelper,
        HelperAction::CellInfo { object_path } => HelperActionView::CellInfo { object_path: object_path@ },
        HelperAction::VendorRead { driver, uid, model, ports } => HelperActionView::VendorRead {
            driver,
            uid: uid@,
            model: model@,
            ports: strings_view(ports@),
        },
        HelperAction::Fail { message, code } => HelperActionView::Fail { message: message@, code },
    }
}

/// `<program> --helper cell-info <object path>` or
/// `<program> --helper vendor-read <driver key> <uid> <model> <ports...>`;
/// a missing or unknown part fails with status 2.
pub open spec fn spec_helper_action(args: Seq<Seq<char>>) -> HelperActionView {
    if arg(args, 1) != Some("--helper"@) {
        HelperActionView::NotHelper
    } else {
        let action = match arg(args, 2) { Some(a) => a, None => Seq::empty() };
        if action == "cell-info"@ {
            match arg(args, 3) {
                Some(p) => HelperActionView::CellInfo { object_path: p },
                None => fail("Missing modem object path."@),
            }
        } else if action == "vendor-read"@ {
            if args.len() <= 3 {
                fail("Missing driver key."@)
            } else if args.len() <= 4 {
                fail("Missing modem device UID."@)
            } else if args.len() <= 5 {
                fail("Missing modem model."@)
            } else {
                match spec_from_key(args[3]) {
                    None => fail("Unknown driver key."@),
                    Some(d) => if d == DriverKind::Generic {
                        fail("The generic driver has no privileged AT profile."@)
                    } else {
                        HelperActionView::VendorRead { driver: d, uid: args[4], model: args[5], ports: args.skip(6) }
                    },
                }
            }
        } else {
            fail("Unknown or missing helper action."@)
        }
    }
}

fn fail_exec(message: &str) -> (r: HelperAction)
    ensures
        action_view(r) == fail(message@),
{
    HelperAction::Fail { message: String::from_str(message), code: 2 }
}

/// The request in the program's arguments.
pub fn helper_action(args: &[String]) -> (r: HelperAction)
    ensures
        action_view(r) == spec_helper_action(strings_view(args@)),
{
    let ghost av = strings_view(args@);
    if args.len() < 2 {
        return HelperAction::NotHelper;
    }
    assert(av[1] == args@[1]@);
    let a1 = text::chars_of(args[1].as_str());
    if !text::eq_str(a1.as_slice(), "--helper") {
        return HelperAction::NotHelper;
    }
    let action: Vec<char> = if args.len() > 2 {
        assert(av[2] == args@[2]@);
        text::chars_of(args[2].as_str())
    } else {
        Vec::new()
    };
    if text::eq_str(action.as_slice(), "cell-info") {
        if args.len() > 3 {
            assert(av[3] == args@[3]@);
            return HelperAction::CellInfo { object_path: args[3].clone() };
        }
        return fail_exec("Missing modem object path.");
    }
    if text::eq_str(action.as_slice(), "vendor-read") {
        if args.len() <= 3 {
            return fail_exec("Missing driver key.");
        }
        if args.len() <= 4 {
            return fail_exec("Missing modem device UID.");
        }
        if args.len() <= 5 {
            return fail_exec("Missing modem model.");
        }
        assert(av[3] == args@[3]@);
        assert(av[4] == args@[4]@);
        assert(av[5] == args@[5]@);
        match DriverKind::from_key(args[3].as_str()) {
            None => return fail_exec("Unknown driver key."),
            Some(d) => {
                if d == DriverKind::Generic {
                    return fail_exec("The generic driver has no privileged AT profile.");
                }
                let mut ports: Vec<String> = Vec::new();
                let mut i: usize = 6;
                while i < args.len()
                    invariant
                        6 <= i <= args.len(),
                        av == strings_view(args@),
                        strings_view(ports@) == av.subrange(6, i as int),
                    decreases args.len() - i,
                {
                    let p = args[i].clone();
                    let ghost before = strings_view(ports@);
                    ports.push(p);
                    assert(strings_view(ports@) =~= before.push(p@));
                    assert(av[i as int] == args@[i as int]@);
                    i += 1;
                    assert(strings_view(ports@) =~= av.subrange(6, i as int));
                }
                assert(av.subrange(6, i as int) =~= av.skip(6));
                return HelperAction::VendorRead { driver: d, uid: args[4].clone(), model: args[5].clone(), ports };
            },
        }
    }
    fail_exec("Unknown or missing helper action.")
}

// ---------------------------------------------------------------------------
// GetCellInfo answers
// ---------------------------------------------------------------------------

/// One cell dictionary of a `GetCellInfo` answer: each entry is present when
/// the dictionary held it with the expected type. `physical_ci_text` and
/// `physical_ci_number` are the string and the `u32` forms of `physical-ci`;
/// the measurements are IEEE-754 bit patterns.
#[derive(Debug, Clone)]
pub struct CellEntry {
    pub serving: Option<bool>,
    pub cell_type: Option<u32>,
    pub serving_cell_type: Option<u32>,
    pub operator_id: Option<String>,
    pub tac: Option<String>,
    pub ci: Option<String>,
    pub physical_ci_text: Option<String>,
    pub physical_ci_number: Option<u32>,
    pub earfcn: Option<u32>,
    pub nrarfcn: Option<u32>,
    pub bandwidth: Option<u32>,
    pub rsrp: Option<u64>,
    pub rsrq: Option<u64>,
    pub sinr: Option<u64>,
}

pub open spec fn text_or_empty(o: Option<String>) -> Seq<char> {
    match o {
        Some(t) => t@,
        None => Seq::empty(),
    }
}

/// `physical-ci` as text: the string form, else the number in lowercase hex.
pub open spec fn physical_ci_of(e: CellEntry) -> Seq<char> {
    match e.physical_ci_text {
        Some(t) => t@,
        None => match e.physical_ci_number {
            Some(n) => text::hex(n as nat),
            None => Seq::empty(),
        },
    }
}

/// The serving cell that an entry describes: a missing type counts as 0,
/// and an LTE cell (type 5) gets the band of its EARFCN.
pub open spec fn cell_matches(c: ServingCellInfo, e: CellEntry) -> bool {
    let t = match e.cell_type {
        Some(v) => v,
        None => 0u32,
    };
    &&& c.cell_type == t
    &&& c.serving_cell_type == e.serving_cell_type
    &&& c.operator_id@ == text_or_empty(e.operator_id)
    &&& c.tac@ == text_or_empty(e.tac)
    &&& c.ci@ == text_or_empty(e.ci)
    &&& c.physical_ci@ == physical_ci_of(e)
    &&& c.earfcn == e.earfcn
    &&& c.nrarfcn == e.nrarfcn
    &&& c.band == (if t == 5 {
        match e.earfcn {
            Some(x) => spec_lte_band_from_earfcn(x),
            None => None,
        }
    } else {
        None
    })
    &&& c.bandwidth == e.bandwidth
    &&& c.rsrp == e.rsrp
    &&& c.rsrq == e.rsrq
    &&& c.sinr == e.sinr
}

/// The entries that describe serving cells, in order.
pub open spec fn serving_entries(es: Seq<CellEntry>) -> Seq<CellEntry>
    decreases es.len(),
{
    if es.len() == 0 {
        Seq::empty()
    } else {
        let r = serving_entries(es.drop_last());
        if es.last().serving == Some(true) {
            r.push(es.last())
        } else {
            r
        }
    }
}

pub open spec fn empty_cell_info() -> Seq<char> {
    "ModemManager returned an empty GetCellInfo response."@
}

pub open spec fn no_serving_cell() -> Seq<char> {
    "GetCellInfo succeeded, but no serving cell was reported by this modem/driver."@
}

fn text_or_empty_exec(o: &Option<String>) -> (r: String)
    ensures
        r@ == text_or_empty(*o),
{
    match o {
        Some(t) => t.clone(),
        None => String::new(),
    }
}

fn cell_from_entry(e: &CellEntry) -> (c: ServingCellInfo)
    ensures
        cell_matches(c, *e),
{
    let t: u32 = match e.cell_type {
        Some(v) => v,
        None => 0,
    };
    let band = if t == 5 {
        match e.earfcn {
            Some(x) => lte_band_from_earfcn(x),
            None => None,
        }
    } else {
        None
    };
    let physical_ci = match &e.physical_ci_text {
        Some(p) => p.clone(),
        None => match e.physical_ci_number {
            Some(n) => {
                let h = text::hex_exec(n as u64);
                text::string_from(h.as_slice())
            },
            None => String::new(),
        },
    };
    ServingCellInfo {
        cell_type: t,
        serving_cell_type: e.serving_cell_type,
        operator_id: text_or_empty_exec(&e.operator_id),
        tac: text_or_empty_exec(&e.tac),
        ci: text_or_empty_exec(&e.ci),
        physical_ci,
        earfcn: e.earfcn,
        nrarfcn: e.nrarfcn,
        band,
        bandwidth: e.bandwidth,
        rsrp: e.rsrp,
        rsrq: e.rsrq,
        sinr: e.sinr,
    }
}

/// The serving cells of a `GetCellInfo` answer: `entries` is `None` when the
/// answer held nothing, else its cell dictionaries. Cells that are not
/// serving are skipped; an answer without any serving cell is an error.
pub fn cells_from_entries(entries: Option<&[CellEntry]>) -> (r: Result<Vec<ServingCellInfo>, String>)
    ensures
        match entries {
            None => r matches Err(e) && e@ == empty_cell_info(),
            Some(es) => {
                let se = serving_entries(es@);
                if se.len() == 0 {
                    r matches Err(e) && e@ == no_serving_cell()
                } else {
                    r matches Ok(v) && v@.len() == se.len()
                        && forall|k: int| 0 <= k < se.len() ==> #[trigger] cell_matches(v@[k], se[k])
                }
            },
        },
{
    let es = match entries {
        None => {
            return Err(String::from_str("ModemManager returned an empty GetCellInfo response."));
        },
        Some(es) => es,
    };
    let mut cells: Vec<ServingCellInfo> = Vec::new();
    let mut i: usize = 0;
    assert(es@.take(0) =~= Seq::<CellEntry>::empty());
    while i < es.len()
        invariant
            i <= es.len(),
            cells@.len() == serving_entries(es@.take(i as int)).len(),
            forall|k: int| 0 <= k < cells@.len() ==> #[trigger] cell_matches(cells@[k], serving_entries(es@.take(i as int))[k]),
        decreases es.len() - i,
    {
        assert(es@.take(i + 1).drop_last() =~= es@.take(i as int));
        assert(es@.take(i + 1).last() == es@[i as int]);
        if es[i].serving == Some(true) {
            let c = cell_from_entry(&es[i]);
            cells.push(c);
        }
        i += 1;
    }
    assert(es@.take(i as int) =~= es@);
    if cells.len() == 0 {
        Err(String::from_str("GetCellInfo succeeded, but no serving cell was reported by this modem/driver."))
    } else {
        Ok(cells)
    }
}

// ---------------------------------------------------------------------------
// Direct AT reads
// ---------------------------------------------------------------------------

/// Why a port is given up after its `AT` probe: the probe's answer had no
/// `OK` line (`None` when it had one).
pub fn probe_failure(probe: &str) -> (r: Option<String>)
    ensures
        match r {
            None => spec_response_ok(probe@),
            Some(m) => !spec_response_ok(probe@) && m@ == "AT probe did not return OK: "@
                + spec_compact_response(probe@),
        },
{
    if response_ok(probe) {
        None
    } else {
        let mut m = text::chars_of("AT probe did not return OK: ");
        let c = compact_response(probe);
        text::push_str(&mut m, c.as_str());
        Some(text::string_from(m.as_slice()))
    }
}

/// The recorded answer to one command: the cleaned answer when it ends in
/// `OK`, else why the command is unavailable.
pub open spec fn answer_text(command: Seq<char>, answer: Result<Seq<char>, Seq<char>>) -> Seq<char> {
    match answer {
        Ok(v) => if spec_response_ok(v) {
            spec_clean_at_response(v, command)
        } else {
            "Command unavailable: "@ + spec_compact_response(v)
        },
        Err(e) => "Command unavailable: "@ + e,
    }
}

pub open spec fn answer_view(a: Result<String, String>) -> Result<Seq<char>, Seq<char>> {
    match a {
        Ok(v) => Ok(v@),
        Err(e) => Err(e@),
    }
}

pub open spec fn primary_rejected(first: Seq<char>) -> Seq<char> {
    "The AT port answered, but the driver's primary read command ("@ + first + ") was rejected."@
}

/// The answers of a port that passed its probe: `answers[i]` is what
/// `commands[i]` gave (its text, or why it could not be read). The port
/// fails when the first command, the driver's primary read, did not end in
/// `OK`.
pub fn port_responses(commands: &[&str], answers: &[Result<String, String>]) -> (r: Result<Vec<AtResponse>, String>)
    requires
        answers.len() == commands.len(),
    ensures
        ({
            let first_ok = commands@.len() > 0 && (match answer_view(answers@[0]) {
                Ok(v) => spec_response_ok(v),
                Err(_) => false,
            });
            if !first_ok {
                r matches Err(m) && m@ == primary_rejected(
                    if commands@.len() > 0 { commands@[0]@ } else { "unknown"@ },
                )
            } else {
                r matches Ok(v) && v@.len() == commands@.len() && forall|i: int| 0 <= i < v@.len() ==> {
                    &&& (#[trigger] v@[i]).command@ == commands@[i]@
                    &&& v@[i].response@ == answer_text(commands@[i]@, answer_view(answers@[i]))
                }
            }
        }),
{
    let mut out: Vec<AtResponse> = Vec::new();
    let mut first_ok = false;
    let mut i: usize = 0;
    while i < commands.len()
        invariant
            i <= commands.len(),
            answers.len() == commands.len(),
            out@.len() == i,
            first_ok == (i > 0 && (match answer_view(answers@[0]) {
                Ok(v) => spec_response_ok(v),
                Err(_) => false,
            })),
            forall|k: int| 0 <= k < i ==> {
                &&& (#[trigger] out@[k]).command@ == commands@[k]@
                &&& out@[k].response@ == answer_text(commands@[k]@, answer_view(answers@[k]))
            },
        decreases commands.len() - i,
    {
        let command = commands[i];
        let response = match &answers[i] {
            Ok(v) => {
                if response_ok(v.as_str()) {
                    if i == 0 {
                        first_ok = true;
                    }
                    clean_at_response(v.as_str(), command)
                } else {
                    let mut m = text::chars_of("Command unavailable: ");
                    let c = compact_response(v.as_str());
                    text::push_str(&mut m, c.as_str());
                    text::string_from(m.as_slice())
                }
            },
            Err(e) => {
                let mut m = text::chars_of("Command unavailable: ");
                text::push_str(&mut m, e.as_str());
                text::string_from(m.as_slice())
            },
        };
        out.push(AtResponse { command: String::from_str(command), response });
        i += 1;
    }
    if !first_ok {
        let mut m = text::chars_of("The AT port answered, but the driver's primary read command (");
        if commands.len() > 0 {
            text::push_str(&mut m, commands[0]);
        } else {
            text::push_str(&mut m, "unknown");
        }
        text::push_str(&mut m, ") was rejected.");
        return Err(text::string_from(m.as_slice()));
    }
    Ok(out)
}

pub open spec fn failure_line(port: Seq<char>, e: Seq<char>) -> Seq<char> {
    spec_port_path(port) + ": "@ + e
}

/// The failures of the ports tried, "<path>: <reason>" each.
pub open spec fn failure_lines(ports: Seq<Seq<char>>, reasons: Seq<Seq<char>>) -> Seq<Seq<char>> {
    Seq::new(reasons.len(), |i: int| failure_line(ports[i], reasons[i]))
}

/// The error when no port answered: the primary command (or `AT`) and the
/// failures of all ports, separated by " | ".
pub open spec fn no_port_answered(first: Seq<char>, lines: Seq<Seq<char>>) -> Seq<char> {
    "No reported AT port answered the read-only "@ + first + " profile. "@ + text::join(lines, " | "@)
}

/// The outcome of trying the ports in order: the first that gave answers is
/// read, with its path; when every port failed, the error lists why.
/// `outcomes[i]` is the result of port `i`, and a port after the first
/// success is never tried.
pub fn ports_outcome(ports: &[String], commands: &[&str], mut outcomes: Vec<Result<Vec<AtResponse>, String>>) -> (r: Result<DirectVendorRead, String>)
    requires
        outcomes.len() <= ports.len(),
        forall|i: int| 0 <= i < outcomes.len() - 1 ==> outcomes@[i] is Err,
        outcomes.len() < ports.len() ==> outcomes.len() > 0 && outcomes@[outcomes.len() - 1] is Ok,
    ensures
        match r {
            Ok(read) => outcomes.len() > 0 && (outcomes@[outcomes.len() - 1] matches Ok(rs)
                && read.responses@ == rs@ && read.port@ == spec_port_path(ports@[outcomes.len() - 1]@)
                && read.warning@ == Seq::<char>::empty()),
            Err(m) => (outcomes.len() == 0 || outcomes@[outcomes.len() - 1] is Err) && m@ == no_port_answered(
                if commands@.len() > 0 { commands@[0]@ } else { "AT"@ },
                failure_lines(
                    ports@.map_values(|p: String| p@),
                    Seq::new(outcomes.len() as nat, |i: int| match outcomes@[i] {
                        Ok(_) => Seq::<char>::empty(),
                        Err(e) => e@,
                    }),
                ),
            ),
        },
{
    let n = outcomes.len();
    let ghost ov = outcomes@;
    let ghost reasons = Seq::new(n as nat, |i: int| match ov[i] {
        Ok(_) => Seq::<char>::empty(),
        Err(e) => e@,
    });
    let ghost pv = ports@.map_values(|p: String| p@);
    if n > 0 && outcomes[n - 1].is_ok() {
        if let Some(Ok(rs)) = outcomes.pop() {
            let port = port_path(ports[n - 1].as_str());
            return Ok(DirectVendorRead { port, responses: rs, warning: String::new() });
        }
    }
    let mut lines: Vec<Vec<char>> = Vec::new();
    let mut i: usize = 0;
    while i < n
        invariant
            n == ov.len(),
            n == outcomes@.len(),
            ov == outcomes@,
            n <= ports.len(),
            i <= n,
            text::views(lines@) == failure_lines(pv, reasons).take(i as int),
            pv == ports@.map_values(|p: String| p@),
            reasons == Seq::new(n as nat, |k: int| match ov[k] {
                Ok(_) => Seq::<char>::empty(),
                Err(e) => e@,
            }),
        decreases n - i,
    {
        let port = port_path(ports[i].as_str());
        let mut line = text::chars_of(port.as_str());
        text::push_str(&mut line, ": ");
        match &outcomes[i] {
            Ok(_) => {},
            Err(e) => {
                text::push_str(&mut line, e.as_str());
            },
        }
        assert(line@ =~= failure_line(pv[i as int], reasons[i as int]));
        let ghost before = text::views(lines@);
        lines.push(line);
        assert(text::views(lines@) =~= before.push(failure_line(pv[i as int], reasons[i as int])));
        assert(failure_lines(pv, reasons).take(i + 1) =~= failure_lines(pv, reasons).take(i as int).push(failure_line(pv[i as int], reasons[i as int])));
        i += 1;
    }
    assert(failure_lines(pv, reasons).take(i as int) =~= failure_lines(pv, reasons));
    let mut m = text::chars_of("No reported AT port answered the read-only ");
    if commands.len() > 0 {
        text::push_str(&mut m, commands[0]);
    } else {
        text::push_str(&mut m, "AT");
    }
    text::push_str(&mut m, " profile. ");
    let joined = text::join_exec(&lines, " | ");
    text::push_all(&mut m, joined.as_slice());
    Err(text::string_from(m.as_slice()))
}

/// The outcome of a direct read once the modem has been handed back to
/// ModemManager: `uninhibit_error` is why the explicit uninhibit failed, if
/// it did. A successful read then carries a warning; a failed one says both.
pub fn finish_vendor_read(read: Result<DirectVendorRead, String>, uninhibit_error: Option<String>) -> (r: Result<DirectVendorRead, String>)
    ensures
        match (read, uninhibit_error) {
            (Ok(d), None) => r matches Ok(x) && x.port == d.port && x.responses == d.responses && x.warning == d.warning,
            (Ok(d), Some(u)) => r matches Ok(x) && x.port == d.port && x.responses == d.responses
                && x.warning@ == "The read completed, but explicit uninhibit returned: "@ + u@
                + ". ModemManager also removes inhibition automatically when this helper exits."@,
            (Err(e), None) => r matches Err(m) && m == e,
            (Err(e), Some(u)) => r matches Err(m) && m@ == e@ + "; additionally, explicit uninhibit failed: "@ + u@,
        },
{
    match (read, uninhibit_error) {
        (Ok(d), None) => Ok(d),
        (Ok(d), Some(u)) => {
            let mut w = text::chars_of("The read completed, but explicit uninhibit returned: ");
            text::push_str(&mut w, u.as_str());
            text::push_str(&mut w, ". ModemManager also removes inhibition automatically when this helper exits.");
            Ok(DirectVendorRead { port: d.port, responses: d.responses, warning: text::string_from(w.as_slice()) })
        },
        (Err(e), None) => Err(e),
        (Err(e), Some(u)) => {
            let mut m = text::chars_of(e.as_str());
            text::push_str(&mut m, "; additionally, explicit uninhibit failed: ");
            text::push_str(&mut m, u.as_str());
            Err(text::string_from(m.as_slice()))
        },
    }
}

/// Why the privileged helper failed. `code` is its exit code (`None` when
/// it was ended by a signal), `status` the text of its exit status,
/// `envelope_error` the error field of the JSON envelope it printed (when
/// its output held one), and `stderr` its error output.
pub fn pkexec_failure(code: Option<i32>, status: &str, envelope_error: Option<&str>, stderr: &str) -> (r: String)
    ensures
        r@ == (if code == Some(126i32) || code == Some(127i32) {
            "Administrator authorization was cancelled or denied."@
        } else if envelope_error matches Some(e) && e@.len() > 0 {
            envelope_error.unwrap()@
        } else if text::trim(stderr@).len() == 0 {
            "Privileged helper exited with status "@ + status@ + "."@
        } else {
            "Privileged helper failed: "@ + text::trim(stderr@)
        }),
{
    if code == Some(126i32) || code == Some(127i32) {
        return String::from_str("Administrator authorization was cancelled or denied.");
    }
    if let Some(e) = envelope_error {
        let ev = text::chars_of(e);
        if ev.len() > 0 {
            return e.to_string();
        }
    }
    let sv = text::chars_of(stderr);
    let t = text::trim_exec(sv.as_slice());
    if t.len() == 0 {
        let mut m = text::chars_of("Privileged helper exited with status ");
        text::push_str(&mut m, status);
        text::push_str(&mut m, ".");
        text::string_from(m.as_slice())
    } else {
        let mut m = text::chars_of("Privileged helper failed: ");
        text::push_all(&mut m, t.as_slice());
        text::string_from(m.as_slice())
    }
}

/// The data of the helper's JSON envelope, or its error.
pub fn envelope_result<T>(ok: bool, data: Option<T>, error: String) -> (r: Result<T, String>)
    ensures
        !ok ==> (r matches Err(m) && m@ == (if error@.len() > 0 {
            error@
        } else {
            "Privileged helper reported an unknown error."@
        })),
        ok && data is None ==> (r matches Err(m) && m@ == "Privileged helper returned no data."@),
        ok && data is Some ==> (r matches Ok(d) && data == Some(d)),
{
    if !ok {
        let ev = text::chars_of(error.as_str());
        if ev.len() > 0 {
            return Err(error);
        }
        return Err(String::from_str("Privileged helper reported an unknown error."));
    }
    match data {
        Some(d) => Ok(d),
        None => Err(String::from_str("Privileged helper returned no data.")),
    }
}

/// What a port answered to `command`: the text read (decoded), without NUL
/// characters; nothing read at all is a timeout.
pub fn serial_reply(read: &str, command: &str) -> (r: Result<String, String>)
    ensures
        read@.len() == 0 ==> (r matches Err(m) && m@ == "timeout waiting for a response to "@ + command@),
        read@.len() > 0 ==> (r matches Ok(t) && t@ == text::remove_char(read@, '\0')),
{
    let v = text::chars_of(read);
    if v.len() == 0 {
        let mut m = text::chars_of("timeout waiting for a response to ");
        text::push_str(&mut m, command);
        return Err(text::string_from(m.as_slice()));
    }
    let cleaned = text::remove_char_exec(v.as_slice(), '\0');
    Ok(text::string_from(cleaned.as_slice()))
}

/// The commands of a direct read for `driver` on `model`; a driver without
/// any is refused.
pub fn read_profile(driver: DriverKind, model: &str) -> (r: Result<Vec<&'static str>, String>)
    ensures
        crate::drivers::spec_read_commands(driver, text::lower(model@)).len() == 0
            ==> (r matches Err(m) && m@ == "This driver has no direct AT read profile."@),
        crate::drivers::spec_read_commands(driver, text::lower(model@)).len() > 0
            ==> (r matches Ok(v) && v@ == crate::drivers::spec_read_commands(driver, text::lower(model@))),
{
    let commands = driver.read_commands(model);
    if commands.len() == 0 {
        Err(String::from_str("This driver has no direct AT read profile."))
    } else {
        Ok(commands)
    }
}

/// The helper reads back what the program asks of it: the command line
/// built for a vendor read names the same driver, device, model and ports.
pub proof fn law_vendor_read_round_trip(
    program: Seq<char>,
    driver: DriverKind,
    uid: Seq<char>,
    model: Seq<char>,
    ports: Seq<Seq<char>>,
)
    requires
        spec_vendor_read_args(driver, uid, model, ports) is Ok,
    ensures
        spec_helper_action(seq![program, "--helper"@] + spec_vendor_read_args(driver, uid, model, ports)->Ok_0)
            == (HelperActionView::VendorRead { driver, uid, model, ports }),
{
    let args = seq![program, "--helper"@] + spec_vendor_read_args(driver, uid, model, ports)->Ok_0;
    crate::drivers::law_key_round_trip(driver);
    reveal_strlit("vendor-read");
    reveal_strlit("cell-info");
    assert(args[2] == "vendor-read"@);
    assert(args[3] == crate::drivers::spec_key(driver));
    assert(args[4] == uid);
    assert(args[5] == model);
    assert(args.skip(6) =~= ports);
    assert("vendor-read"@ != "cell-info"@) by {
        assert("vendor-read"@.len() != "cell-info"@.len());
    }
}

/// The helper reads back the modem of a serving-cell request.
pub proof fn law_cell_info_round_trip(program: Seq<char>, object_path: Seq<char>)
    ensures
        spec_helper_action(seq![program, "--helper"@, "cell-info"@, object_path])
            == (HelperActionView::CellInfo { object_path }),
{
}

} // verus!

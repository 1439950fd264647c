//! SMS, voice calls and USSD: message and call records, and the checks
//! made before a request goes to ModemManager.
use vstd::prelude::*;

use crate::text;
use crate::traffic::{lemma_str_lt_asymmetric, lemma_str_lt_total, lemma_str_lt_transitive, str_lt, str_lt_exec};

verus! {

#[derive(Debug, Clone)]
pub struct SmsMessage {
    pub path: String,
    pub number: String,
    pub text: String,
    pub timestamp: String,
    pub state: u32,
}

pub open spec fn spec_sms_state_label(state: u32) -> Seq<char> {
    if state == 1 { "Stored"@ }
    else if state == 2 { "Receiving"@ }
    else if state == 3 { "Received"@ }
    else if state == 4 { "Sending"@ }
    else if state == 5 { "Sent"@ }
    else { "Unknown"@ }
}

impl SmsMessage {
    pub fn state_label(&self) -> (r: &'static str)
        ensures
            r@ == spec_sms_state_label(self.state),
    {
        match self.state {
            1 => "Stored",
            2 => "Receiving",
            3 => "Received",
            4 => "Sending",
            5 => "Sent",
            _ => "Unknown",
        }
    }
}

#[derive(Debug, Clone)]
pub struct CallInfo {
    pub path: String,
    pub number: String,
    pub state: i32,
    pub direction: i32,
    pub audio_port: String,
}

pub open spec fn spec_call_state_label(state: i32) -> Seq<char> {
    if state == 1 { "Dialing"@ }
    else if state == 2 { "Ringing out"@ }
    else if state == 3 { "Ringing in"@ }
    else if state == 4 { "Active"@ }
    else if state == 5 { "Held"@ }
    else if state == 6 { "Waiting"@ }
    else if state == 7 { "Terminated"@ }
    else { "Unknown"@ }
}

pub open spec fn spec_direction_label(direction: i32) -> Seq<char> {
    if direction == 1 { "Incoming"@ } else if direction == 2 { "Outgoing"@ } else { "Unknown"@ }
}

impl CallInfo {
    pub fn state_label(&self) -> (r: &'static str)
        ensures
            r@ == spec_call_state_label(self.state),
    {
        match self.state {
            1 => "Dialing",
            2 => "Ringing out",
            3 => "Ringing in",
            4 => "Active",
            5 => "Held",
            6 => "Waiting",
            7 => "Terminated",
            _ => "Unknown",
        }
    }

    pub fn direction_label(&self) -> (r: &'static str)
        ensures
            r@ == spec_direction_label(self.direction),
    {
        match self.direction {
            1 => "Incoming",
            2 => "Outgoing",
            _ => "Unknown",
        }
    }

    /// A call that rings in or waits can be answered.
    pub fn can_answer(&self) -> (r: bool)
        ensures
            r == (self.state == 3 || self.state == 6),
    {
        self.state == 3 || self.state == 6
    }

    /// Any call not yet terminated can be hung up.
    pub fn can_hangup(&self) -> (r: bool)
        ensures
            r == (self.state != 7),
    {
        self.state != 7
    }
}

/// `s` trimmed, or `message` when nothing is left.
pub open spec fn spec_required(s: Seq<char>, message: Seq<char>) -> Result<Seq<char>, Seq<char>> {
    if text::trim(s).len() == 0 { Err(message) } else { Ok(text::trim(s)) }
}

pub open spec fn result_view(r: Result<String, String>) -> Result<Seq<char>, Seq<char>> {
    match r {
        Ok(s) => Ok(s@),
        Err(e) => Err(e@),
    }
}

/// The trimmed text of a required field, or the message when it is blank.
pub fn required(s: &str, message: &str) -> (r: Result<String, String>)
    ensures
        result_view(r) == spec_required(s@, message@),
{
    let v = text::chars_of(s);
    let t = text::trim_exec(v.as_slice());
    if t.len() == 0 {
        Err(String::from_str(message))
    } else {
        Ok(text::string_from(t.as_slice()))
    }
}

/// The number and text of an SMS to send, both trimmed; a blank number is
/// refused first, then a blank text.
pub fn sms_to_send(number: &str, body: &str) -> (r: Result<(String, String), String>)
    ensures
        match r {
            Ok((n, t)) => spec_required(number@, "Enter a destination number."@) == Ok::<Seq<char>, Seq<char>>(n@)
                && spec_required(body@, "Message text is empty."@) == Ok::<Seq<char>, Seq<char>>(t@),
            Err(e) => spec_required(number@, "Enter a destination number."@) == Err::<Seq<char>, Seq<char>>(e@)
                || (spec_required(number@, "Enter a destination number."@) is Ok
                    && spec_required(body@, "Message text is empty."@) == Err::<Seq<char>, Seq<char>>(e@)),
        },
{
    let n = match required(number, "Enter a destination number.") {
        Ok(n) => n,
        Err(e) => return Err(e),
    };
    let t = match required(body, "Message text is empty.") {
        Ok(t) => t,
        Err(e) => return Err(e),
    };
    Ok((n, t))
}

/// Only `Accept` and `Hangup` may be sent to a call.
pub fn call_action_allowed(action: &str) -> (r: bool)
    ensures
        r == (action@ == "Accept"@ || action@ == "Hangup"@),
{
    let v = text::chars_of(action);
    text::eq_str(v.as_slice(), "Accept") || text::eq_str(v.as_slice(), "Hangup")
}

// ---------------------------------------------------------------------------
// Inbox order
// ---------------------------------------------------------------------------

/// Where a message stamped `k` goes in a list kept newest first: before the
/// first message (from `j` on) with an older timestamp, so messages with
/// equal timestamps keep their order.
pub open spec fn insert_pos(s: Seq<SmsMessage>, k: Seq<char>, j: int) -> int
    decreases s.len() - j,
{
    if j < 0 || j >= s.len() {
        s.len() as int
    } else if str_lt(s[j].timestamp@, k) {
        j
    } else {
        insert_pos(s, k, j + 1)
    }
}

/// The messages sorted by timestamp, newest first, messages with equal
/// timestamps in the order they came in (a stable sort on the timestamp
/// text, descending).
pub open spec fn spec_newest_first(ms: Seq<SmsMessage>) -> Seq<SmsMessage>
    decreases ms.len(),
{
    if ms.len() == 0 {
        Seq::empty()
    } else {
        let s = spec_newest_first(ms.drop_last());
        let x = ms.last();
        s.insert(insert_pos(s, x.timestamp@, 0), x)
    }
}

proof fn lemma_insert_pos(s: Seq<SmsMessage>, k: Seq<char>, j: int)
    requires
        0 <= j <= s.len(),
    ensures
        j <= insert_pos(s, k, j) <= s.len(),
        forall|i: int| j <= i < insert_pos(s, k, j) ==> !str_lt(#[trigger] s[i].timestamp@, k),
        insert_pos(s, k, j) < s.len() ==> str_lt(s[insert_pos(s, k, j)].timestamp@, k),
    decreases s.len() - j,
{
    if j < s.len() {
        lemma_insert_pos(s, k, j + 1);
    }
}

/// Newest first: no message comes before a message with a later timestamp.
pub open spec fn newest_first_sorted(s: Seq<SmsMessage>) -> bool {
    forall|a: int, b: int| 0 <= a < b < s.len() ==> !str_lt(#[trigger] s[a].timestamp@, #[trigger] s[b].timestamp@)
}

/// The inbox order is sorted newest first, and it holds the same messages.
pub proof fn law_newest_first_sorted(ms: Seq<SmsMessage>)
    ensures
        newest_first_sorted(spec_newest_first(ms)),
        spec_newest_first(ms).to_multiset() == ms.to_multiset(),
    decreases ms.len(),
{
    if ms.len() > 0 {
        let s = spec_newest_first(ms.drop_last());
        let x = ms.last();
        let k = x.timestamp@;
        law_newest_first_sorted(ms.drop_last());
        lemma_insert_pos(s, k, 0);
        let p = insert_pos(s, k, 0);
        let r = s.insert(p, x);
        s.insert_ensures(p, x);
        assert forall|a: int, b: int| 0 <= a < b < r.len() implies !str_lt(#[trigger] r[a].timestamp@, #[trigger] r[b].timestamp@) by {
            if b < p {
                assert(r[a] == s[a] && r[b] == s[b]);
            } else if b == p {
                assert(r[a] == s[a]);
                assert(!str_lt(s[a].timestamp@, k));
            } else if a == p {
                assert(r[b] == s[b - 1]);
                if p < s.len() {
                    let q = s[p].timestamp@;
                    assert(str_lt(q, k));
                    if b - 1 > p {
                        assert(!str_lt(q, s[b - 1].timestamp@));
                        lemma_str_lt_total(q, s[b - 1].timestamp@);
                        if q == s[b - 1].timestamp@ {
                        } else {
                            lemma_str_lt_transitive(s[b - 1].timestamp@, q, k);
                        }
                    }
                    lemma_str_lt_asymmetric(s[b - 1].timestamp@, k);
                    if str_lt(k, s[b - 1].timestamp@) {
                        if b - 1 == p {
                            lemma_str_lt_asymmetric(q, k);
                        } else {
                            lemma_str_lt_transitive(q, k, s[b - 1].timestamp@);
                        }
                    }
                }
            } else if a < p {
                assert(r[a] == s[a] && r[b] == s[b - 1]);
            } else {
                assert(r[a] == s[a - 1] && r[b] == s[b - 1]);
            }
        }
        assert(ms =~= ms.drop_last().push(x));
        let a = s.subrange(0, p);
        let b = s.subrange(p, s.len() as int);
        assert(s =~= a + b);
        assert(r =~= a.push(x) + b);
        assert(r.to_multiset() =~= s.to_multiset().insert(x)) by {
            broadcast use vstd::multiset::group_multiset_axioms;
            vstd::seq_lib::lemma_multiset_commutative(a.push(x), b);
            vstd::seq_lib::lemma_multiset_commutative(a, b);
            a.to_multiset_ensures();
        }
        ms.drop_last().to_multiset_ensures();
        assert(ms.drop_last().push(x).to_multiset() == ms.drop_last().to_multiset().insert(x));
        assert(spec_newest_first(ms) == r);
    } else {
        assert(ms =~= Seq::<SmsMessage>::empty());
    }
}

/// The messages of an inbox, newest first.
pub fn newest_first(messages: Vec<SmsMessage>) -> (r: Vec<SmsMessage>)
    ensures
        r@ == spec_newest_first(messages@),
{
    let ghost all = messages@;
    assert(all.len() == messages.len());
    let mut rest = messages;
    let mut out: Vec<SmsMessage> = Vec::new();
    let mut i: usize = 0;
    assert(all.take(0) =~= Seq::<SmsMessage>::empty());
    while rest.len() > 0
        invariant
            i + rest@.len() == all.len(),
            all.len() <= usize::MAX,
            rest@ == all.skip(i as int),
            out@ == spec_newest_first(all.take(i as int)),
        decreases rest.len(),
    {
        let x = rest.remove(0);
        assert(x == all[i as int]);
        let kv = text::chars_of(x.timestamp.as_str());
        let mut j: usize = 0;
        let mut found = false;
        while !found && j < out.len()
            invariant
                j <= out.len(),
                kv@ == x.timestamp@,
                found ==> j < out.len() && str_lt(out@[j as int].timestamp@, kv@),
                insert_pos(out@, kv@, 0) == insert_pos(out@, kv@, j as int),
            decreases (out.len() - j) * 2 + (if found { 0int } else { 1int }),
        {
            let tv = text::chars_of(out[j].timestamp.as_str());
            if str_lt_exec(tv.as_slice(), kv.as_slice()) {
                found = true;
            } else {
                j += 1;
            }
        }
        assert(insert_pos(out@, kv@, 0) == j);
        assert(all.take(i + 1).drop_last() =~= all.take(i as int));
        assert(all.take(i + 1).last() == x);
        out.insert(j, x);
        i += 1;
        assert(rest@ =~= all.skip(i as int));
    }
    assert(all.take(i as int) =~= all);
    out
}

/// A character allowed in a D-Bus object path element.
pub open spec fn path_char(c: char) -> bool {
    ('A' <= c && c <= 'Z') || ('a' <= c && c <= 'z') || ('0' <= c && c <= '9') || c == '_'
}

/// The D-Bus object path grammar: `/`, or `/` followed by non-empty
/// elements of `[A-Za-z0-9_]` separated by single slashes.
pub open spec fn is_object_path(s: Seq<char>) -> bool {
    &&& s.len() > 0
    &&& s[0] == '/'
    &&& (s.len() == 1 || s.last() != '/')
    &&& forall|i: int| 0 <= i < s.len() ==> #[trigger] path_char(s[i]) || s[i] == '/'
    &&& forall|i: int| 0 <= i < s.len() - 1 ==> !(#[trigger] s[i] == '/' && s[i + 1] == '/')
}

/// Whether `s` is a valid D-Bus object path (the check made before an SMS
/// is deleted by its path).
pub fn valid_object_path(s: &str) -> (r: bool)
    ensures
        r == is_object_path(s@),
{
    let v = text::chars_of(s);
    let n = v.len();
    if n == 0 || v[0] != '/' {
        return false;
    }
    if n > 1 && v[n - 1] == '/' {
        return false;
    }
    let mut i: usize = 0;
    while i < n
        invariant
            n == v@.len(),
            v@ == s@,
            i <= n,
            forall|k: int| 0 <= k < i ==> #[trigger] path_char(v@[k]) || v@[k] == '/',
            forall|k: int| 0 <= k < i && k < n - 1 ==> !(#[trigger] v@[k] == '/' && v@[k + 1] == '/'),
        decreases n - i,
    {
        let c = v[i];
        let ok = ('A' <= c && c <= 'Z') || ('a' <= c && c <= 'z') || ('0' <= c && c <= '9') || c == '_' || c == '/';
        if !ok {
            assert(!(path_char(v@[i as int]) || v@[i as int] == '/'));
            return false;
        }
        if c == '/' && i + 1 < n && v[i + 1] == '/' {
            assert(v@[i as int] == '/' && v@[i + 1] == '/');
            return false;
        }
        i += 1;
    }
    true
}

} // verus!

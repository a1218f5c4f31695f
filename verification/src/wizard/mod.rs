//! The first-run wizard's decisions: which serial devices to offer and in
//! what order, how each answer is read, which baud rates the link-speed
//! rehearsal tries and which one it settles on.
use vstd::prelude::*;
use vstd::string::StringExecFns;
use crate::config::{RolePreference, MIN_BAUD};
use crate::text::{
    ascii_lower, ascii_lower_vec, chars_of, eq_str, eq_chars, find_char, is_prefix, parse_unsigned,
    parse_unsigned_chars, same_text, starts_with_str, string_of, trim, trim_vec,
};

pub mod flow;
pub mod rehearsal;

verus! {

/// The file name part of a device path: what follows its last `/`.
pub open spec fn device_name(path: Seq<char>) -> Seq<char>
    decreases path.len(),
{
    if path.len() == 0 {
        path
    } else if path.last() == '/' {
        Seq::empty()
    } else {
        device_name(path.drop_last()).push(path.last())
    }
}

/// How likely a device is to be the link: USB adapters first, then ACM
/// modems, the Pi's UART, other UARTs, anything else last.
pub open spec fn device_weight(name: Seq<char>) -> u8 {
    if is_prefix("ttyUSB"@, name) {
        0
    } else if is_prefix("ttyACM"@, name) {
        1
    } else if is_prefix("ttyAMA"@, name) {
        2
    } else if is_prefix("ttyS"@, name) {
        3
    } else {
        4
    }
}

/// Lexicographic order of character sequences (as `str` orders them).
pub open spec fn lex_le(a: Seq<char>, b: Seq<char>) -> bool
    decreases a.len(),
{
    if a.len() == 0 {
        true
    } else if b.len() == 0 {
        false
    } else if (a[0] as u32) < (b[0] as u32) {
        true
    } else if (a[0] as u32) > (b[0] as u32) {
        false
    } else {
        lex_le(a.drop_first(), b.drop_first())
    }
}

/// Device order: by weight, then by file name.
pub open spec fn device_le(a: Seq<char>, b: Seq<char>) -> bool {
    let (wa, wb) = (device_weight(device_name(a)), device_weight(device_name(b)));
    wa < wb || (wa == wb && lex_le(device_name(a), device_name(b)))
}

/// Whether devices are in ranking order.
pub open spec fn ranked(s: Seq<Seq<char>>) -> bool {
    forall|i: int, j: int| 0 <= i < j < s.len() ==> device_le(#[trigger] s[i], #[trigger] s[j])
}

pub proof fn lemma_lex_total(a: Seq<char>, b: Seq<char>)
    ensures
        lex_le(a, b) || lex_le(b, a),
    decreases a.len(),
{
    if a.len() > 0 && b.len() > 0 && a[0] == b[0] {
        lemma_lex_total(a.drop_first(), b.drop_first());
    }
    if a.len() > 0 && b.len() > 0 && (a[0] as u32) == (b[0] as u32) {
        lemma_lex_total(a.drop_first(), b.drop_first());
    }
}

pub proof fn lemma_lex_trans(a: Seq<char>, b: Seq<char>, c: Seq<char>)
    requires
        lex_le(a, b),
        lex_le(b, c),
    ensures
        lex_le(a, c),
    decreases a.len(),
{
    if a.len() > 0 && b.len() > 0 && c.len() > 0 {
        if (a[0] as u32) == (b[0] as u32) && (b[0] as u32) == (c[0] as u32) {
            lemma_lex_trans(a.drop_first(), b.drop_first(), c.drop_first());
        }
    }
}

pub proof fn lemma_device_total(a: Seq<char>, b: Seq<char>)
    ensures
        device_le(a, b) || device_le(b, a),
{
    lemma_lex_total(device_name(a), device_name(b));
}

pub proof fn lemma_device_trans(a: Seq<char>, b: Seq<char>, c: Seq<char>)
    requires
        device_le(a, b),
        device_le(b, c),
    ensures
        device_le(a, c),
{
    if device_weight(device_name(a)) == device_weight(device_name(b)) && device_weight(
        device_name(b),
    ) == device_weight(device_name(c)) {
        lemma_lex_trans(device_name(a), device_name(b), device_name(c));
    }
}

fn device_name_chars(path: &str) -> (r: Vec<char>)
    ensures
        r@ == device_name(path@),
{
    let v = chars_of(path);
    let mut start: usize = 0;
    let mut i: usize = 0;
    while i < v.len()
        invariant
            v@ == path@,
            start <= i <= v@.len(),
            device_name(v@.take(i as int)) == v@.subrange(start as int, i as int),
        decreases v@.len() - i,
    {
        assert(v@.take(i + 1).drop_last() =~= v@.take(i as int));
        if v[i] == '/' {
            start = i + 1;
            assert(v@.subrange(start as int, i + 1) =~= Seq::<char>::empty());
        } else {
            assert(v@.subrange(start as int, i + 1) =~= v@.subrange(start as int, i as int).push(v@[i as int]));
        }
        i = i + 1;
    }
    assert(v@.take(v@.len() as int) =~= v@);
    crate::text::slice_vec(v.as_slice(), start, v.len())
}

fn weight_of(name: &[char]) -> (r: u8)
    ensures
        r == device_weight(name@),
{
    if starts_with_str(name, "ttyUSB") {
        0
    } else if starts_with_str(name, "ttyACM") {
        1
    } else if starts_with_str(name, "ttyAMA") {
        2
    } else if starts_with_str(name, "ttyS") {
        3
    } else {
        4
    }
}

fn lex_le_chars(a: &[char], b: &[char]) -> (r: bool)
    ensures
        r == lex_le(a@, b@),
{
    let mut i: usize = 0;
    assert(a@.subrange(0, a@.len() as int) =~= a@);
    assert(b@.subrange(0, b@.len() as int) =~= b@);
    while i < a.len() && i < b.len()
        invariant
            i <= a@.len(),
            i <= b@.len(),
            lex_le(a@, b@) == lex_le(a@.subrange(i as int, a@.len() as int), b@.subrange(i as int, b@.len() as int)),
        decreases a@.len() - i,
    {
        let x = a[i] as u32;
        let y = b[i] as u32;
        let ghost sa = a@.subrange(i as int, a@.len() as int);
        let ghost sb = b@.subrange(i as int, b@.len() as int);
        assert(sa[0] == a@[i as int] && sb[0] == b@[i as int]);
        if x < y {
            return true;
        }
        if x > y {
            return false;
        }
        assert(sa.drop_first() =~= a@.subrange(i + 1, a@.len() as int));
        assert(sb.drop_first() =~= b@.subrange(i + 1, b@.len() as int));
        i = i + 1;
    }
    let ghost sa = a@.subrange(i as int, a@.len() as int);
    i >= a.len()
}

/// Whether device `a` ranks no later than `b`.
pub fn device_ranks_before(a: &str, b: &str) -> (r: bool)
    ensures
        r == device_le(a@, b@),
{
    let na = device_name_chars(a);
    let nb = device_name_chars(b);
    let wa = weight_of(na.as_slice());
    let wb = weight_of(nb.as_slice());
    wa < wb || (wa == wb && lex_le_chars(na.as_slice(), nb.as_slice()))
}

/// The ranking key of a device path: its weight and its file name.
pub fn device_rank_key(path: &str) -> (r: (u8, String))
    ensures
        r.0 == device_weight(device_name(path@)),
        r.1@ == device_name(path@),
{
    let name = device_name_chars(path);
    let w = weight_of(name.as_slice());
    (w, string_of(name.as_slice()))
}

/// How many devices at the front of `s` rank no later than `x`.
pub open spec fn leading_le(s: Seq<Seq<char>>, x: Seq<char>) -> nat
    decreases s.len(),
{
    if s.len() == 0 || !device_le(s[0], x) {
        0
    } else {
        1 + leading_le(s.drop_first(), x)
    }
}

/// The devices in ranking order, those with the same key in the order they
/// came: each one is put after the devices already placed that rank no
/// later than it.
pub open spec fn ranking(s: Seq<Seq<char>>) -> Seq<Seq<char>>
    decreases s.len(),
{
    if s.len() == 0 {
        s
    } else {
        let r = ranking(s.drop_last());
        r.insert(leading_le(r, s.last()) as int, s.last())
    }
}

proof fn lemma_leading_le(s: Seq<Seq<char>>, x: Seq<char>, p: int)
    requires
        0 <= p <= s.len(),
        forall|a: int| 0 <= a < p ==> device_le(#[trigger] s[a], x),
        p == s.len() || !device_le(s[p], x),
    ensures
        leading_le(s, x) == p,
    decreases p,
{
    if p > 0 {
        let rest = s.drop_first();
        assert forall|a: int| 0 <= a < p - 1 implies device_le(#[trigger] rest[a], x) by {
            assert(rest[a] == s[a + 1]);
        }
        if p < s.len() {
            assert(rest[p - 1] == s[p]);
        }
        lemma_leading_le(rest, x, p - 1);
    } else {
        assert(s.len() == 0 || !device_le(s[0], x));
    }
}

/// Sorts devices by likelihood: by weight, then by file name; devices with
/// the same key keep their order.
pub fn rank_serial_devices(devices: &mut Vec<String>)
    ensures
        final(devices)@.map_values(|s: String| s@) == ranking(old(devices)@.map_values(|s: String| s@)),
        ranked(final(devices)@.map_values(|s: String| s@)),
        final(devices)@.map_values(|s: String| s@).to_multiset() == old(devices)@.map_values(
            |s: String| s@,
        ).to_multiset(),
{
    let ghost input = devices@.map_values(|s: String| s@);
    let mut out: Vec<String> = Vec::new();
    assert(out@.map_values(|s: String| s@) =~= Seq::<Seq<char>>::empty());
    let mut i: usize = 0;
    let n = devices.len();
    assert(input.take(0) =~= Seq::<Seq<char>>::empty());
    while i < n
        invariant
            n == devices@.len(),
            input == devices@.map_values(|s: String| s@),
            i <= n,
            ranked(out@.map_values(|s: String| s@)),
            out@.map_values(|s: String| s@).to_multiset() == input.take(i as int).to_multiset(),
            out@.map_values(|s: String| s@) == ranking(input.take(i as int)),
        decreases n - i,
    {
        let x = devices[i].clone();
        let ghost cur = out@.map_values(|s: String| s@);
        let mut p: usize = 0;
        while p < out.len() && device_ranks_before(out[p].as_str(), x.as_str())
            invariant
                p <= out@.len(),
                cur == out@.map_values(|s: String| s@),
                forall|a: int| 0 <= a < p ==> device_le(#[trigger] cur[a], x@),
            decreases out@.len() - p,
        {
            p = p + 1;
        }
        proof {
            if p < out@.len() {
                assert(!device_le(cur[p as int], x@));
                lemma_device_total(cur[p as int], x@);
            }
            lemma_leading_le(cur, x@, p as int);
            assert(input.take(i + 1).drop_last() =~= input.take(i as int));
            assert(input.take(i + 1).last() == x@);
        }
        out.insert(p, x);
        let ghost next = out@.map_values(|s: String| s@);
        assert(next =~= cur.insert(p as int, x@));
        assert forall|a: int, b: int| 0 <= a < b < next.len() implies device_le(#[trigger] next[a], #[trigger] next[b]) by {
            if b < p {
                assert(next[a] == cur[a] && next[b] == cur[b]);
            } else if b == p {
                assert(next[a] == cur[a]);
            } else if a == p {
                assert(next[b] == cur[b - 1]);
                if p < cur.len() {
                    assert(device_le(x@, cur[p as int]));
                    if b - 1 > p {
                        assert(device_le(cur[p as int], cur[b - 1]));
                        lemma_device_trans(x@, cur[p as int], cur[b - 1]);
                    }
                }
            } else if a < p {
                assert(next[a] == cur[a] && next[b] == cur[b - 1]);
                assert(device_le(cur[a], x@));
                if p < cur.len() {
                    assert(device_le(x@, cur[p as int]));
                    lemma_device_trans(cur[a], x@, cur[p as int]);
                    if b - 1 > p {
                        lemma_device_trans(cur[a], cur[p as int], cur[b - 1]);
                    }
                }
            } else {
                assert(next[a] == cur[a - 1] && next[b] == cur[b - 1]);
            }
        }
        proof {
            vstd::seq_lib::to_multiset_insert(cur, p as int, x@);
            assert(input.take(i + 1) =~= input.take(i as int).push(x@));
            vstd::seq_lib::to_multiset_build(input.take(i as int), x@);
        }
        i = i + 1;
    }
    assert(input.take(n as int) =~= input);
    *devices = out;
}

/// `list` with `candidate` added at the end, unless it is empty or already
/// there.
pub open spec fn with_unique(list: Seq<Seq<char>>, candidate: Seq<char>) -> Seq<Seq<char>> {
    if candidate.len() == 0 || list.contains(candidate) {
        list
    } else {
        list.push(candidate)
    }
}

/// Adds `candidate` unless it is empty or already listed.
pub fn append_unique(list: &mut Vec<String>, candidate: String)
    ensures
        final(list)@.map_values(|s: String| s@) == with_unique(old(list)@.map_values(|s: String| s@), candidate@),
{
    let ghost before = list@.map_values(|s: String| s@);
    if candidate.as_str().unicode_len() == 0 {
        return;
    }
    let c = chars_of(candidate.as_str());
    let mut i: usize = 0;
    while i < list.len()
        invariant
            i <= list@.len(),
            before == list@.map_values(|s: String| s@),
            c@ == candidate@,
            forall|k: int| 0 <= k < i ==> before[k] != candidate@,
        decreases list@.len() - i,
    {
        let e = chars_of(list[i].as_str());
        if eq_chars(e.as_slice(), c.as_slice()) {
            assert(before[i as int] == candidate@);
            return;
        }
        i = i + 1;
    }
    list.push(candidate);
    assert(list@.map_values(|s: String| s@) =~= before.push(candidate@));
}

/// The usual serial device.
pub const DEFAULT_DEVICE: &'static str = "/dev/ttyUSB0";

/// What a wizard answer means.
pub enum Answer<T> {
    /// A value to use.
    Value(T),
    /// The answer asked for help.
    Help,
    /// The answer means nothing here: ask again.
    Invalid,
}

/// A yes/no answer: blank takes the default; `y`/`yes` and `n`/`no` in any case.
pub open spec fn yes_no_answer(response: Seq<char>, default: bool) -> Option<bool> {
    let t = trim(response);
    let l = ascii_lower(t);
    if t.len() == 0 {
        Some(default)
    } else if l == "y"@ || l == "yes"@ {
        Some(true)
    } else if l == "n"@ || l == "no"@ {
        Some(false)
    } else {
        None
    }
}

/// Reads a yes/no answer; `None` means ask again.
pub fn parse_yes_no(response: &str, default: bool) -> (r: Option<bool>)
    ensures
        r == yes_no_answer(response@, default),
{
    let t = trim_vec(chars_of(response).as_slice());
    if t.len() == 0 {
        return Some(default);
    }
    let l = ascii_lower_vec(t.as_slice());
    if eq_str(l.as_slice(), "y") || eq_str(l.as_slice(), "yes") {
        Some(true)
    } else if eq_str(l.as_slice(), "n") || eq_str(l.as_slice(), "no") {
        Some(false)
    } else {
        None
    }
}

/// How the user means to use this end of the link.
#[derive(Debug, Clone, Copy, PartialEq, Eq, Structural)]
pub enum UsageIntent {
    Server,
    Client,
    Standalone,
}

impl UsageIntent {
    pub fn as_str(&self) -> (r: &'static str)
        ensures
            r@ == intent_name(*self),
    {
        match self {
            UsageIntent::Server => "server",
            UsageIntent::Client => "client",
            UsageIntent::Standalone => "standalone",
        }
    }

    /// The role preference an intent implies.
    pub fn to_role_preference(&self) -> (r: RolePreference)
        ensures
            r == match *self {
                UsageIntent::Server => RolePreference::PreferServer,
                UsageIntent::Client => RolePreference::PreferClient,
                UsageIntent::Standalone => RolePreference::NoPreference,
            },
    {
        match self {
            UsageIntent::Server => RolePreference::PreferServer,
            UsageIntent::Client => RolePreference::PreferClient,
            UsageIntent::Standalone => RolePreference::NoPreference,
        }
    }

    /// The intent a role preference stands for.
    pub fn from_role_preference(pref: RolePreference) -> (r: UsageIntent)
        ensures
            r == match pref {
                RolePreference::PreferServer => UsageIntent::Server,
                RolePreference::PreferClient => UsageIntent::Client,
                RolePreference::NoPreference => UsageIntent::Standalone,
            },
    {
        match pref {
            RolePreference::PreferServer => UsageIntent::Server,
            RolePreference::PreferClient => UsageIntent::Client,
            RolePreference::NoPreference => UsageIntent::Standalone,
        }
    }
}

pub open spec fn intent_name(i: UsageIntent) -> Seq<char> {
    match i {
        UsageIntent::Server => "server"@,
        UsageIntent::Client => "client"@,
        UsageIntent::Standalone => "standalone"@,
    }
}

/// A usage-intent answer: blank takes the default; a number or a name.
pub open spec fn intent_answer(response: Seq<char>, default: UsageIntent) -> Answer<UsageIntent> {
    let t = trim(response);
    let l = ascii_lower(t);
    if t.len() == 0 {
        Answer::Value(default)
    } else if l == "1"@ || l == "server"@ {
        Answer::Value(UsageIntent::Server)
    } else if l == "2"@ || l == "client"@ {
        Answer::Value(UsageIntent::Client)
    } else if l == "3"@ || l == "standalone"@ || l == "solo"@ || l == "auto"@ {
        Answer::Value(UsageIntent::Standalone)
    } else if l == "?"@ || l == "help"@ {
        Answer::Help
    } else {
        Answer::Invalid
    }
}

/// The number the intent question offers for an intent: "Usage intent
/// (1=server, 2=client, 3=standalone)".
pub open spec fn intent_number(i: UsageIntent) -> Seq<char> {
    match i {
        UsageIntent::Server => "1"@,
        UsageIntent::Client => "2"@,
        UsageIntent::Standalone => "3"@,
    }
}

/// Every number the intent question offers, and every intent's name in any
/// case, reads back as that intent, whatever the default and whatever
/// whitespace surrounds the answer.
pub proof fn lemma_intent_answers_read_back(response: Seq<char>, default: UsageIntent, i: UsageIntent)
    requires
        trim(response) == intent_number(i) || ascii_lower(trim(response)) == intent_name(i),
    ensures
        intent_answer(response, default) == Answer::Value(i),
{
    reveal_strlit("1");
    reveal_strlit("2");
    reveal_strlit("3");
    reveal_strlit("server");
    reveal_strlit("client");
    reveal_strlit("standalone");
    reveal_strlit("solo");
    reveal_strlit("auto");
    let t = trim(response);
    let l = ascii_lower(t);
    if t == intent_number(i) {
        assert(t.len() == 1);
        assert(l.len() == 1 && l[0] == crate::text::lower_char(t[0]));
        assert(l =~= t);
    }
    assert(t.len() > 0);
    assert("1"@[0] != "2"@[0] && "1"@[0] != "3"@[0] && "2"@[0] != "3"@[0]);
    assert("1"@ != "2"@ && "1"@ != "3"@ && "2"@ != "3"@);
    assert("server"@[0] != "client"@[0]);
    assert("server"@.len() != "1"@.len() && "client"@.len() != "1"@.len() && "client"@.len() != "2"@.len());
    assert("standalone"@.len() != "1"@.len() && "standalone"@.len() != "2"@.len());
    assert("standalone"@.len() != "server"@.len() && "standalone"@.len() != "client"@.len());
    assert("server"@.len() != "2"@.len() && "server"@.len() != "3"@.len() && "client"@.len() != "3"@.len());
}

/// Reads a usage-intent answer.
pub fn parse_usage_intent(response: &str, default: UsageIntent) -> (r: Answer<UsageIntent>)
    ensures
        r == intent_answer(response@, default),
{
    let t = trim_vec(chars_of(response).as_slice());
    if t.len() == 0 {
        return Answer::Value(default);
    }
    let l = ascii_lower_vec(t.as_slice());
    let s = l.as_slice();
    if eq_str(s, "1") || eq_str(s, "server") {
        Answer::Value(UsageIntent::Server)
    } else if eq_str(s, "2") || eq_str(s, "client") {
        Answer::Value(UsageIntent::Client)
    } else if eq_str(s, "3") || eq_str(s, "standalone") || eq_str(s, "solo") || eq_str(s, "auto") {
        Answer::Value(UsageIntent::Standalone)
    } else if eq_str(s, "?") || eq_str(s, "help") {
        Answer::Help
    } else {
        Answer::Invalid
    }
}

/// A role answer: a number or a name (blank is not special: the default
/// label stands in for it).
pub open spec fn role_answer(response: Seq<char>) -> Answer<RolePreference> {
    let l = ascii_lower(trim(response));
    if l == "1"@ || l == "server"@ {
        Answer::Value(RolePreference::PreferServer)
    } else if l == "2"@ || l == "client"@ {
        Answer::Value(RolePreference::PreferClient)
    } else if l == "3"@ || l == "standalone"@ || l == "auto"@ || l == "none"@ {
        Answer::Value(RolePreference::NoPreference)
    } else if l == "?"@ || l == "help"@ {
        Answer::Help
    } else {
        Answer::Invalid
    }
}

/// The number the role question offers for a preference: "Preferred role
/// (1=server, 2=client, 3=auto)".
pub open spec fn role_number(p: RolePreference) -> Seq<char> {
    match p {
        RolePreference::PreferServer => "1"@,
        RolePreference::PreferClient => "2"@,
        RolePreference::NoPreference => "3"@,
    }
}

/// Every number the role question offers, and every preference's name in
/// any case, reads back as that preference, whatever whitespace surrounds
/// the answer.
pub proof fn lemma_role_answers_read_back(response: Seq<char>, p: RolePreference)
    requires
        trim(response) == role_number(p) || ascii_lower(trim(response))
            == crate::config::role_preference_name(p),
    ensures
        role_answer(response) == Answer::Value(p),
{
    reveal_strlit("1");
    reveal_strlit("2");
    reveal_strlit("3");
    reveal_strlit("server");
    reveal_strlit("client");
    reveal_strlit("standalone");
    reveal_strlit("auto");
    reveal_strlit("none");
    let t = trim(response);
    let l = ascii_lower(t);
    if t == role_number(p) {
        assert(t.len() == 1);
        assert(l.len() == 1 && l[0] == crate::text::lower_char(t[0]));
        assert(l =~= t);
    }
    assert("1"@[0] != "2"@[0] && "1"@[0] != "3"@[0] && "2"@[0] != "3"@[0]);
    assert("1"@ != "2"@ && "1"@ != "3"@ && "2"@ != "3"@);
    assert("server"@[0] != "client"@[0]);
    assert("server"@.len() != "1"@.len() && "server"@.len() != "2"@.len() && "server"@.len() != "3"@.len());
    assert("client"@.len() != "1"@.len() && "client"@.len() != "2"@.len() && "client"@.len() != "3"@.len());
    assert("auto"@.len() != "1"@.len() && "auto"@.len() != "2"@.len() && "auto"@.len() != "3"@.len());
    assert("auto"@.len() != "server"@.len() && "auto"@.len() != "client"@.len());
}

/// Reads a role answer.
pub fn parse_role(response: &str) -> (r: Answer<RolePreference>)
    ensures
        r == role_answer(response@),
{
    let t = trim_vec(chars_of(response).as_slice());
    let l = ascii_lower_vec(t.as_slice());
    let s = l.as_slice();
    if eq_str(s, "1") || eq_str(s, "server") {
        Answer::Value(RolePreference::PreferServer)
    } else if eq_str(s, "2") || eq_str(s, "client") {
        Answer::Value(RolePreference::PreferClient)
    } else if eq_str(s, "3") || eq_str(s, "standalone") || eq_str(s, "auto") || eq_str(s, "none") {
        Answer::Value(RolePreference::NoPreference)
    } else if eq_str(s, "?") || eq_str(s, "help") {
        Answer::Help
    } else {
        Answer::Invalid
    }
}

/// The label the role prompt shows for its default.
pub fn role_default_label(pref: RolePreference) -> (r: &'static str)
    ensures
        r@ == match pref {
            RolePreference::PreferServer => "server"@,
            RolePreference::PreferClient => "client"@,
            RolePreference::NoPreference => "standalone"@,
        },
{
    match pref {
        RolePreference::PreferServer => "server",
        RolePreference::PreferClient => "client",
        RolePreference::NoPreference => "standalone",
    }
}

/// A baud answer: a decimal `u32` of at least 9600.
pub open spec fn baud_answer(response: Seq<char>) -> Option<u32> {
    match parse_unsigned(trim(response), 0xffff_ffff) {
        Some(v) => if v >= 9600 {
            Some(v as u32)
        } else {
            None
        },
        None => None,
    }
}

/// Reads a baud answer; `None` means ask again.
pub fn parse_baud_answer(response: &str) -> (r: Option<u32>)
    ensures
        r == baud_answer(response@),
{
    let t = trim_vec(chars_of(response).as_slice());
    match parse_unsigned_chars(t.as_slice(), 0xffff_ffff) {
        Some(v) => if v >= MIN_BAUD as u64 {
            Some(v as u32)
        } else {
            None
        },
        None => None,
    }
}

/// A display dimension answer: a decimal `u8` within `min..=max`.
pub open spec fn dimension_answer(response: Seq<char>, min: u8, max: u8) -> Option<u8> {
    match parse_unsigned(trim(response), 255) {
        Some(v) => if min <= v <= max {
            Some(v as u8)
        } else {
            None
        },
        None => None,
    }
}

/// Reads a display dimension answer; `None` means ask again.
pub fn parse_dimension_answer(response: &str, min: u8, max: u8) -> (r: Option<u8>)
    ensures
        r == dimension_answer(response@, min, max),
{
    let t = trim_vec(chars_of(response).as_slice());
    match parse_unsigned_chars(t.as_slice(), 255) {
        Some(v) => if min as u64 <= v && v <= max as u64 {
            Some(v as u8)
        } else {
            None
        },
        None => None,
    }
}

/// What a device answer selects.
pub enum DeviceSelection {
    Selected(String),
    Rescan,
    Invalid,
}

/// A device answer: blank takes the default, `r`/`rescan` asks for a new
/// scan, a number picks from the list (from 1), a `/dev/` path is taken as
/// it is.
pub open spec fn device_answer(response: Seq<char>, candidates: Seq<Seq<char>>, default: Seq<char>) -> Option<Option<Seq<char>>> {
    let t = trim(response);
    let l = ascii_lower(t);
    if t.len() == 0 {
        Some(Some(default))
    } else if l == "r"@ || l == "rescan"@ {
        Some(None)
    } else {
        match parse_unsigned(t, usize::MAX as nat) {
            Some(idx) if 1 <= idx <= candidates.len() => Some(Some(candidates[idx - 1])),
            _ => if is_prefix("/dev/"@, t) {
                Some(Some(t))
            } else {
                None
            },
        }
    }
}

/// Reads a device answer.
pub fn parse_device_answer(response: &str, candidates: &Vec<String>, default: &str) -> (r: DeviceSelection)
    ensures
        match device_answer(response@, candidates@.map_values(|s: String| s@), default@) {
            Some(Some(d)) => r matches DeviceSelection::Selected(s) && s@ == d,
            Some(None) => r is Rescan,
            None => r is Invalid,
        },
{
    let ghost list = candidates@.map_values(|s: String| s@);
    let t = trim_vec(chars_of(response).as_slice());
    if t.len() == 0 {
        return DeviceSelection::Selected(String::from_str(default));
    }
    let l = ascii_lower_vec(t.as_slice());
    if eq_str(l.as_slice(), "r") || eq_str(l.as_slice(), "rescan") {
        return DeviceSelection::Rescan;
    }
    match parse_unsigned_chars(t.as_slice(), usize::MAX as u64) {
        Some(idx) => if 1 <= idx && idx <= candidates.len() as u64 {
            let k = (idx - 1) as usize;
            assert(list[k as int] == candidates@[k as int]@);
            return DeviceSelection::Selected(candidates[k].clone());
        },
        None => {},
    }
    if starts_with_str(t.as_slice(), "/dev/") {
        DeviceSelection::Selected(string_of(t.as_slice()))
    } else {
        DeviceSelection::Invalid
    }
}

/// The baud rates the link-speed rehearsal tries: the standard rates from
/// 9600 to 115200, plus the configured rate when it is faster than 9600,
/// in increasing order without repeats.
pub open spec fn rehearsal_rates(configured: u32) -> Seq<u32> {
    let standard = seq![9600u32, 19200, 38400, 57600, 115200];
    if configured <= 9600 || standard.contains(configured) {
        standard
    } else if configured < 19200 {
        seq![9600u32, configured, 19200, 38400, 57600, 115200]
    } else if configured < 38400 {
        seq![9600u32, 19200, configured, 38400, 57600, 115200]
    } else if configured < 57600 {
        seq![9600u32, 19200, 38400, configured, 57600, 115200]
    } else if configured < 115200 {
        seq![9600u32, 19200, 38400, 57600, configured, 115200]
    } else {
        seq![9600u32, 19200, 38400, 57600, 115200, configured]
    }
}

/// The baud rates the link-speed rehearsal tries.
pub fn rehearsal_candidates(configured: u32) -> (r: Vec<u32>)
    ensures
        r@ == rehearsal_rates(configured),
{
    let mut v: Vec<u32> = Vec::new();
    let std_rates: [u32; 5] = [9600, 19200, 38400, 57600, 115200];
    let extra = configured > MIN_BAUD && configured != 19200 && configured != 38400
        && configured != 57600 && configured != 115200;
    let mut i: usize = 0;
    let mut placed = false;
    while i < 5
        invariant
            i <= 5,
            std_rates@ == seq![9600u32, 19200, 38400, 57600, 115200],
            extra == (configured > 9600 && configured != 19200 && configured != 38400
                && configured != 57600 && configured != 115200),
            placed ==> extra,
            extra && !placed ==> forall|k: int| 0 <= k < i ==> std_rates@[k] < configured,
            extra && placed ==> exists|k: int| 0 <= k < i && configured < std_rates@[k] && (k == 0 || std_rates@[k - 1] < configured) && v@ == std_rates@.take(k) + seq![configured] + std_rates@.subrange(k, i as int),
            !placed ==> v@ == std_rates@.take(i as int),
        decreases 5 - i,
    {
        if extra && !placed && configured < std_rates[i] {
            v.push(configured);
            placed = true;
            assert(v@ == std_rates@.take(i as int) + seq![configured] + std_rates@.subrange(i as int, i as int));
        }
        proof {
            if extra && !placed {
                assert(std_rates@[0] == 9600 && std_rates@[1] == 19200 && std_rates@[2] == 38400
                    && std_rates@[3] == 57600 && std_rates@[4] == 115200);
                assert(i == 0 || i == 1 || i == 2 || i == 3 || i == 4);
                assert(configured != std_rates@[i as int]);
            }
        }
        let ghost before = v@;
        v.push(std_rates[i]);
        proof {
            if extra && placed {
                let k = choose|k: int| 0 <= k < i + 1 && configured < std_rates@[k] && (k == 0 || std_rates@[k - 1] < configured) && before == std_rates@.take(k) + seq![configured] + std_rates@.subrange(k, i as int);
                assert(v@ =~= std_rates@.take(k) + seq![configured] + std_rates@.subrange(k, i + 1));
            } else {
                assert(v@ =~= std_rates@.take(i + 1));
            }
        }
        i = i + 1;
    }
    if extra && !placed {
        v.push(configured);
    }
    proof {
        let std = seq![9600u32, 19200, 38400, 57600, 115200];
        assert(std.contains(19200u32) && std[1] == 19200);
        if configured <= 9600 || std.contains(configured) {
            if std.contains(configured) {
                let k = choose|k: int| 0 <= k < 5 && std[k] == configured;
                assert(!extra);
            }
            assert(v@ =~= rehearsal_rates(configured));
        } else {
            assert(extra) by {
                assert(std[1] == 19200 && std[2] == 38400 && std[3] == 57600 && std[4] == 115200);
            }
            if placed {
                let k = choose|k: int| 0 <= k < 5 && configured < std_rates@[k] && (k == 0 || std_rates@[k - 1] < configured) && v@ == std_rates@.take(k) + seq![configured] + std_rates@.subrange(k, 5);
                assert(v@ =~= rehearsal_rates(configured));
            } else {
                assert(v@ =~= rehearsal_rates(configured));
            }
        }
    }
    v
}

/// The rates a rehearsal goes through: those of at least 9600, the first
/// eight of them.
pub open spec fn rehearsal_plan(candidates: Seq<u32>) -> Seq<u32>
    decreases candidates.len(),
{
    if candidates.len() == 0 {
        Seq::empty()
    } else {
        let prev = rehearsal_plan(candidates.drop_last());
        if candidates.last() >= 9600 && prev.len() < 8 {
            prev.push(candidates.last())
        } else {
            prev
        }
    }
}

/// The rates a rehearsal goes through.
pub fn rehearsal_bauds(candidates: &[u32]) -> (r: Vec<u32>)
    ensures
        r@ == rehearsal_plan(candidates@),
{
    let mut out: Vec<u32> = Vec::new();
    let mut i: usize = 0;
    while i < candidates.len()
        invariant
            i <= candidates@.len(),
            out@ == rehearsal_plan(candidates@.take(i as int)),
        decreases candidates@.len() - i,
    {
        assert(candidates@.take(i + 1).drop_last() =~= candidates@.take(i as int));
        if candidates[i] >= MIN_BAUD && out.len() < 8 {
            out.push(candidates[i]);
        }
        i = i + 1;
    }
    assert(candidates@.take(candidates@.len() as int) =~= candidates@);
    out
}

/// How many attempts at the start worked.
pub open spec fn leading_successes(results: Seq<(u32, bool)>) -> nat
    decreases results.len(),
{
    if results.len() == 0 || !results[0].1 {
        0
    } else {
        1 + leading_successes(results.drop_first())
    }
}

/// The rate a rehearsal settles on: the last rate that worked before the
/// first failure (the rehearsal stops there), 9600 when none worked.
pub open spec fn chosen_rate(results: Seq<(u32, bool)>) -> u32 {
    let k = leading_successes(results);
    if k == 0 {
        9600
    } else {
        results[k - 1].0
    }
}

proof fn lemma_leading_successes(results: Seq<(u32, bool)>, i: int)
    requires
        0 <= i <= results.len(),
        forall|k: int| 0 <= k < i ==> (#[trigger] results[k]).1,
        i == results.len() || !results[i].1,
    ensures
        leading_successes(results) == i,
    decreases i,
{
    if i > 0 {
        let rest = results.drop_first();
        assert forall|k: int| 0 <= k < i - 1 implies (#[trigger] rest[k]).1 by {
            assert(rest[k] == results[k + 1]);
        }
        if i < results.len() {
            assert(rest[i - 1] == results[i]);
        }
        lemma_leading_successes(rest, i - 1);
    }
}

/// The rate a rehearsal settles on, from its attempts in order.
pub fn choose_rehearsal_baud(results: &[(u32, bool)]) -> (r: u32)
    ensures
        r == chosen_rate(results@),
{
    let mut best: u32 = MIN_BAUD;
    let mut i: usize = 0;
    while i < results.len()
        invariant
            i <= results@.len(),
            forall|k: int| 0 <= k < i ==> (#[trigger] results@[k]).1,
            i > 0 ==> best == results@[i - 1].0,
            i == 0 ==> best == 9600,
        ensures
            i <= results@.len(),
            forall|k: int| 0 <= k < i ==> (#[trigger] results@[k]).1,
            i > 0 ==> best == results@[i - 1].0,
            i == 0 ==> best == 9600,
            i == results@.len() || !results@[i as int].1,
        decreases results@.len() - i,
    {
        if !results[i].1 {
            break;
        }
        best = results[i].0;
        i = i + 1;
    }
    proof {
        lemma_leading_successes(results@, i as int);
    }
    best
}

/// Where the link-speed rehearsal keeps its log.
pub fn link_rehearsal_log_path() -> (r: String)
    ensures
        r@ == "/run/serial_lcd_cache"@ + "/wizard/link_rehearsal.log"@,
{
    crate::concat2(crate::CACHE_DIR, "/wizard/link_rehearsal.log")
}

/// `acc` with each of `xs` added in turn, skipping empty ones and repeats.
pub open spec fn with_all_unique(acc: Seq<Seq<char>>, xs: Seq<Seq<char>>) -> Seq<Seq<char>>
    decreases xs.len(),
{
    if xs.len() == 0 {
        acc
    } else {
        with_unique(with_all_unique(acc, xs.drop_last()), xs.last())
    }
}

/// `acc` with each of `xs` but `skip` added in turn, skipping empty ones
/// and repeats.
pub open spec fn with_all_unique_but(acc: Seq<Seq<char>>, xs: Seq<Seq<char>>, skip: Seq<char>) -> Seq<Seq<char>>
    decreases xs.len(),
{
    if xs.len() == 0 {
        acc
    } else {
        let prev = with_all_unique_but(acc, xs.drop_last(), skip);
        if xs.last() == skip {
            prev
        } else {
            with_unique(prev, xs.last())
        }
    }
}

/// The devices the wizard offers: those found, the configured one and the
/// usual one, each once and in ranking order; when a configuration exists,
/// its device comes first.
pub open spec fn offered_devices(scanned: Seq<Seq<char>>, configured: Seq<char>, has_existing_config: bool) -> Seq<Seq<char>> {
    let ranked = ranking(with_unique(with_unique(with_all_unique(Seq::empty(), scanned), configured), DEFAULT_DEVICE@));
    if has_existing_config {
        with_all_unique_but(with_unique(Seq::empty(), configured), ranked, configured)
    } else {
        ranked
    }
}

fn add_all(list: &mut Vec<String>, xs: &Vec<String>, skip: Option<&str>)
    ensures
        final(list)@.map_values(|s: String| s@) == match skip {
            Some(k) => with_all_unique_but(old(list)@.map_values(|s: String| s@), xs@.map_values(|s: String| s@), k@),
            None => with_all_unique(old(list)@.map_values(|s: String| s@), xs@.map_values(|s: String| s@)),
        },
{
    let ghost start = list@.map_values(|s: String| s@);
    let ghost xv = xs@.map_values(|s: String| s@);
    let mut i: usize = 0;
    assert(xv.take(0) =~= Seq::<Seq<char>>::empty());
    while i < xs.len()
        invariant
            i <= xs@.len(),
            xv == xs@.map_values(|s: String| s@),
            list@.map_values(|s: String| s@) == match skip {
                Some(k) => with_all_unique_but(start, xv.take(i as int), k@),
                None => with_all_unique(start, xv.take(i as int)),
            },
        decreases xs@.len() - i,
    {
        assert(xv.take(i + 1).drop_last() =~= xv.take(i as int));
        assert(xv.take(i + 1).last() == xs@[i as int]@);
        let skipped = match skip {
            Some(k) => same_text(xs[i].as_str(), k),
            None => false,
        };
        if !skipped {
            append_unique(list, xs[i].clone());
        }
        i = i + 1;
    }
    assert(xv.take(xs@.len() as int) =~= xv);
}

/// The devices the wizard offers, from those a scan of `/dev` found.
pub fn device_candidates(scanned: &Vec<String>, configured: &str, has_existing_config: bool) -> (r: Vec<String>)
    ensures
        r@.map_values(|s: String| s@) == offered_devices(
            scanned@.map_values(|s: String| s@),
            configured@,
            has_existing_config,
        ),
{
    let mut ranked: Vec<String> = Vec::new();
    assert(ranked@.map_values(|s: String| s@) =~= Seq::<Seq<char>>::empty());
    add_all(&mut ranked, scanned, None);
    append_unique(&mut ranked, String::from_str(configured));
    append_unique(&mut ranked, String::from_str(DEFAULT_DEVICE));
    rank_serial_devices(&mut ranked);
    if !has_existing_config {
        return ranked;
    }
    let mut devices: Vec<String> = Vec::new();
    assert(devices@.map_values(|s: String| s@) =~= Seq::<Seq<char>>::empty());
    append_unique(&mut devices, String::from_str(configured));
    add_all(&mut devices, &ranked, Some(configured));
    devices
}


/// Whether a `/dev` entry named `name` is a serial device the wizard offers:
/// a USB adapter, an ACM modem, the Pi's UART or another UART.
pub fn is_serial_device_name(name: &str) -> (r: bool)
    ensures
        r == (device_weight(name@) < 4),
{
    let v = chars_of(name);
    weight_of(v.as_slice()) < 4
}


} // verus!

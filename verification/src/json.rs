//! JSON documents as the library reads them, parsed by `serde_json`.
//!
//! The library takes a parsed value apart one level at a time; `JsonDoc` is
//! the mathematical model of a document that the contracts speak of.
use vstd::prelude::*;

verus! {

#[verifier::external_type_specification]
#[verifier::external_body]
pub struct ExJsonValue(serde_json::Value);

/// The model of a JSON document.
pub enum JsonDoc {
    Null,
    Bool(bool),
    /// A number, read as `u64` and as `i64` where it is an integer that fits
    /// (both `None` for a fraction or an exponent form).
    Number(Option<u64>, Option<i64>),
    Str(Seq<char>),
    Array(Seq<JsonDoc>),
    /// Members in the order in which the parsed value hands them out.
    Object(Seq<(Seq<char>, JsonDoc)>),
}

/// The document that `serde_json::from_str::<serde_json::Value>` reads from
/// `text`, or `None` where it refuses the text.
pub uninterp spec fn json_text_document(text: Seq<char>) -> Option<JsonDoc>;

/// The document that a parsed `serde_json::Value` holds.
pub uninterp spec fn value_document(v: serde_json::Value) -> JsonDoc;

/// One level of a parsed value; the children are still parsed values.
pub enum JsonNode {
    Null,
    Bool(bool),
    Number(Option<u64>, Option<i64>),
    Str(String),
    Array(Vec<serde_json::Value>),
    Object(Vec<(String, serde_json::Value)>),
}

/// The document that a node stands for.
pub open spec fn node_document(n: JsonNode) -> JsonDoc {
    match n {
        JsonNode::Null => JsonDoc::Null,
        JsonNode::Bool(b) => JsonDoc::Bool(b),
        JsonNode::Number(u, i) => JsonDoc::Number(u, i),
        JsonNode::Str(s) => JsonDoc::Str(s@),
        JsonNode::Array(items) => JsonDoc::Array(
            items@.map_values(|x: serde_json::Value| value_document(x)),
        ),
        JsonNode::Object(members) => JsonDoc::Object(
            members@.map_values(|m: (String, serde_json::Value)| (m.0@, value_document(m.1))),
        ),
    }
}

/// `serde_json::from_str::<serde_json::Value>`: the value read is the
/// document named by `json_text_document`; where the parser refuses the
/// text, the error carries its message, of which nothing is claimed.
#[verifier::external_body]
pub(crate) fn parse_value(text: &str) -> (r: Result<serde_json::Value, String>)
    ensures
        match r {
            Ok(v) => json_text_document(text@) == Some(value_document(v)),
            Err(_) => json_text_document(text@) is None,
        },
{
    serde_json::from_str::<serde_json::Value>(text).map_err(|e| e.to_string())
}

/// Takes a `serde_json::Value` apart by variant, moving each payload out:
/// a number is read with `Number::as_u64` and `Number::as_i64`, and the
/// members of an object come out in the order in which its map walks them.
/// The node stands for the same document as the value.
#[verifier::external_body]
pub(crate) fn split_value(v: serde_json::Value) -> (r: JsonNode)
    ensures
        node_document(r) == value_document(v),
{
    match v {
        serde_json::Value::Null => JsonNode::Null,
        serde_json::Value::Bool(b) => JsonNode::Bool(b),
        serde_json::Value::Number(n) => JsonNode::Number(n.as_u64(), n.as_i64()),
        serde_json::Value::String(s) => JsonNode::Str(s),
        serde_json::Value::Array(a) => JsonNode::Array(a),
        serde_json::Value::Object(m) => JsonNode::Object(m.into_iter().collect()),
    }
}

/// The items of `v`, last first, so that popping hands them out in order.
pub fn reversed_values(v: Vec<serde_json::Value>) -> (r: Vec<serde_json::Value>)
    ensures
        r@ == v@.reverse(),
{
    let ghost all = v@;
    let mut rest = v;
    let mut out: Vec<serde_json::Value> = Vec::new();
    while rest.len() > 0
        invariant
            all == rest@ + out@.reverse(),
        decreases rest@.len(),
    {
        let item = rest.pop().unwrap();
        out.push(item);
        assert(all =~= rest@ + out@.reverse());
    }
    assert(out@.reverse().reverse() =~= out@);
    assert(all.reverse() =~= out@);
    out
}

/// The members of `v`, last first, so that popping hands them out in order.
pub fn reversed_members(v: Vec<(String, serde_json::Value)>) -> (r: Vec<(String, serde_json::Value)>)
    ensures
        r@ == v@.reverse(),
{
    let ghost all = v@;
    let mut rest = v;
    let mut out: Vec<(String, serde_json::Value)> = Vec::new();
    while rest.len() > 0
        invariant
            all == rest@ + out@.reverse(),
        decreases rest@.len(),
    {
        let item = rest.pop().unwrap();
        out.push(item);
        assert(all =~= rest@ + out@.reverse());
    }
    assert(out@.reverse().reverse() =~= out@);
    assert(all.reverse() =~= out@);
    out
}

} // verus!

verus! {

/// A JSON string.
pub open spec fn doc_text(d: JsonDoc) -> Option<Seq<char>> {
    match d {
        JsonDoc::Str(s) => Some(s),
        _ => None,
    }
}

/// An optional JSON string: `null` reads as `None`.
pub open spec fn doc_opt_text(d: JsonDoc) -> Option<Option<Seq<char>>> {
    match d {
        JsonDoc::Null => Some(None),
        JsonDoc::Str(s) => Some(Some(s)),
        _ => None,
    }
}

/// An optional JSON boolean.
pub open spec fn doc_opt_bool(d: JsonDoc) -> Option<Option<bool>> {
    match d {
        JsonDoc::Null => Some(None),
        JsonDoc::Bool(b) => Some(Some(b)),
        _ => None,
    }
}

/// A non-negative integer no larger than `max`.
pub open spec fn doc_uint(d: JsonDoc, max: nat) -> Option<u64> {
    match d {
        JsonDoc::Number(Some(u), _) => if u <= max {
            Some(u)
        } else {
            None
        },
        _ => None,
    }
}

/// An optional non-negative integer no larger than `max`.
pub open spec fn doc_opt_uint(d: JsonDoc, max: nat) -> Option<Option<u64>> {
    match d {
        JsonDoc::Null => Some(None),
        _ => match doc_uint(d, max) {
            Some(u) => Some(Some(u)),
            None => None,
        },
    }
}

/// Whether every item of `items` is a JSON string.
pub open spec fn all_text(items: Seq<JsonDoc>) -> bool {
    forall|i: int| 0 <= i < items.len() ==> (#[trigger] items[i]) is Str
}

/// An optional array of JSON strings.
pub open spec fn doc_opt_text_list(d: JsonDoc) -> Option<Option<Seq<Seq<char>>>> {
    match d {
        JsonDoc::Null => Some(None),
        JsonDoc::Array(items) => if all_text(items) {
            Some(Some(items.map_values(|x: JsonDoc| x->Str_0)))
        } else {
            None
        },
        _ => None,
    }
}

/// Reads a JSON string.
pub fn read_text(v: serde_json::Value) -> (r: Option<String>)
    ensures
        match r {
            Some(s) => doc_text(value_document(v)) == Some(s@),
            None => doc_text(value_document(v)) is None,
        },
{
    match split_value(v) {
        JsonNode::Str(s) => Some(s),
        _ => None,
    }
}

/// Reads an optional JSON string.
pub fn read_opt_text(v: serde_json::Value) -> (r: Option<Option<String>>)
    ensures
        match r {
            Some(Some(s)) => doc_opt_text(value_document(v)) == Some(Some(s@)),
            Some(None) => doc_opt_text(value_document(v)) == Some(None::<Seq<char>>),
            None => doc_opt_text(value_document(v)) is None,
        },
{
    match split_value(v) {
        JsonNode::Null => Some(None),
        JsonNode::Str(s) => Some(Some(s)),
        _ => None,
    }
}

/// Reads an optional JSON boolean.
pub fn read_opt_bool(v: serde_json::Value) -> (r: Option<Option<bool>>)
    ensures
        r == doc_opt_bool(value_document(v)),
{
    match split_value(v) {
        JsonNode::Null => Some(None),
        JsonNode::Bool(b) => Some(Some(b)),
        _ => None,
    }
}

/// Reads a non-negative integer no larger than `max`.
pub fn read_uint(v: serde_json::Value, max: u64) -> (r: Option<u64>)
    ensures
        r == doc_uint(value_document(v), max as nat),
{
    match split_value(v) {
        JsonNode::Number(Some(u), _) => if u <= max {
            Some(u)
        } else {
            None
        },
        _ => None,
    }
}

/// Reads an optional non-negative integer no larger than `max`.
pub fn read_opt_uint(v: serde_json::Value, max: u64) -> (r: Option<Option<u64>>)
    ensures
        r == doc_opt_uint(value_document(v), max as nat),
{
    match split_value(v) {
        JsonNode::Null => Some(None),
        JsonNode::Number(Some(u), _) => if u <= max {
            Some(Some(u))
        } else {
            None
        },
        _ => None,
    }
}

/// Reads an optional array of JSON strings.
pub fn read_opt_text_list(v: serde_json::Value) -> (r: Option<Option<Vec<String>>>)
    ensures
        match r {
            Some(Some(list)) => doc_opt_text_list(value_document(v)) == Some(
                Some(list@.map_values(|s: String| s@)),
            ),
            Some(None) => doc_opt_text_list(value_document(v)) == Some(None::<Seq<Seq<char>>>),
            None => doc_opt_text_list(value_document(v)) is None,
        },
{
    match split_value(v) {
        JsonNode::Null => Some(None),
        JsonNode::Array(items) => {
            let ghost docs = items@.map_values(|x: serde_json::Value| value_document(x));
            let mut stack = reversed_values(items);
            let mut out: Vec<String> = Vec::new();
            let ghost n = docs.len();
            while stack.len() > 0
                invariant
                    n == docs.len(),
                    value_document(v) == JsonDoc::Array(docs),
                    stack@.len() + out@.len() == n,
                    forall|k: int|
                        0 <= k < stack@.len() ==> value_document(#[trigger] stack@[k]) == docs[n
                            - 1 - k],
                    forall|k: int| 0 <= k < out@.len() ==> docs[k] == JsonDoc::Str((#[trigger] out@[k])@),
                decreases stack@.len(),
            {
                let ghost before = stack@;
                let item = stack.pop().unwrap();
                assert(item == before[before.len() - 1]);
                match read_text(item) {
                    Some(s) => {
                        out.push(s);
                    },
                    None => {
                        assert(!(docs[out@.len() as int] is Str));
                        assert(!all_text(docs));
                        return None;
                    },
                }
            }
            assert forall|k: int| 0 <= k < docs.len() implies (#[trigger] docs[k]) is Str by {
                assert(docs[k] == JsonDoc::Str(out@[k]@));
            }
            assert(docs.map_values(|x: JsonDoc| x->Str_0) =~= out@.map_values(|s: String| s@));
            Some(Some(out))
        },
        _ => None,
    }
}

} // verus!

verus! {

/// The value of the first member named `key`.
pub open spec fn member_doc(ms: Seq<(Seq<char>, JsonDoc)>, key: Seq<char>) -> Option<JsonDoc>
    decreases ms.len(),
{
    if ms.len() == 0 {
        None
    } else {
        let prev = member_doc(ms.drop_last(), key);
        if prev is Some {
            prev
        } else if ms.last().0 == key {
            Some(ms.last().1)
        } else {
            None
        }
    }
}

/// The members of an object document, `None` for any other document.
pub open spec fn object_members(d: JsonDoc) -> Option<Seq<(Seq<char>, JsonDoc)>> {
    match d {
        JsonDoc::Object(ms) => Some(ms),
        _ => None,
    }
}

/// The documents of a list of optional values.
pub open spec fn slot_docs(slots: Seq<Option<serde_json::Value>>) -> Seq<Option<JsonDoc>> {
    slots.map_values(
        |o: Option<serde_json::Value>|
            match o {
                Some(v) => Some(value_document(v)),
                None => None,
            },
    )
}

/// For an object, the first member named by each key (other members are
/// ignored); `None` for any other value.
pub fn collect_members(v: serde_json::Value, keys: &[&str]) -> (r: Option<Vec<Option<serde_json::Value>>>)
    requires
        forall|a: int, b: int|
            0 <= a < keys@.len() && 0 <= b < keys@.len() && a != b ==> (#[trigger] keys@[a])@
                != (#[trigger] keys@[b])@,
    ensures
        match object_members(value_document(v)) {
            None => r is None,
            Some(ms) => r matches Some(slots) && slots@.len() == keys@.len() && forall|j: int|
                0 <= j < keys@.len() ==> #[trigger] slot_docs(slots@)[j] == member_doc(ms, keys@[j]@),
        },
{
    let ghost doc = value_document(v);
    let members = match split_value(v) {
        JsonNode::Object(members) => members,
        _ => {
            return None;
        },
    };
    let ghost ms = members@.map_values(
        |m: (String, serde_json::Value)| (m.0@, value_document(m.1)),
    );
    let ghost n = ms.len();
    let mut slots: Vec<Option<serde_json::Value>> = Vec::new();
    let mut j: usize = 0;
    while j < keys.len()
        invariant
            j <= keys@.len(),
            slots@.len() == j,
            forall|k: int| 0 <= k < j ==> (#[trigger] slots@[k]) is None,
        decreases keys@.len() - j,
    {
        slots.push(None);
        j = j + 1;
    }
    let mut stack = reversed_members(members);
    let total: usize = stack.len();
    assert(n == total);
    let mut i: usize = 0;
    assert(ms.take(0) =~= Seq::<(Seq<char>, JsonDoc)>::empty());
    assert forall|k: int| 0 <= k < keys@.len() implies #[trigger] slot_docs(slots@)[k] == member_doc(ms.take(0), keys@[k]@) by {}
    while stack.len() > 0
        invariant
            n == ms.len(),
            n <= usize::MAX,
            doc == JsonDoc::Object(ms),
            doc == value_document(v),
            stack@.len() + i == n,
            slots@.len() == keys@.len(),
            forall|a: int, b: int|
                0 <= a < keys@.len() && 0 <= b < keys@.len() && a != b ==> (#[trigger] keys@[a])@
                    != (#[trigger] keys@[b])@,
            forall|k: int|
                0 <= k < stack@.len() ==> (#[trigger] stack@[k]).0@ == ms[n - 1 - k].0
                    && value_document(stack@[k].1) == ms[n - 1 - k].1,
            forall|k: int|
                0 <= k < keys@.len() ==> #[trigger] slot_docs(slots@)[k] == member_doc(
                    ms.take(i as int),
                    keys@[k]@,
                ),
        decreases stack@.len(),
    {
        let ghost before = stack@;
        let ghost old_slots = slot_docs(slots@);
        let ghost slots_before = slots@;
        let (key, value) = stack.pop().unwrap();
        assert(before[before.len() - 1] == (key, value));
        let ghost m = ms[i as int];
        assert(m.0 == key@ && m.1 == value_document(value));
        assert(ms.take(i + 1).drop_last() =~= ms.take(i as int));
        assert(ms.take(i + 1).last() == m);
        let mut target: usize = keys.len();
        let mut k: usize = 0;
        while k < keys.len()
            invariant
                k <= keys@.len(),
                slots@ == slots_before,
                slots@.len() == keys@.len(),
                target == keys@.len() || (target < k && keys@[target as int]@ == key@ && slots@[target as int] is None),
                target == keys@.len() ==> forall|q: int| 0 <= q < k ==> !(keys@[q]@ == key@ && (#[trigger] slots@[q]) is None),
            decreases keys@.len() - k,
        {
            if target == keys.len() && crate::text::same_text(keys[k], key.as_str()) && slots[k].is_none() {
                target = k;
            }
            k = k + 1;
        }
        if target < keys.len() {
            let _ = slots.remove(target);
            slots.insert(target, Some(value));
            assert forall|q: int| 0 <= q < keys@.len() implies #[trigger] slot_docs(slots@)[q] == member_doc(
                ms.take(i + 1),
                keys@[q]@,
            ) by {
                assert(old_slots[q] == member_doc(ms.take(i as int), keys@[q]@));
                if q != target {
                    assert(slot_docs(slots@)[q] == old_slots[q]);
                }
            }
        } else {
            assert forall|q: int| 0 <= q < keys@.len() implies #[trigger] slot_docs(slots@)[q] == member_doc(
                ms.take(i + 1),
                keys@[q]@,
            ) by {
                assert(slot_docs(slots@)[q] == old_slots[q]);
                assert(old_slots[q] == member_doc(ms.take(i as int), keys@[q]@));
                if keys@[q]@ == key@ {
                    assert(slots_before[q] is Some);
                }
            }
        }
        i = i + 1;
    }
    assert(ms.take(n as int) =~= ms);
    Some(slots)
}

/// Takes the value out of slot `j`, leaving it empty.
pub fn take_slot(slots: &mut Vec<Option<serde_json::Value>>, j: usize) -> (r: Option<serde_json::Value>)
    requires
        j < old(slots)@.len(),
    ensures
        r == old(slots)@[j as int],
        final(slots)@ == old(slots)@.update(j as int, None),
{
    let r = slots.remove(j);
    slots.insert(j, None);
    assert(slots@ =~= old(slots)@.update(j as int, None));
    r
}

} // verus!

verus! {

/// Reads an integer that fits `i64`.
pub fn read_i64(v: serde_json::Value) -> (r: Option<i64>)
    ensures
        r == match value_document(v) {
            JsonDoc::Number(_, Some(i)) => Some(i),
            _ => None::<i64>,
        },
{
    match split_value(v) {
        JsonNode::Number(_, Some(i)) => Some(i),
        _ => None,
    }
}

} // verus!

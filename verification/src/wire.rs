//! The byte format of a structured clone.
//!
//! A value is written as a tag byte followed by a payload. Lengths and object
//! handles are eight bytes, numbers four, all little-endian; text is UTF-8.

use vstd::prelude::*;
use vstd::bytes::*;
use vstd::slice::*;
use vstd::utf8::*;
use crate::value::{lemma_array_view, models, Value, ValueModel};

verus! {

/// The tag of `undefined`. Nothing follows it.
pub const TAG_UNDEFINED: u8 = 0;

/// The tag of `null`. Nothing follows it.
pub const TAG_NULL: u8 = 1;

/// The tag of a boolean. One byte follows: 1 for `true`, 0 for `false`.
pub const TAG_BOOLEAN: u8 = 2;

/// The tag of a number. Its four bytes follow.
pub const TAG_NUMBER: u8 = 3;

/// The tag of a text. The length of its UTF-8 form follows, then that form.
pub const TAG_TEXT: u8 = 4;

/// The tag of an array. The number of its items follows, then the items.
pub const TAG_ARRAY: u8 = 5;

/// The tag of an object reference. The handle follows.
pub const TAG_OBJECT: u8 = 6;

/// A number as it is written: shifted so that the least `i32` becomes zero.
pub open spec fn biased(n: i32) -> u32 {
    (n + 0x8000_0000) as u32
}

/// The number that `u` was written for.
pub open spec fn unbiased(u: u32) -> i32 {
    (u - 0x8000_0000) as i32
}

/// Every length inside `v` fits the eight bytes the format gives it.
pub open spec fn encodable(v: ValueModel) -> bool
    decreases v,
{
    match v {
        ValueModel::Text(s) => encode_utf8(s).len() <= u64::MAX,
        ValueModel::Array(items) => items.len() <= u64::MAX && forall|i: int|
            0 <= i < items.len() ==> encodable(#[trigger] items[i]),
        _ => true,
    }
}

/// `v` holds no object reference, or object references may be carried.
pub open spec fn cloneable(v: ValueModel, objects: bool) -> bool
    decreases v,
{
    match v {
        ValueModel::Array(items) => forall|i: int|
            0 <= i < items.len() ==> cloneable(#[trigger] items[i], objects),
        ValueModel::Object(_) => objects,
        _ => true,
    }
}

/// An array can be carried where each of its items can, and fits the format
/// where its length and each of its items do.
pub proof fn lemma_array_properties(items: Seq<ValueModel>, objects: bool)
    ensures
        cloneable(ValueModel::Array(items), objects) <==> forall|i: int|
            0 <= i < items.len() ==> cloneable(#[trigger] items[i], objects),
        encodable(ValueModel::Array(items)) <==> items.len() <= u64::MAX && forall|i: int|
            0 <= i < items.len() ==> encodable(#[trigger] items[i]),
{
    assert(ValueModel::Array(items)->Array_0 == items);
}

/// The bytes that stand for `v`.
pub open spec fn encode(v: ValueModel) -> Seq<u8>
    decreases v, 0nat,
{
    match v {
        ValueModel::Undefined => seq![TAG_UNDEFINED],
        ValueModel::Null => seq![TAG_NULL],
        ValueModel::Boolean(b) => seq![TAG_BOOLEAN, if b { 1u8 } else { 0u8 }],
        ValueModel::Number(n) => seq![TAG_NUMBER] + spec_u32_to_le_bytes(biased(n)),
        ValueModel::Text(s) => seq![TAG_TEXT] + spec_u64_to_le_bytes(encode_utf8(s).len() as u64)
            + encode_utf8(s),
        ValueModel::Array(items) => seq![TAG_ARRAY] + spec_u64_to_le_bytes(items.len() as u64)
            + encode_items(items, items.len()),
        ValueModel::Object(h) => seq![TAG_OBJECT] + spec_u64_to_le_bytes(h as u64),
    }
}

/// The bytes of the first `count` of `items`, one after the other.
pub open spec fn encode_items(items: Seq<ValueModel>, count: nat) -> Seq<u8>
    decreases items, count,
{
    if count == 0 || count > items.len() {
        Seq::empty()
    } else {
        encode_items(items, (count - 1) as nat) + encode(items[count - 1])
    }
}

/// Reads one value at `pos`: the value and the position behind it, or `None`
/// where the bytes at `pos` are not the encoding of a value.
pub open spec fn decode_at(bytes: Seq<u8>, pos: int, objects: bool) -> Option<(ValueModel, int)>
    decreases bytes.len() - pos, 0nat,
{
    if pos < 0 || pos >= bytes.len() {
        None
    } else if bytes[pos] == TAG_UNDEFINED {
        Some((ValueModel::Undefined, pos + 1))
    } else if bytes[pos] == TAG_NULL {
        Some((ValueModel::Null, pos + 1))
    } else if bytes[pos] == TAG_BOOLEAN {
        if pos + 2 <= bytes.len() && bytes[pos + 1] <= 1 {
            Some((ValueModel::Boolean(bytes[pos + 1] == 1), pos + 2))
        } else {
            None
        }
    } else if bytes[pos] == TAG_NUMBER {
        if pos + 5 <= bytes.len() {
            let raw = spec_u32_from_le_bytes(bytes.subrange(pos + 1, pos + 5));
            Some((ValueModel::Number(unbiased(raw)), pos + 5))
        } else {
            None
        }
    } else if bytes[pos] == TAG_TEXT {
        if pos + 9 <= bytes.len() {
            let len = spec_u64_from_le_bytes(bytes.subrange(pos + 1, pos + 9));
            if pos + 9 + len <= bytes.len() && valid_utf8(
                bytes.subrange(pos + 9, pos + 9 + len),
            ) {
                Some(
                    (
                        ValueModel::Text(decode_utf8(bytes.subrange(pos + 9, pos + 9 + len))),
                        pos + 9 + len,
                    ),
                )
            } else {
                None
            }
        } else {
            None
        }
    } else if bytes[pos] == TAG_ARRAY {
        if pos + 9 <= bytes.len() {
            let count = spec_u64_from_le_bytes(bytes.subrange(pos + 1, pos + 9));
            match decode_items(bytes, pos + 9, count as nat, objects) {
                Some((items, end)) => Some((ValueModel::Array(items), end)),
                None => None,
            }
        } else {
            None
        }
    } else if bytes[pos] == TAG_OBJECT {
        if objects && pos + 9 <= bytes.len() && spec_u64_from_le_bytes(
            bytes.subrange(pos + 1, pos + 9),
        ) <= usize::MAX {
            Some(
                (
                    ValueModel::Object(
                        spec_u64_from_le_bytes(bytes.subrange(pos + 1, pos + 9)) as usize,
                    ),
                    pos + 9,
                ),
            )
        } else {
            None
        }
    } else {
        None
    }
}

/// Reads `count` values one after the other, the first at `pos`.
pub open spec fn decode_items(bytes: Seq<u8>, pos: int, count: nat, objects: bool) -> Option<
    (Seq<ValueModel>, int),
>
    decreases bytes.len() - pos, count + 1,
{
    if count == 0 {
        Some((Seq::empty(), pos))
    } else {
        match decode_items(bytes, pos, (count - 1) as nat, objects) {
            Some((items, mid)) => if pos <= mid <= bytes.len() {
                match decode_at(bytes, mid, objects) {
                    Some((item, end)) => Some((items.push(item), end)),
                    None => None,
                }
            } else {
                None
            },
            None => None,
        }
    }
}

/// Reads the one value that `bytes` as a whole stands for.
pub open spec fn decode(bytes: Seq<u8>, objects: bool) -> Option<ValueModel> {
    match decode_at(bytes, 0, objects) {
        Some((v, end)) => if end == bytes.len() {
            Some(v)
        } else {
            None
        },
        None => None,
    }
}

/// Calls `String::from_utf8` of the standard library and drops the error's
/// detail. The call succeeds exactly on well-formed UTF-8, and the text it
/// returns is made of the very bytes it was given.
#[verifier::external_body]
fn text_from_utf8(bytes: Vec<u8>) -> (text: Option<String>)
    ensures
        text is Some <==> valid_utf8(bytes@),
        text matches Some(s) ==> encode_utf8(s@) == bytes@,
{
    String::from_utf8(bytes).ok()
}

fn append_bytes(out: &mut Vec<u8>, more: Vec<u8>)
    ensures
        final(out)@ == old(out)@ + more@,
{
    let mut more = more;
    out.append(&mut more);
}

/// Writes the encoding of `v` behind what `out` holds. Returns `false`, with
/// `out` in no particular state, where `v` holds an object reference and
/// `objects` is not set.
pub fn encode_value(v: &Value, objects: bool, out: &mut Vec<u8>) -> (ok: bool)
    ensures
        ok == cloneable(v@, objects),
        ok ==> encodable(v@) && final(out)@ == old(out)@ + encode(v@),
    decreases v,
{
    let ghost start = out@;
    match v {
        Value::Undefined => {
            out.push(TAG_UNDEFINED);
            assert(out@ =~= start + encode(v@));
            true
        },
        Value::Null => {
            out.push(TAG_NULL);
            assert(out@ =~= start + encode(v@));
            true
        },
        Value::Boolean(b) => {
            out.push(TAG_BOOLEAN);
            out.push(if *b { 1u8 } else { 0u8 });
            assert(out@ =~= start + encode(v@));
            true
        },
        Value::Number(n) => {
            out.push(TAG_NUMBER);
            let shifted: u32 = (*n as i64 + 0x8000_0000) as u32;
            append_bytes(out, u32_to_le_bytes(shifted));
            assert(out@ =~= start + encode(v@));
            true
        },
        Value::Text(s) => {
            let bytes = s.as_str().as_bytes();
            out.push(TAG_TEXT);
            append_bytes(out, u64_to_le_bytes(bytes.len() as u64));
            append_bytes(out, slice_to_vec(bytes));
            assert(out@ =~= start + encode(v@));
            true
        },
        Value::Array(items) => {
            proof {
                lemma_array_view(*items);
            }
            out.push(TAG_ARRAY);
            append_bytes(out, u64_to_le_bytes(items.len() as u64));
            let ghost head = out@;
            let mut i: usize = 0;
            while i < items.len()
                invariant
                    *v == Value::Array(*items),
                    v@ == ValueModel::Array(models(items@)),
                    i <= items.len(),
                    out@ == head + encode_items(models(items@), i as nat),
                    forall|j: int|
                        0 <= j < i ==> encodable(#[trigger] models(items@)[j]) && cloneable(
                            models(items@)[j],
                            objects,
                        ),
                decreases items.len() - i,
            {
                proof {
                    assert(decreases_to!(*v => v->Array_0));
                    assert(decreases_to!(v->Array_0 => v->Array_0[i as int]));
                }
                if !encode_value(&items[i], objects, out) {
                    assert(!cloneable(models(items@)[i as int], objects));
                    proof {
                        lemma_array_properties(models(items@), objects);
                    }
                    return false;
                }
                i += 1;
                assert(out@ =~= head + encode_items(models(items@), i as nat));
            }
            assert(out@ =~= start + encode(v@));
            true
        },
        Value::Object(h) => {
            if !objects {
                return false;
            }
            out.push(TAG_OBJECT);
            append_bytes(out, u64_to_le_bytes(*h as u64));
            assert(out@ =~= start + encode(v@));
            true
        },
    }
}

/// Once one item cannot be read, no longer run of items can.
pub proof fn lemma_decode_items_fails(
    bytes: Seq<u8>,
    pos: int,
    failed: nat,
    count: nat,
    objects: bool,
)
    requires
        failed <= count,
        decode_items(bytes, pos, failed, objects) is None,
    ensures
        decode_items(bytes, pos, count, objects) is None,
    decreases count,
{
    if failed < count {
        lemma_decode_items_fails(bytes, pos, failed, (count - 1) as nat, objects);
    }
}

/// Reads the value whose encoding starts at `pos`, and says where it ends.
pub fn decode_value(bytes: &[u8], pos: usize, objects: bool) -> (r: Option<(Value, usize)>)
    ensures
        match r {
            Some((v, end)) => decode_at(bytes@, pos as int, objects) == Some((v@, end as int))
                && pos < end <= bytes@.len(),
            None => decode_at(bytes@, pos as int, objects) is None,
        },
    decreases bytes@.len() - pos,
{
    if pos >= bytes.len() {
        return None;
    }
    let tag = bytes[pos];
    let left: usize = bytes.len() - pos;
    if tag == TAG_UNDEFINED {
        Some((Value::Undefined, pos + 1))
    } else if tag == TAG_NULL {
        Some((Value::Null, pos + 1))
    } else if tag == TAG_BOOLEAN {
        if left < 2 || bytes[pos + 1] > 1 {
            None
        } else {
            Some((Value::Boolean(bytes[pos + 1] == 1), pos + 2))
        }
    } else if tag == TAG_NUMBER {
        if left < 5 {
            None
        } else {
            let raw: u32 = u32_from_le_bytes(slice_subrange(bytes, pos + 1, pos + 5));
            let n: i32 = (raw as i64 - 0x8000_0000) as i32;
            Some((Value::Number(n), pos + 5))
        }
    } else if tag == TAG_TEXT {
        if left < 9 {
            return None;
        }
        let len: u64 = u64_from_le_bytes(slice_subrange(bytes, pos + 1, pos + 9));
        if len > (left - 9) as u64 {
            return None;
        }
        let end: usize = pos + 9 + len as usize;
        match text_from_utf8(slice_to_vec(slice_subrange(bytes, pos + 9, end))) {
            Some(s) => {
                proof {
                    encode_utf8_decode_utf8(s@);
                }
                Some((Value::Text(s), end))
            },
            None => None,
        }
    } else if tag == TAG_ARRAY {
        if left < 9 {
            return None;
        }
        let count: u64 = u64_from_le_bytes(slice_subrange(bytes, pos + 1, pos + 9));
        let mut items: Vec<Value> = Vec::new();
        let mut at: usize = pos + 9;
        let mut i: u64 = 0;
        proof {
            assert(models(items@) =~= Seq::empty());
        }
        while i < count
            invariant
                bytes@[pos as int] == TAG_ARRAY,
                count == spec_u64_from_le_bytes(bytes@.subrange(pos + 1, pos + 9)),
                pos + 9 <= at <= bytes@.len(),
                i <= count,
                decode_items(bytes@, pos + 9, i as nat, objects) == Some(
                    (models(items@), at as int),
                ),
            decreases count - i,
        {
            let ghost read = items@;
            match decode_value(bytes, at, objects) {
                Some((item, end)) => {
                    items.push(item);
                    at = end;
                    i += 1;
                    assert(models(items@) =~= models(read).push(item@));
                },
                None => {
                    proof {
                        lemma_decode_items_fails(
                            bytes@,
                            pos + 9,
                            (i + 1) as nat,
                            count as nat,
                            objects,
                        );
                    }
                    return None;
                },
            }
        }
        proof {
            lemma_array_view(items);
        }
        Some((Value::Array(items), at))
    } else if tag == TAG_OBJECT {
        if !objects || left < 9 {
            return None;
        }
        let h: u64 = u64_from_le_bytes(slice_subrange(bytes, pos + 1, pos + 9));
        if h > usize::MAX as u64 {
            None
        } else {
            Some((Value::Object(h as usize), pos + 9))
        }
    } else {
        None
    }
}

/// Where `whole` lies in `bytes` at `pos`, each stretch of `whole` lies in
/// `bytes` that much further on.
proof fn lemma_stretch(bytes: Seq<u8>, pos: int, whole: Seq<u8>, from: int, to: int)
    requires
        0 <= pos,
        pos + whole.len() <= bytes.len(),
        bytes.subrange(pos, pos + whole.len()) == whole,
        0 <= from <= to <= whole.len(),
    ensures
        bytes.subrange(pos + from, pos + to) == whole.subrange(from, to),
{
    assert forall|j: int| 0 <= j < to - from implies bytes.subrange(pos + from, pos + to)[j]
        == whole.subrange(from, to)[j] by {
        assert(bytes.subrange(pos, pos + whole.len())[from + j] == bytes[pos + from + j]);
    }
    assert(bytes.subrange(pos + from, pos + to) =~= whole.subrange(from, to));
}

/// Where the encoding of `v` lies in `bytes` at `pos`, reading at `pos` gives
/// `v` and ends behind that encoding.
pub proof fn lemma_decode_encode_at(v: ValueModel, bytes: Seq<u8>, pos: int, objects: bool)
    requires
        encodable(v),
        cloneable(v, objects),
        0 <= pos,
        pos + encode(v).len() <= bytes.len(),
        bytes.subrange(pos, pos + encode(v).len()) == encode(v),
    ensures
        decode_at(bytes, pos, objects) == Some((v, pos + encode(v).len())),
    decreases v, 0nat,
{
    lemma_auto_spec_u32_to_from_le_bytes();
    lemma_auto_spec_u64_to_from_le_bytes();
    let whole = encode(v);
    let n = whole.len() as int;
    assert(n >= 1);
    lemma_stretch(bytes, pos, whole, 0, 1);
    assert(bytes[pos] == bytes.subrange(pos, pos + 1)[0]);
    assert(bytes[pos] == whole[0]);
    match v {
        ValueModel::Undefined => {},
        ValueModel::Null => {},
        ValueModel::Boolean(b) => {
            lemma_stretch(bytes, pos, whole, 1, 2);
            assert(bytes[pos + 1] == bytes.subrange(pos + 1, pos + 2)[0]);
        },
        ValueModel::Number(x) => {
            let payload = spec_u32_to_le_bytes(biased(x));
            lemma_stretch(bytes, pos, whole, 1, 5);
            assert(whole.subrange(1, 5) =~= payload);
        },
        ValueModel::Text(s) => {
            let body = encode_utf8(s);
            let header = spec_u64_to_le_bytes(body.len() as u64);
            lemma_stretch(bytes, pos, whole, 1, 9);
            assert(whole.subrange(1, 9) =~= header);
            lemma_stretch(bytes, pos, whole, 9, n);
            assert(whole.subrange(9, n) =~= body);
            encode_utf8_valid_utf8(s);
            encode_utf8_decode_utf8(s);
        },
        ValueModel::Array(items) => {
            lemma_array_properties(items, objects);
            let body = encode_items(items, items.len());
            let header = spec_u64_to_le_bytes(items.len() as u64);
            lemma_stretch(bytes, pos, whole, 1, 9);
            assert(whole.subrange(1, 9) =~= header);
            lemma_stretch(bytes, pos, whole, 9, n);
            assert(whole.subrange(9, n) =~= body);
            lemma_decode_encode_items(items, items.len(), bytes, pos + 9, objects);
            assert(items.take(items.len() as int) =~= items);
        },
        ValueModel::Object(h) => {
            let header = spec_u64_to_le_bytes(h as u64);
            lemma_stretch(bytes, pos, whole, 1, 9);
            assert(whole.subrange(1, 9) =~= header);
        },
    }
}

/// The same for the first `count` of `items`, written one after the other.
pub proof fn lemma_decode_encode_items(
    items: Seq<ValueModel>,
    count: nat,
    bytes: Seq<u8>,
    pos: int,
    objects: bool,
)
    requires
        count <= items.len(),
        forall|i: int|
            0 <= i < count ==> encodable(#[trigger] items[i]) && cloneable(items[i], objects),
        0 <= pos,
        pos + encode_items(items, count).len() <= bytes.len(),
        bytes.subrange(pos, pos + encode_items(items, count).len()) == encode_items(items, count),
    ensures
        decode_items(bytes, pos, count, objects) == Some(
            (items.take(count as int), pos + encode_items(items, count).len()),
        ),
    decreases items, count,
{
    if count == 0 {
        assert(items.take(0) =~= Seq::empty());
    } else {
        let fewer = (count - 1) as nat;
        let head = encode_items(items, fewer);
        let last = encode(items[count - 1]);
        let whole = encode_items(items, count);
        assert(whole == head + last);
        lemma_stretch(bytes, pos, whole, 0, head.len() as int);
        assert(whole.subrange(0, head.len() as int) =~= head);
        lemma_decode_encode_items(items, fewer, bytes, pos, objects);
        lemma_stretch(bytes, pos, whole, head.len() as int, whole.len() as int);
        assert(whole.subrange(head.len() as int, whole.len() as int) =~= last);
        lemma_decode_encode_at(items[count - 1], bytes, pos + head.len(), objects);
        assert(items.take(fewer as int).push(items[count - 1]) =~= items.take(count as int));
    }
}

/// Reading the encoding of a value gives that value back.
pub proof fn lemma_decode_encode(v: ValueModel, objects: bool)
    requires
        encodable(v),
        cloneable(v, objects),
    ensures
        decode(encode(v), objects) == Some(v),
{
    let whole = encode(v);
    assert(whole.subrange(0, whole.len() as int) =~= whole);
    lemma_decode_encode_at(v, whole, 0, objects);
}

/// The bytes of the first `count` items depend on those items alone.
proof fn lemma_encode_items_prefix(a: Seq<ValueModel>, b: Seq<ValueModel>, count: nat)
    requires
        count <= a.len(),
        count <= b.len(),
        forall|i: int| 0 <= i < count ==> a[i] == b[i],
    ensures
        encode_items(a, count) == encode_items(b, count),
    decreases count,
{
    if count != 0 {
        lemma_encode_items_prefix(a, b, (count - 1) as nat);
    }
}

/// What can be read at `pos` is a value that the format carries, and what
/// was read there is its encoding: no other bytes stand for it.
pub proof fn lemma_encode_decode_at(bytes: Seq<u8>, pos: int, objects: bool)
    requires
        decode_at(bytes, pos, objects) is Some,
    ensures
        ({
            let (v, end) = decode_at(bytes, pos, objects)->Some_0;
            &&& 0 <= pos < end <= bytes.len()
            &&& encodable(v)
            &&& cloneable(v, objects)
            &&& encode(v) == bytes.subrange(pos, end)
        }),
    decreases bytes.len() - pos, 0nat,
{
    lemma_auto_spec_u32_to_from_le_bytes();
    lemma_auto_spec_u64_to_from_le_bytes();
    let (v, end) = decode_at(bytes, pos, objects)->Some_0;
    let tag = bytes[pos];
    if tag == TAG_UNDEFINED || tag == TAG_NULL {
        assert(encode(v) =~= bytes.subrange(pos, end));
    } else if tag == TAG_BOOLEAN {
        assert(encode(v) =~= bytes.subrange(pos, end));
    } else if tag == TAG_NUMBER {
        let payload = bytes.subrange(pos + 1, pos + 5);
        assert(spec_u32_to_le_bytes(spec_u32_from_le_bytes(payload)) == payload);
        assert(biased(unbiased(spec_u32_from_le_bytes(payload))) == spec_u32_from_le_bytes(
            payload,
        ));
        assert(encode(v) =~= bytes.subrange(pos, end));
    } else if tag == TAG_TEXT {
        let header = bytes.subrange(pos + 1, pos + 9);
        let len = spec_u64_from_le_bytes(header);
        let body = bytes.subrange(pos + 9, pos + 9 + len);
        assert(spec_u64_to_le_bytes(len) == header);
        decode_utf8_encode_utf8(body);
        assert(encode(v) =~= bytes.subrange(pos, end));
    } else if tag == TAG_ARRAY {
        let header = bytes.subrange(pos + 1, pos + 9);
        let count = spec_u64_from_le_bytes(header);
        assert(spec_u64_to_le_bytes(count) == header);
        lemma_encode_decode_items(bytes, pos + 9, count as nat, objects);
        let items = v->Array_0;
        lemma_array_properties(items, objects);
        assert(encode(v) =~= bytes.subrange(pos, end));
    } else {
        let header = bytes.subrange(pos + 1, pos + 9);
        assert(spec_u64_to_le_bytes(spec_u64_from_le_bytes(header)) == header);
        assert(encode(v) =~= bytes.subrange(pos, end));
    }
}

/// The same for a run of `count` items.
pub proof fn lemma_encode_decode_items(bytes: Seq<u8>, pos: int, count: nat, objects: bool)
    requires
        0 <= pos <= bytes.len(),
        decode_items(bytes, pos, count, objects) is Some,
    ensures
        ({
            let (items, end) = decode_items(bytes, pos, count, objects)->Some_0;
            &&& pos <= end <= bytes.len()
            &&& items.len() == count
            &&& forall|i: int|
                0 <= i < count ==> encodable(#[trigger] items[i]) && cloneable(items[i], objects)
            &&& encode_items(items, count) == bytes.subrange(pos, end)
        }),
    decreases bytes.len() - pos, count + 1,
{
    let (items, end) = decode_items(bytes, pos, count, objects)->Some_0;
    if count == 0 {
        assert(encode_items(items, count) =~= bytes.subrange(pos, end));
    } else {
        let fewer = (count - 1) as nat;
        let (read, mid) = decode_items(bytes, pos, fewer, objects)->Some_0;
        lemma_encode_decode_items(bytes, pos, fewer, objects);
        lemma_encode_decode_at(bytes, mid, objects);
        let item = decode_at(bytes, mid, objects)->Some_0.0;
        assert(items == read.push(item));
        lemma_encode_items_prefix(items, read, fewer);
        assert(encode_items(items, count) == encode_items(items, fewer) + encode(items[count - 1]));
        assert(encode_items(items, count) =~= bytes.subrange(pos, end));
    }
}

/// Bytes that can be read are the encoding of the value read from them: each
/// value has one encoding, and no two values share one.
pub proof fn lemma_encode_decode(bytes: Seq<u8>, objects: bool)
    requires
        decode(bytes, objects) is Some,
    ensures
        encodable(decode(bytes, objects)->Some_0),
        cloneable(decode(bytes, objects)->Some_0, objects),
        encode(decode(bytes, objects)->Some_0) == bytes,
{
    lemma_encode_decode_at(bytes, 0, objects);
    assert(bytes.subrange(0, bytes.len() as int) =~= bytes);
}

/// A value that holds no object reference can be carried whatever the
/// callbacks do for objects.
pub proof fn lemma_cloneable_without_objects(v: ValueModel)
    requires
        cloneable(v, false),
    ensures
        cloneable(v, true),
    decreases v,
{
    match v {
        ValueModel::Array(items) => {
            lemma_array_properties(items, false);
            lemma_array_properties(items, true);
            assert forall|i: int| 0 <= i < items.len() implies cloneable(
                #[trigger] items[i],
                true,
            ) by {
                lemma_cloneable_without_objects(items[i]);
            }
        },
        _ => {},
    }
}

} // verus!

//! The bytes of messages and test values: their layout, and the calls of `bincode` that write
//! and read them.
//!
//! Structures and enums are laid out field after field, an enum's variant being a 32-bit number
//! in front of its fields, so a tuple of plain values has the bytes of the structure or variant
//! with those fields.
use vstd::prelude::*;
use vstd::slice::*;
use vstd::string::*;
use vstd::utf8;

use crate::engine::{WireContent, WireMessage};
use crate::types::node::{Generation, NodeId};
use crate::types::sync_message::{
    BatchedChangeFeed, ChangeContent, ChangeNotification, SyncContent, SyncMessage,
};
use crate::types::text;

verus! {

/// The `n` least significant bytes of `x`, the least significant first.
pub open spec fn le(x: nat, n: nat) -> Seq<u8>
    decreases n,
{
    if n == 0 {
        Seq::empty()
    } else {
        seq![(x % 256) as u8] + le(x / 256, (n - 1) as nat)
    }
}

/// A text: the number of its UTF-8 bytes in eight bytes, and the bytes.
pub open spec fn text_bytes(s: Seq<char>) -> Seq<u8> {
    le(utf8::encode_utf8(s).len(), 8) + utf8::encode_utf8(s)
}

/// A byte string: its length in eight bytes, and the bytes.
pub open spec fn blob_bytes(b: Seq<u8>) -> Seq<u8> {
    le(b.len(), 8) + b
}

/// An optional text: a byte that tells whether there is one, and the text.
pub open spec fn optional_text_bytes(s: Option<Seq<char>>) -> Seq<u8> {
    match s {
        Some(t) => seq![1u8] + text_bytes(t),
        None => seq![0u8],
    }
}

/// A signed 64-bit number, in two's complement.
pub open spec fn signed_bytes(x: i64) -> Seq<u8> {
    le(
        if x < 0 {
            (x + 0x1_0000_0000_0000_0000) as nat
        } else {
            x as nat
        },
        8,
    )
}

/// A number and a text.
pub open spec fn pair_bytes(number: u64, label: Seq<char>) -> Seq<u8> {
    le(number as nat, 8) + text_bytes(label)
}

/// A signed number and an optional text.
pub open spec fn change_bytes(number: i64, label: Option<Seq<char>>) -> Seq<u8> {
    signed_bytes(number) + optional_text_bytes(label)
}

/// The fields of a snapshot or delta message behind its variant numbers.
pub struct UpdateFields {
    pub outer: u32,
    pub inner: u32,
    pub state_name: Seq<char>,
    pub source: u64,
    pub incarnation: u64,
    pub age: u64,
    pub wire_version: u32,
    pub data: Seq<u8>,
}

/// A snapshot or delta message.
pub open spec fn update_bytes(f: UpdateFields) -> Seq<u8> {
    le(f.outer as nat, 4) + (le(f.inner as nat, 4) + (text_bytes(f.state_name) + (le(
        f.source as nat,
        8,
    ) + (le(f.incarnation as nat, 8) + (le(f.age as nat, 8) + (le(f.wire_version as nat, 4)
        + blob_bytes(f.data)))))))
}

/// A snapshot request.
pub open spec fn request_bytes(outer: u32, inner: u32, state_name: Seq<char>, requester: u64) -> Seq<
    u8,
> {
    le(outer as nat, 4) + (le(inner as nat, 4) + (text_bytes(state_name) + le(
        requester as nat,
        8,
    )))
}

/// A change notification: state name, source node, incarnation and age.
pub open spec fn notice_bytes(n: (Seq<char>, u64, u64, u64)) -> Seq<u8> {
    text_bytes(n.0) + (le(n.1 as nat, 8) + (le(n.2 as nat, 8) + le(n.3 as nat, 8)))
}

/// Change notifications, one after the other.
pub open spec fn notices_bytes(list: Seq<(Seq<char>, u64, u64, u64)>) -> Seq<u8>
    decreases list.len(),
{
    if list.len() == 0 {
        Seq::empty()
    } else {
        notice_bytes(list[0]) + notices_bytes(list.drop_first())
    }
}

/// A batch of change notifications.
pub open spec fn feed_bytes(
    outer: u32,
    source: u64,
    list: Seq<(Seq<char>, u64, u64, u64)>,
) -> Seq<u8> {
    le(outer as nat, 4) + (le(source as nat, 8) + (le(list.len(), 8) + notices_bytes(list)))
}

/// The contents of a list of plain notifications.
pub open spec fn plain_notices(list: Seq<(String, u64, u64, u64)>) -> Seq<
    (Seq<char>, u64, u64, u64),
> {
    Seq::new(list.len(), |i: int| (list[i].0@, list[i].1, list[i].2, list[i].3))
}

/// The text of the error of `bincode::deserialize` on bytes that hold no 32-bit number.
pub uninterp spec fn tag_error(bytes: Seq<u8>) -> Seq<char>;

/// The text of the error of `bincode::deserialize` on bytes that hold no number and text, where
/// lengths have `pointer_bits` bits.
pub uninterp spec fn pair_error(bytes: Seq<u8>, pointer_bits: u32) -> Seq<char>;

/// The text of the error of `bincode::deserialize` on bytes that hold no signed number and
/// optional text, where lengths have `pointer_bits` bits.
pub uninterp spec fn change_error(bytes: Seq<u8>, pointer_bits: u32) -> Seq<char>;

/// The text of the error of `bincode::deserialize` on bytes that hold no snapshot or delta,
/// where lengths have `pointer_bits` bits.
pub uninterp spec fn update_error(bytes: Seq<u8>, pointer_bits: u32) -> Seq<char>;

/// The text of the error of `bincode::deserialize` on bytes that hold no snapshot request, where
/// lengths have `pointer_bits` bits.
pub uninterp spec fn request_error(bytes: Seq<u8>, pointer_bits: u32) -> Seq<char>;

/// The text of the error of `bincode::deserialize` on bytes that hold no batch of change
/// notifications, where lengths have `pointer_bits` bits.
pub uninterp spec fn feed_error(bytes: Seq<u8>, pointer_bits: u32) -> Seq<char>;

/// `bincode::serialize` on a number and a text: the fields one after the other, numbers in
/// fixed width and little-endian, the text behind its length. It fails on neither.
#[verifier::external_body]
pub(crate) fn encode_pair(number: u64, label: &str) -> (bytes: Vec<u8>)
    ensures
        bytes@ == pair_bytes(number, label@),
{
    bincode::serialize(&(number, label)).expect("a number and a text serialize")
}

/// `bincode::deserialize` to a number and a text: it succeeds exactly where the bytes begin
/// with those of such a pair, gives that pair, and ignores what follows. The text of its error
/// depends on the bytes and the size of an address alone.
#[verifier::external_body]
pub(crate) fn decode_pair(bytes: &[u8]) -> (r: Result<(u64, String), String>)
    ensures
        match r {
            Ok(v) => pair_bytes(v.0, v.1@).is_prefix_of(bytes@),
            Err(e) => e@ == pair_error(bytes@, usize::BITS) && forall|number: u64, label: Seq<char>|
                !(#[trigger] pair_bytes(number, label)).is_prefix_of(bytes@),
        },
{
    bincode::deserialize(bytes).map_err(|e| e.to_string())
}

/// `bincode::serialize` on a signed number and an optional text: the fields one after the
/// other, the option behind a byte that is 1 where there is a text and 0 where there is none.
/// It does not fail.
#[verifier::external_body]
pub(crate) fn encode_change(number: i64, label: &Option<String>) -> (bytes: Vec<u8>)
    ensures
        bytes@ == change_bytes(
            number,
            match *label {
                Some(t) => Some(t@),
                None => None,
            },
        ),
{
    bincode::serialize(&(number, label)).expect("a number and an optional text serialize")
}

/// `bincode::deserialize` to a signed number and an optional text: it succeeds exactly where
/// the bytes begin with those of such a pair, gives that pair, and ignores what follows. The
/// text of its error depends on the bytes and the size of an address alone.
#[verifier::external_body]
pub(crate) fn decode_change(bytes: &[u8]) -> (r: Result<(i64, Option<String>), String>)
    ensures
        match r {
            Ok(v) => change_bytes(
                v.0,
                match v.1 {
                    Some(t) => Some(t@),
                    None => None,
                },
            ).is_prefix_of(bytes@),
            Err(e) => e@ == change_error(bytes@, usize::BITS) && forall|
                number: i64,
                label: Option<Seq<char>>,
            |
                !(#[trigger] change_bytes(number, label)).is_prefix_of(bytes@),
        },
{
    bincode::deserialize(bytes).map_err(|e| e.to_string())
}

/// `bincode::deserialize` to a 32-bit number: it succeeds exactly where there are four bytes,
/// gives the little-endian number in them, and ignores what follows. The text of its error
/// depends on the bytes alone.
#[verifier::external_body]
pub(crate) fn decode_tag(bytes: &[u8]) -> (r: Result<u32, String>)
    ensures
        match r {
            Ok(tag) => le(tag as nat, 4).is_prefix_of(bytes@),
            Err(e) => e@ == tag_error(bytes@) && bytes@.len() < 4,
        },
{
    bincode::deserialize(bytes).map_err(|e| e.to_string())
}

/// `bincode::serialize` on the fields of a snapshot or delta message: the fields one after the
/// other, the text and the byte string behind their lengths. It does not fail.
#[verifier::external_body]
pub(crate) fn encode_update(
    outer: u32,
    inner: u32,
    state_name: &str,
    source: u64,
    incarnation: u64,
    age: u64,
    wire_version: u32,
    data: &[u8],
) -> (bytes: Vec<u8>)
    ensures
        bytes@ == update_bytes(
            UpdateFields {
                outer,
                inner,
                state_name: state_name@,
                source,
                incarnation,
                age,
                wire_version,
                data: data@,
            },
        ),
{
    bincode::serialize(&(outer, inner, state_name, source, incarnation, age, wire_version, data))
        .expect("the fields of an update serialize")
}

/// `bincode::deserialize` to the fields of a snapshot or delta message: it succeeds exactly
/// where the bytes begin with those of such fields, gives those fields, and ignores what
/// follows. The text of its error depends on the bytes and the size of an address alone.
#[verifier::external_body]
pub(crate) fn decode_update(bytes: &[u8]) -> (r: Result<
    (u32, u32, String, u64, u64, u64, u32, Vec<u8>),
    String,
>)
    ensures
        match r {
            Ok(v) => update_bytes(
                UpdateFields {
                    outer: v.0,
                    inner: v.1,
                    state_name: v.2@,
                    source: v.3,
                    incarnation: v.4,
                    age: v.5,
                    wire_version: v.6,
                    data: v.7@,
                },
            ).is_prefix_of(bytes@),
            Err(e) => e@ == update_error(bytes@, usize::BITS) && forall|f: UpdateFields|
                !(#[trigger] update_bytes(f)).is_prefix_of(bytes@),
        },
{
    bincode::deserialize(bytes).map_err(|e| e.to_string())
}

/// `bincode::serialize` on the fields of a snapshot request: the fields one after the other.
/// It does not fail.
#[verifier::external_body]
pub(crate) fn encode_request(outer: u32, inner: u32, state_name: &str, requester: u64) -> (bytes:
    Vec<u8>)
    ensures
        bytes@ == request_bytes(outer, inner, state_name@, requester),
{
    bincode::serialize(&(outer, inner, state_name, requester))
        .expect("the fields of a request serialize")
}

/// `bincode::deserialize` to the fields of a snapshot request: it succeeds exactly where the
/// bytes begin with those of such fields, gives those fields, and ignores what follows. The
/// text of its error depends on the bytes and the size of an address alone.
#[verifier::external_body]
pub(crate) fn decode_request(bytes: &[u8]) -> (r: Result<(u32, u32, String, u64), String>)
    ensures
        match r {
            Ok(v) => request_bytes(v.0, v.1, v.2@, v.3).is_prefix_of(bytes@),
            Err(e) => e@ == request_error(bytes@, usize::BITS) && forall|
                outer: u32,
                inner: u32,
                state_name: Seq<char>,
                requester: u64,
            |
                !(#[trigger] request_bytes(outer, inner, state_name, requester)).is_prefix_of(
                    bytes@,
                ),
        },
{
    bincode::deserialize(bytes).map_err(|e| e.to_string())
}

/// `bincode::serialize` on the fields of a batch of change notifications: the fields one after
/// the other, the list behind its length. It does not fail.
#[verifier::external_body]
pub(crate) fn encode_feed(outer: u32, source: u64, list: &Vec<(String, u64, u64, u64)>) -> (bytes:
    Vec<u8>)
    ensures
        bytes@ == feed_bytes(outer, source, plain_notices(list@)),
{
    bincode::serialize(&(outer, source, list)).expect("the fields of a feed serialize")
}

/// `bincode::deserialize` to the fields of a batch of change notifications: it succeeds exactly
/// where the bytes begin with those of such fields, gives those fields, and ignores what
/// follows. The text of its error depends on the bytes and the size of an address alone.
#[verifier::external_body]
pub(crate) fn decode_feed(bytes: &[u8]) -> (r: Result<
    (u32, u64, Vec<(String, u64, u64, u64)>),
    String,
>)
    ensures
        match r {
            Ok(v) => feed_bytes(v.0, v.1, plain_notices(v.2@)).is_prefix_of(bytes@),
            Err(e) => e@ == feed_error(bytes@, usize::BITS) && forall|
                outer: u32,
                source: u64,
                list: Seq<(Seq<char>, u64, u64, u64)>,
            |
                !(#[trigger] feed_bytes(outer, source, list)).is_prefix_of(bytes@),
        },
{
    bincode::deserialize(bytes).map_err(|e| e.to_string())
}

/// 256 to the power of `n`: the numbers below it fit into `n` bytes.
pub open spec fn byte_range(n: nat) -> nat
    decreases n,
{
    if n == 0 {
        1
    } else {
        256 * byte_range((n - 1) as nat)
    }
}

/// `n` bytes have the length `n`.
pub proof fn lemma_le_len(x: nat, n: nat)
    ensures
        le(x, n).len() == n,
    decreases n,
{
    if n > 0 {
        lemma_le_len(x / 256, (n - 1) as nat);
    }
}

/// The numbers that fit into four and eight bytes.
pub proof fn lemma_byte_range()
    ensures
        byte_range(4) == 0x1_0000_0000,
        byte_range(8) == 0x1_0000_0000_0000_0000,
{
    reveal_with_fuel(byte_range, 9);
}

/// A number that fits can be told from its bytes, whatever follows them.
pub proof fn lemma_le_unique(x: nat, y: nat, n: nat, a: Seq<u8>, b: Seq<u8>)
    requires
        x < byte_range(n),
        y < byte_range(n),
        le(x, n) + a == le(y, n) + b,
    ensures
        x == y,
        a == b,
    decreases n,
{
    if n == 0 {
        assert(le(x, n) + a =~= a);
        assert(le(y, n) + b =~= b);
    } else {
        let m = (n - 1) as nat;
        let xs = le(x / 256, m) + a;
        let ys = le(y / 256, m) + b;
        lemma_le_len(x / 256, m);
        lemma_le_len(y / 256, m);
        assert(le(x, n) + a =~= seq![(x % 256) as u8] + xs);
        assert(le(y, n) + b =~= seq![(y % 256) as u8] + ys);
        assert((seq![(x % 256) as u8] + xs)[0] == (x % 256) as u8);
        assert((seq![(y % 256) as u8] + ys)[0] == (y % 256) as u8);
        assert((seq![(x % 256) as u8] + xs).drop_first() =~= xs);
        assert((seq![(y % 256) as u8] + ys).drop_first() =~= ys);
        assert(byte_range(n) == 256 * byte_range(m));
        lemma_le_unique(x / 256, y / 256, m, a, b);
    }
}

/// A byte string can be told from its bytes, whatever follows them.
proof fn lemma_blob_unique(x: Seq<u8>, y: Seq<u8>, a: Seq<u8>, b: Seq<u8>)
    requires
        blob_bytes(x) + a == blob_bytes(y) + b,
        (blob_bytes(x) + a).len() <= u64::MAX,
    ensures
        x == y,
        a == b,
{
    lemma_byte_range();
    lemma_le_len(x.len(), 8);
    lemma_le_len(y.len(), 8);
    assert(blob_bytes(x) + a =~= le(x.len(), 8) + (x + a));
    assert(blob_bytes(y) + b =~= le(y.len(), 8) + (y + b));
    lemma_le_unique(x.len(), y.len(), 8, x + a, y + b);
    assert((x + a).take(x.len() as int) =~= x);
    assert((y + b).take(x.len() as int) =~= y);
    assert((x + a).skip(x.len() as int) =~= a);
    assert((y + b).skip(x.len() as int) =~= b);
}

/// A text can be told from its bytes, whatever follows them.
proof fn lemma_text_unique(x: Seq<char>, y: Seq<char>, a: Seq<u8>, b: Seq<u8>)
    requires
        text_bytes(x) + a == text_bytes(y) + b,
        (text_bytes(x) + a).len() <= u64::MAX,
    ensures
        x == y,
        a == b,
{
    lemma_blob_unique(utf8::encode_utf8(x), utf8::encode_utf8(y), a, b);
    utf8::encode_utf8_decode_utf8(x);
    utf8::encode_utf8_decode_utf8(y);
}

/// Joining byte strings is associative.
proof fn lemma_join(a: Seq<u8>, b: Seq<u8>, c: Seq<u8>)
    ensures
        (a + b) + c == a + (b + c),
{
    assert((a + b) + c =~= a + (b + c));
}

/// What follows a prefix.
proof fn lemma_prefix_rest(p: Seq<u8>, s: Seq<u8>) -> (rest: Seq<u8>)
    requires
        p.is_prefix_of(s),
    ensures
        s == p + rest,
        rest == s.skip(p.len() as int),
{
    let rest = s.skip(p.len() as int);
    assert(s =~= p + rest);
    rest
}

/// Bytes begin with those of at most one number and text.
pub proof fn pair_is_unique(a: (u64, Seq<char>), b: (u64, Seq<char>), bytes: Seq<u8>)
    requires
        pair_bytes(a.0, a.1).is_prefix_of(bytes),
        pair_bytes(b.0, b.1).is_prefix_of(bytes),
        bytes.len() <= u64::MAX,
    ensures
        a == b,
{
    lemma_byte_range();
    let ra = lemma_prefix_rest(pair_bytes(a.0, a.1), bytes);
    let rb = lemma_prefix_rest(pair_bytes(b.0, b.1), bytes);
    lemma_le_len(a.0 as nat, 8);
    lemma_le_len(b.0 as nat, 8);
    assert(bytes =~= le(a.0 as nat, 8) + (text_bytes(a.1) + ra));
    assert(bytes =~= le(b.0 as nat, 8) + (text_bytes(b.1) + rb));
    lemma_le_unique(a.0 as nat, b.0 as nat, 8, text_bytes(a.1) + ra, text_bytes(b.1) + rb);
    lemma_text_unique(a.1, b.1, ra, rb);
}

/// Bytes begin with those of at most one signed number and optional text.
pub proof fn change_is_unique(
    a: (i64, Option<Seq<char>>),
    b: (i64, Option<Seq<char>>),
    bytes: Seq<u8>,
)
    requires
        change_bytes(a.0, a.1).is_prefix_of(bytes),
        change_bytes(b.0, b.1).is_prefix_of(bytes),
        bytes.len() <= u64::MAX,
    ensures
        a == b,
{
    lemma_byte_range();
    let ra = lemma_prefix_rest(change_bytes(a.0, a.1), bytes);
    let rb = lemma_prefix_rest(change_bytes(b.0, b.1), bytes);
    let na = if a.0 < 0 {
        (a.0 + 0x1_0000_0000_0000_0000) as nat
    } else {
        a.0 as nat
    };
    let nb = if b.0 < 0 {
        (b.0 + 0x1_0000_0000_0000_0000) as nat
    } else {
        b.0 as nat
    };
    let ta = optional_text_bytes(a.1) + ra;
    let tb = optional_text_bytes(b.1) + rb;
    lemma_le_len(na, 8);
    lemma_le_len(nb, 8);
    assert(bytes =~= le(na, 8) + ta);
    assert(bytes =~= le(nb, 8) + tb);
    lemma_le_unique(na, nb, 8, ta, tb);
    assert(optional_text_bytes(a.1)[0] == ta[0]);
    assert(optional_text_bytes(b.1)[0] == tb[0]);
    if let (Some(x), Some(y)) = (a.1, b.1) {
        assert(ta.drop_first() =~= text_bytes(x) + ra);
        assert(tb.drop_first() =~= text_bytes(y) + rb);
        lemma_text_unique(x, y, ra, rb);
    }
}

/// Bytes begin with those of at most one snapshot or delta message.
proof fn lemma_update_unique(a: UpdateFields, b: UpdateFields, bytes: Seq<u8>)
    requires
        update_bytes(a).is_prefix_of(bytes),
        update_bytes(b).is_prefix_of(bytes),
        bytes.len() <= u64::MAX,
    ensures
        a == b,
{
    lemma_byte_range();
    let ra = lemma_prefix_rest(update_bytes(a), bytes);
    let rb = lemma_prefix_rest(update_bytes(b), bytes);
    let a7 = blob_bytes(a.data);
    let b7 = blob_bytes(b.data);
    let a6 = le(a.wire_version as nat, 4) + a7;
    let b6 = le(b.wire_version as nat, 4) + b7;
    let a5 = le(a.age as nat, 8) + a6;
    let b5 = le(b.age as nat, 8) + b6;
    let a4 = le(a.incarnation as nat, 8) + a5;
    let b4 = le(b.incarnation as nat, 8) + b5;
    let a3 = le(a.source as nat, 8) + a4;
    let b3 = le(b.source as nat, 8) + b4;
    let a2 = text_bytes(a.state_name) + a3;
    let b2 = text_bytes(b.state_name) + b3;
    let a1 = le(a.inner as nat, 4) + a2;
    let b1 = le(b.inner as nat, 4) + b2;
    lemma_join(le(a.outer as nat, 4), a1, ra);
    lemma_join(le(b.outer as nat, 4), b1, rb);
    lemma_le_unique(a.outer as nat, b.outer as nat, 4, a1 + ra, b1 + rb);
    lemma_join(le(a.inner as nat, 4), a2, ra);
    lemma_join(le(b.inner as nat, 4), b2, rb);
    lemma_le_unique(a.inner as nat, b.inner as nat, 4, a2 + ra, b2 + rb);
    lemma_join(text_bytes(a.state_name), a3, ra);
    lemma_join(text_bytes(b.state_name), b3, rb);
    lemma_text_unique(a.state_name, b.state_name, a3 + ra, b3 + rb);
    lemma_join(le(a.source as nat, 8), a4, ra);
    lemma_join(le(b.source as nat, 8), b4, rb);
    lemma_le_unique(a.source as nat, b.source as nat, 8, a4 + ra, b4 + rb);
    lemma_join(le(a.incarnation as nat, 8), a5, ra);
    lemma_join(le(b.incarnation as nat, 8), b5, rb);
    lemma_le_unique(a.incarnation as nat, b.incarnation as nat, 8, a5 + ra, b5 + rb);
    lemma_join(le(a.age as nat, 8), a6, ra);
    lemma_join(le(b.age as nat, 8), b6, rb);
    lemma_le_unique(a.age as nat, b.age as nat, 8, a6 + ra, b6 + rb);
    lemma_join(le(a.wire_version as nat, 4), a7, ra);
    lemma_join(le(b.wire_version as nat, 4), b7, rb);
    lemma_le_unique(a.wire_version as nat, b.wire_version as nat, 4, a7 + ra, b7 + rb);
    lemma_blob_unique(a.data, b.data, ra, rb);
}

/// Bytes begin with those of at most one snapshot request.
proof fn lemma_request_unique(
    a: (u32, u32, Seq<char>, u64),
    b: (u32, u32, Seq<char>, u64),
    bytes: Seq<u8>,
)
    requires
        request_bytes(a.0, a.1, a.2, a.3).is_prefix_of(bytes),
        request_bytes(b.0, b.1, b.2, b.3).is_prefix_of(bytes),
        bytes.len() <= u64::MAX,
    ensures
        a == b,
{
    lemma_byte_range();
    let ra = lemma_prefix_rest(request_bytes(a.0, a.1, a.2, a.3), bytes);
    let rb = lemma_prefix_rest(request_bytes(b.0, b.1, b.2, b.3), bytes);
    let a3 = le(a.3 as nat, 8);
    let b3 = le(b.3 as nat, 8);
    let a2 = text_bytes(a.2) + a3;
    let b2 = text_bytes(b.2) + b3;
    let a1 = le(a.1 as nat, 4) + a2;
    let b1 = le(b.1 as nat, 4) + b2;
    lemma_join(le(a.0 as nat, 4), a1, ra);
    lemma_join(le(b.0 as nat, 4), b1, rb);
    lemma_le_unique(a.0 as nat, b.0 as nat, 4, a1 + ra, b1 + rb);
    lemma_join(le(a.1 as nat, 4), a2, ra);
    lemma_join(le(b.1 as nat, 4), b2, rb);
    lemma_le_unique(a.1 as nat, b.1 as nat, 4, a2 + ra, b2 + rb);
    lemma_join(text_bytes(a.2), a3, ra);
    lemma_join(text_bytes(b.2), b3, rb);
    lemma_text_unique(a.2, b.2, a3 + ra, b3 + rb);
    lemma_le_unique(a.3 as nat, b.3 as nat, 8, ra, rb);
}

/// A notification can be told from its bytes, whatever follows them.
proof fn lemma_notice_unique(
    x: (Seq<char>, u64, u64, u64),
    y: (Seq<char>, u64, u64, u64),
    a: Seq<u8>,
    b: Seq<u8>,
)
    requires
        notice_bytes(x) + a == notice_bytes(y) + b,
        (notice_bytes(x) + a).len() <= u64::MAX,
    ensures
        x == y,
        a == b,
{
    lemma_byte_range();
    let x3 = le(x.3 as nat, 8);
    let y3 = le(y.3 as nat, 8);
    let x2 = le(x.2 as nat, 8);
    let y2 = le(y.2 as nat, 8);
    let x1 = le(x.1 as nat, 8);
    let y1 = le(y.1 as nat, 8);
    lemma_join(text_bytes(x.0), x1 + (x2 + x3), a);
    lemma_join(text_bytes(y.0), y1 + (y2 + y3), b);
    lemma_join(x1, x2 + x3, a);
    lemma_join(y1, y2 + y3, b);
    lemma_join(x2, x3, a);
    lemma_join(y2, y3, b);
    lemma_text_unique(x.0, y.0, x1 + (x2 + x3) + a, y1 + (y2 + y3) + b);
    lemma_le_unique(x.1 as nat, y.1 as nat, 8, x2 + x3 + a, y2 + y3 + b);
    lemma_le_unique(x.2 as nat, y.2 as nat, 8, x3 + a, y3 + b);
    lemma_le_unique(x.3 as nat, y.3 as nat, 8, a, b);
}

/// A list of notifications of known length can be told from its bytes, whatever follows them.
proof fn lemma_notices_unique(
    x: Seq<(Seq<char>, u64, u64, u64)>,
    y: Seq<(Seq<char>, u64, u64, u64)>,
    a: Seq<u8>,
    b: Seq<u8>,
)
    requires
        x.len() == y.len(),
        notices_bytes(x) + a == notices_bytes(y) + b,
        (notices_bytes(x) + a).len() <= u64::MAX,
    ensures
        x == y,
        a == b,
    decreases x.len(),
{
    if x.len() == 0 {
        assert(notices_bytes(x) + a =~= a);
        assert(notices_bytes(y) + b =~= b);
        assert(x =~= y);
    } else {
        let xs = x.drop_first();
        let ys = y.drop_first();
        lemma_join(notice_bytes(x[0]), notices_bytes(xs), a);
        lemma_join(notice_bytes(y[0]), notices_bytes(ys), b);
        lemma_notice_unique(x[0], y[0], notices_bytes(xs) + a, notices_bytes(ys) + b);
        lemma_notices_unique(xs, ys, a, b);
        assert(x =~= seq![x[0]] + xs);
        assert(y =~= seq![y[0]] + ys);
    }
}

/// Every notification takes at least a byte.
proof fn lemma_notices_len(x: Seq<(Seq<char>, u64, u64, u64)>)
    ensures
        notices_bytes(x).len() >= x.len(),
    decreases x.len(),
{
    if x.len() > 0 {
        lemma_notices_len(x.drop_first());
        lemma_le_len(x[0].3 as nat, 8);
    }
}

/// Bytes begin with those of at most one batch of change notifications.
proof fn lemma_feed_unique(
    a: (u32, u64, Seq<(Seq<char>, u64, u64, u64)>),
    b: (u32, u64, Seq<(Seq<char>, u64, u64, u64)>),
    bytes: Seq<u8>,
)
    requires
        feed_bytes(a.0, a.1, a.2).is_prefix_of(bytes),
        feed_bytes(b.0, b.1, b.2).is_prefix_of(bytes),
        bytes.len() <= u64::MAX,
    ensures
        a == b,
{
    lemma_byte_range();
    let ra = lemma_prefix_rest(feed_bytes(a.0, a.1, a.2), bytes);
    let rb = lemma_prefix_rest(feed_bytes(b.0, b.1, b.2), bytes);
    let a3 = notices_bytes(a.2);
    let b3 = notices_bytes(b.2);
    let a2 = le(a.2.len(), 8) + a3;
    let b2 = le(b.2.len(), 8) + b3;
    let a1 = le(a.1 as nat, 8) + a2;
    let b1 = le(b.1 as nat, 8) + b2;
    lemma_notices_len(a.2);
    lemma_notices_len(b.2);
    lemma_join(le(a.0 as nat, 4), a1, ra);
    lemma_join(le(b.0 as nat, 4), b1, rb);
    lemma_le_unique(a.0 as nat, b.0 as nat, 4, a1 + ra, b1 + rb);
    lemma_join(le(a.1 as nat, 8), a2, ra);
    lemma_join(le(b.1 as nat, 8), b2, rb);
    lemma_le_unique(a.1 as nat, b.1 as nat, 8, a2 + ra, b2 + rb);
    lemma_join(le(a.2.len(), 8), a3, ra);
    lemma_join(le(b.2.len(), 8), b3, rb);
    lemma_le_unique(a.2.len(), b.2.len(), 8, a3 + ra, b3 + rb);
    lemma_notices_unique(a.2, b.2, ra, rb);
}

/// The plain values of change notifications.
pub open spec fn plain_changes(list: Seq<ChangeContent>) -> Seq<(Seq<char>, u64, u64, u64)> {
    Seq::new(
        list.len(),
        |i: int|
            (
                list[i].state_name,
                list[i].source_node.0,
                list[i].generation.incarnation,
                list[i].generation.age,
            ),
    )
}

/// The bytes of a wire message.
pub open spec fn wire_bytes(message: WireContent) -> Seq<u8> {
    match message {
        WireContent::Sync(
            SyncContent::FullSnapshot { state_name, source_node, generation, wire_version, data },
        ) => update_bytes(
            UpdateFields {
                outer: 0,
                inner: 0,
                state_name,
                source: source_node.0,
                incarnation: generation.incarnation,
                age: generation.age,
                wire_version,
                data,
            },
        ),
        WireContent::Sync(
            SyncContent::DeltaUpdate { state_name, source_node, generation, wire_version, data },
        ) => update_bytes(
            UpdateFields {
                outer: 0,
                inner: 1,
                state_name,
                source: source_node.0,
                incarnation: generation.incarnation,
                age: generation.age,
                wire_version,
                data,
            },
        ),
        WireContent::Sync(SyncContent::RequestSnapshot { state_name, requester }) => request_bytes(
            0,
            2,
            state_name,
            requester.0,
        ),
        WireContent::Feed(feed) => feed_bytes(
            1,
            feed.source_node.0,
            plain_changes(feed.notifications),
        ),
    }
}

/// The variant numbers at the start of a wire message's bytes.
spec fn variant_of(message: WireContent) -> (u32, Option<u32>) {
    match message {
        WireContent::Sync(SyncContent::FullSnapshot { .. }) => (0, Some(0)),
        WireContent::Sync(SyncContent::DeltaUpdate { .. }) => (0, Some(1)),
        WireContent::Sync(SyncContent::RequestSnapshot { .. }) => (0, Some(2)),
        WireContent::Feed(_) => (1, None),
    }
}

/// The bytes of a wire message begin with its variant numbers.
proof fn lemma_variant(message: WireContent, bytes: Seq<u8>)
    requires
        wire_bytes(message).is_prefix_of(bytes),
    ensures
        bytes.len() >= 8,
        le(variant_of(message).0 as nat, 4).is_prefix_of(bytes),
        variant_of(message).1 matches Some(inner) ==> le(inner as nat, 4).is_prefix_of(
            bytes.skip(4),
        ),
{
    let rest = lemma_prefix_rest(wire_bytes(message), bytes);
    lemma_le_len(variant_of(message).0 as nat, 4);
    match variant_of(message).1 {
        Some(inner) => {
            lemma_le_len(inner as nat, 4);
            assert(bytes.take(4) =~= le(variant_of(message).0 as nat, 4));
            assert(bytes.skip(4).take(4) =~= le(inner as nat, 4));
        },
        None => {
            if let WireContent::Feed(feed) = message {
                lemma_le_len(feed.source_node.0 as nat, 8);
            }
            assert(bytes.take(4) =~= le(variant_of(message).0 as nat, 4));
        },
    }
}

/// Four bytes begin with one number.
proof fn lemma_tag_unique(a: u32, b: u32, bytes: Seq<u8>)
    requires
        le(a as nat, 4).is_prefix_of(bytes),
        le(b as nat, 4).is_prefix_of(bytes),
    ensures
        a == b,
{
    lemma_byte_range();
    let ra = lemma_prefix_rest(le(a as nat, 4), bytes);
    let rb = lemma_prefix_rest(le(b as nat, 4), bytes);
    lemma_le_unique(a as nat, b as nat, 4, ra, rb);
}

/// Bytes begin with those of at most one wire message: whoever decodes what was encoded gets
/// what was sent.
pub proof fn wire_message_is_unique(a: WireContent, b: WireContent, bytes: Seq<u8>)
    requires
        wire_bytes(a).is_prefix_of(bytes),
        wire_bytes(b).is_prefix_of(bytes),
        bytes.len() <= u64::MAX,
    ensures
        a == b,
{
    lemma_variant(a, bytes);
    lemma_variant(b, bytes);
    lemma_tag_unique(variant_of(a).0, variant_of(b).0, bytes);
    if let (Some(x), Some(y)) = (variant_of(a).1, variant_of(b).1) {
        lemma_tag_unique(x, y, bytes.skip(4));
    }
    match (a, b) {
        (WireContent::Feed(f), WireContent::Feed(g)) => {
            lemma_feed_unique(
                (1, f.source_node.0, plain_changes(f.notifications)),
                (1, g.source_node.0, plain_changes(g.notifications)),
                bytes,
            );
            assert forall|i: int| 0 <= i < f.notifications.len() implies f.notifications[i]
                == g.notifications[i] by {
                assert(plain_changes(f.notifications)[i] == plain_changes(g.notifications)[i]);
            }
            assert(plain_changes(f.notifications).len() == plain_changes(g.notifications).len());
            assert(f.notifications =~= g.notifications);
        },
        (
            WireContent::Sync(SyncContent::RequestSnapshot { state_name, requester }),
            WireContent::Sync(SyncContent::RequestSnapshot { state_name: name2, requester: who2 }),
        ) => {
            lemma_request_unique((0, 2, state_name, requester.0), (0, 2, name2, who2.0), bytes);
        },
        (WireContent::Sync(x), WireContent::Sync(y)) => {
            lemma_update_unique(update_fields(x), update_fields(y), bytes);
        },
        _ => {},
    }
}

/// The fields of a snapshot or delta message.
spec fn update_fields(message: SyncContent) -> UpdateFields
    recommends
        message !is RequestSnapshot,
{
    match message {
        SyncContent::FullSnapshot { state_name, source_node, generation, wire_version, data } =>
        UpdateFields {
            outer: 0,
            inner: 0,
            state_name,
            source: source_node.0,
            incarnation: generation.incarnation,
            age: generation.age,
            wire_version,
            data,
        },
        SyncContent::DeltaUpdate { state_name, source_node, generation, wire_version, data } =>
        UpdateFields {
            outer: 0,
            inner: 1,
            state_name,
            source: source_node.0,
            incarnation: generation.incarnation,
            age: generation.age,
            wire_version,
            data,
        },
        SyncContent::RequestSnapshot { .. } => arbitrary(),
    }
}

/// A message turned into bytes for the wire.
pub fn encode_wire(message: &WireMessage) -> (bytes: Vec<u8>)
    ensures
        bytes@ == wire_bytes(message@),
{
    match message {
        WireMessage::Sync(
            SyncMessage::FullSnapshot { state_name, source_node, generation, wire_version, data },
        ) => encode_update(
            0,
            0,
            state_name.as_str(),
            source_node.0,
            generation.incarnation,
            generation.age,
            *wire_version,
            data.as_slice(),
        ),
        WireMessage::Sync(
            SyncMessage::DeltaUpdate { state_name, source_node, generation, wire_version, data },
        ) => encode_update(
            0,
            1,
            state_name.as_str(),
            source_node.0,
            generation.incarnation,
            generation.age,
            *wire_version,
            data.as_slice(),
        ),
        WireMessage::Sync(SyncMessage::RequestSnapshot { state_name, requester }) => encode_request(
            0,
            2,
            state_name.as_str(),
            requester.0,
        ),
        WireMessage::Feed(feed) => {
            let mut list: Vec<(String, u64, u64, u64)> = Vec::new();
            let mut i: usize = 0;
            while i < feed.notifications.len()
                invariant
                    i <= feed.notifications@.len(),
                    list@.len() == i,
                    forall|j: int|
                        0 <= j < i ==> plain_notices(list@)[j] == #[trigger] plain_changes(
                            feed@.notifications,
                        )[j],
                decreases feed.notifications@.len() - i,
            {
                let n = &feed.notifications[i];
                let ghost before = list@;
                list.push(
                    (
                        n.state_name.clone(),
                        n.source_node.0,
                        n.generation.incarnation,
                        n.generation.age,
                    ),
                );
                assert forall|j: int| 0 <= j < i + 1 implies plain_notices(list@)[j]
                    == #[trigger] plain_changes(feed@.notifications)[j] by {
                    if j < i {
                        assert(plain_notices(before)[j] == plain_notices(list@)[j]);
                    }
                }
                i = i + 1;
            }
            assert(plain_notices(list@) =~= plain_changes(feed@.notifications));
            encode_feed(1, feed.source_node.0, &list)
        },
    }
}

/// The 32-bit number at the start of `bytes`.
pub open spec fn tag_of(bytes: Seq<u8>) -> u32 {
    choose|tag: u32| (#[trigger] le(tag as nat, 4)).is_prefix_of(bytes)
}

/// The text of the error on a variant number out of range.
pub open spec fn unknown_variant(tag: u32, count: nat) -> Seq<char> {
    "invalid value: integer `"@ + text::decimal(tag as nat)
        + "`, expected variant index 0 <= i < "@ + text::decimal(count)
}

/// The text of the error on bytes that hold no wire message.
pub open spec fn wire_error(bytes: Seq<u8>) -> Seq<char> {
    if bytes.len() < 4 {
        tag_error(bytes)
    } else if tag_of(bytes) == 0 {
        let rest = bytes.skip(4);
        if rest.len() < 4 {
            tag_error(rest)
        } else if tag_of(rest) < 2 {
            update_error(bytes, usize::BITS)
        } else if tag_of(rest) == 2 {
            request_error(bytes, usize::BITS)
        } else {
            unknown_variant(tag_of(rest), 3)
        }
    } else if tag_of(bytes) == 1 {
        feed_error(bytes, usize::BITS)
    } else {
        unknown_variant(tag_of(bytes), 2)
    }
}

/// The error on a variant number out of range.
fn unknown_variant_text(tag: u32, count: u64) -> (s: String)
    ensures
        s@ == unknown_variant(tag, count as nat),
{
    let mut s = text::concat_decimal("invalid value: integer `", tag as u64);
    s.append("`, expected variant index 0 <= i < ");
    text::push_decimal(&mut s, count);
    s
}

/// The message at the start of `bytes`, or the text of the error where there is none.
pub fn decode_wire(bytes: &[u8]) -> (r: Result<WireMessage, String>)
    ensures
        match r {
            Ok(message) => wire_bytes(message@).is_prefix_of(bytes@),
            Err(e) => e@ == wire_error(bytes@) && forall|content: WireContent|
                !(#[trigger] wire_bytes(content)).is_prefix_of(bytes@),
        },
{
    proof {
        assert forall|content: WireContent| (#[trigger] wire_bytes(content)).is_prefix_of(
            bytes@,
        ) implies variant_matches(content, bytes@) by {
            lemma_variant(content, bytes@);
            assert(le(tag_of(bytes@) as nat, 4).is_prefix_of(bytes@));
            lemma_tag_unique(tag_of(bytes@), variant_of(content).0, bytes@);
            if let Some(inner) = variant_of(content).1 {
                assert(le(tag_of(bytes@.skip(4)) as nat, 4).is_prefix_of(bytes@.skip(4)));
                lemma_tag_unique(tag_of(bytes@.skip(4)), inner, bytes@.skip(4));
            }
        }
    }
    let outer = match decode_tag(bytes) {
        Ok(tag) => tag,
        Err(e) => {
            return Err(e);
        },
    };
    proof {
        lemma_le_len(outer as nat, 4);
        lemma_tag_unique(outer, tag_of(bytes@), bytes@);
    }
    if outer == 0 {
        let rest = slice_subrange(bytes, 4, bytes.len());
        assert(rest@ =~= bytes@.skip(4));
        let inner = match decode_tag(rest) {
            Ok(tag) => tag,
            Err(e) => {
                return Err(e);
            },
        };
        proof {
            lemma_le_len(inner as nat, 4);
            lemma_tag_unique(inner, tag_of(rest@), rest@);
        }
        if inner == 0 || inner == 1 {
            decode_wire_update(bytes, inner)
        } else if inner == 2 {
            decode_wire_request(bytes)
        } else {
            Err(unknown_variant_text(inner, 3))
        }
    } else if outer == 1 {
        decode_wire_feed(bytes)
    } else {
        Err(unknown_variant_text(outer, 2))
    }
}

/// Whether the variant numbers of `content` are those that `bytes` begin with.
spec fn variant_matches(content: WireContent, bytes: Seq<u8>) -> bool {
    &&& bytes.len() >= 8
    &&& tag_of(bytes) == variant_of(content).0
    &&& variant_of(content).1 matches Some(inner) ==> tag_of(bytes.skip(4)) == inner
}

/// The snapshot (`inner` 0) or delta (`inner` 1) message at the start of `bytes`.
fn decode_wire_update(bytes: &[u8], inner: u32) -> (r: Result<WireMessage, String>)
    requires
        inner < 2,
        bytes@.len() >= 8,
        le(0, 4).is_prefix_of(bytes@),
        le(inner as nat, 4).is_prefix_of(bytes@.skip(4)),
    ensures
        match r {
            Ok(message) => wire_bytes(message@).is_prefix_of(bytes@),
            Err(e) => e@ == update_error(bytes@, usize::BITS) && forall|f: UpdateFields|
                !(#[trigger] update_bytes(f)).is_prefix_of(bytes@),
        },
{
    match decode_update(bytes) {
        Ok(v) => {
            proof {
                let f = UpdateFields {
                    outer: v.0,
                    inner: v.1,
                    state_name: v.2@,
                    source: v.3,
                    incarnation: v.4,
                    age: v.5,
                    wire_version: v.6,
                    data: v.7@,
                };
                let rest = lemma_prefix_rest(update_bytes(f), bytes@);
                lemma_le_len(v.0 as nat, 4);
                lemma_le_len(v.1 as nat, 4);
                assert(bytes@.take(4) =~= le(v.0 as nat, 4));
                assert(bytes@.skip(4).take(4) =~= le(v.1 as nat, 4));
                lemma_tag_unique(v.0, 0, bytes@);
                lemma_tag_unique(v.1, inner, bytes@.skip(4));
            }
            let source_node = NodeId(v.3);
            let generation = Generation::new(v.4, v.5);
            if inner == 0 {
                Ok(
                    WireMessage::Sync(
                        SyncMessage::FullSnapshot {
                            state_name: v.2,
                            source_node,
                            generation,
                            wire_version: v.6,
                            data: v.7,
                        },
                    ),
                )
            } else {
                Ok(
                    WireMessage::Sync(
                        SyncMessage::DeltaUpdate {
                            state_name: v.2,
                            source_node,
                            generation,
                            wire_version: v.6,
                            data: v.7,
                        },
                    ),
                )
            }
        },
        Err(e) => Err(e),
    }
}

/// The snapshot request at the start of `bytes`.
fn decode_wire_request(bytes: &[u8]) -> (r: Result<WireMessage, String>)
    requires
        bytes@.len() >= 8,
        le(0, 4).is_prefix_of(bytes@),
        le(2, 4).is_prefix_of(bytes@.skip(4)),
    ensures
        match r {
            Ok(message) => wire_bytes(message@).is_prefix_of(bytes@),
            Err(e) => e@ == request_error(bytes@, usize::BITS) && forall|
                outer: u32,
                inner: u32,
                state_name: Seq<char>,
                requester: u64,
            |
                !(#[trigger] request_bytes(outer, inner, state_name, requester)).is_prefix_of(
                    bytes@,
                ),
        },
{
    match decode_request(bytes) {
        Ok(v) => {
            proof {
                let rest = lemma_prefix_rest(request_bytes(v.0, v.1, v.2@, v.3), bytes@);
                lemma_le_len(v.0 as nat, 4);
                lemma_le_len(v.1 as nat, 4);
                assert(bytes@.take(4) =~= le(v.0 as nat, 4));
                assert(bytes@.skip(4).take(4) =~= le(v.1 as nat, 4));
                lemma_tag_unique(v.0, 0, bytes@);
                lemma_tag_unique(v.1, 2, bytes@.skip(4));
            }
            Ok(
                WireMessage::Sync(
                    SyncMessage::RequestSnapshot { state_name: v.2, requester: NodeId(v.3) },
                ),
            )
        },
        Err(e) => Err(e),
    }
}

/// The batch of change notifications at the start of `bytes`.
fn decode_wire_feed(bytes: &[u8]) -> (r: Result<WireMessage, String>)
    requires
        bytes@.len() >= 4,
        le(1, 4).is_prefix_of(bytes@),
    ensures
        match r {
            Ok(message) => wire_bytes(message@).is_prefix_of(bytes@),
            Err(e) => e@ == feed_error(bytes@, usize::BITS) && forall|
                outer: u32,
                source: u64,
                list: Seq<(Seq<char>, u64, u64, u64)>,
            |
                !(#[trigger] feed_bytes(outer, source, list)).is_prefix_of(bytes@),
        },
{
    match decode_feed(bytes) {
        Ok(v) => {
            proof {
                let rest = lemma_prefix_rest(
                    feed_bytes(v.0, v.1, plain_notices(v.2@)),
                    bytes@,
                );
                lemma_le_len(v.0 as nat, 4);
                assert(bytes@.take(4) =~= le(v.0 as nat, 4));
                lemma_tag_unique(v.0, 1, bytes@);
            }
            let mut notifications: Vec<ChangeNotification> = Vec::new();
            let mut i: usize = 0;
            while i < v.2.len()
                invariant
                    i <= v.2@.len(),
                    notifications@.len() == i,
                    forall|j: int|
                        0 <= j < i ==> (#[trigger] notifications@[j])@ == (ChangeContent {
                            state_name: v.2@[j].0@,
                            source_node: NodeId(v.2@[j].1),
                            generation: Generation {
                                incarnation: v.2@[j].2,
                                age: v.2@[j].3,
                            },
                        }),
                decreases v.2@.len() - i,
            {
                notifications.push(
                    ChangeNotification {
                        state_name: v.2[i].0.clone(),
                        source_node: NodeId(v.2[i].1),
                        generation: Generation::new(v.2[i].2, v.2[i].3),
                    },
                );
                i = i + 1;
            }
            let feed = BatchedChangeFeed { source_node: NodeId(v.1), notifications };
            assert(plain_changes(feed@.notifications) =~= plain_notices(v.2@));
            Ok(WireMessage::Feed(feed))
        },
        Err(e) => Err(e),
    }
}

/// What stands at the start of a wire message: the number of its kind, 0 for a synchronization
/// message and 1 for a batch of changes, and for the former that of its own kind, 0 for a
/// snapshot, 1 for a delta and 2 for a request.
pub proof fn kind_stands_first(message: WireContent)
    ensures
        ({
            let bytes = wire_bytes(message);
            let first = bytes.take(4);
            let second = bytes.skip(4).take(4);
            &&& bytes.len() >= 8
            &&& message is Feed ==> first == seq![1u8, 0u8, 0u8, 0u8]
            &&& message is Sync ==> first == seq![0u8, 0u8, 0u8, 0u8]
            &&& message matches WireContent::Sync(m) ==> {
                &&& m is FullSnapshot ==> second == seq![0u8, 0u8, 0u8, 0u8]
                &&& m is DeltaUpdate ==> second == seq![1u8, 0u8, 0u8, 0u8]
                &&& m is RequestSnapshot ==> second == seq![2u8, 0u8, 0u8, 0u8]
            }
        }),
{
    let bytes = wire_bytes(message);
    assert(bytes.is_prefix_of(bytes));
    lemma_variant(message, bytes);
    let outer = variant_of(message).0;
    lemma_le_len(outer as nat, 4);
    reveal_with_fuel(le, 5);
    assert(le(0, 4) =~= seq![0u8, 0u8, 0u8, 0u8]);
    assert(le(1, 4) =~= seq![1u8, 0u8, 0u8, 0u8]);
    assert(le(2, 4) =~= seq![2u8, 0u8, 0u8, 0u8]);
    assert(bytes.take(4) =~= le(outer as nat, 4));
    if let Some(inner) = variant_of(message).1 {
        lemma_le_len(inner as nat, 4);
        assert(bytes.skip(4).take(4) =~= le(inner as nat, 4));
    }
}

} // verus!

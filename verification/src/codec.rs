//! Byte-level wire primitives shared by every message codec.
//!
//! Every value that crosses the wire is built from a handful of primitive
//! shapes: fixed-width little-endian integers, a one-byte boolean, a
//! length-prefixed byte string, an optional value behind a presence byte,
//! and a count-prefixed list. For each shape this module gives the
//! specification-level encoder, the specification-level decoder (which
//! consumes a prefix of the input and returns the value together with the
//! unread remainder), executable readers and writers proved against them,
//! and the two laws every shape obeys: decoding an encoding yields the
//! value back (completeness), and a successful decode pins the consumed
//! bytes to be exactly the value's encoding (canonicity).

use vstd::bytes::*;
use vstd::prelude::*;
use vstd::slice::slice_subrange;
use vstd::slice::slice_to_vec;

verus! {

// ---------------------------------------------------------------------------
// Specification encoders
// ---------------------------------------------------------------------------
pub open spec fn enc_u8(x: u8) -> Seq<u8> {
    seq![x]
}

pub open spec fn enc_u16(x: u16) -> Seq<u8> {
    spec_u16_to_le_bytes(x)
}

pub open spec fn enc_u32(x: u32) -> Seq<u8> {
    spec_u32_to_le_bytes(x)
}

pub open spec fn enc_u64(x: u64) -> Seq<u8> {
    spec_u64_to_le_bytes(x)
}

/// The two's-complement image of a signed 32-bit value.
pub open spec fn u32_of_i32(x: i32) -> u32 {
    ((x as int) % 0x1_0000_0000) as u32
}

/// Inverse of `u32_of_i32`.
pub open spec fn i32_of_u32(x: u32) -> i32 {
    if x < 0x8000_0000 {
        x as i32
    } else {
        ((x as int) - 0x1_0000_0000) as i32
    }
}

pub open spec fn enc_i32(x: i32) -> Seq<u8> {
    enc_u32(u32_of_i32(x))
}

pub open spec fn enc_bool(x: bool) -> Seq<u8> {
    seq![if x { 1u8 } else { 0u8 }]
}

/// A byte string: 32-bit length prefix, followed by the bytes themselves.
pub open spec fn enc_bytes(s: Seq<u8>) -> Seq<u8>
    recommends
        s.len() < 0x1_0000_0000,
{
    enc_u32(s.len() as u32) + s
}

/// The concatenated encodings of a list's items, without the count prefix.
pub open spec fn enc_items<T>(s: Seq<T>, g: spec_fn(T) -> Seq<u8>) -> Seq<u8>
    decreases s.len(),
{
    if s.len() == 0 {
        Seq::empty()
    } else {
        g(s[0]) + enc_items(s.skip(1), g)
    }
}

/// A list: 32-bit count prefix, followed by each item's encoding in order.
pub open spec fn enc_list<T>(s: Seq<T>, g: spec_fn(T) -> Seq<u8>) -> Seq<u8>
    recommends
        s.len() < 0x1_0000_0000,
{
    enc_u32(s.len() as u32) + enc_items(s, g)
}

/// An optional value: absence byte 0, or presence byte 1 and the value.
pub open spec fn enc_opt<T>(o: Option<T>, g: spec_fn(T) -> Seq<u8>) -> Seq<u8> {
    match o {
        Option::None => seq![0u8],
        Option::Some(v) => seq![1u8] + g(v),
    }
}

// ---------------------------------------------------------------------------
// Specification decoders
//
// A decoder takes the unread input and either fails or returns the decoded
// value paired with the remainder it did not consume.
// ---------------------------------------------------------------------------
pub open spec fn dec_u8(b: Seq<u8>) -> Option<(u8, Seq<u8>)> {
    if b.len() >= 1 {
        Option::Some((b[0], b.skip(1)))
    } else {
        Option::None
    }
}

pub open spec fn dec_u16(b: Seq<u8>) -> Option<(u16, Seq<u8>)> {
    if b.len() >= 2 {
        Option::Some((spec_u16_from_le_bytes(b.take(2)), b.skip(2)))
    } else {
        Option::None
    }
}

pub open spec fn dec_u32(b: Seq<u8>) -> Option<(u32, Seq<u8>)> {
    if b.len() >= 4 {
        Option::Some((spec_u32_from_le_bytes(b.take(4)), b.skip(4)))
    } else {
        Option::None
    }
}

pub open spec fn dec_u64(b: Seq<u8>) -> Option<(u64, Seq<u8>)> {
    if b.len() >= 8 {
        Option::Some((spec_u64_from_le_bytes(b.take(8)), b.skip(8)))
    } else {
        Option::None
    }
}

pub open spec fn dec_i32(b: Seq<u8>) -> Option<(i32, Seq<u8>)> {
    match dec_u32(b) {
        Option::None => Option::None,
        Option::Some((v, r)) => Option::Some((i32_of_u32(v), r)),
    }
}

pub open spec fn dec_bool(b: Seq<u8>) -> Option<(bool, Seq<u8>)> {
    if b.len() >= 1 && (b[0] == 0 || b[0] == 1) {
        Option::Some((b[0] == 1, b.skip(1)))
    } else {
        Option::None
    }
}

pub open spec fn dec_bytes(b: Seq<u8>) -> Option<(Seq<u8>, Seq<u8>)> {
    match dec_u32(b) {
        Option::None => Option::None,
        Option::Some((n, r)) => if r.len() >= n {
            Option::Some((r.take(n as int), r.skip(n as int)))
        } else {
            Option::None
        },
    }
}

pub open spec fn dec_items<T>(
    b: Seq<u8>,
    n: nat,
    f: spec_fn(Seq<u8>) -> Option<(T, Seq<u8>)>,
) -> Option<(Seq<T>, Seq<u8>)>
    decreases n,
{
    if n == 0 {
        Option::Some((Seq::empty(), b))
    } else {
        match f(b) {
            Option::None => Option::None,
            Option::Some((v, b1)) => match dec_items(b1, (n - 1) as nat, f) {
                Option::None => Option::None,
                Option::Some((vs, b2)) => Option::Some((seq![v] + vs, b2)),
            },
        }
    }
}

pub open spec fn dec_list<T>(
    b: Seq<u8>,
    f: spec_fn(Seq<u8>) -> Option<(T, Seq<u8>)>,
) -> Option<(Seq<T>, Seq<u8>)> {
    match dec_u32(b) {
        Option::None => Option::None,
        Option::Some((n, r)) => dec_items(r, n as nat, f),
    }
}

pub open spec fn dec_opt<T>(
    b: Seq<u8>,
    f: spec_fn(Seq<u8>) -> Option<(T, Seq<u8>)>,
) -> Option<(Option<T>, Seq<u8>)> {
    if b.len() >= 1 && b[0] == 0 {
        Option::Some((Option::None, b.skip(1)))
    } else if b.len() >= 1 && b[0] == 1 {
        match f(b.skip(1)) {
            Option::None => Option::None,
            Option::Some((v, r)) => Option::Some((Option::Some(v), r)),
        }
    } else {
        Option::None
    }
}

// ---------------------------------------------------------------------------
// Conversion laws for signed values
// ---------------------------------------------------------------------------
pub proof fn lemma_i32_u32_roundtrip()
    ensures
        forall|x: i32| #[trigger] i32_of_u32(u32_of_i32(x)) == x,
        forall|u: u32| #[trigger] u32_of_i32(i32_of_u32(u)) == u,
{
}

/// Two's-complement conversion, executable form.
pub fn u32_from_i32(x: i32) -> (r: u32)
    ensures
        r == u32_of_i32(x),
{
    if x >= 0 {
        x as u32
    } else {
        let y: i64 = (x as i64) + 0x1_0000_0000i64;
        y as u32
    }
}

/// Inverse two's-complement conversion, executable form.
pub fn i32_from_u32(u: u32) -> (r: i32)
    ensures
        r == i32_of_u32(u),
{
    if u < 0x8000_0000 {
        u as i32
    } else {
        let y: i64 = (u as i64) - 0x1_0000_0000i64;
        y as i32
    }
}

// ---------------------------------------------------------------------------
// Completeness: decoding an encoding followed by anything yields the value
// and leaves exactly that trailing part unread.
// ---------------------------------------------------------------------------
pub proof fn lemma_enc_dec_u8(x: u8, rest: Seq<u8>)
    ensures
        dec_u8(enc_u8(x) + rest) == Option::Some((x, rest)),
{
    assert((enc_u8(x) + rest).skip(1) =~= rest);
}

pub proof fn lemma_enc_dec_u16(x: u16, rest: Seq<u8>)
    ensures
        dec_u16(enc_u16(x) + rest) == Option::Some((x, rest)),
{
    lemma_auto_spec_u16_to_from_le_bytes();
    assert((enc_u16(x) + rest).take(2) =~= enc_u16(x));
    assert((enc_u16(x) + rest).skip(2) =~= rest);
}

pub proof fn lemma_enc_dec_u32(x: u32, rest: Seq<u8>)
    ensures
        dec_u32(enc_u32(x) + rest) == Option::Some((x, rest)),
{
    lemma_auto_spec_u32_to_from_le_bytes();
    assert((enc_u32(x) + rest).take(4) =~= enc_u32(x));
    assert((enc_u32(x) + rest).skip(4) =~= rest);
}

pub proof fn lemma_enc_dec_u64(x: u64, rest: Seq<u8>)
    ensures
        dec_u64(enc_u64(x) + rest) == Option::Some((x, rest)),
{
    lemma_auto_spec_u64_to_from_le_bytes();
    assert((enc_u64(x) + rest).take(8) =~= enc_u64(x));
    assert((enc_u64(x) + rest).skip(8) =~= rest);
}

pub proof fn lemma_enc_dec_i32(x: i32, rest: Seq<u8>)
    ensures
        dec_i32(enc_i32(x) + rest) == Option::Some((x, rest)),
{
    lemma_enc_dec_u32(u32_of_i32(x), rest);
    lemma_i32_u32_roundtrip();
}

pub proof fn lemma_enc_dec_bool(x: bool, rest: Seq<u8>)
    ensures
        dec_bool(enc_bool(x) + rest) == Option::Some((x, rest)),
{
    assert((enc_bool(x) + rest).skip(1) =~= rest);
}

pub proof fn lemma_enc_dec_bytes(s: Seq<u8>, rest: Seq<u8>)
    requires
        s.len() < 0x1_0000_0000,
    ensures
        dec_bytes(enc_bytes(s) + rest) == Option::Some((s, rest)),
{
    assert(enc_bytes(s) + rest =~= enc_u32(s.len() as u32) + (s + rest));
    lemma_enc_dec_u32(s.len() as u32, s + rest);
    assert((s + rest).take(s.len() as int) =~= s);
    assert((s + rest).skip(s.len() as int) =~= rest);
}

pub proof fn lemma_enc_dec_items<T>(
    s: Seq<T>,
    rest: Seq<u8>,
    g: spec_fn(T) -> Seq<u8>,
    f: spec_fn(Seq<u8>) -> Option<(T, Seq<u8>)>,
)
    requires
        forall|i: int, r: Seq<u8>|
            0 <= i < s.len() ==> #[trigger] f(g(s[i]) + r) == Option::Some((s[i], r)),
    ensures
        dec_items(enc_items(s, g) + rest, s.len(), f) == Option::Some((s, rest)),
    decreases s.len(),
{
    if s.len() == 0 {
        assert(enc_items(s, g) + rest =~= rest);
        assert(s =~= Seq::<T>::empty());
    } else {
        let tail = s.skip(1);
        let tail_rest = enc_items(tail, g) + rest;
        assert(enc_items(s, g) + rest =~= g(s[0]) + tail_rest);
        assert(f(g(s[0]) + tail_rest) == Option::Some((s[0], tail_rest)));
        assert forall|i: int, r: Seq<u8>| 0 <= i < tail.len() implies #[trigger] f(g(tail[i]) + r)
            == Option::Some((tail[i], r)) by {
            assert(tail[i] == s[i + 1]);
            assert(f(g(s[i + 1]) + r) == Option::Some((s[i + 1], r)));
        }
        lemma_enc_dec_items(tail, rest, g, f);
        assert(seq![s[0]] + tail =~= s);
    }
}

/// Appending one item to a list extends the items' encoding by that item's.
pub proof fn lemma_enc_items_push<T>(s: Seq<T>, v: T, g: spec_fn(T) -> Seq<u8>)
    ensures
        enc_items(s.push(v), g) == enc_items(s, g) + g(v),
    decreases s.len(),
{
    if s.len() == 0 {
        assert(s.push(v)[0] == v);
        assert(s.push(v).skip(1) =~= Seq::<T>::empty());
        assert(enc_items(s.push(v), g) == g(v) + enc_items(s.push(v).skip(1), g));
        assert(enc_items(Seq::<T>::empty(), g) == Seq::<u8>::empty());
        assert(g(v) + Seq::<u8>::empty() =~= g(v));
        assert(Seq::<u8>::empty() + g(v) =~= g(v));
    } else {
        assert(s.push(v)[0] == s[0]);
        assert(s.push(v).skip(1) =~= s.skip(1).push(v));
        lemma_enc_items_push(s.skip(1), v, g);
        assert(g(s[0]) + (enc_items(s.skip(1), g) + g(v)) =~= (g(s[0]) + enc_items(s.skip(1), g))
            + g(v));
    }
}

pub proof fn lemma_enc_dec_list<T>(
    s: Seq<T>,
    rest: Seq<u8>,
    g: spec_fn(T) -> Seq<u8>,
    f: spec_fn(Seq<u8>) -> Option<(T, Seq<u8>)>,
)
    requires
        s.len() < 0x1_0000_0000,
        forall|i: int, r: Seq<u8>|
            0 <= i < s.len() ==> #[trigger] f(g(s[i]) + r) == Option::Some((s[i], r)),
    ensures
        dec_list(enc_list(s, g) + rest, f) == Option::Some((s, rest)),
{
    assert(enc_list(s, g) + rest =~= enc_u32(s.len() as u32) + (enc_items(s, g) + rest));
    lemma_enc_dec_u32(s.len() as u32, enc_items(s, g) + rest);
    lemma_enc_dec_items(s, rest, g, f);
}

pub proof fn lemma_enc_dec_opt<T>(
    o: Option<T>,
    rest: Seq<u8>,
    g: spec_fn(T) -> Seq<u8>,
    f: spec_fn(Seq<u8>) -> Option<(T, Seq<u8>)>,
)
    requires
        o matches Option::Some(v) ==> forall|r: Seq<u8>| #[trigger] f(g(v) + r) == Option::Some(
            (v, r),
        ),
    ensures
        dec_opt(enc_opt(o, g) + rest, f) == Option::Some((o, rest)),
{
    match o {
        Option::None => {
            assert((enc_opt(o, g) + rest)[0] == 0);
            assert((enc_opt(o, g) + rest).skip(1) =~= rest);
        },
        Option::Some(v) => {
            assert((enc_opt(o, g) + rest)[0] == 1);
            assert((enc_opt(o, g) + rest).skip(1) =~= g(v) + rest);
            assert(f(g(v) + rest) == Option::Some((v, rest)));
        },
    }
}

// ---------------------------------------------------------------------------
// Canonicity: a successful decode consumed exactly the value's encoding.
// ---------------------------------------------------------------------------
pub proof fn lemma_dec_enc_u8(b: Seq<u8>)
    ensures
        dec_u8(b) matches Option::Some(p) ==> b == enc_u8(p.0) + p.1 && p.1.len() + 1 == b.len(),
{
    if b.len() >= 1 {
        assert(b =~= enc_u8(b[0]) + b.skip(1));
    }
}

pub proof fn lemma_dec_enc_u16(b: Seq<u8>)
    ensures
        dec_u16(b) matches Option::Some(p) ==> b == enc_u16(p.0) + p.1 && p.1.len() + 2 == b.len(),
{
    if b.len() >= 2 {
        lemma_auto_spec_u16_to_from_le_bytes();
        assert(enc_u16(spec_u16_from_le_bytes(b.take(2))) == b.take(2));
        assert(b =~= b.take(2) + b.skip(2));
    }
}

pub proof fn lemma_dec_enc_u32(b: Seq<u8>)
    ensures
        dec_u32(b) matches Option::Some(p) ==> b == enc_u32(p.0) + p.1 && p.1.len() + 4 == b.len(),
{
    if b.len() >= 4 {
        lemma_auto_spec_u32_to_from_le_bytes();
        assert(enc_u32(spec_u32_from_le_bytes(b.take(4))) == b.take(4));
        assert(b =~= b.take(4) + b.skip(4));
    }
}

pub proof fn lemma_dec_enc_u64(b: Seq<u8>)
    ensures
        dec_u64(b) matches Option::Some(p) ==> b == enc_u64(p.0) + p.1 && p.1.len() + 8 == b.len(),
{
    if b.len() >= 8 {
        lemma_auto_spec_u64_to_from_le_bytes();
        assert(enc_u64(spec_u64_from_le_bytes(b.take(8))) == b.take(8));
        assert(b =~= b.take(8) + b.skip(8));
    }
}

pub proof fn lemma_dec_enc_i32(b: Seq<u8>)
    ensures
        dec_i32(b) matches Option::Some(p) ==> b == enc_i32(p.0) + p.1 && p.1.len() + 4 == b.len(),
{
    lemma_dec_enc_u32(b);
    lemma_i32_u32_roundtrip();
}

pub proof fn lemma_dec_enc_bool(b: Seq<u8>)
    ensures
        dec_bool(b) matches Option::Some(p) ==> b == enc_bool(p.0) + p.1 && p.1.len() + 1 == b.len(),
{
    if b.len() >= 1 && (b[0] == 0 || b[0] == 1) {
        assert(b =~= enc_bool(b[0] == 1) + b.skip(1));
    }
}

pub proof fn lemma_dec_enc_bytes(b: Seq<u8>)
    ensures
        dec_bytes(b) matches Option::Some(p) ==> p.0.len() < 0x1_0000_0000 && b == enc_bytes(p.0)
            + p.1 && p.1.len() < b.len(),
{
    lemma_dec_enc_u32(b);
    if dec_bytes(b) is Some {
        let (n, r) = dec_u32(b)->Some_0;
        assert(b =~= enc_u32(n) + r);
        assert(r =~= r.take(n as int) + r.skip(n as int));
        assert(enc_bytes(r.take(n as int)) + r.skip(n as int) =~= enc_u32(n) + r);
    }
}

pub proof fn lemma_dec_enc_items<T>(
    b: Seq<u8>,
    n: nat,
    g: spec_fn(T) -> Seq<u8>,
    f: spec_fn(Seq<u8>) -> Option<(T, Seq<u8>)>,
    w: spec_fn(T) -> bool,
)
    requires
        forall|bb: Seq<u8>| #[trigger] f(bb) matches Option::Some(p) ==> bb == g(p.0) + p.1
            && p.1.len() < bb.len() && w(p.0),
    ensures
        dec_items(b, n, f) matches Option::Some(p) ==> p.0.len() == n && b == enc_items(p.0, g)
            + p.1 && p.1.len() <= b.len() && (forall|i: int|
            0 <= i < p.0.len() ==> w(#[trigger] p.0[i])),
    decreases n,
{
    if n == 0 {
        if dec_items(b, n, f) is Some {
            let p = dec_items(b, n, f)->Some_0;
            assert(enc_items(p.0, g) + p.1 =~= b);
        }
    } else {
        if f(b) is Some {
            let (v, b1) = f(b)->Some_0;
            lemma_dec_enc_items(b1, (n - 1) as nat, g, f, w);
            if dec_items(b1, (n - 1) as nat, f) is Some {
                let (vs, b2) = dec_items(b1, (n - 1) as nat, f)->Some_0;
                let whole = seq![v] + vs;
                assert(whole.skip(1) =~= vs);
                assert(whole[0] == v);
                assert(enc_items(whole, g) + b2 =~= g(v) + (enc_items(vs, g) + b2));
                assert(b =~= g(v) + b1);
            }
        }
    }
}

pub proof fn lemma_dec_enc_list<T>(
    b: Seq<u8>,
    g: spec_fn(T) -> Seq<u8>,
    f: spec_fn(Seq<u8>) -> Option<(T, Seq<u8>)>,
    w: spec_fn(T) -> bool,
)
    requires
        forall|bb: Seq<u8>| #[trigger] f(bb) matches Option::Some(p) ==> bb == g(p.0) + p.1
            && p.1.len() < bb.len() && w(p.0),
    ensures
        dec_list(b, f) matches Option::Some(p) ==> p.0.len() < 0x1_0000_0000 && b == enc_list(
            p.0,
            g,
        ) + p.1 && p.1.len() < b.len() && (forall|i: int|
            0 <= i < p.0.len() ==> w(#[trigger] p.0[i])),
{
    lemma_dec_enc_u32(b);
    if dec_u32(b) is Some {
        let (n, r) = dec_u32(b)->Some_0;
        lemma_dec_enc_items(r, n as nat, g, f, w);
        if dec_items(r, n as nat, f) is Some {
            let (vs, b2) = dec_items(r, n as nat, f)->Some_0;
            assert(enc_list(vs, g) + b2 =~= enc_u32(n) + (enc_items(vs, g) + b2));
            assert(b =~= enc_u32(n) + r);
        }
    }
}

pub proof fn lemma_dec_enc_opt<T>(
    b: Seq<u8>,
    g: spec_fn(T) -> Seq<u8>,
    f: spec_fn(Seq<u8>) -> Option<(T, Seq<u8>)>,
)
    requires
        forall|bb: Seq<u8>| #[trigger] f(bb) matches Option::Some(p) ==> bb == g(p.0) + p.1
            && p.1.len() < bb.len(),
    ensures
        dec_opt(b, f) matches Option::Some(p) ==> b == enc_opt(p.0, g) + p.1 && p.1.len() < b.len(),
{
    if b.len() >= 1 && b[0] == 0 {
        assert(b =~= enc_opt(Option::None::<T>, g) + b.skip(1));
    } else if b.len() >= 1 && b[0] == 1 {
        if f(b.skip(1)) is Some {
            let (v, r) = f(b.skip(1))->Some_0;
            assert(b.skip(1) == g(v) + r);
            assert(enc_opt(Option::Some(v), g) + r =~= seq![1u8] + (g(v) + r));
            assert(b =~= seq![1u8] + b.skip(1));
        }
    }
}

// ---------------------------------------------------------------------------
// Executable readers
//
// A reader parses at a cursor position inside a byte slice and either fails
// or returns the value together with the position just past what it read.
// Each contract ties the executable outcome to the specification decoder
// applied to the unread suffix.
// ---------------------------------------------------------------------------
pub fn read_u8(b: &[u8], pos: usize) -> (r: Option<(u8, usize)>)
    requires
        pos <= b@.len(),
    ensures
        match r {
            Option::Some(p) => pos < p.1 <= b@.len() && dec_u8(b@.skip(pos as int))
                == Option::Some((p.0, b@.skip(p.1 as int))),
            Option::None => dec_u8(b@.skip(pos as int)) is None,
        },
{
    if pos < b.len() {
        let x: u8 = *vstd::slice::slice_index_get(b, pos);
        proof {
            assert(b@.skip(pos as int)[0] == b@[pos as int]);
            assert(b@.skip(pos as int).skip(1) =~= b@.skip(pos as int + 1));
        }
        Option::Some((x, pos + 1))
    } else {
        Option::None
    }
}

pub fn read_u16(b: &[u8], pos: usize) -> (r: Option<(u16, usize)>)
    requires
        pos <= b@.len(),
    ensures
        match r {
            Option::Some(p) => pos < p.1 <= b@.len() && dec_u16(b@.skip(pos as int))
                == Option::Some((p.0, b@.skip(p.1 as int))),
            Option::None => dec_u16(b@.skip(pos as int)) is None,
        },
{
    if b.len() - pos >= 2 {
        let s = slice_subrange(b, pos, pos + 2);
        let x = u16_from_le_bytes(s);
        proof {
            assert(b@.skip(pos as int).take(2) =~= b@.subrange(pos as int, pos as int + 2));
            assert(b@.skip(pos as int).skip(2) =~= b@.skip(pos as int + 2));
        }
        Option::Some((x, pos + 2))
    } else {
        Option::None
    }
}

pub fn read_u32(b: &[u8], pos: usize) -> (r: Option<(u32, usize)>)
    requires
        pos <= b@.len(),
    ensures
        match r {
            Option::Some(p) => pos < p.1 <= b@.len() && dec_u32(b@.skip(pos as int))
                == Option::Some((p.0, b@.skip(p.1 as int))),
            Option::None => dec_u32(b@.skip(pos as int)) is None,
        },
{
    if b.len() - pos >= 4 {
        let s = slice_subrange(b, pos, pos + 4);
        let x = u32_from_le_bytes(s);
        proof {
            assert(b@.skip(pos as int).take(4) =~= b@.subrange(pos as int, pos as int + 4));
            assert(b@.skip(pos as int).skip(4) =~= b@.skip(pos as int + 4));
        }
        Option::Some((x, pos + 4))
    } else {
        Option::None
    }
}

pub fn read_u64(b: &[u8], pos: usize) -> (r: Option<(u64, usize)>)
    requires
        pos <= b@.len(),
    ensures
        match r {
            Option::Some(p) => pos < p.1 <= b@.len() && dec_u64(b@.skip(pos as int))
                == Option::Some((p.0, b@.skip(p.1 as int))),
            Option::None => dec_u64(b@.skip(pos as int)) is None,
        },
{
    if b.len() - pos >= 8 {
        let s = slice_subrange(b, pos, pos + 8);
        let x = u64_from_le_bytes(s);
        proof {
            assert(b@.skip(pos as int).take(8) =~= b@.subrange(pos as int, pos as int + 8));
            assert(b@.skip(pos as int).skip(8) =~= b@.skip(pos as int + 8));
        }
        Option::Some((x, pos + 8))
    } else {
        Option::None
    }
}

pub fn read_i32(b: &[u8], pos: usize) -> (r: Option<(i32, usize)>)
    requires
        pos <= b@.len(),
    ensures
        match r {
            Option::Some(p) => pos < p.1 <= b@.len() && dec_i32(b@.skip(pos as int))
                == Option::Some((p.0, b@.skip(p.1 as int))),
            Option::None => dec_i32(b@.skip(pos as int)) is None,
        },
{
    match read_u32(b, pos) {
        Option::None => Option::None,
        Option::Some((u, p2)) => Option::Some((i32_from_u32(u), p2)),
    }
}

pub fn read_bool(b: &[u8], pos: usize) -> (r: Option<(bool, usize)>)
    requires
        pos <= b@.len(),
    ensures
        match r {
            Option::Some(p) => pos < p.1 <= b@.len() && dec_bool(b@.skip(pos as int))
                == Option::Some((p.0, b@.skip(p.1 as int))),
            Option::None => dec_bool(b@.skip(pos as int)) is None,
        },
{
    if pos < b.len() {
        let x: u8 = *vstd::slice::slice_index_get(b, pos);
        proof {
            assert(b@.skip(pos as int)[0] == b@[pos as int]);
            assert(b@.skip(pos as int).skip(1) =~= b@.skip(pos as int + 1));
        }
        if x == 0 {
            Option::Some((false, pos + 1))
        } else if x == 1 {
            Option::Some((true, pos + 1))
        } else {
            Option::None
        }
    } else {
        Option::None
    }
}

pub fn read_byte_vec(b: &[u8], pos: usize) -> (r: Option<(Vec<u8>, usize)>)
    requires
        pos <= b@.len(),
    ensures
        match r {
            Option::Some(p) => pos < p.1 <= b@.len() && dec_bytes(b@.skip(pos as int))
                == Option::Some((p.0@, b@.skip(p.1 as int))),
            Option::None => dec_bytes(b@.skip(pos as int)) is None,
        },
{
    match read_u32(b, pos) {
        Option::None => Option::None,
        Option::Some((n, p1)) => {
            if n as usize <= b.len() - p1 {
                let p2 = p1 + n as usize;
                let v = slice_to_vec(slice_subrange(b, p1, p2));
                proof {
                    assert(b@.skip(p1 as int).take(n as int) =~= b@.subrange(p1 as int, p2 as int));
                    assert(b@.skip(p1 as int).skip(n as int) =~= b@.skip(p2 as int));
                }
                Option::Some((v, p2))
            } else {
                Option::None
            }
        },
    }
}

// ---------------------------------------------------------------------------
// Executable writers
//
// A writer appends a value's encoding to an output buffer.
// ---------------------------------------------------------------------------
pub fn write_u8(out: &mut Vec<u8>, x: u8)
    ensures
        final(out)@ == old(out)@ + enc_u8(x),
{
    out.push(x);
    proof {
        assert(old(out)@.push(x) =~= old(out)@ + enc_u8(x));
    }
}

pub fn write_u16(out: &mut Vec<u8>, x: u16)
    ensures
        final(out)@ == old(out)@ + enc_u16(x),
{
    let mut s = u16_to_le_bytes(x);
    out.append(&mut s);
}

pub fn write_u32(out: &mut Vec<u8>, x: u32)
    ensures
        final(out)@ == old(out)@ + enc_u32(x),
{
    let mut s = u32_to_le_bytes(x);
    out.append(&mut s);
}

pub fn write_u64(out: &mut Vec<u8>, x: u64)
    ensures
        final(out)@ == old(out)@ + enc_u64(x),
{
    let mut s = u64_to_le_bytes(x);
    out.append(&mut s);
}

pub fn write_i32(out: &mut Vec<u8>, x: i32)
    ensures
        final(out)@ == old(out)@ + enc_i32(x),
{
    write_u32(out, u32_from_i32(x));
}

pub fn write_bool(out: &mut Vec<u8>, x: bool)
    ensures
        final(out)@ == old(out)@ + enc_bool(x),
{
    if x {
        out.push(1);
    } else {
        out.push(0);
    }
    proof {
        assert(old(out)@.push(if x { 1u8 } else { 0u8 }) =~= old(out)@ + enc_bool(x));
    }
}

pub fn write_byte_vec(out: &mut Vec<u8>, s: &Vec<u8>)
    requires
        s@.len() < 0x1_0000_0000,
    ensures
        final(out)@ == old(out)@ + enc_bytes(s@),
{
    write_u32(out, s.len() as u32);
    let ghost mid = out@;
    let mut i: usize = 0;
    while i < s.len()
        invariant
            i <= s@.len(),
            out@ == mid + s@.take(i as int),
        decreases s@.len() - i,
    {
        out.push(s[i]);
        proof {
            assert(mid + s@.take(i as int + 1) =~= (mid + s@.take(i as int)).push(s@[i as int]));
        }
        i = i + 1;
    }
    proof {
        assert(s@.take(s@.len() as int) =~= s@);
        assert(mid + s@ =~= old(out)@ + enc_bytes(s@));
    }
}

} // verus!

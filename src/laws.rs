//! Round-trip properties of the codec, stated over the readers' spec
//! functions and the bytes that the writers produce.
use vstd::prelude::*;
use crate::codec::{
    be_bytes, lemma_be_round_trip, lemma_pow256_8, lemma_pow256_mono, lemma_uvarint_from_len,
    pow256, spec_read_be, spec_read_i16, spec_read_i32, spec_read_i64, spec_read_i8, spec_read_u16,
    spec_read_u32, spec_read_u64, spec_read_u8, spec_read_uvarint, spec_read_zzvarint, unzigzag,
    uvarint, uvarint_bytes, uvarint_from, zigzag, DecodeError, compact_nullable_string_bytes,
    nullable_string_bytes, spec_read_compact_nullable_string, spec_read_compact_string,
    spec_read_nullable_string, spec_read_tag_buffer, spec_read_uuid, tag_buffer_bytes, text_len,
    uuid_bytes, lemma_uuid_text_bytes, MAX_COMPACT_LEN,
};
use crate::codec::{compact_array_bytes, seq_bytes, spec_read_compact_array, spec_read_seq};
use vstd::utf8::{encode_utf8, encode_utf8_decode_utf8, encode_utf8_valid_utf8};

verus! {

/// The bound below which a varint whose first byte is byte `k` can lie.
pub open spec fn varint_limit(k: nat) -> nat
    decreases 9 - k,
{
    if k >= 9 {
        2
    } else {
        128 * varint_limit(k + 1)
    }
}

proof fn lemma_varint_limit()
    ensures
        varint_limit(0) == 0x1_0000_0000_0000_0000,
{
    reveal_with_fuel(varint_limit, 11);
}

proof fn lemma_uvarint_from_bytes(v: nat, rest: Seq<u8>, k: nat)
    requires
        k <= 9,
        v < varint_limit(k),
    ensures
        uvarint_from(uvarint_bytes(v) + rest, k) == Some((v, uvarint_bytes(v).len())),
    decreases v,
{
    let s = uvarint_bytes(v) + rest;
    if v < 128 {
        assert(s[0] == v as u8);
    } else {
        if k >= 9 {
            assert(false);
        }
        assert(s[0] == (v % 128 + 128) as u8);
        assert(s.drop_first() =~= uvarint_bytes(v / 128) + rest);
        lemma_uvarint_from_bytes(v / 128, rest, k + 1);
    }
}

proof fn lemma_uvarint_minimal_from(b: Seq<u8>, k: nat)
    requires
        k <= 9,
        uvarint_from(b, k) is Some,
    ensures
        ({
            let (v, n) = uvarint_from(b, k)->Some_0;
            &&& n >= uvarint_bytes(v).len()
            &&& (n == 1 || b[n - 1] != 0) ==> uvarint_bytes(v) == b.subrange(0, n as int)
        }),
    decreases b.len(),
{
    let (v, n) = uvarint_from(b, k)->Some_0;
    if k >= 9 || b[0] < 128 {
        assert(uvarint_bytes(v) =~= b.subrange(0, 1));
    } else {
        let t = b.drop_first();
        lemma_uvarint_minimal_from(t, k + 1);
        lemma_uvarint_from_len(t, k + 1);
        let (w, m) = uvarint_from(t, k + 1)->Some_0;
        assert(v == (b[0] - 128) + 128 * w);
        assert(n == m + 1);
        assert(t[m - 1] == b[n - 1]);
        if w == 0 {
            assert(v < 128);
            assert(uvarint_bytes(v).len() == 1);
            if n == 1 || b[n - 1] != 0 {
                assert(uvarint_bytes(w) =~= seq![0u8]);
                assert(t.subrange(0, m as int) == uvarint_bytes(w));
                assert(m == 1);
                assert(t.subrange(0, 1)[0] == t[0]);
                assert(t[0] == 0);
                assert(false);
            }
        } else {
            assert(v >= 128);
            assert(v / 128 == w);
            assert(v % 128 + 128 == b[0]);
            assert(uvarint_bytes(v) == seq![b[0]] + uvarint_bytes(w));
            if n == 1 || b[n - 1] != 0 {
                assert(uvarint_bytes(w) == t.subrange(0, m as int));
                assert(uvarint_bytes(v) =~= b.subrange(0, n as int));
            }
        }
    }
}

/// Reading back the varint written for `v` gives `v` and the position
/// just after it.
pub proof fn law_uvarint_round_trip(v: u64, s: Seq<u8>, p: usize)
    requires
        p + uvarint_bytes(v as nat).len() <= s.len(),
        s.subrange(p as int, p + uvarint_bytes(v as nat).len()) == uvarint_bytes(v as nat),
    ensures
        spec_read_uvarint(s, p) == Ok::<_, DecodeError>(
            (v, (p + uvarint_bytes(v as nat).len()) as usize),
        ),
{
    let e = uvarint_bytes(v as nat);
    let rest = s.subrange(p + e.len(), s.len() as int);
    assert(s.subrange(p as int, s.len() as int) =~= e + rest);
    lemma_varint_limit();
    lemma_uvarint_from_bytes(v as nat, rest, 0);
}

/// A varint that is minimal (its last byte is not zero, or it is one byte
/// long) is exactly the encoding of its value; no varint of a value is
/// shorter than that encoding.
pub proof fn law_uvarint_minimal(b: Seq<u8>)
    requires
        uvarint(b) is Some,
    ensures
        ({
            let (v, n) = uvarint(b)->Some_0;
            &&& n >= uvarint_bytes(v).len()
            &&& (n == 1 || b[n - 1] != 0) ==> uvarint_bytes(v) == b.subrange(0, n as int)
        }),
{
    lemma_uvarint_minimal_from(b, 0);
}

/// Zig-zag maps every i64 below 2^64 and back.
pub proof fn law_zigzag_round_trip(v: i64)
    ensures
        zigzag(v as int) < 0x1_0000_0000_0000_0000,
        unzigzag(zigzag(v as int)) == v as int,
{
}

/// Reading back the zig-zag varint written for `v` gives `v`, and the
/// encoding is the shortest varint of its value.
pub proof fn law_zzvarint_round_trip(v: i64, s: Seq<u8>, p: usize)
    requires
        p + uvarint_bytes(zigzag(v as int)).len() <= s.len(),
        s.subrange(p as int, p + uvarint_bytes(zigzag(v as int)).len()) == uvarint_bytes(
            zigzag(v as int),
        ),
    ensures
        spec_read_zzvarint(s, p) == Ok::<_, DecodeError>(
            (v, (p + uvarint_bytes(zigzag(v as int)).len()) as usize),
        ),
        forall|b: Seq<u8>|
            #![trigger uvarint(b)]
            uvarint(b) is Some && uvarint(b)->Some_0.0 == zigzag(v as int) ==> uvarint(b)->Some_0.1
                >= uvarint_bytes(zigzag(v as int)).len(),
{
    let u = zigzag(v as int);
    let e = uvarint_bytes(u);
    let rest = s.subrange(p + e.len(), s.len() as int);
    assert(s.subrange(p as int, s.len() as int) =~= e + rest);
    lemma_varint_limit();
    lemma_uvarint_from_bytes(u, rest, 0);
    assert forall|b: Seq<u8>|
        #![trigger uvarint(b)]
        uvarint(b) is Some && uvarint(b)->Some_0.0 == u implies uvarint(b)->Some_0.1 >= e.len() by {
        lemma_uvarint_minimal_from(b, 0);
    }
}

proof fn lemma_fixed(v: nat, n: nat, s: Seq<u8>, p: usize)
    requires
        1 <= n <= 8,
        v < pow256(n),
        p + n <= s.len(),
        s.subrange(p as int, p + n) == be_bytes(v, n),
    ensures
        spec_read_be(s, p, n) == Ok::<_, DecodeError>((v as u64, (p + n) as usize)),
        v < 0x1_0000_0000_0000_0000,
{
    lemma_be_round_trip(v, n);
    lemma_pow256_8();
    lemma_pow256_mono(n, 8);
}

/// An int16 written big-endian reads back.
pub proof fn law_i16_round_trip(v: i16, s: Seq<u8>, p: usize)
    requires
        p + 2 <= s.len(),
        s.subrange(p as int, p + 2) == be_bytes(v as u16 as nat, 2),
    ensures
        spec_read_i16(s, p) == Ok::<_, DecodeError>((v, (p + 2) as usize)),
{
    lemma_pow256_8();
    lemma_fixed(v as u16 as nat, 2, s, p);
    assert(((v as u16) as u64) as i16 == v) by (bit_vector);
}

/// A u16 written big-endian reads back.
pub proof fn law_u16_round_trip(v: u16, s: Seq<u8>, p: usize)
    requires
        p + 2 <= s.len(),
        s.subrange(p as int, p + 2) == be_bytes(v as nat, 2),
    ensures
        spec_read_u16(s, p) == Ok::<_, DecodeError>((v, (p + 2) as usize)),
{
    lemma_pow256_8();
    lemma_fixed(v as nat, 2, s, p);
    assert((v as u64) as u16 == v) by (bit_vector);
}

/// An int8 reads back.
pub proof fn law_i8_round_trip(v: i8, s: Seq<u8>, p: usize)
    requires
        p + 1 <= s.len(),
        s.subrange(p as int, p + 1) == be_bytes(v as u8 as nat, 1),
    ensures
        spec_read_i8(s, p) == Ok::<_, DecodeError>((v, (p + 1) as usize)),
{
    lemma_pow256_8();
    lemma_fixed(v as u8 as nat, 1, s, p);
    assert(((v as u8) as u64) as i8 == v) by (bit_vector);
}

/// A u8 reads back.
pub proof fn law_u8_round_trip(v: u8, s: Seq<u8>, p: usize)
    requires
        p + 1 <= s.len(),
        s.subrange(p as int, p + 1) == be_bytes(v as nat, 1),
    ensures
        spec_read_u8(s, p) == Ok::<_, DecodeError>((v, (p + 1) as usize)),
{
    lemma_pow256_8();
    lemma_fixed(v as nat, 1, s, p);
    assert((v as u64) as u8 == v) by (bit_vector);
}

/// An int32 written big-endian reads back.
pub proof fn law_i32_round_trip(v: i32, s: Seq<u8>, p: usize)
    requires
        p + 4 <= s.len(),
        s.subrange(p as int, p + 4) == be_bytes(v as u32 as nat, 4),
    ensures
        spec_read_i32(s, p) == Ok::<_, DecodeError>((v, (p + 4) as usize)),
{
    lemma_pow256_8();
    lemma_fixed(v as u32 as nat, 4, s, p);
    assert(((v as u32) as u64) as i32 == v) by (bit_vector);
}

/// A u32 written big-endian reads back.
pub proof fn law_u32_round_trip(v: u32, s: Seq<u8>, p: usize)
    requires
        p + 4 <= s.len(),
        s.subrange(p as int, p + 4) == be_bytes(v as nat, 4),
    ensures
        spec_read_u32(s, p) == Ok::<_, DecodeError>((v, (p + 4) as usize)),
{
    lemma_pow256_8();
    lemma_fixed(v as nat, 4, s, p);
    assert((v as u64) as u32 == v) by (bit_vector);
}

/// An int64 written big-endian reads back.
pub proof fn law_i64_round_trip(v: i64, s: Seq<u8>, p: usize)
    requires
        p + 8 <= s.len(),
        s.subrange(p as int, p + 8) == be_bytes(v as u64 as nat, 8),
    ensures
        spec_read_i64(s, p) == Ok::<_, DecodeError>((v, (p + 8) as usize)),
{
    lemma_pow256_8();
    lemma_fixed(v as u64 as nat, 8, s, p);
    assert(((v as u64) as u64) as i64 == v) by (bit_vector);
}

/// A u64 written big-endian reads back.
pub proof fn law_u64_round_trip(v: u64, s: Seq<u8>, p: usize)
    requires
        p + 8 <= s.len(),
        s.subrange(p as int, p + 8) == be_bytes(v as nat, 8),
    ensures
        spec_read_u64(s, p) == Ok::<_, DecodeError>((v, (p + 8) as usize)),
{
    lemma_pow256_8();
    lemma_fixed(v as nat, 8, s, p);
}


proof fn lemma_text_after(t: Seq<char>, s: Seq<u8>, q: usize)
    requires
        s.len() <= usize::MAX,
        q + text_len(t) <= s.len(),
        s.subrange(q as int, q + text_len(t)) == encode_utf8(t),
    ensures
        crate::codec::spec_read_text(s, q, text_len(t)) == Ok::<_, DecodeError>(
            (t, (q + text_len(t)) as usize),
        ),
{
    encode_utf8_valid_utf8(t);
    encode_utf8_decode_utf8(t);
}

/// A compact nullable string reads back as written.
pub proof fn law_compact_nullable_string_round_trip(t: Option<Seq<char>>, s: Seq<u8>, p: usize)
    requires
        s.len() <= usize::MAX,
        t matches Some(t) ==> text_len(t) <= MAX_COMPACT_LEN,
        p + compact_nullable_string_bytes(t).len() <= s.len(),
        s.subrange(p as int, p + compact_nullable_string_bytes(t).len())
            == compact_nullable_string_bytes(t),
    ensures
        spec_read_compact_nullable_string(s, p) == Ok::<_, DecodeError>(
            (t, (p + compact_nullable_string_bytes(t).len()) as usize),
        ),
{
    let e = compact_nullable_string_bytes(t);
    match t {
        None => {
            law_uvarint_round_trip(0, s, p);
        },
        Some(t) => {
            let l = text_len(t);
            let u = uvarint_bytes((l + 1) as nat);
            assert(s.subrange(p as int, p + u.len()) =~= e.subrange(0, u.len() as int));
            assert(e.subrange(0, u.len() as int) =~= u);
            assert(((l + 1) as u64) as nat == l + 1);
            law_uvarint_round_trip((l + 1) as u64, s, p);
            let q = (p + u.len()) as usize;
            assert(e.len() == u.len() + l);
            assert(s.subrange(q as int, q + l) =~= s.subrange(p as int, p + e.len()).subrange(
                u.len() as int,
                e.len() as int,
            ));
            assert(e.subrange(u.len() as int, e.len() as int) =~= encode_utf8(t));
            lemma_text_after(t, s, q);
        },
    }
}

/// A compact string that is not empty reads back as written.
pub proof fn law_compact_string_round_trip(t: Seq<char>, s: Seq<u8>, p: usize)
    requires
        s.len() <= usize::MAX,
        0 < text_len(t) <= MAX_COMPACT_LEN,
        p + compact_nullable_string_bytes(Some(t)).len() <= s.len(),
        s.subrange(p as int, p + compact_nullable_string_bytes(Some(t)).len())
            == compact_nullable_string_bytes(Some(t)),
    ensures
        spec_read_compact_string(s, p) == Ok::<_, DecodeError>(
            (t, (p + compact_nullable_string_bytes(Some(t)).len()) as usize),
        ),
{
    law_compact_nullable_string_round_trip(Some(t), s, p);
}

/// A nullable string with an int16 length reads back as written.
pub proof fn law_nullable_string_round_trip(t: Option<Seq<char>>, s: Seq<u8>, p: usize)
    requires
        s.len() <= usize::MAX,
        t matches Some(t) ==> text_len(t) <= 0x7fff,
        p + nullable_string_bytes(t).len() <= s.len(),
        s.subrange(p as int, p + nullable_string_bytes(t).len()) == nullable_string_bytes(t),
    ensures
        spec_read_nullable_string(s, p) == Ok::<_, DecodeError>(
            (t, (p + nullable_string_bytes(t).len()) as usize),
        ),
{
    lemma_pow256_8();
    lemma_be_round_trip(0xffff, 2);
    match t {
        None => {
            assert((-1i16) as u16 == 0xffff) by (bit_vector);
            law_i16_round_trip(-1i16, s, p);
        },
        Some(t) => {
            let l = text_len(t);
            let e = nullable_string_bytes(Some(t));
            lemma_be_round_trip(l, 2);
            let v = l as i16;
            assert(v as u16 as nat == l) by {
                assert(0 <= l <= 0x7fff);
                let lu = l as u16;
                assert(lu <= 0x7fff ==> (lu as i16) as u16 == lu) by (bit_vector);
            }
            assert(s.subrange(p as int, p + 2) =~= e.subrange(0, 2));
            assert(e.subrange(0, 2) =~= be_bytes(l, 2));
            law_i16_round_trip(v, s, p);
            assert(v >= 0);
            assert(e.len() == 2 + l);
            assert(s.subrange(p + 2, p + 2 + l) =~= s.subrange(p as int, p + e.len()).subrange(
                2,
                e.len() as int,
            ));
            assert(e.subrange(2, e.len() as int) =~= encode_utf8(t));
            lemma_text_after(t, s, (p + 2) as usize);
        },
    }
}

/// A tag buffer reads back when it is `UVARINT(0)` and is refused when it
/// announces any tagged field.
pub proof fn law_tag_buffer(s: Seq<u8>, p: usize)
    ensures
        p + 1 <= s.len() && s.subrange(p as int, p + 1) == tag_buffer_bytes()
            ==> spec_read_tag_buffer(s, p) == Ok::<_, DecodeError>(((), (p + 1) as usize)),
        spec_read_uvarint(s, p) matches Ok((v, _)) && v != 0 ==> spec_read_tag_buffer(s, p)
            == Err::<((), usize), _>(DecodeError::TaggedFields),
{
    if p + 1 <= s.len() && s.subrange(p as int, p + 1) == tag_buffer_bytes() {
        assert(uvarint_bytes(0) =~= tag_buffer_bytes());
        law_uvarint_round_trip(0, s, p);
    }
}

/// UUID bytes read as text and turned back into bytes are the bytes read.
pub proof fn law_uuid_round_trip(s: Seq<u8>, p: usize)
    requires
        p + 16 <= s.len(),
    ensures
        spec_read_uuid(s, p) == Ok::<_, DecodeError>(
            (crate::codec::uuid_text(s.subrange(p as int, p + 16)), (p + 16) as usize),
        ),
        uuid_bytes(crate::codec::uuid_text(s.subrange(p as int, p + 16))) == Some(
            s.subrange(p as int, p + 16),
        ),
{
    lemma_uuid_text_bytes(s.subrange(p as int, p + 16));
}


proof fn lemma_seq_bytes_front<T>(items: Seq<T>, enc: spec_fn(T) -> Seq<u8>)
    requires
        items.len() > 0,
    ensures
        seq_bytes(items, enc) == enc(items[0]) + seq_bytes(items.drop_first(), enc),
    decreases items.len(),
{
    if items.len() == 1 {
        assert(items.drop_last() =~= Seq::<T>::empty());
        assert(items.drop_first() =~= Seq::<T>::empty());
        assert(seq_bytes(items, enc) =~= enc(items[0]) + seq_bytes(items.drop_first(), enc));
    } else {
        let init = items.drop_last();
        lemma_seq_bytes_front(init, enc);
        assert(init.drop_first() =~= items.drop_first().drop_last());
        assert(items.drop_first().last() == items.last());
        assert(seq_bytes(items, enc) =~= enc(items[0]) + seq_bytes(items.drop_first(), enc));
    }
}

/// Values written one after another read back with a reader that reads
/// back each of them as `f` of it.
pub proof fn law_seq_round_trip<A, B>(
    items: Seq<A>,
    enc: spec_fn(A) -> Seq<u8>,
    elem: spec_fn(Seq<u8>, usize) -> crate::codec::Decoded<B>,
    f: spec_fn(A) -> B,
    s: Seq<u8>,
    p: usize,
)
    requires
        s.len() <= usize::MAX,
        forall|x: A, s2: Seq<u8>, q: usize|
            #![trigger items.contains(x), elem(s2, q)]
            items.contains(x) && s2.len() <= usize::MAX && q + enc(x).len() <= s2.len()
                && s2.subrange(q as int, q + enc(x).len()) == enc(x) ==> elem(s2, q) == Ok::<
                _,
                DecodeError,
            >((f(x), (q + enc(x).len()) as usize)),
        p + seq_bytes(items, enc).len() <= s.len(),
        s.subrange(p as int, p + seq_bytes(items, enc).len()) == seq_bytes(items, enc),
    ensures
        spec_read_seq(s, p, items.len(), elem) == Ok::<_, DecodeError>(
            (items.map_values(f), (p + seq_bytes(items, enc).len()) as usize),
        ),
    decreases items.len(),
{
    if items.len() == 0 {
        assert(items.map_values(f) =~= Seq::<B>::empty());
    } else {
        lemma_seq_bytes_front(items, enc);
        let x = items[0];
        let rest = items.drop_first();
        let ex = enc(x);
        let er = seq_bytes(rest, enc);
        assert(items.contains(x));
        assert((ex + er).subrange(0, ex.len() as int) =~= ex);
        assert((ex + er).subrange(ex.len() as int, (ex + er).len() as int) =~= er);
        assert(s.subrange(p as int, p + ex.len()) =~= s.subrange(
            p as int,
            p + seq_bytes(items, enc).len(),
        ).subrange(0, ex.len() as int));
        assert(s.subrange(p as int, p + ex.len()) == ex);
        assert(elem(s, p) == Ok::<_, DecodeError>((f(x), (p + ex.len()) as usize)));
        let q = (p + ex.len()) as usize;
        assert(s.subrange(q as int, q + er.len()) =~= s.subrange(
            p as int,
            p + seq_bytes(items, enc).len(),
        ).subrange(ex.len() as int, seq_bytes(items, enc).len() as int));
        assert(s.subrange(q as int, q + er.len()) == er);
        assert forall|y: A, s2: Seq<u8>, q2: usize|
            #![trigger rest.contains(y), elem(s2, q2)]
            rest.contains(y) && s2.len() <= usize::MAX && q2 + enc(y).len() <= s2.len()
                && s2.subrange(q2 as int, q2 + enc(y).len()) == enc(y) implies elem(s2, q2)
            == Ok::<_, DecodeError>((f(y), (q2 + enc(y).len()) as usize)) by {
            let k = choose|k: int| 0 <= k < rest.len() && rest[k] == y;
            assert(items[k + 1] == y);
            assert(items.contains(y));
        }
        law_seq_round_trip(rest, enc, elem, f, s, q);
        assert(seq![f(x)] + rest.map_values(f) =~= items.map_values(f));
    }
}

/// A compact array reads back with a reader that reads back each value as
/// `f` of it.
pub proof fn law_compact_array_round_trip<A, B>(
    items: Seq<A>,
    enc: spec_fn(A) -> Seq<u8>,
    elem: spec_fn(Seq<u8>, usize) -> crate::codec::Decoded<B>,
    f: spec_fn(A) -> B,
    s: Seq<u8>,
    p: usize,
)
    requires
        s.len() <= usize::MAX,
        items.len() <= MAX_COMPACT_LEN,
        forall|x: A, s2: Seq<u8>, q: usize|
            #![trigger items.contains(x), elem(s2, q)]
            items.contains(x) && s2.len() <= usize::MAX && q + enc(x).len() <= s2.len()
                && s2.subrange(q as int, q + enc(x).len()) == enc(x) ==> elem(s2, q) == Ok::<
                _,
                DecodeError,
            >((f(x), (q + enc(x).len()) as usize)),
        p + compact_array_bytes(items, enc).len() <= s.len(),
        s.subrange(p as int, p + compact_array_bytes(items, enc).len()) == compact_array_bytes(
            items,
            enc,
        ),
    ensures
        spec_read_compact_array(s, p, elem) == Ok::<_, DecodeError>(
            (items.map_values(f), (p + compact_array_bytes(items, enc).len()) as usize),
        ),
{
    let all = compact_array_bytes(items, enc);
    let u = uvarint_bytes((items.len() + 1) as nat);
    let body = seq_bytes(items, enc);
    assert(s.subrange(p as int, p + u.len()) =~= all.subrange(0, u.len() as int));
    assert(all.subrange(0, u.len() as int) =~= u);
    assert(((items.len() + 1) as u64) as nat == items.len() + 1);
    law_uvarint_round_trip((items.len() + 1) as u64, s, p);
    let q = (p + u.len()) as usize;
    assert(s.subrange(q as int, q + body.len()) =~= all.subrange(u.len() as int, all.len() as int));
    assert(all.subrange(u.len() as int, all.len() as int) =~= body);
    law_seq_round_trip(items, enc, elem, f, s, q);
}


/// Where `x + y` stands at `p`, `x` stands at `p` and `y` right after it.
pub proof fn lemma_split(s: Seq<u8>, p: int, x: Seq<u8>, y: Seq<u8>)
    requires
        0 <= p,
        p + x.len() + y.len() <= s.len(),
        s.subrange(p, p + x.len() + y.len()) == x + y,
    ensures
        s.subrange(p, p + x.len()) == x,
        s.subrange(p + x.len(), p + x.len() + y.len()) == y,
{
    assert(s.subrange(p, p + x.len()) =~= (x + y).subrange(0, x.len() as int));
    assert((x + y).subrange(0, x.len() as int) =~= x);
    assert(s.subrange(p + x.len(), p + x.len() + y.len()) =~= (x + y).subrange(
        x.len() as int,
        (x + y).len() as int,
    ));
    assert((x + y).subrange(x.len() as int, (x + y).len() as int) =~= y);
}

} // verus!

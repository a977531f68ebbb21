//! Primitive codec: big-endian integers, varints, strings, UUIDs, arrays
//! and tag buffers, read from a byte slice at a position and appended to a
//! growable buffer.
use vstd::prelude::*;
use vstd::string::StringExecFns;
use vstd::utf8::{decode_utf8, encode_utf8, is_ascii_chars, valid_utf8};

verus! {

/// Why decoding a message failed.
#[derive(Debug, Clone, Copy, PartialEq, Eq, Structural)]
pub enum DecodeError {
    /// Fewer bytes remain than the value needs.
    Truncated,
    /// An unsigned varint runs past ten bytes or overflows 64 bits.
    BadVarint,
    /// A tag buffer announces tagged fields, which are not supported.
    TaggedFields,
    /// A compact string is null or empty where a value is required.
    EmptyString,
    /// String bytes are not UTF-8.
    InvalidUtf8,
    /// A textual UUID is not 32 hex digits once hyphens are removed.
    BadUuid,
    /// The request header names an API key that is not served.
    UnknownApiKey,
    /// A metadata record has an unknown frame version, type or version.
    UnknownRecord,
    /// A length field is negative or too large.
    BadLength,
    /// A response holds a string or array too long for its length prefix,
    /// or a malformed textual UUID.
    Unencodable,
}

/// The outcome of reading a value of type `T` at a position: the value and
/// the position just after it.
pub type Decoded<T> = Result<(T, usize), DecodeError>;

/// The unsigned number that the bytes of `s` spell in big-endian order.
pub open spec fn be_value(s: Seq<u8>) -> nat
    decreases s.len(),
{
    if s.len() == 0 {
        0
    } else {
        be_value(s.drop_last()) * 256 + s.last() as nat
    }
}

/// The `n` low-order bytes of `v`, most significant first.
pub open spec fn be_bytes(v: nat, n: nat) -> Seq<u8>
    decreases n,
{
    if n == 0 {
        Seq::empty()
    } else {
        be_bytes(v / 256, (n - 1) as nat).push((v % 256) as u8)
    }
}

/// Reading `n` bytes at `p` as a big-endian unsigned number.
pub open spec fn spec_read_be(s: Seq<u8>, p: usize, n: nat) -> Decoded<u64> {
    if p + n <= s.len() {
        Ok((be_value(s.subrange(p as int, p + n)) as u64, (p + n) as usize))
    } else {
        Err(DecodeError::Truncated)
    }
}

/// A big-endian number of `n` bytes is below `256^n`.
pub proof fn lemma_be_value_bound(s: Seq<u8>)
    ensures
        be_value(s) < pow256(s.len()),
    decreases s.len(),
{
    if s.len() > 0 {
        lemma_be_value_bound(s.drop_last());
    }
}

/// `256` to the power `n`.
pub open spec fn pow256(n: nat) -> nat
    decreases n,
{
    if n == 0 {
        1
    } else {
        256 * pow256((n - 1) as nat)
    }
}

/// Big-endian bytes read back to the number they were written from.
pub proof fn lemma_be_round_trip(v: nat, n: nat)
    requires
        v < pow256(n),
    ensures
        be_bytes(v, n).len() == n,
        be_value(be_bytes(v, n)) == v,
    decreases n,
{
    if n > 0 {
        assert(v / 256 < pow256((n - 1) as nat));
        lemma_be_round_trip(v / 256, (n - 1) as nat);
        let b = be_bytes(v, n);
        assert(b.drop_last() =~= be_bytes(v / 256, (n - 1) as nat));
    }
}

/// Reads `n` (at most 8) bytes at `pos` as a big-endian unsigned number.
pub fn read_be(buf: &[u8], pos: usize, n: usize) -> (r: Decoded<u64>)
    requires
        n <= 8,
    ensures
        r == spec_read_be(buf@, pos, n as nat),
{
    if n > buf.len() || pos > buf.len() - n {
        return Err(DecodeError::Truncated);
    }
    let mut acc: u64 = 0;
    let mut i: usize = 0;
    while i < n
        invariant
            i <= n <= 8,
            pos + n <= buf@.len(),
            buf@.len() == buf.len(),
            acc as nat == be_value(buf@.subrange(pos as int, pos + i)),
            be_value(buf@.subrange(pos as int, pos + i)) < pow256(i as nat),
        decreases n - i,
    {
        proof {
            let s = buf@.subrange(pos as int, pos + i + 1);
            assert(s.drop_last() =~= buf@.subrange(pos as int, pos + i));
            lemma_be_value_bound(s);
            lemma_pow256_8();
            lemma_pow256_mono((i + 1) as nat, 8);
        }
        acc = acc * 256 + buf[pos + i] as u64;
        i = i + 1;
    }
    Ok((acc, pos + n))
}

/// The powers of 256 that the fixed widths use.
pub proof fn lemma_pow256_8()
    ensures
        pow256(1) == 0x100,
        pow256(2) == 0x1_0000,
        pow256(4) == 0x1_0000_0000,
        pow256(8) == 0x1_0000_0000_0000_0000,
{
    reveal_with_fuel(pow256, 9);
}

/// Powers of 256 grow with the exponent.
pub proof fn lemma_pow256_mono(a: nat, b: nat)
    requires
        a <= b,
    ensures
        pow256(a) <= pow256(b),
    decreases b,
{
    if a < b {
        lemma_pow256_mono(a, (b - 1) as nat);
    }
}


/// Appends the `n` (at most 8) low-order bytes of `v`, most significant first.
pub fn write_be(out: &mut Vec<u8>, v: u64, n: usize)
    requires
        n <= 8,
    ensures
        final(out)@ == old(out)@ + be_bytes(v as nat, n as nat),
{
    let mut tmp: Vec<u8> = vec![0u8; n];
    let mut cur: u64 = v;
    let mut i: usize = n;
    while i > 0
        invariant
            i <= n,
            tmp@.len() == n,
            be_bytes(v as nat, n as nat) == be_bytes(cur as nat, i as nat) + tmp@.subrange(
                i as int,
                n as int,
            ),
        decreases i,
    {
        let ghost old_tail = tmp@.subrange(i as int, n as int);
        let ghost old_cur = cur;
        i = i - 1;
        tmp[i] = (cur % 256) as u8;
        cur = cur / 256;
        proof {
            assert(tmp@.subrange(i as int, n as int) =~= seq![(old_cur % 256) as u8] + old_tail);
            assert(be_bytes(old_cur as nat, (i + 1) as nat) == be_bytes(cur as nat, i as nat).push(
                (old_cur % 256) as u8,
            ));
            assert(be_bytes(cur as nat, i as nat).push((old_cur % 256) as u8) + old_tail
                =~= be_bytes(cur as nat, i as nat) + tmp@.subrange(i as int, n as int));
        }
    }
    assert(tmp@.subrange(0, n as int) =~= tmp@);
    assert(be_bytes(cur as nat, 0) + tmp@ =~= tmp@);
    out.append(&mut tmp);
}

pub open spec fn spec_read_u8(s: Seq<u8>, p: usize) -> Decoded<u8> {
    match spec_read_be(s, p, 1) {
        Ok((v, q)) => Ok((v as u8, q)),
        Err(e) => Err(e),
    }
}

pub open spec fn spec_read_i8(s: Seq<u8>, p: usize) -> Decoded<i8> {
    match spec_read_be(s, p, 1) {
        Ok((v, q)) => Ok((v as i8, q)),
        Err(e) => Err(e),
    }
}

pub open spec fn spec_read_u16(s: Seq<u8>, p: usize) -> Decoded<u16> {
    match spec_read_be(s, p, 2) {
        Ok((v, q)) => Ok((v as u16, q)),
        Err(e) => Err(e),
    }
}

pub open spec fn spec_read_i16(s: Seq<u8>, p: usize) -> Decoded<i16> {
    match spec_read_be(s, p, 2) {
        Ok((v, q)) => Ok((v as i16, q)),
        Err(e) => Err(e),
    }
}

pub open spec fn spec_read_u32(s: Seq<u8>, p: usize) -> Decoded<u32> {
    match spec_read_be(s, p, 4) {
        Ok((v, q)) => Ok((v as u32, q)),
        Err(e) => Err(e),
    }
}

pub open spec fn spec_read_i32(s: Seq<u8>, p: usize) -> Decoded<i32> {
    match spec_read_be(s, p, 4) {
        Ok((v, q)) => Ok((v as i32, q)),
        Err(e) => Err(e),
    }
}

pub open spec fn spec_read_u64(s: Seq<u8>, p: usize) -> Decoded<u64> {
    spec_read_be(s, p, 8)
}

pub open spec fn spec_read_i64(s: Seq<u8>, p: usize) -> Decoded<i64> {
    match spec_read_be(s, p, 8) {
        Ok((v, q)) => Ok((v as i64, q)),
        Err(e) => Err(e),
    }
}

pub fn read_u8(buf: &[u8], pos: usize) -> (r: Decoded<u8>)
    ensures
        r == spec_read_u8(buf@, pos),
{
    let (v, q) = read_be(buf, pos, 1)?;
    Ok((v as u8, q))
}

pub fn read_i8(buf: &[u8], pos: usize) -> (r: Decoded<i8>)
    ensures
        r == spec_read_i8(buf@, pos),
{
    let (v, q) = read_be(buf, pos, 1)?;
    Ok((v as i8, q))
}

pub fn read_u16(buf: &[u8], pos: usize) -> (r: Decoded<u16>)
    ensures
        r == spec_read_u16(buf@, pos),
{
    let (v, q) = read_be(buf, pos, 2)?;
    Ok((v as u16, q))
}

pub fn read_i16(buf: &[u8], pos: usize) -> (r: Decoded<i16>)
    ensures
        r == spec_read_i16(buf@, pos),
{
    let (v, q) = read_be(buf, pos, 2)?;
    Ok((v as i16, q))
}

pub fn read_u32(buf: &[u8], pos: usize) -> (r: Decoded<u32>)
    ensures
        r == spec_read_u32(buf@, pos),
{
    let (v, q) = read_be(buf, pos, 4)?;
    Ok((v as u32, q))
}

pub fn read_i32(buf: &[u8], pos: usize) -> (r: Decoded<i32>)
    ensures
        r == spec_read_i32(buf@, pos),
{
    let (v, q) = read_be(buf, pos, 4)?;
    Ok((v as i32, q))
}

pub fn read_u64(buf: &[u8], pos: usize) -> (r: Decoded<u64>)
    ensures
        r == spec_read_u64(buf@, pos),
{
    read_be(buf, pos, 8)
}

pub fn read_i64(buf: &[u8], pos: usize) -> (r: Decoded<i64>)
    ensures
        r == spec_read_i64(buf@, pos),
{
    let (v, q) = read_be(buf, pos, 8)?;
    Ok((v as i64, q))
}

pub fn write_u8(out: &mut Vec<u8>, v: u8)
    ensures
        final(out)@ == old(out)@ + be_bytes(v as nat, 1),
{
    write_be(out, v as u64, 1);
}

pub fn write_i8(out: &mut Vec<u8>, v: i8)
    ensures
        final(out)@ == old(out)@ + be_bytes(v as u8 as nat, 1),
{
    write_be(out, v as u8 as u64, 1);
}

pub fn write_u16(out: &mut Vec<u8>, v: u16)
    ensures
        final(out)@ == old(out)@ + be_bytes(v as nat, 2),
{
    write_be(out, v as u64, 2);
}

pub fn write_i16(out: &mut Vec<u8>, v: i16)
    ensures
        final(out)@ == old(out)@ + be_bytes(v as u16 as nat, 2),
{
    write_be(out, v as u16 as u64, 2);
}

pub fn write_u32(out: &mut Vec<u8>, v: u32)
    ensures
        final(out)@ == old(out)@ + be_bytes(v as nat, 4),
{
    write_be(out, v as u64, 4);
}

pub fn write_i32(out: &mut Vec<u8>, v: i32)
    ensures
        final(out)@ == old(out)@ + be_bytes(v as u32 as nat, 4),
{
    write_be(out, v as u32 as u64, 4);
}

pub fn write_u64(out: &mut Vec<u8>, v: u64)
    ensures
        final(out)@ == old(out)@ + be_bytes(v as nat, 8),
{
    write_be(out, v, 8);
}

pub fn write_i64(out: &mut Vec<u8>, v: i64)
    ensures
        final(out)@ == old(out)@ + be_bytes(v as u64 as nat, 8),
{
    write_be(out, v as u64, 8);
}


/// The unsigned varint at the front of `s`, whose first byte is byte `k` of
/// the varint: its value and how many bytes it spans. Seven bits per byte,
/// least significant group first, the high bit marking continuation; the
/// tenth byte may only be 0 or 1.
pub open spec fn uvarint_from(s: Seq<u8>, k: nat) -> Option<(nat, nat)>
    decreases s.len(),
{
    if s.len() == 0 {
        None
    } else if k >= 9 {
        if s[0] < 2 {
            Some((s[0] as nat, 1))
        } else {
            None
        }
    } else if s[0] < 128 {
        Some((s[0] as nat, 1))
    } else {
        match uvarint_from(s.drop_first(), k + 1) {
            Some((v, n)) => Some((((s[0] - 128) + 128 * v) as nat, n + 1)),
            None => None,
        }
    }
}

/// The unsigned varint at the front of `s`.
pub open spec fn uvarint(s: Seq<u8>) -> Option<(nat, nat)> {
    uvarint_from(s, 0)
}

/// The minimal varint encoding of `v`.
pub open spec fn uvarint_bytes(v: nat) -> Seq<u8>
    decreases v,
{
    if v < 128 {
        seq![v as u8]
    } else {
        seq![(v % 128 + 128) as u8] + uvarint_bytes(v / 128)
    }
}

/// Zig-zag mapping of a signed number onto an unsigned one.
pub open spec fn zigzag(v: int) -> nat {
    if v >= 0 {
        (2 * v) as nat
    } else {
        (-2 * v - 1) as nat
    }
}

/// The signed number that a zig-zag value stands for.
pub open spec fn unzigzag(u: nat) -> int {
    if u % 2 == 0 {
        (u / 2) as int
    } else {
        -((u / 2) as int) - 1
    }
}

/// Relies on integer_encoding's `u64::decode_var`: it reads seven bits per
/// byte until a byte without the high bit, accepts at most ten bytes with a
/// tenth byte of 0 or 1, and returns the value and the bytes it read.
#[verifier::external_body]
fn decode_uvarint(src: &[u8]) -> (r: Option<(u64, usize)>)
    ensures
        match uvarint(src@) {
            Some((v, n)) => r == Some((v as u64, n as usize)),
            None => r is None,
        },
{
    <u64 as integer_encoding::VarInt>::decode_var(src)
}

/// Relies on integer_encoding's `u64::encode_var_vec`: the minimal
/// seven-bits-per-byte encoding, least significant group first.
#[verifier::external_body]
fn encode_uvarint(v: u64) -> (r: Vec<u8>)
    ensures
        r@ == uvarint_bytes(v as nat),
{
    integer_encoding::VarInt::encode_var_vec(v)
}

/// Relies on integer_encoding's `i64::decode_var`: the unsigned varint
/// decoding followed by the zig-zag mapping back to a signed number.
#[verifier::external_body]
fn decode_zzvarint(src: &[u8]) -> (r: Option<(i64, usize)>)
    ensures
        match uvarint(src@) {
            Some((v, n)) => r == Some((unzigzag(v) as i64, n as usize)),
            None => r is None,
        },
{
    <i64 as integer_encoding::VarInt>::decode_var(src)
}

/// Relies on integer_encoding's `i64::encode_var_vec`: zig-zag, then the
/// minimal unsigned varint encoding.
#[verifier::external_body]
fn encode_zzvarint(v: i64) -> (r: Vec<u8>)
    ensures
        r@ == uvarint_bytes(zigzag(v as int)),
{
    integer_encoding::VarInt::encode_var_vec(v)
}

/// The error for bytes at which no varint decodes: running out before ten
/// bytes means the input is cut short, otherwise the varint is malformed.
pub open spec fn varint_error(rest: Seq<u8>) -> DecodeError {
    if rest.len() < 10 {
        DecodeError::Truncated
    } else {
        DecodeError::BadVarint
    }
}

pub open spec fn spec_read_uvarint(s: Seq<u8>, p: usize) -> Decoded<u64> {
    if p > s.len() {
        Err(DecodeError::Truncated)
    } else {
        match uvarint(s.subrange(p as int, s.len() as int)) {
            Some((v, n)) => Ok((v as u64, (p + n) as usize)),
            None => Err(varint_error(s.subrange(p as int, s.len() as int))),
        }
    }
}

pub open spec fn spec_read_zzvarint(s: Seq<u8>, p: usize) -> Decoded<i64> {
    if p > s.len() {
        Err(DecodeError::Truncated)
    } else {
        match uvarint(s.subrange(p as int, s.len() as int)) {
            Some((v, n)) => Ok((unzigzag(v) as i64, (p + n) as usize)),
            None => Err(varint_error(s.subrange(p as int, s.len() as int))),
        }
    }
}

/// A varint spans at least one byte and no more than there are.
pub proof fn lemma_uvarint_from_len(s: Seq<u8>, k: nat)
    ensures
        uvarint_from(s, k) matches Some((v, n)) ==> 1 <= n <= s.len(),
    decreases s.len(),
{
    if s.len() > 0 && k < 9 && s[0] >= 128 {
        lemma_uvarint_from_len(s.drop_first(), k + 1);
    }
}

/// Reads an unsigned varint at `pos`.
pub fn read_uvarint(buf: &[u8], pos: usize) -> (r: Decoded<u64>)
    ensures
        r == spec_read_uvarint(buf@, pos),
{
    if pos > buf.len() {
        return Err(DecodeError::Truncated);
    }
    let rest = &buf[pos..buf.len()];
    proof {
        assert(rest@ =~= buf@.subrange(pos as int, buf@.len() as int));
        lemma_uvarint_from_len(rest@, 0);
    }
    match decode_uvarint(rest) {
        Some((v, n)) => Ok((v, pos + n)),
        None => {
            if rest.len() < 10 {
                Err(DecodeError::Truncated)
            } else {
                Err(DecodeError::BadVarint)
            }
        },
    }
}

/// Reads a zig-zag signed varint at `pos`.
pub fn read_zzvarint(buf: &[u8], pos: usize) -> (r: Decoded<i64>)
    ensures
        r == spec_read_zzvarint(buf@, pos),
{
    if pos > buf.len() {
        return Err(DecodeError::Truncated);
    }
    let rest = &buf[pos..buf.len()];
    proof {
        assert(rest@ =~= buf@.subrange(pos as int, buf@.len() as int));
        lemma_uvarint_from_len(rest@, 0);
    }
    match decode_zzvarint(rest) {
        Some((v, n)) => Ok((v, pos + n)),
        None => {
            if rest.len() < 10 {
                Err(DecodeError::Truncated)
            } else {
                Err(DecodeError::BadVarint)
            }
        },
    }
}

/// Appends the minimal unsigned varint encoding of `v`.
pub fn write_uvarint(out: &mut Vec<u8>, v: u64)
    ensures
        final(out)@ == old(out)@ + uvarint_bytes(v as nat),
{
    let mut b = encode_uvarint(v);
    out.append(&mut b);
}

/// Appends the zig-zag varint encoding of `v`.
pub fn write_zzvarint(out: &mut Vec<u8>, v: i64)
    ensures
        final(out)@ == old(out)@ + uvarint_bytes(zigzag(v as int)),
{
    let mut b = encode_zzvarint(v);
    out.append(&mut b);
}

/// Reads a tag buffer, which must announce no tagged fields.
pub open spec fn spec_read_tag_buffer(s: Seq<u8>, p: usize) -> Decoded<()> {
    match spec_read_uvarint(s, p) {
        Ok((v, q)) => if v == 0 {
            Ok(((), q))
        } else {
            Err(DecodeError::TaggedFields)
        },
        Err(e) => Err(e),
    }
}

/// An empty tag buffer: `UVARINT(0)`.
pub open spec fn tag_buffer_bytes() -> Seq<u8> {
    seq![0u8]
}

pub fn read_tag_buffer(buf: &[u8], pos: usize) -> (r: Decoded<()>)
    ensures
        r == spec_read_tag_buffer(buf@, pos),
{
    let (v, q) = read_uvarint(buf, pos)?;
    if v == 0 {
        Ok(((), q))
    } else {
        Err(DecodeError::TaggedFields)
    }
}

/// The tag buffer that ends headers, records and bodies; no tagged fields
/// are supported.
pub struct TagBuffer;

impl TagBuffer {
    /// An empty tag buffer.
    pub fn serialize() -> (r: Vec<u8>)
        ensures
            r@ == tag_buffer_bytes(),
    {
        let mut out: Vec<u8> = Vec::new();
        write_tag_buffer(&mut out);
        out
    }

    /// Reads a tag buffer, refusing one that announces tagged fields.
    pub fn deserialize(buf: &[u8], pos: usize) -> (r: Decoded<()>)
        ensures
            r == spec_read_tag_buffer(buf@, pos),
    {
        read_tag_buffer(buf, pos)
    }
}

pub fn write_tag_buffer(out: &mut Vec<u8>)
    ensures
        final(out)@ == old(out)@ + tag_buffer_bytes(),
{
    out.push(0u8);
    assert(final(out)@ =~= old(out)@ + tag_buffer_bytes());
}


/// Relies on `String::from_utf8`: it succeeds exactly on valid UTF-8 and
/// then holds the characters that the bytes encode.
#[verifier::external_body]
fn string_from_utf8(b: Vec<u8>) -> (r: Option<String>)
    ensures
        r is Some <==> valid_utf8(b@),
        r matches Some(s) ==> s@ == decode_utf8(b@),
{
    String::from_utf8(b).ok()
}

/// Appends the bytes of `b`.
pub fn write_bytes(out: &mut Vec<u8>, b: &[u8])
    ensures
        final(out)@ == old(out)@ + b@,
{
    let mut i: usize = 0;
    while i < b.len()
        invariant
            i <= b@.len(),
            out@ == old(out)@ + b@.subrange(0, i as int),
        decreases b@.len() - i,
    {
        out.push(b[i]);
        i = i + 1;
        assert(out@ =~= old(out)@ + b@.subrange(0, i as int));
    }
    assert(b@.subrange(0, b@.len() as int) =~= b@);
}

/// Copies `n` bytes at `pos`.
pub open spec fn spec_read_bytes(s: Seq<u8>, p: usize, n: nat) -> Decoded<Seq<u8>> {
    if p + n <= s.len() {
        Ok((s.subrange(p as int, p + n), (p + n) as usize))
    } else {
        Err(DecodeError::Truncated)
    }
}

pub fn read_bytes(buf: &[u8], pos: usize, n: usize) -> (r: Decoded<Vec<u8>>)
    ensures
        view_decoded(r) == spec_read_bytes(buf@, pos, n as nat),
{
    if pos > buf.len() || n > buf.len() - pos {
        return Err(DecodeError::Truncated);
    }
    let mut v: Vec<u8> = Vec::new();
    let mut i: usize = 0;
    while i < n
        invariant
            i <= n,
            pos + n <= buf@.len(),
            buf@.len() == buf.len(),
            v@ == buf@.subrange(pos as int, pos + i),
        decreases n - i,
    {
        v.push(buf[pos + i]);
        i = i + 1;
        assert(v@ =~= buf@.subrange(pos as int, pos + i));
    }
    Ok((v, pos + n))
}

/// A decoded value seen through its view.
pub open spec fn view_decoded<T: View>(r: Decoded<T>) -> Decoded<T::V> {
    match r {
        Ok((v, q)) => Ok((v@, q)),
        Err(e) => Err(e),
    }
}

/// `n` bytes at `pos` taken as UTF-8 text.
pub open spec fn spec_read_text(s: Seq<u8>, p: usize, n: nat) -> Decoded<Seq<char>> {
    match spec_read_bytes(s, p, n) {
        Ok((b, q)) => if valid_utf8(b) {
            Ok((decode_utf8(b), q))
        } else {
            Err(DecodeError::InvalidUtf8)
        },
        Err(e) => Err(e),
    }
}

pub fn read_text(buf: &[u8], pos: usize, n: usize) -> (r: Decoded<String>)
    ensures
        view_decoded(r) == spec_read_text(buf@, pos, n as nat),
{
    let (b, q) = read_bytes(buf, pos, n)?;
    match string_from_utf8(b) {
        Some(t) => Ok((t, q)),
        None => Err(DecodeError::InvalidUtf8),
    }
}

/// A compact nullable string: `UVARINT(0)` for null, else `UVARINT(len + 1)`
/// and `len` bytes of UTF-8.
pub open spec fn spec_read_compact_nullable_string(s: Seq<u8>, p: usize) -> Decoded<
    Option<Seq<char>>,
> {
    match spec_read_uvarint(s, p) {
        Ok((l, q)) => if l == 0 {
            Ok((None, q))
        } else {
            match spec_read_text(s, q, (l - 1) as nat) {
                Ok((t, q2)) => Ok((Some(t), q2)),
                Err(e) => Err(e),
            }
        },
        Err(e) => Err(e),
    }
}

/// A compact string: as the nullable one, but neither null nor empty.
pub open spec fn spec_read_compact_string(s: Seq<u8>, p: usize) -> Decoded<Seq<char>> {
    match spec_read_uvarint(s, p) {
        Ok((l, q)) => if l <= 1 {
            Err(DecodeError::EmptyString)
        } else {
            spec_read_text(s, q, (l - 1) as nat)
        },
        Err(e) => Err(e),
    }
}

/// A nullable string: an int16 length, `-1` for null, then the bytes.
pub open spec fn spec_read_nullable_string(s: Seq<u8>, p: usize) -> Decoded<Option<Seq<char>>> {
    match spec_read_i16(s, p) {
        Ok((l, q)) => if l == -1 {
            Ok((None, q))
        } else if l < 0 {
            Err(DecodeError::BadLength)
        } else {
            match spec_read_text(s, q, l as nat) {
                Ok((t, q2)) => Ok((Some(t), q2)),
                Err(e) => Err(e),
            }
        },
        Err(e) => Err(e),
    }
}

/// The wire length of a string: the number of its UTF-8 bytes.
pub open spec fn text_len(t: Seq<char>) -> nat {
    encode_utf8(t).len()
}

/// Longest string or array that a compact length may announce.
pub const MAX_COMPACT_LEN: usize = 0x7fff_ffff;

pub open spec fn compact_nullable_string_bytes(t: Option<Seq<char>>) -> Seq<u8> {
    match t {
        None => uvarint_bytes(0),
        Some(t) => uvarint_bytes(text_len(t) + 1) + encode_utf8(t),
    }
}

pub open spec fn nullable_string_bytes(t: Option<Seq<char>>) -> Seq<u8> {
    match t {
        None => be_bytes(0xffff, 2),
        Some(t) => be_bytes(text_len(t), 2) + encode_utf8(t),
    }
}

/// A string that may be null, written with a varint length.
#[derive(Debug, Clone)]
pub struct CompactNullableString(pub Option<String>);

/// A string that may be null, written with an int16 length.
#[derive(Debug, Clone)]
pub struct NullableString(pub Option<String>);

/// The characters of an optional string.
pub open spec fn opt_chars(t: Option<String>) -> Option<Seq<char>> {
    match t {
        Some(s) => Some(s@),
        None => None,
    }
}

impl View for CompactNullableString {
    type V = Option<Seq<char>>;

    open spec fn view(&self) -> Option<Seq<char>> {
        opt_chars(self.0)
    }
}

impl View for NullableString {
    type V = Option<Seq<char>>;

    open spec fn view(&self) -> Option<Seq<char>> {
        opt_chars(self.0)
    }
}

pub fn read_compact_nullable_string(buf: &[u8], pos: usize) -> (r: Decoded<CompactNullableString>)
    ensures
        view_decoded(r) == spec_read_compact_nullable_string(buf@, pos),
{
    let (l, q) = read_uvarint(buf, pos)?;
    if l == 0 {
        return Ok((CompactNullableString(None), q));
    }
    if l - 1 > buf.len() as u64 {
        proof {
            lemma_read_text_truncated(buf@, q, (l - 1) as nat);
        }
        return Err(DecodeError::Truncated);
    }
    let (t, q2) = read_text(buf, q, (l - 1) as usize)?;
    Ok((CompactNullableString(Some(t)), q2))
}

pub fn read_compact_string(buf: &[u8], pos: usize) -> (r: Decoded<String>)
    ensures
        view_decoded(r) == spec_read_compact_string(buf@, pos),
{
    let (l, q) = read_uvarint(buf, pos)?;
    if l <= 1 {
        return Err(DecodeError::EmptyString);
    }
    if l - 1 > buf.len() as u64 {
        proof {
            lemma_read_text_truncated(buf@, q, (l - 1) as nat);
        }
        return Err(DecodeError::Truncated);
    }
    read_text(buf, q, (l - 1) as usize)
}

pub fn read_nullable_string(buf: &[u8], pos: usize) -> (r: Decoded<NullableString>)
    ensures
        view_decoded(r) == spec_read_nullable_string(buf@, pos),
{
    let (l, q) = read_i16(buf, pos)?;
    if l == -1 {
        return Ok((NullableString(None), q));
    }
    if l < 0 {
        return Err(DecodeError::BadLength);
    }
    let (t, q2) = read_text(buf, q, l as usize)?;
    Ok((NullableString(Some(t)), q2))
}

proof fn lemma_read_text_truncated(s: Seq<u8>, p: usize, n: nat)
    requires
        n > s.len(),
    ensures
        spec_read_text(s, p, n) == Err::<(Seq<char>, usize), DecodeError>(DecodeError::Truncated),
{
}

/// Appends a compact nullable string.
pub fn write_compact_nullable_string(out: &mut Vec<u8>, t: &CompactNullableString)
    requires
        t@ matches Some(t) ==> text_len(t) <= MAX_COMPACT_LEN,
    ensures
        final(out)@ == old(out)@ + compact_nullable_string_bytes(t@),
{
    match &t.0 {
        None => {
            write_uvarint(out, 0);
        },
        Some(t) => {
            let b = t.as_str().as_bytes();
            write_uvarint(out, b.len() as u64 + 1);
            write_bytes(out, b);
            assert(final(out)@ =~= old(out)@ + compact_nullable_string_bytes(Some(t@)));
        },
    }
}

/// Appends a compact string, which must not be empty.
pub fn write_compact_string(out: &mut Vec<u8>, t: &String)
    requires
        0 < text_len(t@) <= MAX_COMPACT_LEN,
    ensures
        final(out)@ == old(out)@ + compact_nullable_string_bytes(Some(t@)),
{
    let b = t.as_str().as_bytes();
    write_uvarint(out, b.len() as u64 + 1);
    write_bytes(out, b);
    assert(final(out)@ =~= old(out)@ + compact_nullable_string_bytes(Some(t@)));
}

/// Appends a nullable string with an int16 length.
pub fn write_nullable_string(out: &mut Vec<u8>, t: &NullableString)
    requires
        t@ matches Some(t) ==> text_len(t) <= 0x7fff,
    ensures
        final(out)@ == old(out)@ + nullable_string_bytes(t@),
{
    match &t.0 {
        None => {
            write_i16(out, -1);
            assert((-1i16) as u16 == 0xffff) by (bit_vector);
        },
        Some(t) => {
            let b = t.as_str().as_bytes();
            write_i16(out, b.len() as i16);
            write_bytes(out, b);
            assert(final(out)@ =~= old(out)@ + nullable_string_bytes(Some(t@)));
        },
    }
}


/// The lowercase hex digit for a number below 16.
pub open spec fn hex_digit(n: nat) -> char {
    if n < 10 {
        (48 + n) as char
    } else {
        (87 + n) as char
    }
}

/// Two lowercase hex digits for each byte, high nibble first.
pub open spec fn hex_chars(b: Seq<u8>) -> Seq<char>
    decreases b.len(),
{
    if b.len() == 0 {
        Seq::empty()
    } else {
        hex_chars(b.drop_last()) + seq![hex_digit(b.last() as nat / 16), hex_digit(b.last() as nat % 16)]
    }
}

/// Whether a byte is an ASCII hex digit, in either case.
pub open spec fn is_hex_byte(c: u8) -> bool {
    (48 <= c <= 57) || (97 <= c <= 102) || (65 <= c <= 70)
}

/// The value of an ASCII hex digit.
pub open spec fn hex_value(c: u8) -> nat {
    if 48 <= c <= 57 {
        (c - 48) as nat
    } else if 97 <= c <= 102 {
        (c - 87) as nat
    } else {
        (c - 55) as nat
    }
}

/// Whether `d` is an even number of hex digits.
pub open spec fn hex_valid(d: Seq<u8>) -> bool {
    d.len() % 2 == 0 && forall|i: int| 0 <= i < d.len() ==> is_hex_byte(#[trigger] d[i])
}

/// The bytes that pairs of hex digits spell.
pub open spec fn unhex(d: Seq<u8>) -> Seq<u8>
    decreases d.len(),
{
    if d.len() < 2 {
        Seq::empty()
    } else {
        unhex(d.subrange(0, d.len() - 2)).push(
            (hex_value(d[d.len() - 2]) * 16 + hex_value(d[d.len() - 1])) as u8,
        )
    }
}

/// Relies on hex's `encode`: two lowercase digits for each byte, high
/// nibble first.
#[verifier::external_body]
fn hex_encode(b: &[u8]) -> (r: String)
    ensures
        r@ == hex_chars(b@),
{
    hex::encode(b)
}

/// Relies on hex's `decode`: it accepts an even number of digits of either
/// case and turns each pair into a byte; on anything else it fails.
#[verifier::external_body]
fn hex_decode(d: &[u8]) -> (r: Option<Vec<u8>>)
    ensures
        r is Some <==> hex_valid(d@),
        r matches Some(v) ==> v@ == unhex(d@),
{
    hex::decode(d).ok()
}

/// A UUID in its textual form.
#[derive(Debug, Clone)]
pub struct Uuid(pub String);

impl View for Uuid {
    type V = Seq<char>;

    open spec fn view(&self) -> Seq<char> {
        self.0@
    }
}

impl Uuid {
    /// The text of this UUID.
    pub fn to_string(&self) -> (r: String)
        ensures
            r@ == self@,
    {
        self.0.clone()
    }
}

/// The canonical text of 16 bytes: lowercase hex in groups of 8-4-4-4-12
/// digits joined by hyphens.
pub open spec fn uuid_text(b: Seq<u8>) -> Seq<char> {
    hex_chars(b.subrange(0, 4)) + seq!['-'] + hex_chars(b.subrange(4, 6)) + seq!['-'] + hex_chars(
        b.subrange(6, 8),
    ) + seq!['-'] + hex_chars(b.subrange(8, 10)) + seq!['-'] + hex_chars(b.subrange(10, 16))
}

/// The bytes of `b` other than hyphens.
pub open spec fn strip_hyphens(b: Seq<u8>) -> Seq<u8>
    decreases b.len(),
{
    if b.len() == 0 {
        Seq::empty()
    } else if b.last() == 45 {
        strip_hyphens(b.drop_last())
    } else {
        strip_hyphens(b.drop_last()).push(b.last())
    }
}

/// The 16 bytes that a textual UUID stands for: its hyphens are dropped and
/// the 32 hex digits that remain are decoded.
pub open spec fn uuid_bytes(t: Seq<char>) -> Option<Seq<u8>> {
    let d = strip_hyphens(encode_utf8(t));
    if hex_valid(d) && d.len() == 32 {
        Some(unhex(d))
    } else {
        None
    }
}

pub open spec fn spec_read_uuid(s: Seq<u8>, p: usize) -> Decoded<Seq<char>> {
    match spec_read_bytes(s, p, 16) {
        Ok((b, q)) => Ok((uuid_text(b), q)),
        Err(e) => Err(e),
    }
}

/// Reads 16 raw bytes and renders them as canonical UUID text.
pub fn read_uuid(buf: &[u8], pos: usize) -> (r: Decoded<Uuid>)
    ensures
        view_decoded(r) == spec_read_uuid(buf@, pos),
{
    let (b, q) = read_bytes(buf, pos, 16)?;
    let t = uuid_from_bytes(&b);
    Ok((t, q))
}

/// The canonical text of 16 bytes.
pub fn uuid_from_bytes(b: &Vec<u8>) -> (r: Uuid)
    requires
        b@.len() == 16,
    ensures
        r@ == uuid_text(b@),
{
    let hyphen = "-";
    proof {
        reveal_strlit("-");
    }
    let t = hex_encode(&b.as_slice()[0..4]);
    let t = t.concat(hyphen);
    let t = t.concat(hex_encode(&b.as_slice()[4..6]).as_str());
    let t = t.concat(hyphen);
    let t = t.concat(hex_encode(&b.as_slice()[6..8]).as_str());
    let t = t.concat(hyphen);
    let t = t.concat(hex_encode(&b.as_slice()[8..10]).as_str());
    let t = t.concat(hyphen);
    let t = t.concat(hex_encode(&b.as_slice()[10..16]).as_str());
    Uuid(t)
}

/// The 16 bytes of a textual UUID, or `BadUuid` when it is malformed.
pub fn uuid_to_bytes(u: &Uuid) -> (r: Result<Vec<u8>, DecodeError>)
    ensures
        match uuid_bytes(u@) {
            Some(b) => r matches Ok(v) && v@ == b,
            None => r == Err::<Vec<u8>, DecodeError>(DecodeError::BadUuid),
        },
{
    let text = u.0.as_str().as_bytes();
    let mut digits: Vec<u8> = Vec::new();
    let mut i: usize = 0;
    while i < text.len()
        invariant
            i <= text@.len(),
            digits@ == strip_hyphens(text@.subrange(0, i as int)),
        decreases text@.len() - i,
    {
        proof {
            assert(text@.subrange(0, i + 1).drop_last() =~= text@.subrange(0, i as int));
        }
        if text[i] != 45 {
            digits.push(text[i]);
        }
        i = i + 1;
    }
    assert(text@.subrange(0, text@.len() as int) =~= text@);
    if digits.len() != 32 {
        return Err(DecodeError::BadUuid);
    }
    match hex_decode(digits.as_slice()) {
        Some(v) => Ok(v),
        None => Err(DecodeError::BadUuid),
    }
}


/// The bytes of ASCII characters.
pub open spec fn ascii_bytes(cs: Seq<char>) -> Seq<u8> {
    Seq::new(cs.len(), |i: int| cs[i] as u8)
}

proof fn lemma_hex_digit(n: nat)
    requires
        n < 16,
    ensures
        '\0' <= hex_digit(n) <= '\u{7f}',
        hex_digit(n) as u8 != 45,
        is_hex_byte(hex_digit(n) as u8),
        hex_value(hex_digit(n) as u8) == n,
{
}

proof fn lemma_hex_chars_ascii(b: Seq<u8>)
    ensures
        hex_chars(b).len() == 2 * b.len(),
        is_ascii_chars(hex_chars(b)),
        forall|i: int|
            0 <= i < hex_chars(b).len() ==> {
                &&& #[trigger] hex_chars(b)[i] as u8 != 45
                &&& is_hex_byte(hex_chars(b)[i] as u8)
            },
    decreases b.len(),
{
    if b.len() > 0 {
        lemma_hex_chars_ascii(b.drop_last());
        lemma_hex_digit(b.last() as nat / 16);
        lemma_hex_digit(b.last() as nat % 16);
        let h = hex_chars(b);
        let h0 = hex_chars(b.drop_last());
        assert forall|i: int| 0 <= i < h.len() implies '\0' <= #[trigger] h[i] <= '\u{7f}' by {
            if i < h0.len() {
                assert(h[i] == h0[i]);
            }
        }
        assert forall|i: int| 0 <= i < h.len() implies #[trigger] h[i] as u8 != 45 && is_hex_byte(
            h[i] as u8,
        ) by {
            if i < h0.len() {
                assert(h[i] == h0[i]);
            }
        }
    }
}

proof fn lemma_hex_chars_concat(x: Seq<u8>, y: Seq<u8>)
    ensures
        hex_chars(x + y) == hex_chars(x) + hex_chars(y),
    decreases y.len(),
{
    if y.len() == 0 {
        assert(x + y =~= x);
        assert(hex_chars(x) + hex_chars(y) =~= hex_chars(x));
    } else {
        lemma_hex_chars_concat(x, y.drop_last());
        assert((x + y).drop_last() =~= x + y.drop_last());
        assert(hex_chars(x + y) =~= hex_chars(x) + hex_chars(y));
    }
}

proof fn lemma_unhex_hex(b: Seq<u8>)
    ensures
        hex_valid(ascii_bytes(hex_chars(b))),
        unhex(ascii_bytes(hex_chars(b))) == b,
    decreases b.len(),
{
    lemma_hex_chars_ascii(b);
    let d = ascii_bytes(hex_chars(b));
    if b.len() > 0 {
        lemma_unhex_hex(b.drop_last());
        lemma_hex_digit(b.last() as nat / 16);
        lemma_hex_digit(b.last() as nat % 16);
        assert(d.subrange(0, d.len() - 2) =~= ascii_bytes(hex_chars(b.drop_last())));
        assert(unhex(d) =~= b);
    } else {
        assert(unhex(d) =~= b);
    }
    assert forall|i: int| 0 <= i < d.len() implies is_hex_byte(#[trigger] d[i]) by {
        assert(d[i] == hex_chars(b)[i] as u8);
    }
}

proof fn lemma_strip_concat(x: Seq<u8>, y: Seq<u8>)
    ensures
        strip_hyphens(x + y) == strip_hyphens(x) + strip_hyphens(y),
    decreases y.len(),
{
    if y.len() == 0 {
        assert(x + y =~= x);
        assert(strip_hyphens(x) + strip_hyphens(y) =~= strip_hyphens(x));
    } else {
        lemma_strip_concat(x, y.drop_last());
        assert((x + y).drop_last() =~= x + y.drop_last());
        assert(strip_hyphens(x + y) =~= strip_hyphens(x) + strip_hyphens(y));
    }
}

proof fn lemma_strip_none(x: Seq<u8>)
    requires
        forall|i: int| 0 <= i < x.len() ==> #[trigger] x[i] != 45,
    ensures
        strip_hyphens(x) == x,
    decreases x.len(),
{
    if x.len() > 0 {
        lemma_strip_none(x.drop_last());
        assert(strip_hyphens(x) =~= x);
    }
}

proof fn lemma_hex_group(b: Seq<u8>)
    ensures
        strip_hyphens(ascii_bytes(hex_chars(b))) == ascii_bytes(hex_chars(b)),
{
    lemma_hex_chars_ascii(b);
    let d = ascii_bytes(hex_chars(b));
    assert forall|i: int| 0 <= i < d.len() implies #[trigger] d[i] != 45 by {
        assert(d[i] == hex_chars(b)[i] as u8);
    }
    lemma_strip_none(d);
}

/// Canonical UUID text decodes to the bytes it was made from.
pub proof fn lemma_uuid_text_bytes(b: Seq<u8>)
    requires
        b.len() == 16,
    ensures
        uuid_bytes(uuid_text(b)) == Some(b),
{
    let g0 = b.subrange(0, 4);
    let g1 = b.subrange(4, 6);
    let g2 = b.subrange(6, 8);
    let g3 = b.subrange(8, 10);
    let g4 = b.subrange(10, 16);
    let h = seq!['-'];
    lemma_hex_chars_ascii(g0);
    lemma_hex_chars_ascii(g1);
    lemma_hex_chars_ascii(g2);
    lemma_hex_chars_ascii(g3);
    lemma_hex_chars_ascii(g4);
    let t = uuid_text(b);
    assert(is_ascii_chars(t)) by {
        assert forall|i: int| 0 <= i < t.len() implies '\0' <= #[trigger] t[i] <= '\u{7f}' by {
            let l0 = hex_chars(g0).len() as int;
            let l1 = l0 + 1 + hex_chars(g1).len();
            let l2 = l1 + 1 + hex_chars(g2).len();
            let l3 = l2 + 1 + hex_chars(g3).len();
            if i < l0 {
                assert(t[i] == hex_chars(g0)[i]);
            } else if i == l0 {
            } else if i < l1 {
                assert(t[i] == hex_chars(g1)[i - l0 - 1]);
            } else if i == l1 {
            } else if i < l2 {
                assert(t[i] == hex_chars(g2)[i - l1 - 1]);
            } else if i == l2 {
            } else if i < l3 {
                assert(t[i] == hex_chars(g3)[i - l2 - 1]);
            } else if i == l3 {
            } else {
                assert(t[i] == hex_chars(g4)[i - l3 - 1]);
            }
        }
    }
    vstd::utf8::is_ascii_chars_encode_utf8(t);
    let e = encode_utf8(t);
    assert(e =~= ascii_bytes(t));
    let a0 = ascii_bytes(hex_chars(g0));
    let a1 = ascii_bytes(hex_chars(g1));
    let a2 = ascii_bytes(hex_chars(g2));
    let a3 = ascii_bytes(hex_chars(g3));
    let a4 = ascii_bytes(hex_chars(g4));
    let m = seq![45u8];
    assert(ascii_bytes(t) =~= a0 + m + a1 + m + a2 + m + a3 + m + a4);
    assert(strip_hyphens(m) =~= Seq::<u8>::empty()) by {
        assert(m.drop_last() =~= Seq::<u8>::empty());
        assert(m.last() == 45);
        reveal_with_fuel(strip_hyphens, 2);
    }
    lemma_hex_group(g0);
    lemma_hex_group(g1);
    lemma_hex_group(g2);
    lemma_hex_group(g3);
    lemma_hex_group(g4);
    lemma_strip_concat(a0, m);
    lemma_strip_concat(a0 + m, a1);
    lemma_strip_concat(a0 + m + a1, m);
    lemma_strip_concat(a0 + m + a1 + m, a2);
    lemma_strip_concat(a0 + m + a1 + m + a2, m);
    lemma_strip_concat(a0 + m + a1 + m + a2 + m, a3);
    lemma_strip_concat(a0 + m + a1 + m + a2 + m + a3, m);
    lemma_strip_concat(a0 + m + a1 + m + a2 + m + a3 + m, a4);
    let d = strip_hyphens(e);
    assert(d =~= a0 + a1 + a2 + a3 + a4);
    lemma_hex_chars_concat(g0, g1);
    lemma_hex_chars_concat(g0 + g1, g2);
    lemma_hex_chars_concat(g0 + g1 + g2, g3);
    lemma_hex_chars_concat(g0 + g1 + g2 + g3, g4);
    assert(g0 + g1 + g2 + g3 + g4 =~= b);
    assert(a0 + a1 + a2 + a3 + a4 =~= ascii_bytes(hex_chars(b)));
    lemma_unhex_hex(b);
    lemma_hex_chars_ascii(b);
}


/// Appends the 16 bytes of a well-formed textual UUID.
pub fn write_uuid(out: &mut Vec<u8>, u: &Uuid)
    requires
        uuid_bytes(u@) is Some,
    ensures
        final(out)@ == old(out)@ + uuid_bytes(u@)->Some_0,
{
    if let Ok(b) = uuid_to_bytes(u) {
        write_bytes(out, b.as_slice());
    }
}

/// The all-zero UUID.
pub fn nil_uuid() -> (r: Uuid)
    ensures
        r@ == uuid_text(seq![0u8; 16]),
        uuid_bytes(r@) == Some(seq![0u8; 16]),
{
    let b: Vec<u8> = vec![0u8; 16];
    assert(b@ =~= seq![0u8; 16]);
    proof {
        lemma_uuid_text_bytes(b@);
    }
    uuid_from_bytes(&b)
}

/// The views of a sequence of values.
pub open spec fn views<T: View>(v: Seq<T>) -> Seq<T::V> {
    v.map_values(|x: T| x@)
}

/// A decoded vector seen through the views of its items.
pub open spec fn views_decoded<T: View>(r: Decoded<Vec<T>>) -> Decoded<Seq<T::V>> {
    match r {
        Ok((v, q)) => Ok((views(v@), q)),
        Err(e) => Err(e),
    }
}

/// `n` values read one after another with `elem`, starting at `p`.
pub open spec fn spec_read_seq<T>(
    s: Seq<u8>,
    p: usize,
    n: nat,
    elem: spec_fn(Seq<u8>, usize) -> Decoded<T>,
) -> Decoded<Seq<T>>
    decreases n,
{
    if n == 0 {
        Ok((Seq::empty(), p))
    } else {
        match elem(s, p) {
            Ok((v, q)) => match spec_read_seq(s, q, (n - 1) as nat, elem) {
                Ok((vs, q2)) => Ok((seq![v] + vs, q2)),
                Err(e) => Err(e),
            },
            Err(e) => Err(e),
        }
    }
}

/// Puts `done` in front of the values of `r`.
pub open spec fn prepend<T>(done: Seq<T>, r: Decoded<Seq<T>>) -> Decoded<Seq<T>> {
    match r {
        Ok((vs, q)) => Ok((done + vs, q)),
        Err(e) => Err(e),
    }
}

/// A compact array: `UVARINT(0)` for null, read as empty, else
/// `UVARINT(n + 1)` and `n` values.
pub open spec fn spec_read_compact_array<T>(
    s: Seq<u8>,
    p: usize,
    elem: spec_fn(Seq<u8>, usize) -> Decoded<T>,
) -> Decoded<Seq<T>> {
    match spec_read_uvarint(s, p) {
        Ok((l, q)) => if l == 0 {
            Ok((Seq::empty(), q))
        } else {
            spec_read_seq(s, q, (l - 1) as nat, elem)
        },
        Err(e) => Err(e),
    }
}

/// An int32-prefixed array: the count, `-1` read as empty, then the values.
pub open spec fn spec_read_int32_array<T>(
    s: Seq<u8>,
    p: usize,
    elem: spec_fn(Seq<u8>, usize) -> Decoded<T>,
) -> Decoded<Seq<T>> {
    match spec_read_i32(s, p) {
        Ok((l, q)) => if l == -1 {
            Ok((Seq::empty(), q))
        } else if l < 0 {
            Err(DecodeError::BadLength)
        } else {
            spec_read_seq(s, q, l as nat, elem)
        },
        Err(e) => Err(e),
    }
}

/// Reads `n` values one after another with `elem`.
pub fn read_seq<T: View, F: Fn(&[u8], usize) -> Decoded<T>>(
    buf: &[u8],
    pos: usize,
    n: u64,
    elem: F,
    Ghost(spec_elem): Ghost<spec_fn(Seq<u8>, usize) -> Decoded<T::V>>,
) -> (r: Decoded<Vec<T>>)
    requires
        forall|p: usize| call_requires(elem, (buf, p)),
        forall|p: usize, e: Decoded<T>|
            call_ensures(elem, (buf, p), e) ==> view_decoded(e) == spec_elem(buf@, p),
    ensures
        views_decoded(r) == spec_read_seq(buf@, pos, n as nat, spec_elem),
{
    let mut items: Vec<T> = Vec::new();
    let mut p: usize = pos;
    let mut i: u64 = 0;
    while i < n
        invariant
            i <= n,
            forall|p: usize| call_requires(elem, (buf, p)),
            forall|p: usize, e: Decoded<T>|
                call_ensures(elem, (buf, p), e) ==> view_decoded(e) == spec_elem(buf@, p),
            spec_read_seq(buf@, pos, n as nat, spec_elem) == prepend(
                views(items@),
                spec_read_seq(buf@, p, (n - i) as nat, spec_elem),
            ),
        decreases n - i,
    {
        let ghost before = views(items@);
        match elem(buf, p) {
            Ok((v, q)) => {
                let ghost vv = v@;
                items.push(v);
                proof {
                    assert(views(items@) =~= before + seq![vv]);
                    match spec_read_seq(buf@, q, (n - i - 1) as nat, spec_elem) {
                        Ok((vs, q2)) => {
                            assert(before + (seq![vv] + vs) =~= before + seq![vv] + vs);
                        },
                        Err(e) => {},
                    }
                }
                p = q;
            },
            Err(e) => {
                return Err(e);
            },
        }
        i = i + 1;
    }
    assert(views(items@) + Seq::<T::V>::empty() =~= views(items@));
    Ok((items, p))
}

/// Reads a compact array whose values `elem` reads.
pub fn read_compact_array<T: View, F: Fn(&[u8], usize) -> Decoded<T>>(
    buf: &[u8],
    pos: usize,
    elem: F,
    Ghost(spec_elem): Ghost<spec_fn(Seq<u8>, usize) -> Decoded<T::V>>,
) -> (r: Decoded<Vec<T>>)
    requires
        forall|p: usize| call_requires(elem, (buf, p)),
        forall|p: usize, e: Decoded<T>|
            call_ensures(elem, (buf, p), e) ==> view_decoded(e) == spec_elem(buf@, p),
    ensures
        views_decoded(r) == spec_read_compact_array(buf@, pos, spec_elem),
{
    let (l, q) = read_uvarint(buf, pos)?;
    if l == 0 {
        let v: Vec<T> = Vec::new();
        assert(views(v@) =~= Seq::<T::V>::empty());
        return Ok((v, q));
    }
    read_seq(buf, q, l - 1, elem, Ghost(spec_elem))
}

/// Reads an int32-prefixed array whose values `elem` reads.
pub fn read_int32_array<T: View, F: Fn(&[u8], usize) -> Decoded<T>>(
    buf: &[u8],
    pos: usize,
    elem: F,
    Ghost(spec_elem): Ghost<spec_fn(Seq<u8>, usize) -> Decoded<T::V>>,
) -> (r: Decoded<Vec<T>>)
    requires
        forall|p: usize| call_requires(elem, (buf, p)),
        forall|p: usize, e: Decoded<T>|
            call_ensures(elem, (buf, p), e) ==> view_decoded(e) == spec_elem(buf@, p),
    ensures
        views_decoded(r) == spec_read_int32_array(buf@, pos, spec_elem),
{
    let (l, q) = read_i32(buf, pos)?;
    if l == -1 {
        let v: Vec<T> = Vec::new();
        assert(views(v@) =~= Seq::<T::V>::empty());
        return Ok((v, q));
    }
    if l < 0 {
        return Err(DecodeError::BadLength);
    }
    read_seq(buf, q, l as u64, elem, Ghost(spec_elem))
}

/// Reads a compact array of big-endian u32 values.
pub fn read_u32_array(buf: &[u8], pos: usize) -> (r: Decoded<Vec<u32>>)
    ensures
        views_decoded(r) == spec_read_compact_array(buf@, pos, |s, p| spec_read_u32(s, p)),
{
    let elem = |b: &[u8], p: usize| -> (e: Decoded<u32>)
        ensures
            view_decoded(e) == spec_read_u32(b@, p),
        { read_u32(b, p) };
    read_compact_array(buf, pos, elem, Ghost(|s: Seq<u8>, p: usize| spec_read_u32(s, p)))
}


/// The encodings of the values of `s`, one after another.
pub open spec fn seq_bytes<T>(s: Seq<T>, f: spec_fn(T) -> Seq<u8>) -> Seq<u8>
    decreases s.len(),
{
    if s.len() == 0 {
        Seq::empty()
    } else {
        seq_bytes(s.drop_last(), f) + f(s.last())
    }
}

/// A compact array of `s`: `UVARINT(n + 1)` and the values.
pub open spec fn compact_array_bytes<T>(s: Seq<T>, f: spec_fn(T) -> Seq<u8>) -> Seq<u8> {
    uvarint_bytes(s.len() + 1) + seq_bytes(s, f)
}

/// Appends the encodings of the values of `items`.
pub fn write_seq<T: View, F: Fn(&T) -> Vec<u8>>(
    out: &mut Vec<u8>,
    items: &Vec<T>,
    enc: F,
    Ghost(spec_enc): Ghost<spec_fn(T::V) -> Seq<u8>>,
)
    requires
        forall|i: int| 0 <= i < items@.len() ==> call_requires(enc, (&items@[i],)),
        forall|x: &T, b: Vec<u8>| call_ensures(enc, (x,), b) ==> b@ == spec_enc(x@),
    ensures
        final(out)@ == old(out)@ + seq_bytes(views(items@), spec_enc),
{
    let mut i: usize = 0;
    while i < items.len()
        invariant
            i <= items@.len(),
            forall|i: int| 0 <= i < items@.len() ==> call_requires(enc, (&items@[i],)),
            forall|x: &T, b: Vec<u8>| call_ensures(enc, (x,), b) ==> b@ == spec_enc(x@),
            out@ == old(out)@ + seq_bytes(views(items@.subrange(0, i as int)), spec_enc),
        decreases items@.len() - i,
    {
        let mut b = enc(&items[i]);
        let ghost prev = out@;
        out.append(&mut b);
        proof {
            let vs = views(items@.subrange(0, i + 1));
            assert(vs.drop_last() =~= views(items@.subrange(0, i as int)));
            assert(vs.last() == items@[i as int]@);
            assert(out@ =~= old(out)@ + seq_bytes(vs, spec_enc));
        }
        i = i + 1;
    }
    assert(items@.subrange(0, items@.len() as int) =~= items@);
}

/// Appends a compact array of `items`.
pub fn write_compact_array<T: View, F: Fn(&T) -> Vec<u8>>(
    out: &mut Vec<u8>,
    items: &Vec<T>,
    enc: F,
    Ghost(spec_enc): Ghost<spec_fn(T::V) -> Seq<u8>>,
)
    requires
        items@.len() <= MAX_COMPACT_LEN,
        forall|i: int| 0 <= i < items@.len() ==> call_requires(enc, (&items@[i],)),
        forall|x: &T, b: Vec<u8>| call_ensures(enc, (x,), b) ==> b@ == spec_enc(x@),
    ensures
        final(out)@ == old(out)@ + compact_array_bytes(views(items@), spec_enc),
{
    write_uvarint(out, items.len() as u64 + 1);
    write_seq(out, items, enc, Ghost(spec_enc));
    assert(final(out)@ =~= old(out)@ + compact_array_bytes(views(items@), spec_enc));
}

/// The encoding of a u32 array value.
pub open spec fn u32_bytes(v: u32) -> Seq<u8> {
    be_bytes(v as nat, 4)
}

/// Appends a compact array of big-endian u32 values.
pub fn write_u32_array(out: &mut Vec<u8>, items: &Vec<u32>)
    requires
        items@.len() <= MAX_COMPACT_LEN,
    ensures
        final(out)@ == old(out)@ + compact_array_bytes(items@, |v: u32| u32_bytes(v)),
{
    let enc = |v: &u32| -> (b: Vec<u8>)
        ensures
            b@ == u32_bytes(*v),
        {
            let mut b: Vec<u8> = Vec::new();
            write_u32(&mut b, *v);
            assert(b@ =~= u32_bytes(*v));
            b
        };
    write_compact_array(out, items, enc, Ghost(|v: u32| u32_bytes(v)));
    assert(views(items@) =~= items@);
}


/// Whether a textual UUID is well formed.
pub fn is_valid_uuid(u: &Uuid) -> (r: bool)
    ensures
        r == uuid_bytes(u@) is Some,
{
    uuid_to_bytes(u).is_ok()
}

/// The wire length of a string.
pub fn string_len(t: &String) -> (r: usize)
    ensures
        r == text_len(t@),
{
    t.as_str().as_bytes().len()
}

/// Whether a compact nullable string fits its length prefix.
pub open spec fn name_encodable(t: Option<Seq<char>>) -> bool {
    t matches Some(t) ==> text_len(t) <= MAX_COMPACT_LEN
}

pub fn is_name_encodable(t: &CompactNullableString) -> (r: bool)
    ensures
        r == name_encodable(t@),
{
    match &t.0 {
        Some(s) => string_len(s) <= MAX_COMPACT_LEN,
        None => true,
    }
}


/// Whether a character is a lowercase hex digit.
pub open spec fn is_lower_hex_char(c: char) -> bool {
    ('0' <= c <= '9') || ('a' <= c <= 'f')
}

/// Canonical UUID text: 36 characters, hyphens at 8, 13, 18 and 23, and
/// lowercase hex digits elsewhere.
pub open spec fn canonical_uuid_text(t: Seq<char>) -> bool {
    &&& t.len() == 36
    &&& forall|i: int|
        0 <= i < 36 ==> if i == 8 || i == 13 || i == 18 || i == 23 {
            #[trigger] t[i] == '-'
        } else {
            is_lower_hex_char(t[i])
        }
}

/// The characters that ASCII bytes stand for.
pub open spec fn ascii_chars(b: Seq<u8>) -> Seq<char> {
    Seq::new(b.len(), |i: int| b[i] as char)
}

proof fn lemma_lower_hex_char(c: char)
    requires
        is_lower_hex_char(c),
    ensures
        is_hex_byte(c as u8),
        hex_value(c as u8) < 16,
        hex_digit(hex_value(c as u8)) == c,
        (c as u8) as char == c,
        c as u8 != 45,
{
}

proof fn lemma_hex_of_unhex(d: Seq<u8>)
    requires
        d.len() % 2 == 0,
        forall|i: int| 0 <= i < d.len() ==> is_lower_hex_char(#[trigger] d[i] as char),
        forall|i: int| 0 <= i < d.len() ==> (#[trigger] d[i] as char) as u8 == d[i],
    ensures
        hex_chars(unhex(d)) == ascii_chars(d),
        unhex(d).len() == d.len() / 2,
    decreases d.len(),
{
    if d.len() >= 2 {
        let n = d.len();
        let pre = d.subrange(0, n - 2);
        lemma_hex_of_unhex(pre);
        let hi = d[n - 2];
        let lo = d[n - 1];
        lemma_lower_hex_char(hi as char);
        lemma_lower_hex_char(lo as char);
        let x = hex_value(hi) * 16 + hex_value(lo);
        assert(x < 256);
        assert((x as u8) as nat == x);
        assert(x / 16 == hex_value(hi)) by (nonlinear_arith)
            requires
                x == hex_value(hi) * 16 + hex_value(lo),
                hex_value(lo) < 16,
        ;
        assert(x % 16 == hex_value(lo)) by (nonlinear_arith)
            requires
                x == hex_value(hi) * 16 + hex_value(lo),
                hex_value(lo) < 16,
        ;
        let u = unhex(d);
        assert(u.drop_last() =~= unhex(pre));
        assert(hex_chars(u) =~= ascii_chars(d));
    } else {
        assert(hex_chars(unhex(d)) =~= ascii_chars(d));
    }
}

/// Pairs of digits give one byte each.
pub proof fn lemma_unhex_len(d: Seq<u8>)
    ensures
        unhex(d).len() == d.len() / 2,
    decreases d.len(),
{
    if d.len() >= 2 {
        lemma_unhex_len(d.subrange(0, d.len() - 2));
    }
}

proof fn lemma_unhex_concat(x: Seq<u8>, y: Seq<u8>)
    requires
        x.len() % 2 == 0,
        y.len() % 2 == 0,
    ensures
        unhex(x + y) == unhex(x) + unhex(y),
    decreases y.len(),
{
    if y.len() == 0 {
        assert(x + y =~= x);
        assert(unhex(x) + unhex(y) =~= unhex(x));
    } else {
        let n = y.len();
        let ypre = y.subrange(0, n - 2);
        lemma_unhex_concat(x, ypre);
        let xy = x + y;
        assert(xy.subrange(0, xy.len() - 2) =~= x + ypre);
        assert(xy[xy.len() - 2] == y[n - 2]);
        assert(xy[xy.len() - 1] == y[n - 1]);
        assert(unhex(x + y) =~= unhex(x) + unhex(y));
    }
}

/// Canonical UUID text decodes to bytes whose canonical text is that text.
pub proof fn law_uuid_text_round_trip(t: Seq<char>)
    requires
        canonical_uuid_text(t),
    ensures
        uuid_bytes(t) is Some,
        uuid_text(uuid_bytes(t)->Some_0) == t,
{
    assert(is_ascii_chars(t)) by {
        assert forall|i: int| 0 <= i < t.len() implies '\0' <= #[trigger] t[i] <= '\u{7f}' by {
            if !(i == 8 || i == 13 || i == 18 || i == 23) {
                assert(is_lower_hex_char(t[i]));
            }
        }
    }
    vstd::utf8::is_ascii_chars_encode_utf8(t);
    let e = encode_utf8(t);
    assert(e =~= ascii_bytes(t));
    let g0 = e.subrange(0, 8);
    let g1 = e.subrange(9, 13);
    let g2 = e.subrange(14, 18);
    let g3 = e.subrange(19, 23);
    let g4 = e.subrange(24, 36);
    let m = seq![45u8];
    assert(e[8] == 45 && e[13] == 45 && e[18] == 45 && e[23] == 45) by {
        assert(t[8] == '-' && t[13] == '-' && t[18] == '-' && t[23] == '-');
    }
    assert(e =~= g0 + m + g1 + m + g2 + m + g3 + m + g4);
    assert forall|i: int| 0 <= i < 36 && !(i == 8 || i == 13 || i == 18 || i == 23) implies {
        &&& is_lower_hex_char(#[trigger] e[i] as char)
        &&& (e[i] as char) as u8 == e[i]
        &&& e[i] != 45
    } by {
        assert(is_lower_hex_char(t[i]));
        lemma_lower_hex_char(t[i]);
    }
    assert(strip_hyphens(m) =~= Seq::<u8>::empty()) by {
        assert(m.drop_last() =~= Seq::<u8>::empty());
        assert(m.last() == 45);
        reveal_with_fuel(strip_hyphens, 2);
    }
    assert forall|i: int| 0 <= i < g0.len() implies #[trigger] g0[i] != 45 by {
        assert(g0[i] == e[i]);
    }
    assert forall|i: int| 0 <= i < g1.len() implies #[trigger] g1[i] != 45 by {
        assert(g1[i] == e[i + 9]);
    }
    assert forall|i: int| 0 <= i < g2.len() implies #[trigger] g2[i] != 45 by {
        assert(g2[i] == e[i + 14]);
    }
    assert forall|i: int| 0 <= i < g3.len() implies #[trigger] g3[i] != 45 by {
        assert(g3[i] == e[i + 19]);
    }
    assert forall|i: int| 0 <= i < g4.len() implies #[trigger] g4[i] != 45 by {
        assert(g4[i] == e[i + 24]);
    }
    lemma_strip_none(g0);
    lemma_strip_none(g1);
    lemma_strip_none(g2);
    lemma_strip_none(g3);
    lemma_strip_none(g4);
    lemma_strip_concat(g0, m);
    lemma_strip_concat(g0 + m, g1);
    lemma_strip_concat(g0 + m + g1, m);
    lemma_strip_concat(g0 + m + g1 + m, g2);
    lemma_strip_concat(g0 + m + g1 + m + g2, m);
    lemma_strip_concat(g0 + m + g1 + m + g2 + m, g3);
    lemma_strip_concat(g0 + m + g1 + m + g2 + m + g3, m);
    lemma_strip_concat(g0 + m + g1 + m + g2 + m + g3 + m, g4);
    let d = strip_hyphens(e);
    assert(d =~= g0 + g1 + g2 + g3 + g4);
    assert forall|i: int| 0 <= i < d.len() implies is_hex_byte(#[trigger] d[i]) by {
        let j = if i < 8 {
            i
        } else if i < 12 {
            i + 1
        } else if i < 16 {
            i + 2
        } else if i < 20 {
            i + 3
        } else {
            i + 4
        };
        assert(d[i] == e[j]);
        lemma_lower_hex_char(e[j] as char);
    }
    assert(hex_valid(d));
    assert forall|i: int| 0 <= i < g0.len() implies is_lower_hex_char(#[trigger] g0[i] as char) && (
    g0[i] as char) as u8 == g0[i] by {
        assert(g0[i] == e[i]);
    }
    assert forall|i: int| 0 <= i < g1.len() implies is_lower_hex_char(#[trigger] g1[i] as char) && (
    g1[i] as char) as u8 == g1[i] by {
        assert(g1[i] == e[i + 9]);
    }
    assert forall|i: int| 0 <= i < g2.len() implies is_lower_hex_char(#[trigger] g2[i] as char) && (
    g2[i] as char) as u8 == g2[i] by {
        assert(g2[i] == e[i + 14]);
    }
    assert forall|i: int| 0 <= i < g3.len() implies is_lower_hex_char(#[trigger] g3[i] as char) && (
    g3[i] as char) as u8 == g3[i] by {
        assert(g3[i] == e[i + 19]);
    }
    assert forall|i: int| 0 <= i < g4.len() implies is_lower_hex_char(#[trigger] g4[i] as char) && (
    g4[i] as char) as u8 == g4[i] by {
        assert(g4[i] == e[i + 24]);
    }
    lemma_hex_of_unhex(g0);
    lemma_hex_of_unhex(g1);
    lemma_hex_of_unhex(g2);
    lemma_hex_of_unhex(g3);
    lemma_hex_of_unhex(g4);
    lemma_unhex_concat(g0, g1);
    lemma_unhex_concat(g0 + g1, g2);
    lemma_unhex_concat(g0 + g1 + g2, g3);
    lemma_unhex_concat(g0 + g1 + g2 + g3, g4);
    let b = unhex(d);
    assert(b =~= unhex(g0) + unhex(g1) + unhex(g2) + unhex(g3) + unhex(g4));
    assert(b.subrange(0, 4) =~= unhex(g0));
    assert(b.subrange(4, 6) =~= unhex(g1));
    assert(b.subrange(6, 8) =~= unhex(g2));
    assert(b.subrange(8, 10) =~= unhex(g3));
    assert(b.subrange(10, 16) =~= unhex(g4));
    assert(ascii_chars(g0) =~= t.subrange(0, 8));
    assert(ascii_chars(g1) =~= t.subrange(9, 13));
    assert(ascii_chars(g2) =~= t.subrange(14, 18));
    assert(ascii_chars(g3) =~= t.subrange(19, 23));
    assert(ascii_chars(g4) =~= t.subrange(24, 36));
    assert(uuid_text(b) =~= t);
}

} // verus!

//! Primitive encodings of the protocol: variable-length integers,
//! length-prefixed UTF-8 strings and fixed-width big-endian integers.
//!
//! Writers append to a byte buffer. Readers take a byte slice and a start
//! position and return the value together with the number of bytes it
//! occupied; a slice that ends before the value is complete gives
//! `ProtocolError::Io`, as a channel that closes early would.

use vstd::prelude::*;
use vstd::utf8::*;

use crate::protocol::ProtocolError;

verus! {

broadcast use vstd::string::group_string_axioms;

/// Most bytes a variable-length integer may occupy.
pub const MAX_VARINT_BYTES: usize = 5;

/// Weight of the `i`-th seven-bit group of a variable-length integer: `128^i`.
pub open spec fn group_weight(i: nat) -> nat
    decreases i,
{
    if i == 0 {
        1
    } else {
        128 * group_weight((i - 1) as nat)
    }
}

/// `256^n`.
pub open spec fn byte_weight(n: nat) -> nat
    decreases n,
{
    if n == 0 {
        1
    } else {
        256 * byte_weight((n - 1) as nat)
    }
}

/// The variable-length encoding of `v`: seven bits per byte, least significant
/// group first, the top bit set on every byte but the last.
pub open spec fn varint_bytes(v: nat) -> Seq<u8>
    decreases v,
{
    if v < 128 {
        seq![v as u8]
    } else {
        seq![(v % 128 + 128) as u8] + varint_bytes(v / 128)
    }
}

/// What `write_varint` puts on the wire for `v`: the encoding of its low 32 bits.
pub open spec fn wire_varint(v: nat) -> Seq<u8> {
    varint_bytes(v % 0x1_0000_0000)
}

/// Reading a variable-length integer from `s`, after `i` continuation bytes
/// that added up to `acc`. The sixth byte is refused even when it would end
/// the value; a slice that ends first is a short read.
pub open spec fn varint_from(s: Seq<u8>, i: nat, acc: nat) -> Result<(u64, usize), ProtocolError>
    decreases 5 - i,
{
    if s.len() <= i {
        Err(ProtocolError::Io)
    } else if i >= 5 {
        Err(ProtocolError::InvalidVarInt)
    } else {
        let next = acc + (s[i as int] % 128) * group_weight(i);
        if s[i as int] < 128 {
            Ok((next as u64, (i + 1) as usize))
        } else {
            varint_from(s, i + 1, next as nat)
        }
    }
}

/// The variable-length integer at the front of `s` and its size in bytes.
pub open spec fn varint_read(s: Seq<u8>) -> Result<(u64, usize), ProtocolError> {
    varint_from(s, 0, 0)
}

/// The bytes that `write_string` puts on the wire for `chars`: the UTF-8
/// length as a variable-length integer, then the UTF-8 bytes.
pub open spec fn string_bytes(chars: Seq<char>) -> Seq<u8> {
    wire_varint(encode_utf8(chars).len()) + encode_utf8(chars)
}

/// Reading a string from the front of `s`: its characters and the bytes it took.
pub open spec fn string_read(s: Seq<u8>) -> Result<(Seq<char>, usize), ProtocolError> {
    match varint_read(s) {
        Err(e) => Err(e),
        Ok((len, n)) => {
            if s.len() - n < len {
                Err(ProtocolError::Io)
            } else {
                let bytes = s.subrange(n as int, n + len);
                if valid_utf8(bytes) {
                    Ok((decode_utf8(bytes), (n + len) as usize))
                } else {
                    Err(ProtocolError::InvalidResponseBody)
                }
            }
        },
    }
}

/// The low `n` bytes of `v`, most significant first.
pub open spec fn be_bytes(v: nat, n: nat) -> Seq<u8>
    decreases n,
{
    if n == 0 {
        seq![]
    } else {
        be_bytes(v / 256, (n - 1) as nat).push((v % 256) as u8)
    }
}

/// The number that the bytes `s` spell, most significant first.
pub open spec fn be_value(s: Seq<u8>) -> nat
    decreases s.len(),
{
    if s.len() == 0 {
        0
    } else {
        (be_value(s.drop_last()) * 256 + s.last()) as nat
    }
}

/// Reading an `n`-byte big-endian integer from the front of `s`.
pub open spec fn be_read(s: Seq<u8>, n: nat) -> Result<(u64, usize), ProtocolError> {
    if s.len() < n {
        Err(ProtocolError::Io)
    } else {
        Ok((be_value(s.subrange(0, n as int)) as u64, n as usize))
    }
}

/// The bytes of `data` from `pos` on.
pub open spec fn rest(data: Seq<u8>, pos: int) -> Seq<u8> {
    data.subrange(pos, data.len() as int)
}

proof fn lemma_low_bits_u8(b: u8)
    ensures
        b & 0x7f == b % 128,
        (b & 0x80 == 0) == (b < 128),
{
    assert(b & 0x7f == b % 128) by (bit_vector);
    assert((b & 0x80 == 0) == (b < 128)) by (bit_vector);
}

proof fn lemma_low_bits_u64(v: u64)
    ensures
        v & 0x7f == v % 128,
        v >> 7 == v / 128,
        v & 0xFFFF_FFFF == v % 0x1_0000_0000,
{
    assert(v & 0x7f == v % 128) by (bit_vector);
    assert(v >> 7 == v / 128) by (bit_vector);
    assert(v & 0xFFFF_FFFF == v % 0x1_0000_0000) by (bit_vector);
}

proof fn lemma_set_top_bit(t: u8)
    requires
        t < 128,
    ensures
        t | 0x80 == t + 128,
{
    assert(t < 128 ==> t | 0x80 == t + 128) by (bit_vector);
}

proof fn lemma_group_weight_small(i: nat)
    requires
        i <= 4,
    ensures
        1 <= group_weight(i) <= 0x1000_0000,
        group_weight(i + 1) == 128 * group_weight(i),
{
    reveal_with_fuel(group_weight, 6);
}

proof fn lemma_byte_weight_small(i: nat)
    requires
        i <= 7,
    ensures
        1 <= byte_weight(i) <= 0x100_0000_0000_0000,
{
    reveal_with_fuel(byte_weight, 9);
}

proof fn lemma_varint_from_bounds(s: Seq<u8>, i: nat, acc: nat)
    requires
        i <= 5,
        acc < group_weight(i),
    ensures
        varint_from(s, i, acc) matches Ok((v, n)) ==> i < n <= s.len() && n <= 5 && v
            < group_weight(n as nat),
    decreases 5 - i,
{
    if s.len() > i && i < 5 {
        lemma_group_weight_small(i);
        let next = acc + (s[i as int] % 128) * group_weight(i);
        assert(next < group_weight(i + 1)) by (nonlinear_arith)
            requires
                next == acc + (s[i as int] % 128) * group_weight(i),
                acc < group_weight(i),
                s[i as int] % 128 < 128,
                group_weight(i + 1) == 128 * group_weight(i),
        ;
        if s[i as int] >= 128 {
            lemma_varint_from_bounds(s, i + 1, next as nat);
        }
    }
}

pub(crate) proof fn lemma_varint_read_bounds(s: Seq<u8>)
    ensures
        varint_read(s) matches Ok((v, n)) ==> 0 < n <= s.len() && n <= 5 && v < 0x8_0000_0000,
{
    lemma_varint_from_bounds(s, 0, 0);
    reveal_with_fuel(group_weight, 6);
}

proof fn lemma_varint_bytes_len(v: nat, k: nat)
    requires
        1 <= k,
        v < group_weight(k),
    ensures
        1 <= varint_bytes(v).len() <= k,
    decreases v,
{
    if v >= 128 {
        reveal_with_fuel(group_weight, 2);
        assert(k >= 2);
        assert(v / 128 < group_weight((k - 1) as nat)) by (nonlinear_arith)
            requires
                v < group_weight(k),
                group_weight(k) == 128 * group_weight((k - 1) as nat),
        ;
        lemma_varint_bytes_len(v / 128, (k - 1) as nat);
    }
}

proof fn lemma_varint_from_encoded(s: Seq<u8>, i: nat, acc: nat, v: nat)
    requires
        i + varint_bytes(v).len() <= 5,
        i + varint_bytes(v).len() <= s.len(),
        s.subrange(i as int, (i + varint_bytes(v).len()) as int) == varint_bytes(v),
        acc < group_weight(i),
    ensures
        varint_from(s, i, acc) == Ok::<(u64, usize), ProtocolError>(
            ((acc + v * group_weight(i)) as u64, (i + varint_bytes(v).len()) as usize),
        ),
    decreases v,
{
    let enc = varint_bytes(v);
    lemma_weight_exceeds(v);
    lemma_varint_bytes_len(v, (v + 1) as nat);
    assert(s[i as int] == enc[0]);
    lemma_group_weight_small(i);
    if v >= 128 {
        let tail = varint_bytes(v / 128);
        assert(enc == seq![(v % 128 + 128) as u8] + tail);
        assert(s.subrange((i + 1) as int, (i + 1 + tail.len()) as int) =~= tail) by {
            assert forall|j: int| 0 <= j < tail.len() implies s.subrange((i + 1) as int, (i + 1 + tail.len()) as int)[j]
                == tail[j] by {
                assert(s.subrange(i as int, (i + enc.len()) as int)[j + 1] == enc[j + 1]);
            }
        }
        let next = acc + (v % 128) * group_weight(i);
        assert(next < group_weight(i + 1)) by (nonlinear_arith)
            requires
                acc < group_weight(i),
                v % 128 < 128,
                next == acc + (v % 128) * group_weight(i),
                group_weight(i + 1) == 128 * group_weight(i),
        ;
        lemma_varint_from_encoded(s, i + 1, next, v / 128);
        assert(next + (v / 128) * group_weight(i + 1) == acc + v * group_weight(i))
            by (nonlinear_arith)
            requires
                next == acc + (v % 128) * group_weight(i),
                group_weight(i + 1) == 128 * group_weight(i),
                v == 128 * (v / 128) + v % 128,
        ;
    }
}

proof fn lemma_weight_exceeds(v: nat)
    ensures
        v < group_weight((v + 1) as nat),
    decreases v,
{
    reveal_with_fuel(group_weight, 2);
    if v > 0 {
        lemma_weight_exceeds((v - 1) as nat);
    }
}

proof fn lemma_varint_from_extend(s: Seq<u8>, t: Seq<u8>, i: nat, acc: nat)
    requires
        varint_from(s, i, acc) != Err::<(u64, usize), ProtocolError>(ProtocolError::Io),
    ensures
        varint_from(s + t, i, acc) == varint_from(s, i, acc),
    decreases 5 - i,
{
    let st = s + t;
    assert(st[i as int] == s[i as int]);
    if i < 5 && s[i as int] >= 128 {
        let next = acc + (s[i as int] % 128) * group_weight(i);
        lemma_varint_from_extend(s, t, i + 1, next as nat);
    }
}

/// A variable-length integer that could be read, or was refused, reads the
/// same with more bytes after it.
pub(crate) proof fn lemma_varint_read_extend(s: Seq<u8>, t: Seq<u8>)
    ensures
        varint_read(s) != Err::<(u64, usize), ProtocolError>(ProtocolError::Io) ==> varint_read(
            s + t,
        ) == varint_read(s),
{
    if varint_read(s) != Err::<(u64, usize), ProtocolError>(ProtocolError::Io) {
        lemma_varint_from_extend(s, t, 0, 0);
    }
}

/// A value below 2^32, written as a variable-length integer, reads back as
/// itself, whatever follows it.
pub proof fn lemma_varint_round_trip(v: nat, tail: Seq<u8>)
    requires
        v < 0x1_0000_0000,
    ensures
        varint_read(wire_varint(v) + tail) == Ok::<(u64, usize), ProtocolError>(
            (v as u64, wire_varint(v).len() as usize),
        ),
        1 <= wire_varint(v).len() <= 5,
{
    let enc = varint_bytes(v);
    assert(v % 0x1_0000_0000 == v);
    reveal_with_fuel(group_weight, 6);
    lemma_varint_bytes_len(v, 5);
    let s = enc + tail;
    assert(s.subrange(0, enc.len() as int) =~= enc);
    lemma_varint_from_encoded(s, 0, 0, v);
}

/// Five bytes with the continuation bit set, and a sixth, are refused as an
/// over-long variable-length integer.
pub proof fn lemma_six_continuation_bytes(s: Seq<u8>)
    requires
        s.len() >= 6,
        forall|i: int| 0 <= i < 6 ==> s[i] >= 128,
    ensures
        varint_read(s) == Err::<(u64, usize), ProtocolError>(ProtocolError::InvalidVarInt),
{
    reveal_with_fuel(varint_from, 7);
}

/// A string whose UTF-8 form is under 4 GiB, written with `write_string`,
/// reads back as itself, whatever follows it.
pub proof fn lemma_string_round_trip(chars: Seq<char>, tail: Seq<u8>)
    requires
        encode_utf8(chars).len() < 0x1_0000_0000,
    ensures
        string_read(string_bytes(chars) + tail) == Ok::<(Seq<char>, usize), ProtocolError>(
            (chars, string_bytes(chars).len() as usize),
        ),
{
    let bytes = encode_utf8(chars);
    let head = wire_varint(bytes.len());
    let s = string_bytes(chars) + tail;
    assert(s =~= head + (bytes + tail));
    lemma_varint_round_trip(bytes.len(), bytes + tail);
    let n = head.len();
    assert(s.subrange(n as int, (n + bytes.len()) as int) =~= bytes);
    encode_utf8_valid_utf8(chars);
    encode_utf8_decode_utf8(chars);
}

proof fn lemma_be_bytes_value(v: nat, n: nat)
    ensures
        be_bytes(v, n).len() == n,
        be_value(be_bytes(v, n)) == v % byte_weight(n),
    decreases n,
{
    if n > 0 {
        let prev = be_bytes(v / 256, (n - 1) as nat);
        lemma_be_bytes_value(v / 256, (n - 1) as nat);
        assert(be_bytes(v, n).drop_last() =~= prev);
        assert(byte_weight((n - 1) as nat) > 0) by {
            lemma_byte_weight_positive((n - 1) as nat);
        }
        vstd::arithmetic::div_mod::lemma_breakdown(v as int, 256, byte_weight((n - 1) as nat) as int);
    }
}

proof fn lemma_byte_weight_positive(n: nat)
    ensures
        byte_weight(n) > 0,
    decreases n,
{
    if n > 0 {
        lemma_byte_weight_positive((n - 1) as nat);
    }
}

/// Eight bytes written with `write_u64_be` read back as the same number,
/// whatever follows them.
pub proof fn lemma_u64_round_trip(v: u64, tail: Seq<u8>)
    ensures
        be_read(be_bytes(v as nat, 8) + tail, 8) == Ok::<(u64, usize), ProtocolError>((v, 8)),
        be_bytes(v as nat, 8).len() == 8,
{
    lemma_be_bytes_value(v as nat, 8);
    reveal_with_fuel(byte_weight, 9);
    assert(byte_weight(8) == 0x1_0000_0000_0000_0000);
    assert(v as nat % 0x1_0000_0000_0000_0000 == v);
    assert((be_bytes(v as nat, 8) + tail).subrange(0, 8) =~= be_bytes(v as nat, 8));
}

/// Appends `bytes` to `buf`.
pub fn write_bytes(buf: &mut Vec<u8>, bytes: &[u8])
    ensures
        final(buf)@ == old(buf)@ + bytes@,
{
    let mut i: usize = 0;
    while i < bytes.len()
        invariant
            i <= bytes@.len(),
            buf@ == old(buf)@ + bytes@.subrange(0, i as int),
        decreases bytes@.len() - i,
    {
        buf.push(bytes[i]);
        i = i + 1;
        assert(buf@ =~= old(buf)@ + bytes@.subrange(0, i as int));
    }
    assert(bytes@.subrange(0, i as int) =~= bytes@);
}

/// Appends the variable-length encoding of the low 32 bits of `value`.
pub fn write_varint(buf: &mut Vec<u8>, value: usize)
    ensures
        final(buf)@ == old(buf)@ + wire_varint(value as nat),
{
    let mut v: u64 = (value as u64) & 0xFFFF_FFFF;
    proof {
        lemma_low_bits_u64(value as u64);
    }
    loop
        invariant
            buf@ + varint_bytes(v as nat) == old(buf)@ + wire_varint(value as nat),
        decreases v,
    {
        proof {
            lemma_low_bits_u64(v);
        }
        let low = (v & 0x7f) as u8;
        let high = v >> 7;
        if high != 0 {
            proof {
                lemma_set_top_bit(low);
            }
            buf.push(low | 0x80);
            assert(varint_bytes(v as nat) == seq![(low + 128) as u8] + varint_bytes(high as nat));
            assert(buf@ + varint_bytes(high as nat) =~= old(buf)@ + wire_varint(value as nat));
            v = high;
        } else {
            buf.push(low);
            assert(buf@ =~= old(buf)@ + wire_varint(value as nat));
            return;
        }
    }
}

/// Reads a variable-length integer from `data` at `pos`: its value and size.
pub fn read_varint(data: &[u8], pos: usize) -> (r: Result<(u64, usize), ProtocolError>)
    requires
        pos <= data@.len(),
    ensures
        r == varint_read(rest(data@, pos as int)),
{
    let ghost s = rest(data@, pos as int);
    let dlen = data.len();
    let avail = dlen - pos;
    let mut i: usize = 0;
    let mut acc: u64 = 0;
    let mut weight: u64 = 1;
    loop
        invariant
            s == rest(data@, pos as int),
            dlen == data@.len(),
            avail == s.len(),
            avail == dlen - pos,
            pos <= data@.len(),
            i <= 5,
            weight == group_weight(i as nat),
            acc < group_weight(i as nat),
            varint_from(s, i as nat, acc as nat) == varint_read(s),
        decreases 5 - i,
    {
        if i >= avail {
            return Err(ProtocolError::Io);
        }
        if i == MAX_VARINT_BYTES {
            return Err(ProtocolError::InvalidVarInt);
        }
        let b = data[pos + i];
        assert(b == s[i as int]);
        proof {
            lemma_low_bits_u8(b);
            lemma_group_weight_small(i as nat);
            assert((b % 128) * weight <= 127 * 0x1000_0000) by (nonlinear_arith)
                requires
                    weight <= 0x1000_0000,
            ;
            assert(acc + (b % 128) * weight < 128 * weight) by (nonlinear_arith)
                requires
                    acc < weight,
            ;
        }
        acc = acc + ((b & 0x7f) as u64) * weight;
        if b & 0x80 == 0 {
            return Ok((acc, i + 1));
        }
        i = i + 1;
        weight = weight * 128;
    }
}

/// Appends `s` as its UTF-8 length followed by its UTF-8 bytes.
pub fn write_string(buf: &mut Vec<u8>, s: &str)
    ensures
        final(buf)@ == old(buf)@ + string_bytes(s@),
{
    let bytes = s.as_bytes();
    write_varint(buf, bytes.len());
    write_bytes(buf, bytes);
    assert(final(buf)@ =~= old(buf)@ + string_bytes(s@));
}

/// Relies on `String::from_utf8`: it accepts exactly the valid UTF-8 byte
/// sequences, and the string it returns holds the characters they encode.
#[verifier::external_body]
fn string_from_utf8(bytes: Vec<u8>) -> (r: Option<String>)
    ensures
        r.is_some() == valid_utf8(bytes@),
        r matches Some(s) ==> s@ == decode_utf8(bytes@),
{
    String::from_utf8(bytes).ok()
}

/// Copies `len` bytes of `data` from `pos` on.
pub(crate) fn copy_bytes(data: &[u8], pos: usize, len: usize) -> (r: Vec<u8>)
    requires
        pos + len <= data@.len(),
    ensures
        r@ == data@.subrange(pos as int, pos + len),
{
    let dlen = data.len();
    let mut out: Vec<u8> = Vec::new();
    let mut i: usize = 0;
    while i < len
        invariant
            dlen == data@.len(),
            pos + len <= dlen,
            i <= len,
            out@ == data@.subrange(pos as int, pos + i),
        decreases len - i,
    {
        out.push(data[pos + i]);
        i = i + 1;
        assert(out@ =~= data@.subrange(pos as int, pos + i));
    }
    out
}

/// Reads a length-prefixed UTF-8 string from `data` at `pos`: the string and
/// the bytes it took.
pub fn read_string(data: &[u8], pos: usize) -> (r: Result<(String, usize), ProtocolError>)
    requires
        pos <= data@.len(),
    ensures
        match string_read(rest(data@, pos as int)) {
            Ok((chars, n)) => r matches Ok((s, m)) && s@ == chars && m == n,
            Err(e) => r == Err::<(String, usize), ProtocolError>(e),
        },
{
    let ghost s = rest(data@, pos as int);
    let (len, n) = match read_varint(data, pos) {
        Ok(p) => p,
        Err(e) => return Err(e),
    };
    proof {
        lemma_varint_read_bounds(s);
    }
    let avail = data.len() - pos - n;
    if (avail as u64) < len {
        return Err(ProtocolError::Io);
    }
    let len = len as usize;
    let bytes = copy_bytes(data, pos + n, len);
    assert(bytes@ =~= s.subrange(n as int, n + len));
    match string_from_utf8(bytes) {
        Some(text) => Ok((text, n + len)),
        None => Err(ProtocolError::InvalidResponseBody),
    }
}

/// Appends the low `n` bytes of `v`, most significant first.
pub fn write_be(buf: &mut Vec<u8>, v: u64, n: usize)
    ensures
        final(buf)@ == old(buf)@ + be_bytes(v as nat, n as nat),
    decreases n,
{
    if n > 0 {
        write_be(buf, v / 256, n - 1);
        buf.push((v % 256) as u8);
        assert(final(buf)@ =~= old(buf)@ + be_bytes(v as nat, n as nat));
    } else {
        assert(final(buf)@ =~= old(buf)@ + be_bytes(v as nat, n as nat));
    }
}

/// Reads an `n`-byte big-endian integer from `data` at `pos`.
pub fn read_be(data: &[u8], pos: usize, n: usize) -> (r: Result<(u64, usize), ProtocolError>)
    requires
        pos <= data@.len(),
        n <= 8,
    ensures
        r == be_read(rest(data@, pos as int), n as nat),
{
    let ghost s = rest(data@, pos as int);
    let dlen = data.len();
    if dlen - pos < n {
        return Err(ProtocolError::Io);
    }
    let mut acc: u64 = 0;
    let mut i: usize = 0;
    while i < n
        invariant
            s == rest(data@, pos as int),
            dlen == data@.len(),
            pos + n <= dlen,
            n <= s.len(),
            n <= 8,
            i <= n,
            acc == be_value(s.subrange(0, i as int)),
            acc < byte_weight(i as nat),
        decreases n - i,
    {
        let b = data[pos + i];
        proof {
            lemma_byte_weight_small(i as nat);
            assert(acc * 256 + b < 256 * byte_weight(i as nat)) by (nonlinear_arith)
                requires
                    acc < byte_weight(i as nat),
                    b < 256,
            ;
            assert(s.subrange(0, i + 1).drop_last() =~= s.subrange(0, i as int));
        }
        acc = acc * 256 + b as u64;
        i = i + 1;
    }
    Ok((acc, n))
}

/// Appends `v` as two big-endian bytes.
pub fn write_u16_be(buf: &mut Vec<u8>, v: u16)
    ensures
        final(buf)@ == old(buf)@ + be_bytes(v as nat, 2),
{
    write_be(buf, v as u64, 2);
}

/// Reads a two-byte big-endian integer from `data` at `pos`.
pub fn read_u16_be(data: &[u8], pos: usize) -> (r: Result<(u16, usize), ProtocolError>)
    requires
        pos <= data@.len(),
    ensures
        match be_read(rest(data@, pos as int), 2) {
            Ok((v, n)) => r == Ok::<(u16, usize), ProtocolError>((v as u16, n)),
            Err(e) => r == Err::<(u16, usize), ProtocolError>(e),
        },
{
    match read_be(data, pos, 2) {
        Ok((v, n)) => {
            proof {
                lemma_byte_weight_small(2);
                reveal_with_fuel(byte_weight, 3);
            }
            Ok((v as u16, n))
        },
        Err(e) => Err(e),
    }
}

/// Appends `v` as eight big-endian bytes.
pub fn write_u64_be(buf: &mut Vec<u8>, v: u64)
    ensures
        final(buf)@ == old(buf)@ + be_bytes(v as nat, 8),
{
    write_be(buf, v, 8);
}

/// Reads an eight-byte big-endian integer from `data` at `pos`.
pub fn read_u64_be(data: &[u8], pos: usize) -> (r: Result<(u64, usize), ProtocolError>)
    requires
        pos <= data@.len(),
    ensures
        r == be_read(rest(data@, pos as int), 8),
{
    read_be(data, pos, 8)
}

} // verus!

//! The primitive encodings of the MQTT 3.1.1 wire format: the variable-length
//! "remaining length", length-prefixed UTF-8 strings and two-byte packet
//! identifiers.

use vstd::prelude::*;
use vstd::utf8::encode_utf8;

verus! {

/// The largest remaining length that MQTT 3.1.1 can express (four bytes).
pub open spec fn max_remaining_length() -> int {
    268435455
}

/// The variable-length encoding of a non-negative number: seven bits per
/// byte, least significant group first, the high bit set on every byte but
/// the last.
pub open spec fn remaining_length_digits(n: nat) -> Seq<u8>
    decreases n,
{
    if n < 128 {
        seq![n as u8]
    } else {
        seq![(n % 128 + 128) as u8] + remaining_length_digits(n / 128)
    }
}

/// The bytes that encode `len` as a remaining length.
pub open spec fn spec_encode_remaining_length(len: nat) -> Seq<u8> {
    remaining_length_digits(len)
}

/// Encodes `input_length` as an MQTT remaining length. Lengths up to
/// 268435455 take at most four bytes; the same algorithm carries on past
/// that, with more bytes, which a decoder does not accept.
pub fn encode_remaining_length(input_length: usize) -> (result: Vec<u8>)
    ensures
        result@ == spec_encode_remaining_length(input_length as nat),
{
    let mut result: Vec<u8> = Vec::new();
    let mut length: usize = input_length;
    while length >= 128
        invariant
            length <= input_length,
            result@ + remaining_length_digits(length as nat) == remaining_length_digits(
                input_length as nat,
            ),
        decreases length,
    {
        let ghost before = result@;
        result.push((length % 128 + 128) as u8);
        assert(before + remaining_length_digits(length as nat) == result@ + remaining_length_digits(
            (length / 128) as nat,
        ));
        length = length / 128;
    }
    result.push(length as u8);
    result
}

/// `128` to the power `j`.
pub open spec fn pow128(j: nat) -> int
    decreases j,
{
    if j == 0 { 1 } else { 128 * pow128((j - 1) as nat) }
}

/// The number encoded by the remaining-length bytes that start at
/// `bytes[start + j]`, the `j`-th byte of the encoding: a byte below 128 ends
/// the number; a continuation past the fourth byte, or past the end of the
/// buffer, leaves no number.
pub open spec fn remaining_length_value(bytes: Seq<u8>, start: int, j: nat) -> Option<int>
    decreases 4 - j,
{
    if j >= 4 || !(0 <= start + j < bytes.len()) {
        None
    } else {
        let b = bytes[start + j];
        if b < 128 {
            Some(b as int)
        } else {
            match remaining_length_value(bytes, start, j + 1) {
                Some(rest) => Some(b - 128 + 128 * rest),
                None => None,
            }
        }
    }
}

/// What decoding a remaining length at `offset` yields: 0 where no byte
/// stands at the offset, since nothing is read there.
pub open spec fn spec_decode_remaining_length(bytes: Seq<u8>, offset: int) -> Option<int> {
    if offset >= bytes.len() {
        Some(0)
    } else {
        remaining_length_value(bytes, offset, 0)
    }
}

/// `acc + m * v` inside an option.
pub open spec fn scaled_add(o: Option<int>, acc: int, m: int) -> Option<int> {
    match o {
        Some(v) => Some(acc + m * v),
        None => None,
    }
}

proof fn lemma_scaled_step(acc: int, m: int, b: int, rest: Option<int>)
    ensures
        scaled_add(
            match rest {
                Some(r) => Some(b - 128 + 128 * r),
                None => None,
            },
            acc,
            m,
        ) == scaled_add(rest, acc + m * (b - 128), m * 128),
{
    if let Some(r) = rest {
        assert(m * (b - 128 + 128 * r) == m * (b - 128) + (m * 128) * r) by (nonlinear_arith);
    }
}

/// Decodes the remaining length that starts at `offset` in
/// `remaining_length`: 0 where no byte stands at the offset; `None` where the
/// encoding runs past the buffer or past four bytes. A negative offset would
/// index before the buffer.
pub fn decode_remaining_length(remaining_length: &Vec<u8>, offset: i8) -> (result: Option<i32>)
    requires
        offset >= 0,
    ensures
        match result {
            Some(v) => spec_decode_remaining_length(remaining_length@, offset as int) == Some(
                v as int,
            ),
            None => spec_decode_remaining_length(remaining_length@, offset as int) is None,
        },
        result matches Some(v) ==> 0 <= v <= max_remaining_length(),
{
    let ghost bytes = remaining_length@;
    let ghost total = spec_decode_remaining_length(bytes, offset as int);
    if offset as usize >= remaining_length.len() {
        // nothing to read
        return Some(0);
    }
    let mut multiplier: i32 = 1;
    let mut value: i32 = 0;
    let mut counter: usize = offset as usize;
    let mut j: usize = 0;
    proof {
        assert(pow128(0) == 1);
    }
    loop
        invariant_except_break
            0 <= j <= 3,
            bytes == remaining_length@,
            0 <= offset < bytes.len(),
            total == spec_decode_remaining_length(bytes, offset as int),
            counter == offset + j,
            multiplier == pow128(j as nat),
            0 <= value < multiplier,
            total == scaled_add(
                remaining_length_value(bytes, offset as int, j as nat),
                value as int,
                multiplier as int,
            ),
        ensures
            total == Some(value as int),
            0 <= value <= max_remaining_length(),
        decreases 3 - j,
    {
        if counter >= remaining_length.len() {
            assert(remaining_length_value(bytes, offset as int, j as nat) is None);
            return None;
        }
        let encoded_byte: u8 = remaining_length[counter];
        proof {
            assert(pow128(j as nat + 1) == 128 * pow128(j as nat));
            assert(multiplier <= 128 * 128 * 128) by {
                reveal_with_fuel(pow128, 4);
            }
            assert((encoded_byte % 128) as int * multiplier <= 127 * multiplier) by (nonlinear_arith)
                requires encoded_byte % 128 <= 127, multiplier >= 0;
            lemma_scaled_step(
                value as int,
                multiplier as int,
                encoded_byte as int,
                remaining_length_value(bytes, offset as int, j as nat + 1),
            );
        }
        let ghost old_multiplier = multiplier as int;
        value = value + (encoded_byte % 128) as i32 * multiplier;
        proof {
            let low = (encoded_byte % 128) as int;
            assert(low * old_multiplier == old_multiplier * low) by (nonlinear_arith);
            if encoded_byte >= 128 {
                assert(low == encoded_byte - 128);
            } else {
                assert(low == encoded_byte);
            }
            reveal_with_fuel(pow128, 4);
        }
        if encoded_byte < 128 {
            assert(encoded_byte == bytes[offset + j]);
            assert(remaining_length_value(bytes, offset as int, j as nat) == Some(
                encoded_byte as int,
            ));
            break;
        }
        if multiplier == 128 * 128 * 128 {
            // a fifth byte would be needed
            assert(j == 3);
            reveal_with_fuel(remaining_length_value, 2);
            assert(remaining_length_value(bytes, offset as int, j as nat + 1) is None);
            return None;
        }
        multiplier = multiplier * 128;
        counter = counter + 1;
        j = j + 1;
    }
    Some(value)
}

/// How many bytes the remaining length `n` takes on the wire, by ranges of
/// its value; everything outside the three ranges counts as four.
pub open spec fn spec_remaining_length_length(n: int) -> int {
    if 0 <= n <= 127 {
        1
    } else if 128 <= n <= 16383 {
        2
    } else if 16384 <= n <= 2097151 {
        3
    } else {
        4
    }
}

/// The number of bytes that the remaining length `remaining_length` occupies.
pub fn remaining_length_length(remaining_length: i32) -> (result: i8)
    ensures
        result as int == spec_remaining_length_length(remaining_length as int),
{
    if 0 <= remaining_length && remaining_length <= 127 {
        1
    } else if 128 <= remaining_length && remaining_length <= 16383 {
        2
    } else if 16384 <= remaining_length && remaining_length <= 2097151 {
        3
    } else {
        4
    }
}

/// An MQTT string: its UTF-8 length in two bytes, most significant first,
/// then its UTF-8 bytes.
pub open spec fn spec_encode_string(s: Seq<char>) -> Seq<u8> {
    let bytes = encode_utf8(s);
    seq![(bytes.len() / 256) as u8, (bytes.len() % 256) as u8] + bytes
}

/// Whether `s` fits in an MQTT string: at most 65535 bytes of UTF-8.
pub open spec fn fits_string(s: Seq<char>) -> bool {
    encode_utf8(s).len() <= 65535
}

/// Encodes `string_to_encode` as a length-prefixed MQTT string.
pub fn encode_string(string_to_encode: &str) -> (result: Vec<u8>)
    requires
        fits_string(string_to_encode@),
    ensures
        result@ == spec_encode_string(string_to_encode@),
{
    let string_as_bytes: &[u8] = string_to_encode.as_bytes();
    let string_length: usize = string_as_bytes.len();
    let mut result: Vec<u8> = Vec::new();
    // the length in two bytes, most significant first
    result.push((string_length / 256) as u8);
    result.push((string_length % 256) as u8);
    let ghost prefix = result@;
    let mut i: usize = 0;
    while i < string_length
        invariant
            string_length == string_as_bytes@.len(),
            string_as_bytes@ == encode_utf8(string_to_encode@),
            i <= string_length,
            result@ == prefix + string_as_bytes@.take(i as int),
        decreases string_length - i,
    {
        result.push(string_as_bytes[i]);
        assert(string_as_bytes@.take(i + 1) == string_as_bytes@.take(i as int).push(
            string_as_bytes@[i as int],
        ));
        i = i + 1;
    }
    assert(string_as_bytes@.take(string_length as int) == string_as_bytes@);
    result
}

/// Reads the two-byte length that starts an MQTT string.
pub fn decode_string_length(bytes: &Vec<u8>) -> (result: usize)
    requires
        bytes@.len() >= 2,
    ensures
        result == bytes@[0] * 256 + bytes@[1],
{
    let mut decoded_string_length: usize = bytes[0] as usize * 256;
    decoded_string_length = decoded_string_length + bytes[1] as usize;
    decoded_string_length
}

/// The identifier whose 16 bits, read without sign, are `v`: packet
/// identifiers run from 0 to 65535 on the wire and are kept as `i16`.
pub open spec fn id_from_u16(v: int) -> i16 {
    (if v < 32768 { v } else { v - 65536 }) as i16
}

/// Reads a two-byte packet identifier, most significant byte first.
pub fn parse_packet_id(packet_id_as_bytes: &Vec<u8>) -> (result: i16)
    requires
        packet_id_as_bytes@.len() >= 2,
    ensures
        result == id_from_u16(packet_id_as_bytes@[0] * 256 + packet_id_as_bytes@[1]),
{
    let v: i32 = packet_id_as_bytes[0] as i32 * 256 + packet_id_as_bytes[1] as i32;
    if v < 32768 {
        v as i16
    } else {
        (v - 65536) as i16
    }
}

/// The 16 bits of a value kept as `i16` (a packet identifier, a keep-alive),
/// read without sign.
pub open spec fn to_u16(value: i16) -> int {
    (value as int) % 65536
}

/// The first byte written for a 16-bit value: its high eight bits.
pub open spec fn high_byte(value: i16) -> u8 {
    (to_u16(value) / 256) as u8
}

/// The second byte written for a 16-bit value: its low eight bits.
pub open spec fn low_byte(value: i16) -> u8 {
    (to_u16(value) % 256) as u8
}

/// Appends the two bytes of the 16-bit `value` to `result`, most significant
/// first.
pub fn push_16_bits(result: &mut Vec<u8>, value: i16)
    ensures
        final(result)@ == old(result)@.push(high_byte(value)).push(low_byte(value)),
{
    let v: u16 = if value >= 0 { value as u16 } else { (value as i32 + 65536) as u16 };
    result.push((v / 256) as u8);
    result.push((v % 256) as u8);
}

/// `target` with `source` spliced in at `index`.
pub open spec fn spec_insert_all(source: Seq<u8>, target: Seq<u8>, index: int) -> Seq<u8> {
    target.take(index) + source + target.skip(index)
}

/// Inserts all of `source`, in order, into `target` at position `index`.
pub fn insert_all(source: Vec<u8>, target: &mut Vec<u8>, index: usize)
    requires
        source@.len() == 0 || index <= old(target)@.len(),
    ensures
        source@.len() == 0 ==> final(target)@ == old(target)@,
        source@.len() > 0 ==> final(target)@ == spec_insert_all(source@, old(target)@, index as int),
{
    let ghost original = target@;
    let mut i: usize = source.len();
    while i > 0
        invariant
            i <= source@.len(),
            source@.len() > 0 ==> index <= original.len(),
            i == source@.len() ==> target@ == original,
            i < source@.len() ==> target@ == spec_insert_all(source@.skip(i as int), original, index as int),
        decreases i,
    {
        i = i - 1;
        target.insert(index, source[i]);
        proof {
            let tail = source@.skip(i as int);
            assert(tail == seq![source@[i as int]] + source@.skip(i + 1));
            if i + 1 == source@.len() {
                assert(source@.skip(i + 1).len() == 0);
            }
            assert(target@ == spec_insert_all(tail, original, index as int));
        }
    }
    assert(source@.skip(0) == source@);
}


/// The `j`-th and later bytes of a remaining length decode to `n`, wherever
/// the bytes of `n`'s encoding stand in the buffer.
proof fn lemma_digits_decode(bytes: Seq<u8>, start: int, j: nat, n: nat)
    requires
        0 <= start,
        n < pow128((4 - j) as nat),
        j < 4,
        start + j + remaining_length_digits(n).len() <= bytes.len(),
        bytes.subrange(start + j, start + j + remaining_length_digits(n).len())
            == remaining_length_digits(n),
    ensures
        remaining_length_value(bytes, start, j) == Some(n as int),
    decreases n,
{
    let d = remaining_length_digits(n);
    reveal_with_fuel(pow128, 5);
    assert(bytes[start + j] == bytes.subrange(start + j, start + j + d.len())[0]);
    if n >= 128 {
        let rest = remaining_length_digits(n / 128);
        assert(d == seq![(n % 128 + 128) as u8] + rest);
        assert(j < 3);
        assert(n / 128 < pow128((4 - (j + 1)) as nat));
        assert(bytes.subrange(start + j + 1, start + j + 1 + rest.len()) =~= d.subrange(
            1,
            d.len() as int,
        ));
        assert(d.subrange(1, d.len() as int) =~= rest);
        lemma_digits_decode(bytes, start, j + 1, n / 128);
        assert(bytes[start + j] == (n % 128 + 128) as u8);
        assert(bytes[start + j] - 128 + 128 * (n / 128) == n);
    } else {
        assert(d == seq![n as u8]);
        assert(bytes[start + j] == n);
    }
}

/// The encoding of a remaining length up to 268435455 has as many bytes as
/// `remaining_length_length` counts.
pub proof fn lemma_remaining_length_size(n: nat)
    requires
        n <= max_remaining_length(),
    ensures
        spec_encode_remaining_length(n).len() == spec_remaining_length_length(n as int),
{
    reveal_with_fuel(remaining_length_digits, 5);
    if n >= 128 {
        assert(n / 128 / 128 == n / 16384);
        assert(n / 16384 / 128 == n / 2097152);
    }
}

/// Decoding the remaining length encoded for `n`, found at `offset` in any
/// buffer, gives back `n`, for every length MQTT 3.1.1 can express.
pub proof fn lemma_remaining_length_decodes(bytes: Seq<u8>, offset: int, n: nat)
    requires
        n <= max_remaining_length(),
        0 <= offset,
        offset + spec_encode_remaining_length(n).len() <= bytes.len(),
        bytes.subrange(offset, offset + spec_encode_remaining_length(n).len())
            == spec_encode_remaining_length(n),
    ensures
        spec_decode_remaining_length(bytes, offset) == Some(n as int),
{
    reveal_with_fuel(pow128, 5);
    lemma_encoded_remaining_length_nonempty(n);
    lemma_digits_decode(bytes, offset, 0, n);
}

/// Decoding the remaining length that was encoded for `n` gives back `n`,
/// for every length up to 268435455.
pub proof fn lemma_remaining_length_roundtrip(n: nat)
    requires
        n <= max_remaining_length(),
    ensures
        spec_decode_remaining_length(spec_encode_remaining_length(n), 0) == Some(n as int),
{
    let e = spec_encode_remaining_length(n);
    assert(e.subrange(0, e.len() as int) =~= e);
    lemma_remaining_length_decodes(e, 0, n);
}

/// The two-byte prefix of an encoded string reads back, through
/// `decode_string_length`'s formula, as the string's UTF-8 length.
pub proof fn lemma_string_length_roundtrip(s: Seq<char>)
    requires
        fits_string(s),
    ensures
        spec_encode_string(s)[0] * 256 + spec_encode_string(s)[1] == encode_utf8(s).len(),
        spec_encode_string(s).skip(2) == encode_utf8(s),
{
    let e = spec_encode_string(s);
    assert(e.skip(2) =~= encode_utf8(s));
}

/// An encoded remaining length is never empty.
pub proof fn lemma_encoded_remaining_length_nonempty(n: nat)
    ensures
        spec_encode_remaining_length(n).len() >= 1,
{
    reveal_with_fuel(remaining_length_digits, 1);
}

/// A packet identifier written as two bytes reads back as itself.
pub proof fn lemma_packet_id_roundtrip(packet_id: i16)
    ensures
        id_from_u16(high_byte(packet_id) * 256 + low_byte(packet_id)) == packet_id,
{
}


/// The identifier read from two bytes is written back as those two bytes.
pub proof fn lemma_u16_bytes(high: u8, low: u8)
    ensures
        high_byte(id_from_u16(high * 256 + low)) == high,
        low_byte(id_from_u16(high * 256 + low)) == low,
{
}

} // verus!

//! The base64 coding in which template files are embedded.
//!
//! Encoding follows the standard alphabet with `=` padding. Decoding is
//! lenient: every byte outside the alphabet (padding included) is skipped,
//! and the 6-bit values of the others are packed into bytes, most
//! significant bits first, with leftover bits dropped.

use vstd::prelude::*;

verus! {

// ── Specifications ─────────────────────────────────────────────────────

/// The 6-bit value of a byte of the base64 alphabet, `None` for any other byte.
pub open spec fn b64_value(c: u8) -> Option<u8> {
    if 65 <= c <= 90 {
        Some((c - 65) as u8)
    } else if 97 <= c <= 122 {
        Some((c - 97 + 26) as u8)
    } else if 48 <= c <= 57 {
        Some((c - 48 + 52) as u8)
    } else if c == 43 {
        Some(62u8)
    } else if c == 47 {
        Some(63u8)
    } else {
        None
    }
}

/// The 6-bit values of the alphabet bytes of `bytes`, in order.
pub open spec fn b64_values(bytes: Seq<u8>) -> Seq<u8> {
    bytes.filter_map(|c: u8| b64_value(c))
}

/// First byte of a group, from its first two 6-bit values.
pub open spec fn byte0(a: u8, b: u8) -> u8 {
    (a * 4 + b / 16) as u8
}

/// Second byte of a group, from its second and third 6-bit values.
pub open spec fn byte1(b: u8, c: u8) -> u8 {
    ((b % 16) * 16 + c / 4) as u8
}

/// Third byte of a group, from its third and fourth 6-bit values.
pub open spec fn byte2(c: u8, d: u8) -> u8 {
    ((c % 4) * 64 + d) as u8
}

/// The bytes packed from 6-bit values: each group of four values gives
/// three bytes, a final group of three gives two, of two gives one, of one none.
pub open spec fn decode_values(v: Seq<u8>) -> Seq<u8>
    decreases v.len(),
{
    if v.len() < 2 {
        seq![]
    } else if v.len() == 2 {
        seq![byte0(v[0], v[1])]
    } else if v.len() == 3 {
        seq![byte0(v[0], v[1]), byte1(v[1], v[2])]
    } else {
        seq![byte0(v[0], v[1]), byte1(v[1], v[2]), byte2(v[2], v[3])] + decode_values(v.skip(4))
    }
}

/// What `base64_decode` makes of the UTF-8 bytes of its input.
pub open spec fn b64_decoded(bytes: Seq<u8>) -> Seq<u8> {
    decode_values(b64_values(bytes))
}

/// The alphabet character for a 6-bit value.
pub open spec fn b64_digit(v: u8) -> char {
    (if v < 26 {
        65 + v
    } else if v < 52 {
        71 + v
    } else if v < 62 {
        v - 4
    } else if v == 62 {
        43
    } else {
        47
    }) as char
}

/// The four 6-bit values of a group of three bytes.
pub open spec fn sextet0(b0: u8) -> u8 {
    (b0 / 4) as u8
}

pub open spec fn sextet1(b0: u8, b1: u8) -> u8 {
    ((b0 % 4) * 16 + b1 / 16) as u8
}

pub open spec fn sextet2(b1: u8, b2: u8) -> u8 {
    ((b1 % 16) * 4 + b2 / 64) as u8
}

pub open spec fn sextet3(b2: u8) -> u8 {
    (b2 % 64) as u8
}

/// Standard base64 with `=` padding: three bytes become four characters,
/// a final one or two bytes are padded as if followed by zero bytes.
pub open spec fn b64_encoded(data: Seq<u8>) -> Seq<char>
    decreases data.len(),
{
    if data.len() == 0 {
        seq![]
    } else if data.len() == 1 {
        seq![b64_digit(sextet0(data[0])), b64_digit(sextet1(data[0], 0)), '=', '=']
    } else if data.len() == 2 {
        seq![
            b64_digit(sextet0(data[0])),
            b64_digit(sextet1(data[0], data[1])),
            b64_digit(sextet2(data[1], 0)),
            '=',
        ]
    } else {
        seq![
            b64_digit(sextet0(data[0])),
            b64_digit(sextet1(data[0], data[1])),
            b64_digit(sextet2(data[1], data[2])),
            b64_digit(sextet3(data[2])),
        ] + b64_encoded(data.skip(3))
    }
}

// ── Decoding ───────────────────────────────────────────────────────────

/// All values are 6-bit values.
pub open spec fn all_sextets(v: Seq<u8>) -> bool {
    forall|k: int| 0 <= k < v.len() ==> v[k] < 64
}

/// What one more 6-bit value adds to the decoded bytes.
pub open spec fn decode_step(v: Seq<u8>, x: u8) -> Seq<u8> {
    if v.len() % 4 == 0 {
        seq![]
    } else if v.len() % 4 == 1 {
        seq![byte0(v.last(), x)]
    } else if v.len() % 4 == 2 {
        seq![byte1(v.last(), x)]
    } else {
        seq![byte2(v.last(), x)]
    }
}

pub proof fn lemma_decode_push(v: Seq<u8>, x: u8)
    ensures
        decode_values(v.push(x)) == decode_values(v) + decode_step(v, x),
    decreases v.len(),
{
    if v.len() >= 4 {
        assert(v.push(x).skip(4) == v.skip(4).push(x));
        lemma_decode_push(v.skip(4), x);
        if v.len() > 4 {
            assert(v.skip(4).last() == v.last());
        }
        assert(decode_step(v.skip(4), x) == decode_step(v, x));
        assert(decode_values(v.push(x)) == seq![byte0(v[0], v[1]), byte1(v[1], v[2]), byte2(v[2], v[3])]
            + decode_values(v.skip(4).push(x)));
    } else if v.len() == 3 {
        assert(v.push(x).skip(4).len() == 0);
        assert(decode_values(v.push(x).skip(4)) == Seq::<u8>::empty());
    }
}

/// The exec counterpart of `b64_value`.
fn char_value(c: u8) -> (r: Option<u8>)
    ensures
        r == b64_value(c),
{
    if 65 <= c && c <= 90 {
        Some(c - 65)
    } else if 97 <= c && c <= 122 {
        Some(c - 97 + 26)
    } else if 48 <= c && c <= 57 {
        Some(c - 48 + 52)
    } else if c == 43 {
        Some(62)
    } else if c == 47 {
        Some(63)
    } else {
        None
    }
}

/// Bits still pending between 6-bit values, as the decoder keeps them.
pub open spec fn pending_ok(bits: u32, bit_count: u32, v: Seq<u8>) -> bool {
    ||| v.len() % 4 == 0 && bit_count == 0
    ||| v.len() % 4 == 1 && bit_count == 6 && bits & 0x3f == v.last() as u32
    ||| v.len() % 4 == 2 && bit_count == 4 && bits & 0xf == (v.last() % 16) as u32
    ||| v.len() % 4 == 3 && bit_count == 2 && bits & 0x3 == (v.last() % 4) as u32
}

proof fn lemma_bits_phase0(bits: u32, x: u8)
    requires
        x < 64,
    ensures
        ((bits << 6u32) | (x as u32)) & 0x3f == x as u32,
{
    assert(((bits << 6u32) | (x as u32)) & 0x3f == x as u32) by (bit_vector)
        requires
            x < 64,
    ;
}

proof fn lemma_bits_phase1(bits: u32, a: u8, x: u8)
    requires
        x < 64,
        a < 64,
        bits & 0x3f == a as u32,
    ensures
        ((((bits << 6u32) | (x as u32)) >> 4u32) as u8) == byte0(a, x),
        ((bits << 6u32) | (x as u32)) & 0xf == (x % 16) as u32,
{
    assert(((((bits << 6u32) | (x as u32)) >> 4u32) as u8) == ((a * 4 + x / 16) as u8)) by (bit_vector)
        requires
            x < 64,
            a < 64,
            bits & 0x3f == a as u32,
    ;
    assert(((bits << 6u32) | (x as u32)) & 0xf == (x % 16) as u32) by (bit_vector)
        requires
            x < 64,
    ;
}

proof fn lemma_bits_phase2(bits: u32, b: u8, x: u8)
    requires
        x < 64,
        b < 64,
        bits & 0xf == (b % 16) as u32,
    ensures
        ((((bits << 6u32) | (x as u32)) >> 2u32) as u8) == byte1(b, x),
        ((bits << 6u32) | (x as u32)) & 0x3 == (x % 4) as u32,
{
    assert(((((bits << 6u32) | (x as u32)) >> 2u32) as u8) == (((b % 16) * 16 + x / 4) as u8)) by (bit_vector)
        requires
            x < 64,
            b < 64,
            bits & 0xf == (b % 16) as u32,
    ;
    assert(((bits << 6u32) | (x as u32)) & 0x3 == (x % 4) as u32) by (bit_vector)
        requires
            x < 64,
    ;
}

proof fn lemma_bits_phase3(bits: u32, c: u8, x: u8)
    requires
        x < 64,
        c < 64,
        bits & 0x3 == (c % 4) as u32,
    ensures
        ((((bits << 6u32) | (x as u32)) >> 0u32) as u8) == byte2(c, x),
{
    assert(((((bits << 6u32) | (x as u32)) >> 0u32) as u8) == (((c % 4) * 64 + x) as u8)) by (bit_vector)
        requires
            x < 64,
            c < 64,
            bits & 0x3 == (c % 4) as u32,
    ;
}

/// Minimal base64 decoder (avoids external dependency).
pub fn base64_decode(input: &str) -> (output: Vec<u8>)
    ensures
        output@ == b64_decoded(vstd::utf8::encode_utf8(input@)),
{
    let bytes = input.as_bytes();
    let mut bits: u32 = 0;
    let mut bit_count: u32 = 0;
    let mut output: Vec<u8> = Vec::new();
    let ghost mut vals: Seq<u8> = seq![];
    for i in 0..bytes.len()
        invariant
            vals == b64_values(bytes@.take(i as int)),
            all_sextets(vals),
            output@ == decode_values(vals),
            pending_ok(bits, bit_count, vals),
    {
        let c = bytes[i];
        let ghost prefix = bytes@.take(i as int);
        assert(bytes@.take(i + 1).drop_last() == prefix);
        assert(bytes@.take(i + 1).last() == c);
        if let Some(val) = char_value(c) {
            proof {
                lemma_decode_push(vals, val);
            }
            let ghost prev = vals;
            let ghost old_bits = bits;
            let ghost old_count = bit_count;
            bits = (bits << 6) | (val as u32);
            bit_count = bit_count + 6;
            if bit_count >= 8 {
                bit_count = bit_count - 8;
                proof {
                    if prev.len() % 4 == 1 {
                        lemma_bits_phase1(old_bits, prev.last(), val);
                    } else if prev.len() % 4 == 2 {
                        lemma_bits_phase2(old_bits, prev.last(), val);
                    } else {
                        lemma_bits_phase3(old_bits, prev.last(), val);
                    }
                }
                output.push((bits >> bit_count) as u8);
            }
            proof {
                vals = prev.push(val);
                if prev.len() % 4 == 0 {
                    lemma_bits_phase0(old_bits, val);
                } else if prev.len() % 4 == 1 {
                    lemma_bits_phase1(old_bits, prev.last(), val);
                } else if prev.len() % 4 == 2 {
                    lemma_bits_phase2(old_bits, prev.last(), val);
                }
                assert(vals.last() == val);
            }
        }
    }
    assert(bytes@.take(bytes.len() as int) == bytes@);
    output
}

// ── Encoding ───────────────────────────────────────────────────────────

/// The exec counterpart of `b64_digit`.
fn b64_digit_exec(v: u8) -> (c: char)
    requires
        v < 64,
    ensures
        c == b64_digit(v),
{
    let code: u8 = if v < 26 {
        65 + v
    } else if v < 52 {
        71 + v
    } else if v < 62 {
        v - 4
    } else if v == 62 {
        43
    } else {
        47
    };
    code as char
}

proof fn lemma_triple_sextets(b0: u8, b1: u8, b2: u8)
    ensures
        ((((b0 as u32) << 16u32) | ((b1 as u32) << 8u32) | (b2 as u32)) >> 18u32) & 0x3f == sextet0(b0) as u32,
        ((((b0 as u32) << 16u32) | ((b1 as u32) << 8u32) | (b2 as u32)) >> 12u32) & 0x3f == sextet1(b0, b1) as u32,
        ((((b0 as u32) << 16u32) | ((b1 as u32) << 8u32) | (b2 as u32)) >> 6u32) & 0x3f == sextet2(b1, b2) as u32,
        (((b0 as u32) << 16u32) | ((b1 as u32) << 8u32) | (b2 as u32)) & 0x3f == sextet3(b2) as u32,
{
    assert(((((b0 as u32) << 16u32) | ((b1 as u32) << 8u32) | (b2 as u32)) >> 18u32) & 0x3f == ((b0 / 4) as u8) as u32) by (bit_vector);
    assert(((((b0 as u32) << 16u32) | ((b1 as u32) << 8u32) | (b2 as u32)) >> 12u32) & 0x3f == (((b0 % 4) * 16 + b1 / 16) as u8) as u32) by (bit_vector);
    assert(((((b0 as u32) << 16u32) | ((b1 as u32) << 8u32) | (b2 as u32)) >> 6u32) & 0x3f == (((b1 % 16) * 4 + b2 / 64) as u8) as u32) by (bit_vector);
    assert((((b0 as u32) << 16u32) | ((b1 as u32) << 8u32) | (b2 as u32)) & 0x3f == ((b2 % 64) as u8) as u32) by (bit_vector);
}

/// Minimal base64 encoder (avoids external dependency).
pub fn base64_encode(data: &[u8]) -> (r: String)
    ensures
        r@ == b64_encoded(data@),
{
    let mut out: Vec<char> = Vec::new();
    let len = data.len();
    let mut i: usize = 0;
    assert(data@.skip(0) == data@);
    while i < len
        invariant
            len == data@.len(),
            i <= len,
            out@ + b64_encoded(data@.skip(i as int)) == b64_encoded(data@),
        decreases len - i,
    {
        let ghost rest = data@.skip(i as int);
        let ghost before = out@;
        let b0 = data[i];
        let b1: u8 = if len - i > 1 { data[i + 1] } else { 0 };
        let b2: u8 = if len - i > 2 { data[i + 2] } else { 0 };
        let triple: u32 = ((b0 as u32) << 16) | ((b1 as u32) << 8) | (b2 as u32);
        proof {
            lemma_triple_sextets(b0, b1, b2);
        }
        out.push(b64_digit_exec(((triple >> 18) & 0x3f) as u8));
        out.push(b64_digit_exec(((triple >> 12) & 0x3f) as u8));
        if len - i > 1 {
            out.push(b64_digit_exec(((triple >> 6) & 0x3f) as u8));
        } else {
            out.push('=');
        }
        if len - i > 2 {
            out.push(b64_digit_exec((triple & 0x3f) as u8));
        } else {
            out.push('=');
        }
        if len - i >= 3 {
            assert(rest.skip(3) == data@.skip(i + 3));
            assert(out@ == before + seq![
                b64_digit(sextet0(rest[0])),
                b64_digit(sextet1(rest[0], rest[1])),
                b64_digit(sextet2(rest[1], rest[2])),
                b64_digit(sextet3(rest[2])),
            ]);
            i = i + 3;
        } else {
            assert(data@.skip(len as int).len() == 0);
            if i + 1 == len {
                assert(out@ == before + seq![b64_digit(sextet0(rest[0])), b64_digit(sextet1(rest[0], 0)), '=', '=']);
            } else {
                assert(out@ == before + seq![
                    b64_digit(sextet0(rest[0])),
                    b64_digit(sextet1(rest[0], rest[1])),
                    b64_digit(sextet2(rest[1], 0)),
                    '=',
                ]);
            }
            i = len;
        }
    }
    assert(data@.skip(len as int).len() == 0);
    assert(out@ == b64_encoded(data@));
    crate::text::chars_to_string(&out)
}

// ── Round trip ─────────────────────────────────────────────────────────

/// The 6-bit values that `b64_encoded` writes, padding left out.
pub open spec fn sextets(d: Seq<u8>) -> Seq<u8>
    decreases d.len(),
{
    if d.len() == 0 {
        seq![]
    } else if d.len() == 1 {
        seq![sextet0(d[0]), sextet1(d[0], 0)]
    } else if d.len() == 2 {
        seq![sextet0(d[0]), sextet1(d[0], d[1]), sextet2(d[1], 0)]
    } else {
        seq![sextet0(d[0]), sextet1(d[0], d[1]), sextet2(d[1], d[2]), sextet3(d[2])] + sextets(
            d.skip(3),
        )
    }
}

proof fn lemma_sextet_bytes(b0: u8, b1: u8, b2: u8)
    ensures
        byte0(sextet0(b0), sextet1(b0, b1)) == b0,
        byte1(sextet1(b0, b1), sextet2(b1, b2)) == b1,
        byte2(sextet2(b1, b2), sextet3(b2)) == b2,
        sextet0(b0) < 64,
        sextet1(b0, b1) < 64,
        sextet2(b1, b2) < 64,
        sextet3(b2) < 64,
{
    assert((((b0 / 4) as u8) * 4 + (((b0 % 4) * 16 + b1 / 16) as u8) / 16) as u8 == b0) by (bit_vector);
    assert((((((b0 % 4) * 16 + b1 / 16) as u8) % 16) * 16 + (((b1 % 16) * 4 + b2 / 64) as u8) / 4) as u8 == b1) by (bit_vector);
    assert((((((b1 % 16) * 4 + b2 / 64) as u8) % 4) * 64 + ((b2 % 64) as u8)) as u8 == b2) by (bit_vector);
    assert(((b0 / 4) as u8) < 64) by (bit_vector);
    assert((((b0 % 4) * 16 + b1 / 16) as u8) < 64) by (bit_vector);
    assert((((b1 % 16) * 4 + b2 / 64) as u8) < 64) by (bit_vector);
    assert(((b2 % 64) as u8) < 64) by (bit_vector);
}

/// Packing the values that encoding writes gives back the data.
proof fn lemma_decode_sextets(d: Seq<u8>)
    ensures
        decode_values(sextets(d)) == d,
    decreases d.len(),
{
    if d.len() == 0 {
    } else if d.len() == 1 {
        lemma_sextet_bytes(d[0], 0, 0);
        assert(seq![d[0]] == d);
    } else if d.len() == 2 {
        lemma_sextet_bytes(d[0], d[1], 0);
        assert(seq![d[0], d[1]] == d);
    } else {
        lemma_sextet_bytes(d[0], d[1], d[2]);
        let head = seq![sextet0(d[0]), sextet1(d[0], d[1]), sextet2(d[1], d[2]), sextet3(d[2])];
        let v = head + sextets(d.skip(3));
        assert(v.skip(4) == sextets(d.skip(3)));
        lemma_decode_sextets(d.skip(3));
        assert(seq![d[0], d[1], d[2]] + d.skip(3) == d);
    }
}

proof fn lemma_b64_values_add(a: Seq<u8>, b: Seq<u8>)
    ensures
        b64_values(a + b) == b64_values(a) + b64_values(b),
    decreases b.len(),
{
    if b.len() == 0 {
        assert(a + b == a);
    } else {
        lemma_b64_values_add(a, b.drop_last());
        assert((a + b).drop_last() == a + b.drop_last());
        assert((a + b).last() == b.last());
    }
}

proof fn lemma_b64_values_one(x: u8)
    ensures
        b64_values(seq![x]) == (match b64_value(x) {
            Some(v) => seq![v],
            None => Seq::<u8>::empty(),
        }),
{
    reveal_with_fuel(Seq::filter_map, 2);
    assert(seq![x].drop_last() == Seq::<u8>::empty());
    assert(seq![x].last() == x);
}

proof fn lemma_digit_value(v: u8)
    requires
        v < 64,
    ensures
        (b64_digit(v) as u8) < 128,
        b64_value(b64_digit(v) as u8) == Some(v),
{
}

/// The bytes of the encoded characters.
spec fn encoded_bytes(d: Seq<u8>) -> Seq<u8> {
    b64_encoded(d).map_values(|c: char| c as u8)
}

proof fn lemma_values_of_group(a: u8, b: u8, c: u8, e: u8)
    requires
        a < 64,
        b < 64,
        c < 64,
        e < 64,
    ensures
        b64_values(seq![b64_digit(a) as u8, b64_digit(b) as u8, b64_digit(c) as u8, b64_digit(e) as u8])
            == seq![a, b, c, e],
        b64_values(seq![b64_digit(a) as u8, b64_digit(b) as u8, b64_digit(c) as u8, '=' as u8])
            == seq![a, b, c],
        b64_values(seq![b64_digit(a) as u8, b64_digit(b) as u8, '=' as u8, '=' as u8]) == seq![a, b],
{
    lemma_digit_value(a);
    lemma_digit_value(b);
    lemma_digit_value(c);
    lemma_digit_value(e);
    let da = b64_digit(a) as u8;
    let db = b64_digit(b) as u8;
    let dc = b64_digit(c) as u8;
    let de = b64_digit(e) as u8;
    let pad = '=' as u8;
    lemma_b64_values_one(da);
    lemma_b64_values_one(db);
    lemma_b64_values_one(dc);
    lemma_b64_values_one(de);
    lemma_b64_values_one(pad);
    lemma_b64_values_add(seq![da], seq![db]);
    assert(seq![da] + seq![db] == seq![da, db]);
    lemma_b64_values_add(seq![da, db], seq![dc]);
    assert(seq![da, db] + seq![dc] == seq![da, db, dc]);
    lemma_b64_values_add(seq![da, db, dc], seq![de]);
    assert(seq![da, db, dc] + seq![de] == seq![da, db, dc, de]);
    lemma_b64_values_add(seq![da, db, dc], seq![pad]);
    assert(seq![da, db, dc] + seq![pad] == seq![da, db, dc, pad]);
    lemma_b64_values_add(seq![da, db], seq![pad]);
    assert(seq![da, db] + seq![pad] == seq![da, db, pad]);
    lemma_b64_values_add(seq![da, db, pad], seq![pad]);
    assert(seq![da, db, pad] + seq![pad] == seq![da, db, pad, pad]);
}

/// The encoded text is ASCII, and its alphabet bytes carry the encoded values.
proof fn lemma_values_of_encoding(d: Seq<u8>)
    ensures
        vstd::utf8::is_ascii_chars(b64_encoded(d)),
        b64_values(encoded_bytes(d)) == sextets(d),
    decreases d.len(),
{
    if d.len() == 0 {
        assert(encoded_bytes(d) == Seq::<u8>::empty());
    } else if d.len() == 1 {
        lemma_sextet_bytes(d[0], 0, 0);
        lemma_values_of_group(sextet0(d[0]), sextet1(d[0], 0), 0, 0);
        lemma_digit_value(sextet0(d[0]));
        lemma_digit_value(sextet1(d[0], 0));
        assert(encoded_bytes(d) == seq![
            b64_digit(sextet0(d[0])) as u8,
            b64_digit(sextet1(d[0], 0)) as u8,
            '=' as u8,
            '=' as u8,
        ]);
    } else if d.len() == 2 {
        lemma_sextet_bytes(d[0], d[1], 0);
        lemma_values_of_group(sextet0(d[0]), sextet1(d[0], d[1]), sextet2(d[1], 0), 0);
        lemma_digit_value(sextet0(d[0]));
        lemma_digit_value(sextet1(d[0], d[1]));
        lemma_digit_value(sextet2(d[1], 0));
        assert(encoded_bytes(d) == seq![
            b64_digit(sextet0(d[0])) as u8,
            b64_digit(sextet1(d[0], d[1])) as u8,
            b64_digit(sextet2(d[1], 0)) as u8,
            '=' as u8,
        ]);
    } else {
        let s0 = sextet0(d[0]);
        let s1 = sextet1(d[0], d[1]);
        let s2 = sextet2(d[1], d[2]);
        let s3 = sextet3(d[2]);
        lemma_sextet_bytes(d[0], d[1], d[2]);
        lemma_values_of_group(s0, s1, s2, s3);
        lemma_digit_value(s0);
        lemma_digit_value(s1);
        lemma_digit_value(s2);
        lemma_digit_value(s3);
        lemma_values_of_encoding(d.skip(3));
        let group = seq![
            b64_digit(s0) as u8,
            b64_digit(s1) as u8,
            b64_digit(s2) as u8,
            b64_digit(s3) as u8,
        ];
        assert(encoded_bytes(d) == group + encoded_bytes(d.skip(3)));
        lemma_b64_values_add(group, encoded_bytes(d.skip(3)));
    }
}

/// Round trip: decoding the UTF-8 bytes of the base64 text of `data`
/// gives back `data`, for every byte sequence.
pub proof fn lemma_base64_roundtrip(data: Seq<u8>)
    ensures
        b64_decoded(vstd::utf8::encode_utf8(b64_encoded(data))) == data,
{
    lemma_values_of_encoding(data);
    vstd::utf8::is_ascii_chars_encode_utf8(b64_encoded(data));
    assert(vstd::utf8::encode_utf8(b64_encoded(data)) == encoded_bytes(data));
    lemma_decode_sextets(data);
}

} // verus!

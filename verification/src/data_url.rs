//! `data:` URLs: percent-decoding and base64 bodies
//! (<https://fetch.spec.whatwg.org/#data-url-processor>).

use vstd::prelude::*;
use vstd::utf8::*;

use crate::text::{find_char, first_index_of, string_from_utf8_lossy, utf8_lossy};

verus! {

/// The value of an ASCII hex digit.
pub open spec fn hex_value(byte: u8) -> Option<u8> {
    if 0x30u8 <= byte <= 0x39u8 {
        Some((byte - 0x30u8) as u8)
    } else if 0x61u8 <= byte <= 0x66u8 {
        Some((byte - 0x61u8 + 10) as u8)
    } else if 0x41u8 <= byte <= 0x46u8 {
        Some((byte - 0x41u8 + 10) as u8)
    } else {
        None
    }
}

/// The value of an ASCII hex digit, or `None` for any other byte.
pub fn hex_digit(byte: u8) -> (value: Option<u8>)
    ensures
        value == hex_value(byte),
{
    if byte >= 0x30u8 && byte <= 0x39u8 {
        Some(byte - 0x30u8)
    } else if byte >= 0x61u8 && byte <= 0x66u8 {
        Some(byte - 0x61u8 + 10)
    } else if byte >= 0x41u8 && byte <= 0x46u8 {
        Some(byte - 0x41u8 + 10)
    } else {
        None
    }
}

/// Percent-decoding of a byte string: each `%XX` with two hex digits becomes
/// the byte `XX`; every other byte, a lone `%` included, is kept.
pub open spec fn percent_decode_spec(b: Seq<u8>) -> Seq<u8>
    decreases b.len(),
{
    if b.len() == 0 {
        Seq::empty()
    } else if b[0] == 0x25u8 && b.len() > 2 && hex_value(b[1]) is Some && hex_value(b[2]) is Some {
        seq![(hex_value(b[1])->0 * 16 + hex_value(b[2])->0) as u8] + percent_decode_spec(
            b.skip(3),
        )
    } else {
        seq![b[0]] + percent_decode_spec(b.skip(1))
    }
}

/// Percent-decodes an ASCII URL component; bytes outside `%XX` are kept.
pub fn percent_decode_bytes(source: &str) -> (output: Vec<u8>)
    ensures
        output@ == percent_decode_spec(encode_utf8(source@)),
{
    let bytes = source.as_bytes();
    let mut output: Vec<u8> = Vec::with_capacity(bytes.len());
    let mut index: usize = 0;
    assert(bytes@.skip(0) =~= bytes@);
    while index < bytes.len()
        invariant
            index <= bytes@.len(),
            bytes@ == encode_utf8(source@),
            percent_decode_spec(bytes@) == output@ + percent_decode_spec(bytes@.skip(index as int)),
        decreases bytes@.len() - index,
    {
        let ghost rest = bytes@.skip(index as int);
        if bytes[index] == 0x25u8 && bytes.len() - index > 2 {
            let high = hex_digit(bytes[index + 1]);
            let low = hex_digit(bytes[index + 2]);
            if let (Some(high), Some(low)) = (high, low) {
                assert(high < 16 && low < 16);
                assert((high << 4u8) | low == high * 16 + low) by (bit_vector)
                    requires
                        high < 16,
                        low < 16,
                ;
                output.push((high << 4u8) | low);
                assert(rest.skip(3) =~= bytes@.skip(index + 3));
                assert(rest[1] == bytes@[index + 1] && rest[2] == bytes@[index + 2]);
                index = index + 3;
                continue;
            }
        }
        output.push(bytes[index]);
        assert(rest.skip(1) =~= bytes@.skip(index + 1));
        index = index + 1;
    }
    assert(bytes@.skip(index as int) =~= Seq::<u8>::empty());
    assert(output@ + Seq::<u8>::empty() =~= output@);
    output
}

/// Decodes a URL into its UTF-8 text, percent-escapes included.
pub fn percent_decode(source: &str) -> (text: String)
    ensures
        text@ == utf8_lossy(percent_decode_spec(encode_utf8(source@))),
        valid_utf8(percent_decode_spec(encode_utf8(source@))) ==> text@ == decode_utf8(
            percent_decode_spec(encode_utf8(source@)),
        ),
{
    let bytes = percent_decode_bytes(source);
    string_from_utf8_lossy(bytes.as_slice())
}

/// The base64 alphabet value of a byte, or `0xff` when it is not in the
/// alphabet.
pub open spec fn base64_value(byte: u8) -> u8 {
    if 0x41u8 <= byte <= 0x5au8 {
        (byte - 0x41u8) as u8
    } else if 0x61u8 <= byte <= 0x7au8 {
        (byte - 0x61u8 + 26) as u8
    } else if 0x30u8 <= byte <= 0x39u8 {
        (byte - 0x30u8 + 52) as u8
    } else if byte == 0x2bu8 {
        62u8
    } else if byte == 0x2fu8 {
        63u8
    } else {
        0xffu8
    }
}

/// The base64 digits of `b`, in order: bytes outside the alphabet are
/// skipped, and the first `=` ends the digits.
pub open spec fn base64_digits(b: Seq<u8>) -> Seq<u8>
    decreases b.len(),
{
    if b.len() == 0 {
        Seq::empty()
    } else if base64_value(b[0]) < 64 {
        seq![base64_value(b[0])] + base64_digits(b.skip(1))
    } else if b[0] == 0x3du8 {
        Seq::empty()
    } else {
        base64_digits(b.skip(1))
    }
}

/// First byte of a group: six bits of `x`, two of `y`.
pub open spec fn base64_first(x: u8, y: u8) -> u8 {
    (x << 2u8) | (y >> 4u8)
}

/// Second byte of a group: four bits of `x`, four of `y`.
pub open spec fn base64_second(x: u8, y: u8) -> u8 {
    ((x & 15u8) << 4u8) | (y >> 2u8)
}

/// Third byte of a group: two bits of `x`, six of `y`.
pub open spec fn base64_third(x: u8, y: u8) -> u8 {
    ((x & 3u8) << 6u8) | y
}

/// The bytes that base64 digits spell: every four digits make three bytes, a
/// trailing group of two or three digits makes one or two, and a single
/// trailing digit makes none.
pub open spec fn base64_bytes(d: Seq<u8>) -> Seq<u8>
    decreases d.len(),
{
    if d.len() >= 4 {
        seq![base64_first(d[0], d[1]), base64_second(d[1], d[2]), base64_third(d[2], d[3])]
            + base64_bytes(d.skip(4))
    } else if d.len() == 3 {
        seq![base64_first(d[0], d[1]), base64_second(d[1], d[2])]
    } else if d.len() == 2 {
        seq![base64_first(d[0], d[1])]
    } else {
        Seq::empty()
    }
}

/// What one more digit adds to the decoded bytes.
pub open spec fn base64_step(d: Seq<u8>, x: u8) -> Seq<u8> {
    if d.len() % 4 == 1 {
        seq![base64_first(d.last(), x)]
    } else if d.len() % 4 == 2 {
        seq![base64_second(d.last(), x)]
    } else if d.len() % 4 == 3 {
        seq![base64_third(d.last(), x)]
    } else {
        Seq::empty()
    }
}

proof fn lemma_base64_push(d: Seq<u8>, x: u8)
    ensures
        base64_bytes(d.push(x)) == base64_bytes(d) + base64_step(d, x),
    decreases d.len(),
{
    if d.len() >= 4 {
        lemma_base64_push(d.skip(4), x);
        assert(d.push(x).skip(4) =~= d.skip(4).push(x));
        if d.len() > 4 {
            assert(d.skip(4).last() == d.last());
        }
        assert(d.skip(4).len() % 4 == d.len() % 4);
        assert(base64_bytes(d.push(x)) =~= base64_bytes(d) + base64_step(d, x));
    } else {
        let e = d.push(x);
        if e.len() == 4 {
            assert(e.skip(4) =~= Seq::<u8>::empty());
        }
        assert(base64_bytes(Seq::<u8>::empty()) == Seq::<u8>::empty());
        if d.len() > 0 {
            assert(e[0] == d[0]);
        }
        if d.len() > 1 {
            assert(e[1] == d[1]);
        }
        if d.len() > 2 {
            assert(e[2] == d[2]);
        }
        assert(e[d.len() as int] == x);
        assert(base64_bytes(e) =~= base64_bytes(d) + base64_step(d, x));
    }
}

/// The base64 digit of a byte, or `0xff` for a byte outside the alphabet.
fn base64_digit(byte: u8) -> (digit: u8)
    ensures
        digit == base64_value(byte),
{
    if byte >= 0x41u8 && byte <= 0x5au8 {
        byte - 0x41u8
    } else if byte >= 0x61u8 && byte <= 0x7au8 {
        byte - 0x61u8 + 26
    } else if byte >= 0x30u8 && byte <= 0x39u8 {
        byte - 0x30u8 + 52
    } else if byte == 0x2bu8 {
        62
    } else if byte == 0x2fu8 {
        63
    } else {
        0xff
    }
}

/// The alphabet byte of a base64 digit below 64.
pub open spec fn base64_char(v: u8) -> u8 {
    if v < 26 {
        (0x41u8 + v) as u8
    } else if v < 52 {
        (0x61u8 + v - 26) as u8
    } else if v < 62 {
        (0x30u8 + v - 52) as u8
    } else if v == 62 {
        0x2bu8
    } else {
        0x2fu8
    }
}

/// The six-bit groups of `b`: every three bytes make four, and a trailing one
/// or two bytes make two or three, the last padded with zero bits.
pub open spec fn sextets(b: Seq<u8>) -> Seq<u8>
    decreases b.len(),
{
    if b.len() >= 3 {
        seq![
            b[0] >> 2u8,
            ((b[0] & 3u8) << 4u8) | (b[1] >> 4u8),
            ((b[1] & 15u8) << 2u8) | (b[2] >> 6u8),
            b[2] & 63u8,
        ] + sextets(b.skip(3))
    } else if b.len() == 2 {
        seq![b[0] >> 2u8, ((b[0] & 3u8) << 4u8) | (b[1] >> 4u8), (b[1] & 15u8) << 2u8]
    } else if b.len() == 1 {
        seq![b[0] >> 2u8, (b[0] & 3u8) << 4u8]
    } else {
        Seq::empty()
    }
}

/// The standard padded base64 encoding of `b`.
pub open spec fn base64_encode(b: Seq<u8>) -> Seq<u8> {
    sextets(b).map_values(|v: u8| base64_char(v)) + if b.len() % 3 == 1 {
        seq![0x3du8, 0x3du8]
    } else if b.len() % 3 == 2 {
        seq![0x3du8]
    } else {
        Seq::empty()
    }
}

/// `b` without the bytes that base64 decoding skips: those outside the
/// alphabet other than `=`.
pub open spec fn without_skipped(b: Seq<u8>) -> Seq<u8>
    decreases b.len(),
{
    if b.len() == 0 {
        Seq::empty()
    } else if base64_value(b[0]) < 64 || b[0] == 0x3du8 {
        seq![b[0]] + without_skipped(b.skip(1))
    } else {
        without_skipped(b.skip(1))
    }
}

/// Bytes that base64 decoding skips change nothing: removing them leaves the
/// same digits.
pub proof fn lemma_base64_skipped_change_nothing(b: Seq<u8>)
    ensures
        base64_digits(without_skipped(b)) == base64_digits(b),
    decreases b.len(),
{
    if b.len() > 0 {
        lemma_base64_skipped_change_nothing(b.skip(1));
        let w = without_skipped(b);
        if base64_value(b[0]) < 64 || b[0] == 0x3du8 {
            assert(w[0] == b[0]);
            assert(w.skip(1) =~= without_skipped(b.skip(1)));
        }
    }
}

/// Decoding yields six bits per digit, in whole bytes: `6 * n / 8` bytes for
/// `n` digits.
pub proof fn lemma_base64_length(d: Seq<u8>)
    ensures
        base64_bytes(d).len() == 6 * d.len() / 8,
    decreases d.len(),
{
    if d.len() >= 4 {
        lemma_base64_length(d.skip(4));
    }
}

proof fn lemma_sextets_small(b: Seq<u8>)
    ensures
        forall|k: int| 0 <= k < sextets(b).len() ==> #[trigger] sextets(b)[k] < 64,
    decreases b.len(),
{
    if b.len() >= 3 {
        lemma_sextets_small(b.skip(3));
        let (x, y, z) = (b[0], b[1], b[2]);
        assert(x >> 2u8 < 64 && ((x & 3u8) << 4u8) | (y >> 4u8) < 64 && ((y & 15u8) << 2u8) | (z
            >> 6u8) < 64 && z & 63u8 < 64) by (bit_vector);
        let g = sextets(b);
        assert forall|k: int| 0 <= k < g.len() implies #[trigger] g[k] < 64 by {
            if k >= 4 {
                assert(g[k] == sextets(b.skip(3))[k - 4]);
            }
        }
    } else if b.len() == 2 {
        let (x, y) = (b[0], b[1]);
        assert(x >> 2u8 < 64 && ((x & 3u8) << 4u8) | (y >> 4u8) < 64 && (y & 15u8) << 2u8 < 64)
            by (bit_vector);
    } else if b.len() == 1 {
        let x = b[0];
        assert(x >> 2u8 < 64 && (x & 3u8) << 4u8 < 64) by (bit_vector);
    }
}

proof fn lemma_digits_of_chars(d: Seq<u8>, pad: Seq<u8>)
    requires
        forall|k: int| 0 <= k < d.len() ==> #[trigger] d[k] < 64,
        pad.len() == 0 || pad[0] == 0x3du8,
    ensures
        base64_digits(d.map_values(|v: u8| base64_char(v)) + pad) == d,
    decreases d.len(),
{
    let e = d.map_values(|v: u8| base64_char(v)) + pad;
    if d.len() == 0 {
        assert(e =~= pad);
    } else {
        let rest = d.skip(1);
        assert forall|k: int| 0 <= k < rest.len() implies #[trigger] rest[k] < 64 by {
            assert(rest[k] == d[k + 1]);
        }
        lemma_digits_of_chars(rest, pad);
        assert(e.skip(1) =~= rest.map_values(|v: u8| base64_char(v)) + pad);
        assert(e[0] == base64_char(d[0]));
        assert(d[0] < 64);
        assert(base64_value(base64_char(d[0])) == d[0]);
        assert(d =~= seq![d[0]] + rest);
    }
}

proof fn lemma_bytes_of_sextets(b: Seq<u8>)
    ensures
        base64_bytes(sextets(b)) == b,
    decreases b.len(),
{
    let g = sextets(b);
    if b.len() >= 3 {
        lemma_bytes_of_sextets(b.skip(3));
        let (x, y, z) = (b[0], b[1], b[2]);
        assert(base64_first(x >> 2u8, ((x & 3u8) << 4u8) | (y >> 4u8)) == x) by (bit_vector);
        assert(base64_second(((x & 3u8) << 4u8) | (y >> 4u8), ((y & 15u8) << 2u8) | (z >> 6u8))
            == y) by (bit_vector);
        assert(base64_third(((y & 15u8) << 2u8) | (z >> 6u8), z & 63u8) == z) by (bit_vector);
        assert(g.skip(4) =~= sextets(b.skip(3)));
        assert(b =~= seq![x, y, z] + b.skip(3));
    } else if b.len() == 2 {
        let (x, y) = (b[0], b[1]);
        assert(base64_first(x >> 2u8, ((x & 3u8) << 4u8) | (y >> 4u8)) == x) by (bit_vector);
        assert(base64_second(((x & 3u8) << 4u8) | (y >> 4u8), (y & 15u8) << 2u8) == y) by (bit_vector);
        assert(b =~= seq![x, y]);
    } else if b.len() == 1 {
        let x = b[0];
        assert(base64_first(x >> 2u8, (x & 3u8) << 4u8) == x) by (bit_vector);
        assert(b =~= seq![x]);
    } else {
        assert(b =~= Seq::<u8>::empty());
    }
}

/// Base64 decoding undoes the standard padded encoding, whatever skipped
/// bytes (such as ASCII whitespace) stand among its characters: when `t`
/// without its skipped bytes is the encoding of `b`, its digits spell `b`.
pub proof fn lemma_base64_round_trip(b: Seq<u8>, t: Seq<u8>)
    requires
        without_skipped(t) == base64_encode(b),
    ensures
        base64_bytes(base64_digits(t)) == b,
{
    lemma_base64_skipped_change_nothing(t);
    lemma_sextets_small(b);
    let pad = if b.len() % 3 == 1 {
        seq![0x3du8, 0x3du8]
    } else if b.len() % 3 == 2 {
        seq![0x3du8]
    } else {
        Seq::<u8>::empty()
    };
    lemma_digits_of_chars(sextets(b), pad);
    lemma_bytes_of_sextets(b);
}

/// Decodes standard base64, skipping bytes outside the alphabet and stopping
/// at the first `=`; a dangling partial byte is dropped.
pub fn decode_base64(source: &str) -> (output: Vec<u8>)
    ensures
        output@ == base64_bytes(base64_digits(encode_utf8(source@))),
{
    let bytes = source.as_bytes();
    let mut output: Vec<u8> = Vec::with_capacity(bytes.len() / 4 * 3);
    let mut buffer: u32 = 0;
    let mut bits: u32 = 0;
    let ghost mut seen: Seq<u8> = Seq::empty();
    let mut index: usize = 0;
    let mut ended = false;
    assert(bytes@.skip(0) =~= bytes@);
    while index < bytes.len() && !ended
        invariant
            index <= bytes@.len(),
            bytes@ == encode_utf8(source@),
            ended ==> index < bytes@.len() && bytes@[index as int] == 0x3du8,
            base64_digits(bytes@) == seen + base64_digits(bytes@.skip(index as int)),
            output@ == base64_bytes(seen),
            forall|i: int| 0 <= i < seen.len() ==> seen[i] < 64,
            seen.len() % 4 == 0 ==> bits == 0,
            seen.len() % 4 == 1 ==> bits == 6 && buffer & 63u32 == seen.last() as u32,
            seen.len() % 4 == 2 ==> bits == 4 && buffer & 15u32 == (seen.last() & 15u8) as u32,
            seen.len() % 4 == 3 ==> bits == 2 && buffer & 3u32 == (seen.last() & 3u8) as u32,
        decreases bytes@.len() - index + (if ended { 0int } else { 1int }),
    {
        let byte = bytes[index];
        let ghost rest = bytes@.skip(index as int);
        assert(rest[0] == byte);
        assert(rest.skip(1) =~= bytes@.skip(index + 1));
        let digit = base64_digit(byte);
        if digit == 0xff {
            if byte == 0x3du8 {
                ended = true;
                continue;
            }
            index = index + 1;
            continue;
        }
        proof {
            lemma_base64_push(seen, digit);
        }
        let ghost phase = seen.len() % 4;
        let ghost last: u8 = if seen.len() > 0 { seen.last() } else { 0u8 };
        let old_buffer = buffer;
        buffer = (buffer << 6u32) | (digit as u32);
        bits = bits + 6;
        if bits >= 8 {
            bits = bits - 8;
            let byte_out = ((buffer >> bits) & 0xffu32) as u8;
            proof {
                if phase == 1 {
                    assert(byte_out == base64_first(last, digit)) by (bit_vector)
                        requires
                            old_buffer & 63u32 == last as u32,
                            digit < 64,
                            buffer == (old_buffer << 6u32) | (digit as u32),
                            bits == 4,
                            byte_out == ((buffer >> bits) & 0xffu32) as u8,
                    ;
                    assert(buffer & 15u32 == (digit & 15u8) as u32) by (bit_vector)
                        requires
                            buffer == (old_buffer << 6u32) | (digit as u32),
                    ;
                } else if phase == 2 {
                    assert(byte_out == base64_second(last, digit)) by (bit_vector)
                        requires
                            old_buffer & 15u32 == (last & 15u8) as u32,
                            digit < 64,
                            buffer == (old_buffer << 6u32) | (digit as u32),
                            bits == 2,
                            byte_out == ((buffer >> bits) & 0xffu32) as u8,
                    ;
                    assert(buffer & 3u32 == (digit & 3u8) as u32) by (bit_vector)
                        requires
                            buffer == (old_buffer << 6u32) | (digit as u32),
                    ;
                } else {
                    assert(phase == 3);
                    assert(byte_out == base64_third(last, digit)) by (bit_vector)
                        requires
                            old_buffer & 3u32 == (last & 3u8) as u32,
                            digit < 64,
                            buffer == (old_buffer << 6u32) | (digit as u32),
                            bits == 0,
                            byte_out == ((buffer >> bits) & 0xffu32) as u8,
                    ;
                }
            }
            output.push(byte_out);
        } else {
            proof {
                assert(phase == 0);
                assert(buffer & 63u32 == digit as u32) by (bit_vector)
                    requires
                        buffer == (old_buffer << 6u32) | (digit as u32),
                        digit < 64,
                ;
            }
        }
        proof {
            seen = seen.push(digit);
        }
        index = index + 1;
    }
    assert(base64_digits(bytes@) == seen) by {
        if ended {
            assert(bytes@.skip(index as int)[0] == 0x3du8);
        } else {
            assert(bytes@.skip(index as int) =~= Seq::<u8>::empty());
        }
        assert(seen + Seq::<u8>::empty() =~= seen);
    }
    output
}

/// The scheme prefix of a `data:` URL.
pub open spec fn data_scheme() -> Seq<char> {
    seq!['d', 'a', 't', 'a', ':']
}

/// The metadata suffix that marks a base64 body.
pub open spec fn base64_marker() -> Seq<char> {
    seq![';', 'b', 'a', 's', 'e', '6', '4']
}

/// Whether `s` begins with `prefix`.
pub open spec fn starts_with(s: Seq<char>, prefix: Seq<char>) -> bool {
    prefix.len() <= s.len() && s.take(prefix.len() as int) == prefix
}

/// Whether `s` ends with `suffix`.
pub open spec fn ends_with(s: Seq<char>, suffix: Seq<char>) -> bool {
    suffix.len() <= s.len() && s.skip(s.len() - suffix.len()) == suffix
}

/// A `data:` URL's content type (absent when empty) and body bytes: the
/// metadata runs from the scheme to the first comma, a `;base64` suffix on it
/// selects base64 for the body, otherwise the body is percent-decoded. A URL
/// without the scheme or without a comma gives no type and no bytes.
pub open spec fn data_url_spec(raw: Seq<char>) -> (Option<Seq<char>>, Seq<u8>) {
    if !starts_with(raw, data_scheme()) {
        (None, Seq::empty())
    } else {
        let rest = raw.skip(5);
        match first_index_of(rest, ',') {
            None => (None, Seq::empty()),
            Some(k) => {
                let metadata = rest.take(k);
                let body = encode_utf8(rest.skip(k + 1));
                let is_base64 = ends_with(metadata, base64_marker());
                let content_type = if is_base64 {
                    metadata.take(metadata.len() - 7)
                } else {
                    metadata
                };
                let decoded = if is_base64 {
                    base64_bytes(base64_digits(body))
                } else {
                    percent_decode_spec(body)
                };
                (if content_type.len() == 0 {
                    None
                } else {
                    Some(content_type)
                }, decoded)
            },
        }
    }
}

/// The view of an optional string.
pub open spec fn opt_string_view(s: Option<String>) -> Option<Seq<char>> {
    match s {
        Some(s) => Some(s@),
        None => None,
    }
}

/// Whether the characters of `s` at `at..at + expected.len()` are `expected`.
pub fn chars_match_at(s: &str, at: usize, expected: &str) -> (r: bool)
    requires
        at + expected@.len() <= s@.len(),
    ensures
        r == (s@.subrange(at as int, at + expected@.len()) == expected@),
{
    let n = expected.unicode_len();
    let total = s.unicode_len();
    let mut i: usize = 0;
    while i < n
        invariant
            n == expected@.len(),
            total == s@.len(),
            at + n <= s@.len(),
            i <= n,
            forall|j: int| 0 <= j < i ==> s@[at + j] == expected@[j],
        decreases n - i,
    {
        if s.get_char(at + i) != expected.get_char(i) {
            assert(s@.subrange(at as int, at + n)[i as int] != expected@[i as int]);
            return false;
        }
        i = i + 1;
    }
    assert(s@.subrange(at as int, at + n) =~= expected@);
    true
}

/// Decodes a `data:` URL into its content type and body bytes
/// (<https://fetch.spec.whatwg.org/#data-url-processor>).
pub fn decode_data_url(raw: &str) -> (decoded: (Option<String>, Vec<u8>))
    ensures
        (opt_string_view(decoded.0), decoded.1@) == data_url_spec(raw@),
{
    let n = raw.unicode_len();
    let scheme = "data:";
    let marker = ";base64";
    proof {
        reveal_strlit("data:");
        reveal_strlit(";base64");
    }
    assert(scheme@ == data_scheme());
    assert(marker@ == base64_marker());
    if n < 5 || !chars_match_at(raw, 0, scheme) {
        assert(!starts_with(raw@, data_scheme())) by {
            if n >= 5 {
                assert(raw@.take(5) =~= raw@.subrange(0, 5));
            }
        }
        return (None, Vec::new());
    }
    assert(raw@.take(5) =~= raw@.subrange(0, 5));
    let rest = raw.substring_char(5, n);
    assert(rest@ =~= raw@.skip(5));
    let m = rest.unicode_len();
    let comma = find_char(rest, ',');
    let k = match comma {
        None => {
            assert(first_index_of(rest@, ',') is None);
            return (None, Vec::new());
        },
        Some(k) => k,
    };
    let metadata = rest.substring_char(0, k);
    let body = rest.substring_char(k + 1, m);
    assert(metadata@ =~= rest@.take(k as int));
    assert(body@ =~= rest@.skip(k + 1));
    let is_base64 = k >= 7 && chars_match_at(metadata, k - 7, marker);
    assert(is_base64 == ends_with(metadata@, base64_marker())) by {
        if k >= 7 {
            assert(metadata@.skip(k - 7) =~= metadata@.subrange(k - 7, k as int));
        }
    }
    let content_type = if is_base64 {
        metadata.substring_char(0, k - 7)
    } else {
        metadata
    };
    assert(is_base64 ==> content_type@ =~= metadata@.take(metadata@.len() - 7));
    let bytes = if is_base64 {
        decode_base64(body)
    } else {
        percent_decode_bytes(body)
    };
    let content_type = if content_type.unicode_len() == 0 {
        None
    } else {
        Some(content_type.to_owned())
    };
    (content_type, bytes)
}

} // verus!

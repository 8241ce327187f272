//! The `CharacterData` operations
//! (<https://dom.spec.whatwg.org/#interface-characterdata>). Offsets and
//! counts are in UTF-16 code units; the data is rebuilt from the edited
//! units, an unpaired surrogate becoming U+FFFD.

use vstd::prelude::*;

use crate::exceptions::DomExceptionKind;
use crate::text::{concat, push_char};

verus! {

/// The UTF-16 code units of one character.
pub open spec fn char_units(c: char) -> Seq<u16> {
    let v = c as u32;
    if v < 0x10000 {
        seq![v as u16]
    } else {
        let w = (v - 0x10000) as u32;
        seq![(0xD800 + w / 0x400) as u16, (0xDC00 + w % 0x400) as u16]
    }
}

/// The UTF-16 encoding of a string.
pub open spec fn utf16_encode(s: Seq<char>) -> Seq<u16>
    decreases s.len(),
{
    if s.len() == 0 {
        Seq::empty()
    } else {
        utf16_encode(s.drop_last()) + char_units(s.last())
    }
}

/// Whether a code unit is a leading (high) surrogate.
pub open spec fn is_high_surrogate(u: u16) -> bool {
    0xD800 <= u < 0xDC00
}

/// Whether a code unit is a trailing (low) surrogate.
pub open spec fn is_low_surrogate(u: u16) -> bool {
    0xDC00 <= u < 0xE000
}

/// The character a surrogate pair encodes.
pub open spec fn pair_char(high: u16, low: u16) -> char {
    (0x10000 + (high - 0xD800) * 0x400 + (low - 0xDC00)) as char
}

/// U+FFFD REPLACEMENT CHARACTER.
pub open spec fn replacement() -> char {
    0xFFFDu32 as char
}

/// The lossy UTF-16 decoding of code units: surrogate pairs become their
/// character, an unpaired surrogate U+FFFD, any other unit its character.
pub open spec fn utf16_decode(u: Seq<u16>) -> Seq<char>
    decreases u.len(),
{
    if u.len() == 0 {
        Seq::empty()
    } else if u.len() >= 2 && is_high_surrogate(u[0]) && is_low_surrogate(u[1]) {
        seq![pair_char(u[0], u[1])] + utf16_decode(u.skip(2))
    } else if is_high_surrogate(u[0]) || is_low_surrogate(u[0]) {
        seq![replacement()] + utf16_decode(u.skip(1))
    } else {
        seq![u[0] as char] + utf16_decode(u.skip(1))
    }
}

/// Calls `char::from_u32`, which gives the character with that scalar value,
/// or `None` for a surrogate or a value above U+10FFFF.
#[verifier::external_body]
fn char_from_u32(v: u32) -> (c: Option<char>)
    ensures
        c matches Some(ch) ==> ch as u32 == v,
        (v < 0xD800 || (0xE000 <= v <= 0x10FFFF)) ==> c is Some,
{
    char::from_u32(v)
}

/// The character with scalar value `v`, which is one.
fn scalar(v: u32) -> (c: char)
    requires
        v < 0xD800 || (0xE000 <= v <= 0x10FFFF),
    ensures
        c as u32 == v,
{
    match char_from_u32(v) {
        Some(c) => c,
        None => {
            assert(false);
            ' '
        },
    }
}

/// The UTF-16 code units of `s`.
pub fn encode_utf16(s: &str) -> (units: Vec<u16>)
    ensures
        units@ == utf16_encode(s@),
{
    let mut units: Vec<u16> = Vec::new();
    for c in it: s.chars()
        invariant
            it.seq() == s@,
            units@ == utf16_encode(s@.take(it.index() as int)),
    {
        let ghost before = s@.take(it.index() as int);
        let ghost after = s@.take(it.index() + 1);
        assert(after.drop_last() =~= before);
        assert(after.last() == c);
        let v = c as u32;
        if v < 0x10000 {
            units.push(v as u16);
        } else {
            let w = v - 0x10000;
            units.push((0xD800 + w / 0x400) as u16);
            units.push((0xDC00 + w % 0x400) as u16);
        }
        assert(units@ =~= utf16_encode(after));
    }
    assert(s@.take(s@.len() as int) =~= s@);
    units
}

/// Decodes UTF-16 code units, each unpaired surrogate becoming U+FFFD.
pub fn decode_utf16_lossy(units: &[u16]) -> (text: String)
    ensures
        text@ == utf16_decode(units@),
{
    let mut out = String::new();
    let mut i: usize = 0;
    let n = units.len();
    assert(units@.skip(0) =~= units@);
    while i < n
        invariant
            i <= n == units@.len(),
            out@ + utf16_decode(units@.skip(i as int)) == utf16_decode(units@),
        decreases n - i,
    {
        let ghost rest = units@.skip(i as int);
        let u = units[i];
        assert(rest[0] == u);
        if i + 1 < n && 0xD800 <= u && u < 0xDC00 && 0xDC00 <= units[i + 1] && units[i + 1] < 0xE000 {
            let low = units[i + 1];
            assert(rest[1] == low);
            let v: u32 = 0x10000 + (u as u32 - 0xD800) * 0x400 + (low as u32 - 0xDC00);
            let c = scalar(v);
            assert(c == pair_char(u, low));
            assert(rest.skip(2) =~= units@.skip(i + 2));
            push_char(&mut out, c);
            assert(out@ + utf16_decode(units@.skip(i + 2)) =~= utf16_decode(units@));
            i = i + 2;
        } else if 0xD800 <= u && u < 0xE000 {
            let c = scalar(0xFFFD);
            assert(c == replacement());
            assert(rest.skip(1) =~= units@.skip(i + 1));
            push_char(&mut out, c);
            assert(out@ + utf16_decode(units@.skip(i + 1)) =~= utf16_decode(units@));
            i = i + 1;
        } else {
            let c = scalar(u as u32);
            assert(c == u as char);
            assert(rest.skip(1) =~= units@.skip(i + 1));
            push_char(&mut out, c);
            assert(out@ + utf16_decode(units@.skip(i + 1)) =~= utf16_decode(units@));
            i = i + 1;
        }
    }
    assert(units@.skip(n as int) =~= Seq::<u16>::empty());
    assert(out@ + Seq::<char>::empty() =~= out@);
    out
}

/// The `length` of character data: its UTF-16 code units.
pub fn data_length(data: &str) -> (n: usize)
    ensures
        n == utf16_encode(data@).len(),
{
    encode_utf16(data).len()
}

/// Checks a `CharacterData` offset against the data's length in code
/// units: an offset beyond it is an `IndexSizeError`
/// (<https://dom.spec.whatwg.org/#concept-cd-substring>).
pub fn character_data_offset(offset: u32, length: usize) -> (r: Result<usize, DomExceptionKind>)
    ensures
        offset > length ==> r == Err::<usize, DomExceptionKind>(DomExceptionKind::IndexSize),
        offset <= length ==> r == Ok::<usize, DomExceptionKind>(offset as usize),
{
    if offset as u64 > length as u64 {
        return Err(DomExceptionKind::IndexSize);
    }
    Ok(offset as usize)
}

/// The end of the range `count` units long from `offset`, clamped to the
/// data.
pub open spec fn range_end(offset: int, count: int, len: int) -> int {
    if offset + count < len {
        offset + count
    } else {
        len
    }
}

/// The units after replacing `count` units at `offset` with `insert`
/// (<https://dom.spec.whatwg.org/#concept-cd-replace>).
pub open spec fn replace_units(units: Seq<u16>, offset: int, count: int, insert: Seq<u16>) -> Seq<
    u16,
> {
    units.take(offset) + insert + units.skip(range_end(offset, count, units.len() as int))
}

/// The result of an edit at `offset`: `IndexSizeError` when the offset is
/// beyond the data, else the data rebuilt from `edit` of its units.
pub open spec fn edited(data: Seq<char>, offset: u32, result: Seq<u16>) -> Result<
    Seq<char>,
    DomExceptionKind,
> {
    if offset > utf16_encode(data).len() {
        Err(DomExceptionKind::IndexSize)
    } else {
        Ok(utf16_decode(result))
    }
}

/// The view of an edit's result.
pub open spec fn result_view(r: Result<String, DomExceptionKind>) -> Result<
    Seq<char>,
    DomExceptionKind,
> {
    match r {
        Ok(s) => Ok(s@),
        Err(e) => Err(e),
    }
}

/// `count` as a length in units; counts beyond the address space clamp.
fn count_len(count: u32) -> (n: usize)
    ensures
        n == count,
{
    count as usize
}

/// The units from `from` to `to`.
fn units_range(units: &Vec<u16>, from: usize, to: usize) -> (out: Vec<u16>)
    requires
        from <= to <= units@.len(),
    ensures
        out@ == units@.subrange(from as int, to as int),
{
    let mut out: Vec<u16> = Vec::new();
    let mut i = from;
    while i < to
        invariant
            from <= i <= to <= units@.len(),
            out@ == units@.subrange(from as int, i as int),
        decreases to - i,
    {
        out.push(units[i]);
        assert(out@ =~= units@.subrange(from as int, i + 1));
        i = i + 1;
    }
    out
}

/// Appends `more` to `out`.
fn append_units(out: &mut Vec<u16>, more: &Vec<u16>)
    ensures
        final(out)@ == old(out)@ + more@,
{
    let mut i: usize = 0;
    let ghost start = out@;
    while i < more.len()
        invariant
            i <= more@.len(),
            out@ == start + more@.take(i as int),
        decreases more@.len() - i,
    {
        out.push(more[i]);
        assert(out@ =~= start + more@.take(i + 1));
        i = i + 1;
    }
    assert(more@.take(more@.len() as int) =~= more@);
}

/// The clamped end of a range, computed without overflow.
fn clamp_end(offset: usize, count: usize, len: usize) -> (end: usize)
    requires
        offset <= len,
    ensures
        end == range_end(offset as int, count as int, len as int),
{
    if count < len - offset {
        offset + count
    } else {
        len
    }
}

/// `substringData(offset, count)`: the `count` units from `offset`, clamped
/// to the data, as text.
pub fn substring_data(data: &str, offset: u32, count: u32) -> (r: Result<String, DomExceptionKind>)
    ensures
        ({
            let units = utf16_encode(data@);
            result_view(r) == edited(
                data@,
                offset,
                units.subrange(offset as int, range_end(offset as int, count as int, units.len() as int)),
            )
        }),
{
    let units = encode_utf16(data);
    let start = match character_data_offset(offset, units.len()) {
        Ok(s) => s,
        Err(e) => return Err(e),
    };
    let end = clamp_end(start, count_len(count), units.len());
    let part = units_range(&units, start, end);
    Ok(decode_utf16_lossy(part.as_slice()))
}

/// `replaceData(offset, count, text)`: the data with `count` units at
/// `offset` (clamped) replaced by the units of `text`.
pub fn replace_data(data: &str, offset: u32, count: u32, text: &str) -> (r: Result<
    String,
    DomExceptionKind,
>)
    ensures
        result_view(r) == edited(
            data@,
            offset,
            replace_units(utf16_encode(data@), offset as int, count as int, utf16_encode(text@)),
        ),
{
    let units = encode_utf16(data);
    let start = match character_data_offset(offset, units.len()) {
        Ok(s) => s,
        Err(e) => return Err(e),
    };
    let end = clamp_end(start, count_len(count), units.len());
    let mut out = units_range(&units, 0, start);
    let insert = encode_utf16(text);
    append_units(&mut out, &insert);
    let tail = units_range(&units, end, units.len());
    append_units(&mut out, &tail);
    assert(out@ =~= replace_units(units@, offset as int, count as int, insert@));
    Ok(decode_utf16_lossy(out.as_slice()))
}

/// `insertData(offset, text)`: the units of `text` inserted at `offset`.
pub fn insert_data(data: &str, offset: u32, text: &str) -> (r: Result<String, DomExceptionKind>)
    ensures
        result_view(r) == edited(
            data@,
            offset,
            replace_units(utf16_encode(data@), offset as int, 0, utf16_encode(text@)),
        ),
{
    replace_data(data, offset, 0, text)
}

/// `deleteData(offset, count)`: the data without `count` units at `offset`
/// (clamped).
pub fn delete_data(data: &str, offset: u32, count: u32) -> (r: Result<String, DomExceptionKind>)
    ensures
        result_view(r) == edited(
            data@,
            offset,
            replace_units(utf16_encode(data@), offset as int, count as int, Seq::empty()),
        ),
{
    assert(utf16_encode(""@) =~= Seq::<u16>::empty()) by {
        reveal_strlit("");
    }
    replace_data(data, offset, count, "")
}

/// `appendData(text)`: the data followed by `text`.
pub fn append_data(data: &str, text: &str) -> (r: String)
    ensures
        r@ == data@ + text@,
{
    concat(data, text)
}

/// The UTF-16 encoding of a concatenation is the concatenation of the
/// encodings.
pub proof fn lemma_utf16_encode_append(a: Seq<char>, b: Seq<char>)
    ensures
        utf16_encode(a + b) == utf16_encode(a) + utf16_encode(b),
    decreases b.len(),
{
    if b.len() == 0 {
        assert(a + b =~= a);
        assert(utf16_encode(b) =~= Seq::<u16>::empty());
        assert(utf16_encode(a) + utf16_encode(b) =~= utf16_encode(a));
    } else {
        lemma_utf16_encode_append(a, b.drop_last());
        assert((a + b).drop_last() =~= a + b.drop_last());
        assert((a + b).last() == b.last());
        assert(utf16_encode(a) + utf16_encode(b) =~= utf16_encode(a) + utf16_encode(b.drop_last())
            + char_units(b.last()));
    }
}

/// Deleting nothing leaves the units as they were.
pub proof fn lemma_delete_nothing(units: Seq<u16>, offset: int)
    requires
        0 <= offset <= units.len(),
    ensures
        replace_units(units, offset, 0, Seq::empty()) == units,
{
    assert(units.take(offset) + Seq::<u16>::empty() + units.skip(offset) =~= units);
}

/// Inserting `text` at an offset and then deleting as many units at that
/// offset restores the units.
pub proof fn lemma_insert_then_delete(units: Seq<u16>, offset: int, insert: Seq<u16>)
    requires
        0 <= offset <= units.len(),
    ensures
        replace_units(
            replace_units(units, offset, 0, insert),
            offset,
            insert.len() as int,
            Seq::empty(),
        ) == units,
{
    let mid = replace_units(units, offset, 0, insert);
    assert(mid =~= units.take(offset) + insert + units.skip(offset));
    assert(mid.take(offset) =~= units.take(offset));
    assert(mid.skip(offset + insert.len()) =~= units.skip(offset));
    assert(mid.take(offset) + Seq::<u16>::empty() + mid.skip(offset + insert.len()) =~= units);
}

/// Replacing is deleting and then inserting at the same offset.
pub proof fn lemma_replace_is_delete_insert(
    units: Seq<u16>,
    offset: int,
    count: int,
    insert: Seq<u16>,
)
    requires
        0 <= offset <= units.len(),
        0 <= count,
    ensures
        replace_units(units, offset, count, insert) == replace_units(
            replace_units(units, offset, count, Seq::empty()),
            offset,
            0,
            insert,
        ),
{
    let end = range_end(offset, count, units.len() as int);
    let del = replace_units(units, offset, count, Seq::empty());
    assert(del =~= units.take(offset) + units.skip(end));
    assert(del.take(offset) =~= units.take(offset));
    assert(del.skip(offset) =~= units.skip(end));
    assert(replace_units(del, offset, 0, insert) =~= units.take(offset) + insert + units.skip(end));
}


/// Decoding the UTF-16 units of one character and then more units gives the
/// character and then the decoding of the rest.
proof fn lemma_decode_char_units(c: char, rest: Seq<u16>)
    ensures
        utf16_decode(char_units(c) + rest) == seq![c] + utf16_decode(rest),
{
    let v = c as u32;
    let units = char_units(c) + rest;
    if v < 0x10000 {
        assert(v < 0xD800 || v >= 0xE000);
        assert(units[0] == v as u16);
        assert(units.skip(1) =~= rest);
        assert((v as u16) as char == c);
    } else {
        let w = (v - 0x10000) as u32;
        assert(w < 0x100000);
        let hi = (0xD800 + w / 0x400) as u16;
        let lo = (0xDC00 + w % 0x400) as u16;
        assert(w / 0x400 < 0x400) by (nonlinear_arith)
            requires
                w < 0x100000,
        ;
        assert(w % 0x400 < 0x400) by (nonlinear_arith);
        assert(units[0] == hi && units[1] == lo);
        assert(units.len() >= 2);
        assert(units.skip(2) =~= rest);
        assert((w / 0x400) * 0x400 + w % 0x400 == w) by (nonlinear_arith);
        assert(0x10000 + (hi - 0xD800) * 0x400 + (lo - 0xDC00) == v);
        assert(pair_char(hi, lo) == c);
    }
}

/// UTF-16 is lossless: decoding the units of a string gives the string.
pub proof fn lemma_utf16_round_trip(s: Seq<char>)
    ensures
        utf16_decode(utf16_encode(s)) == s,
    decreases s.len(),
{
    if s.len() == 0 {
        assert(utf16_encode(s) =~= Seq::<u16>::empty());
    } else {
        let c = s[0];
        let rest = s.skip(1);
        assert(s =~= seq![c] + rest);
        lemma_utf16_encode_append(seq![c], rest);
        assert(seq![c].drop_last() =~= Seq::<char>::empty());
        assert(seq![c].last() == c);
        assert(utf16_encode(Seq::<char>::empty()) =~= Seq::<u16>::empty());
        assert(utf16_encode(seq![c]) == utf16_encode(seq![c].drop_last()) + char_units(c));
        assert(utf16_encode(seq![c]) =~= char_units(c));
        lemma_decode_char_units(c, utf16_encode(rest));
        lemma_utf16_round_trip(rest);
    }
}


/// `substringData(0, count)` with a count that covers the data gives the
/// data back.
pub proof fn lemma_substring_whole(data: Seq<char>, count: u32)
    requires
        count >= utf16_encode(data).len(),
    ensures
        ({
            let units = utf16_encode(data);
            edited(data, 0, units.subrange(0, range_end(0, count as int, units.len() as int)))
                == Ok::<Seq<char>, DomExceptionKind>(data)
        }),
{
    let units = utf16_encode(data);
    assert(units.subrange(0, units.len() as int) =~= units);
    lemma_utf16_round_trip(data);
}

/// Text inserted at an offset is what `substringData` at that offset, for
/// as many units, reads back.
pub proof fn lemma_insert_then_substring(units: Seq<u16>, offset: int, text: Seq<char>)
    requires
        0 <= offset <= units.len(),
    ensures
        ({
            let inserted = replace_units(units, offset, 0, utf16_encode(text));
            utf16_decode(inserted.subrange(offset, offset + utf16_encode(text).len())) == text
        }),
{
    let t = utf16_encode(text);
    let inserted = replace_units(units, offset, 0, t);
    assert(inserted =~= units.take(offset) + t + units.skip(offset));
    assert(inserted.subrange(offset, offset + t.len()) =~= t);
    lemma_utf16_round_trip(text);
}

} // verus!

//! Character encodings of response bodies and form submissions
//! (<https://html.spec.whatwg.org/multipage/parsing.html#encoding-sniffing-algorithm>,
//! <https://encoding.spec.whatwg.org/#concept-encoding-get>). The encodings
//! themselves come from `encoding_rs`.

use vstd::prelude::*;
use vstd::utf8::*;

use crate::names::opt_view;
use crate::text::{
    chars_of, eq_ignore_ascii_case, field_until, find_char, find_seq, find_seq_from, first_index_of,
    in_class, is_in_class, lemma_field_until_at, lemma_find_seq_from, lemma_trim_start_at, push_char,
    spec_ascii_lowercase, spec_eq_ignore_ascii_case, split_char, split_spec, str_eq,
    string_from_utf8_lossy, strings_view, to_ascii_lowercase, trim, trim_class, trim_class_spec,
    trim_spec, trim_start_class, utf8_lossy, CharClass,
};

verus! {

/// `encoding_rs::Encoding`, held opaquely.
#[verifier::external_type_specification]
#[verifier::external_body]
pub struct ExEncoding(encoding_rs::Encoding);

/// One encoding of the Encoding Standard, seen as its canonical name.
#[derive(Clone, Copy)]
pub struct Charset {
    name: &'static str,
    encoding: &'static encoding_rs::Encoding,
}

impl View for Charset {
    type V = Seq<char>;

    closed spec fn view(&self) -> Seq<char> {
        self.name@
    }
}

impl Charset {
    /// The canonical name, as `document.characterSet` reports it.
    pub fn name(&self) -> (name: &'static str)
        ensures
            name@ == self@,
    {
        self.name
    }

    /// The `encoding_rs` encoding this charset carries, the one its name was
    /// read from.
    pub closed spec fn carried_encoding(&self) -> &'static encoding_rs::Encoding {
        self.encoding
    }

    /// The `encoding_rs` encoding, for a caller that decodes with it.
    pub fn encoding(&self) -> (e: &'static encoding_rs::Encoding)
        ensures
            e == self.carried_encoding(),
    {
        self.encoding
    }
}

/// The canonical name of the encoding a label names, if it names one
/// (`encoding_rs::Encoding::for_label`, then `Encoding::name`).
pub uninterp spec fn encoding_for_label(label: Seq<u8>) -> Option<Seq<char>>;

/// The text `encoding_rs` decodes `bytes` to in the named encoding, without
/// BOM handling (`Encoding::decode_without_bom_handling`).
pub uninterp spec fn decode_without_bom(name: Seq<char>, bytes: Seq<u8>) -> Seq<char>;

/// The bytes `encoding_rs` encodes `text` to for the named encoding
/// (`Encoding::encode`).
pub uninterp spec fn encode_text(name: Seq<char>, text: Seq<char>) -> Seq<u8>;

/// The view of an optional charset.
pub open spec fn opt_charset(c: Option<Charset>) -> Option<Seq<char>> {
    match c {
        Some(c) => Some(c@),
        None => None,
    }
}

/// Calls `encoding_rs::Encoding::for_label` and reads the found encoding's
/// name. The contract names the result: [`encoding_for_label`] of the label
/// bytes; which labels name which encodings is the Encoding Standard's table
/// and is not written out here.
#[verifier::external_body]
fn charset_for_label(label: &[u8]) -> (charset: Option<Charset>)
    ensures
        opt_charset(charset) == encoding_for_label(label@),
{
    encoding_rs::Encoding::for_label(label).map(|encoding| Charset { name: encoding.name(), encoding })
}

/// The encoding a byte-order mark at the start of `bytes` selects, and the
/// BOM's length.
pub open spec fn bom_spec(bytes: Seq<u8>) -> Option<(Seq<char>, nat)> {
    if bytes.len() >= 3 && bytes[0] == 0xEFu8 && bytes[1] == 0xBBu8 && bytes[2] == 0xBFu8 {
        Some(("UTF-8"@, 3))
    } else if bytes.len() >= 2 && bytes[0] == 0xFFu8 && bytes[1] == 0xFEu8 {
        Some(("UTF-16LE"@, 2))
    } else if bytes.len() >= 2 && bytes[0] == 0xFEu8 && bytes[1] == 0xFFu8 {
        Some(("UTF-16BE"@, 2))
    } else {
        None
    }
}

/// Calls `encoding_rs::Encoding::for_bom`: a UTF-8 BOM (EF BB BF) selects
/// UTF-8 with length 3, FF FE UTF-16LE with length 2, FE FF UTF-16BE with
/// length 2, and anything else nothing.
#[verifier::external_body]
fn charset_for_bom(bytes: &[u8]) -> (found: Option<(Charset, usize)>)
    ensures
        match found {
            Some((c, n)) => bom_spec(bytes@) == Some((c@, n as nat)),
            None => bom_spec(bytes@) is None,
        },
{
    encoding_rs::Encoding::for_bom(bytes).map(|(encoding, len)| (Charset { name: encoding.name(), encoding }, len))
}

/// `encoding_rs::WINDOWS_1252`, the fallback encoding.
#[verifier::external_body]
fn windows_1252() -> (charset: Charset)
    ensures
        charset@ == "windows-1252"@,
{
    Charset { name: encoding_rs::WINDOWS_1252.name(), encoding: encoding_rs::WINDOWS_1252 }
}

/// `encoding_rs::UTF_8`.
#[verifier::external_body]
fn utf_8() -> (charset: Charset)
    ensures
        charset@ == "UTF-8"@,
{
    Charset { name: encoding_rs::UTF_8.name(), encoding: encoding_rs::UTF_8 }
}

/// Calls `Encoding::decode_without_bom_handling`. The contract names the
/// text, [`decode_without_bom`] of the encoding and bytes, and states what
/// the source shows for UTF-8: valid input comes back as its decoding.
/// How malformed sequences become U+FFFD is not stated. Inputs so long that
/// the output size computation overflows `usize` are excluded.
#[verifier::external_body]
fn decode_bytes(charset: &Charset, bytes: &[u8]) -> (text: String)
    requires
        bytes@.len() <= usize::MAX / 16,
    ensures
        text@ == decode_without_bom(charset@, bytes@),
        charset@ == "UTF-8"@ && valid_utf8(bytes@) ==> text@ == decode_utf8(bytes@),
{
    charset.encoding.decode_without_bom_handling(bytes).0.into_owned()
}

/// Calls `Encoding::encode`. The contract names the bytes, [`encode_text`]
/// of the encoding and text, and states what the documentation promises for
/// UTF-8: the UTF-8 bytes of the text. Unmappable characters become numeric
/// character references; that mapping is not stated. Texts so long that the
/// output size computation overflows `usize` are excluded.
#[verifier::external_body]
fn encode_str(charset: &Charset, text: &str) -> (bytes: Vec<u8>)
    requires
        text@.len() <= usize::MAX / 16,
    ensures
        bytes@ == encode_text(charset@, text@),
        charset@ == "UTF-8"@ ==> bytes@ == encode_utf8(text@),
{
    charset.encoding.encode(text).0.into_owned()
}

/// Whether `bytes` is a proper prefix of a byte-order mark, so more bytes
/// could still complete one.
pub open spec fn bom_prefix_spec(bytes: Seq<u8>) -> bool {
    let utf8 = seq![0xEFu8, 0xBBu8, 0xBFu8];
    let le = seq![0xFFu8, 0xFEu8];
    let be = seq![0xFEu8, 0xFFu8];
    (bytes.len() < 3 && bytes == utf8.take(bytes.len() as int)) || (bytes.len() < 2 && bytes
        == le.take(bytes.len() as int)) || (bytes.len() < 2 && bytes == be.take(bytes.len() as int))
}

/// Whether `bytes` could still grow into a byte-order mark.
pub fn bom_prefix(bytes: &[u8]) -> (r: bool)
    ensures
        r == bom_prefix_spec(bytes@),
{
    let n = bytes.len();
    let utf8 = n < 3 && (n < 1 || bytes[0] == 0xEF) && (n < 2 || bytes[1] == 0xBB);
    let le = n < 2 && (n < 1 || bytes[0] == 0xFF);
    let be = n < 2 && (n < 1 || bytes[0] == 0xFE);
    proof {
        let u = seq![0xEFu8, 0xBBu8, 0xBFu8];
        let l = seq![0xFFu8, 0xFEu8];
        let b = seq![0xFEu8, 0xFFu8];
        if n < 3 {
            assert(utf8 == (bytes@ == u.take(n as int))) by {
                if utf8 {
                    assert(bytes@ =~= u.take(n as int));
                } else if bytes@ == u.take(n as int) {
                    assert(n >= 1 ==> bytes@[0] == u[0]);
                    assert(n >= 2 ==> bytes@[1] == u[1]);
                }
            }
        }
        if n < 2 {
            assert(le == (bytes@ == l.take(n as int))) by {
                if le {
                    assert(bytes@ =~= l.take(n as int));
                } else if bytes@ == l.take(n as int) {
                    assert(n >= 1 ==> bytes@[0] == l[0]);
                }
            }
            assert(be == (bytes@ == b.take(n as int))) by {
                if be {
                    assert(bytes@ =~= b.take(n as int));
                } else if bytes@ == b.take(n as int) {
                    assert(n >= 1 ==> bytes@[0] == b[0]);
                }
            }
        }
    }
    utf8 || le || be
}

/// The canonical name of the encoding a label names, surrounding whitespace
/// ignored, or `None` (<https://encoding.spec.whatwg.org/#names-and-labels>).
pub fn encoding_name(label: String) -> (name: Option<String>)
    ensures
        match name {
            Some(n) => encoding_for_label(encode_utf8(trim_spec(label@))) == Some(n@),
            None => encoding_for_label(encode_utf8(trim_spec(label@))) is None,
        },
{
    let trimmed = trim(label.as_str());
    match charset_for_label(trimmed.as_bytes()) {
        Some(charset) => Some(charset.name().to_owned()),
        None => None,
    }
}

/// A byte string read as Latin-1 text, one character per byte.
pub open spec fn latin1_text(bytes: Seq<u8>) -> Seq<char> {
    bytes.map_values(|b: u8| b as char)
}

/// Encodes `text` in the form's submission encoding, returning a Latin-1
/// string of the encoded bytes; an unknown label means UTF-8
/// (<https://encoding.spec.whatwg.org/#encode>).
pub fn encode_form(text: String, label: String) -> (encoded: String)
    requires
        text@.len() <= usize::MAX / 16,
    ensures
        encoded@ == latin1_text(encode_text(
            match encoding_for_label(encode_utf8(trim_spec(label@))) {
                Some(n) => n,
                None => "UTF-8"@,
            },
            text@,
        )),
{
    let trimmed = trim(label.as_str());
    let charset = match charset_for_label(trimmed.as_bytes()) {
        Some(c) => c,
        None => utf_8(),
    };
    let bytes = encode_str(&charset, text.as_str());
    let mut out = String::new();
    let mut i: usize = 0;
    while i < bytes.len()
        invariant
            i <= bytes@.len(),
            out@ == latin1_text(bytes@.take(i as int)),
        decreases bytes@.len() - i,
    {
        push_char(&mut out, bytes[i] as char);
        assert(out@ =~= latin1_text(bytes@.take(i + 1)));
        i = i + 1;
    }
    assert(bytes@.take(bytes@.len() as int) =~= bytes@);
    out
}

/// The encoding one `Content-Type` parameter names: a `charset` parameter
/// (name ASCII case-insensitive, surrounding whitespace ignored) whose value,
/// trimmed and stripped of quotes, is a known label.
pub open spec fn parameter_charset(parameter: Seq<char>) -> Option<Seq<char>> {
    match first_index_of(parameter, '=') {
        None => None,
        Some(k) => if spec_eq_ignore_ascii_case(trim_spec(parameter.take(k)), "charset"@) {
            encoding_for_label(
                encode_utf8(trim_class_spec(trim_spec(parameter.skip(k + 1)), CharClass::Quote)),
            )
        } else {
            None
        },
    }
}

/// The first encoding one of `parameters` names.
pub open spec fn first_parameter_charset(parameters: Seq<Seq<char>>) -> Option<Seq<char>>
    decreases parameters.len(),
{
    if parameters.len() == 0 {
        None
    } else {
        match parameter_charset(parameters[0]) {
            Some(name) => Some(name),
            None => first_parameter_charset(parameters.skip(1)),
        }
    }
}

/// The encoding a `Content-Type` header names: the first of its parameters
/// (after the media type) that names one.
pub open spec fn content_type_charset(content_type: Seq<char>) -> Option<Seq<char>> {
    first_parameter_charset(split_spec(content_type, ';').skip(1))
}

/// The encoding one `Content-Type` parameter names.
fn charset_of_parameter(parameter: &str) -> (charset: Option<Charset>)
    ensures
        opt_charset(charset) == parameter_charset(parameter@),
{
    let n = parameter.unicode_len();
    let k = match find_char(parameter, '=') {
        Some(k) => k,
        None => return None,
    };
    let name = parameter.substring_char(0, k);
    let value = parameter.substring_char(k + 1, n);
    assert(name@ =~= parameter@.take(k as int));
    assert(value@ =~= parameter@.skip(k + 1));
    if !eq_ignore_ascii_case(trim(name), "charset") {
        return None;
    }
    let label = trim_class(trim(value), CharClass::Quote);
    charset_for_label(label.as_bytes())
}

/// The encoding a `Content-Type` header value names in its `charset`
/// parameter, if any.
pub fn charset_from_content_type(content_type: &str) -> (charset: Option<Charset>)
    ensures
        opt_charset(charset) == content_type_charset(content_type@),
{
    let fields = split_char(content_type, ';');
    let ghost params = strings_view(fields@).skip(1);
    let mut i: usize = 1;
    assert(strings_view(fields@).len() >= 1) by {
        crate::text::lemma_split_nonempty(content_type@, ';', Seq::empty());
    }
    assert(strings_view(fields@).skip(1).skip(0) =~= params);
    while i < fields.len()
        invariant
            1 <= i <= fields@.len(),
            params == strings_view(fields@).skip(1),
            content_type_charset(content_type@) == first_parameter_charset(params.skip(i - 1)),
        decreases fields@.len() - i,
    {
        let ghost rest = params.skip(i - 1);
        assert(rest[0] == fields@[i as int]@);
        assert(rest.skip(1) =~= params.skip(i as int));
        if let Some(charset) = charset_of_parameter(fields[i].as_str()) {
            return Some(charset);
        }
        i = i + 1;
    }
    assert(params.skip(i - 1) =~= Seq::<Seq<char>>::empty());
    None
}


/// How far the `<meta>` prescan looks into a body.
pub const PRESCAN_BYTES: usize = 1024;

/// `<meta`, the start of a tag the prescan inspects.
pub open spec fn meta_open() -> Seq<char> {
    seq!['<', 'm', 'e', 't', 'a']
}

/// `charset=`, the attribute text the prescan looks for in a tag.
pub open spec fn charset_key() -> Seq<char> {
    seq!['c', 'h', 'a', 'r', 's', 'e', 't', '=']
}

/// The charset label a lowercased `<meta` tag (up to, not including, its
/// `>`) carries after its first `charset=`: leading spaces and quotes
/// skipped, ended by a space, quote, `;` or `>`.
pub open spec fn meta_label(tag: Seq<char>) -> Option<Seq<char>> {
    match find_seq_from(tag, charset_key(), 0) {
        Some(r) => Some(
            field_until(trim_start_class(tag.skip(r + 8), CharClass::LabelLead), CharClass::LabelEnd),
        ),
        None => None,
    }
}

/// The end of the tag that starts at `start`: its first `>`, or the end of
/// the text.
pub open spec fn tag_end(text: Seq<char>, start: int) -> int {
    match find_seq_from(text, seq!['>'], start) {
        Some(e) => e,
        None => text.len() as int,
    }
}

/// The encoding the tag between `start` and `end` names, if it names one.
pub open spec fn tag_charset(text: Seq<char>, start: int, end: int) -> Option<Seq<char>> {
    match meta_label(text.subrange(start, end)) {
        Some(label) => encoding_for_label(encode_utf8(label)),
        None => None,
    }
}

/// The `<meta>` prescan over lowercased text from `cursor` on: `Some(Some(name))`
/// for the first `<meta` tag whose charset label names an encoding,
/// `Some(None)` when no such tag comes, and `None` when the scan runs past
/// the end of the text, which happens when a `<meta` tag that names no
/// encoding has no closing `>`.
pub open spec fn prescan_from(text: Seq<char>, cursor: int) -> Option<Option<Seq<char>>>
    decreases text.len() - cursor,
{
    if cursor < 0 || cursor > text.len() {
        None
    } else {
        match find_seq_from(text, meta_open(), cursor) {
            None => Some(None),
            Some(start) => {
                let end = tag_end(text, start);
                let found = tag_charset(text, start, end);
                if found is Some {
                    Some(found)
                } else if end >= text.len() {
                    None
                } else {
                    proof {
                        lemma_find_seq_from(text, meta_open(), cursor);
                        lemma_find_seq_from(text, seq!['>'], start);
                    }
                    prescan_from(text, end + 1)
                }
            },
        }
    }
}

/// The text the prescan reads: the first [`PRESCAN_BYTES`] bytes of the
/// body, decoded as lossy UTF-8 and ASCII-lowercased.
pub open spec fn prescan_text(body: Seq<u8>) -> Seq<char> {
    let n = if body.len() < 1024 {
        body.len() as int
    } else {
        1024
    };
    spec_ascii_lowercase(utf8_lossy(body.take(n)))
}

/// The `<meta charset>` prescan of a body
/// (<https://html.spec.whatwg.org/multipage/parsing.html#prescan-a-byte-stream-to-determine-its-encoding>),
/// as [`prescan_from`] describes its outcomes.
pub open spec fn prescan_spec(body: Seq<u8>) -> Option<Option<Seq<char>>> {
    prescan_from(prescan_text(body), 0)
}

/// The outcome of the `<meta charset>` prescan.
pub enum MetaPrescan {
    /// A `<meta>` tag names this encoding.
    Found(Charset),
    /// No `<meta>` tag names an encoding.
    Absent,
    /// A `<meta` tag that names no encoding has no closing `>`, so the scan
    /// would read past the end of the text.
    Overrun,
}

/// The view of a prescan outcome, in the shape [`prescan_from`] gives.
pub open spec fn prescan_view(m: MetaPrescan) -> Option<Option<Seq<char>>> {
    match m {
        MetaPrescan::Found(c) => Some(Some(c@)),
        MetaPrescan::Absent => Some(None),
        MetaPrescan::Overrun => None,
    }
}

/// The label of a `<meta` tag, if it carries `charset=`.
fn meta_label_of(tag: &Vec<char>) -> (label: Option<String>)
    ensures
        match label {
            Some(l) => meta_label(tag@) == Some(l@),
            None => meta_label(tag@) is None,
        },
{
    let key = vec!['c', 'h', 'a', 'r', 's', 'e', 't', '='];
    assert(key@ =~= charset_key());
    let r = match find_seq(tag, &key, 0) {
        Some(r) => r,
        None => return None,
    };
    proof {
        lemma_find_seq_from(tag@, charset_key(), 0);
    }
    let n = tag.len();
    assert(r + 8 <= n);
    let mut i = r + 8;
    while i < tag.len() && is_in_class(tag[i], CharClass::LabelLead)
        invariant
            r + 8 <= i <= tag@.len(),
            forall|j: int| r + 8 <= j < i ==> in_class(tag@[j], CharClass::LabelLead),
        decreases tag@.len() - i,
    {
        i = i + 1;
    }
    let ghost rest = tag@.skip(r + 8);
    proof {
        lemma_trim_start_at(rest, i - (r + 8), CharClass::LabelLead);
    }
    let ghost lead = rest.skip(i - (r + 8));
    assert(lead =~= tag@.skip(i as int));
    let mut out = String::new();
    let mut k = i;
    while k < tag.len() && !is_in_class(tag[k], CharClass::LabelEnd)
        invariant
            i <= k <= tag@.len(),
            out@ == tag@.subrange(i as int, k as int),
            forall|j: int| i <= j < k ==> !in_class(tag@[j], CharClass::LabelEnd),
        decreases tag@.len() - k,
    {
        push_char(&mut out, tag[k]);
        assert(out@ =~= tag@.subrange(i as int, k + 1));
        k = k + 1;
    }
    proof {
        lemma_field_until_at(lead, k - i, CharClass::LabelEnd);
        assert(lead.take(k - i) =~= tag@.subrange(i as int, k as int));
    }
    Some(out)
}

/// The characters of `v` between `from` and `to`.
fn copy_range(v: &Vec<char>, from: usize, to: usize) -> (out: Vec<char>)
    requires
        from <= to <= v@.len(),
    ensures
        out@ == v@.subrange(from as int, to as int),
{
    let mut out: Vec<char> = Vec::new();
    let mut i = from;
    while i < to
        invariant
            from <= i <= to <= v@.len(),
            out@ == v@.subrange(from as int, i as int),
        decreases to - i,
    {
        out.push(v[i]);
        assert(out@ =~= v@.subrange(from as int, i + 1));
        i = i + 1;
    }
    out
}

/// Runs the `<meta charset>` prescan over the first [`PRESCAN_BYTES`] bytes
/// of `body`, reporting a scan that would run past the text as
/// [`MetaPrescan::Overrun`].
pub fn meta_prescan(body: &[u8]) -> (m: MetaPrescan)
    ensures
        prescan_view(m) == prescan_spec(body@),
{
    let n = if body.len() < PRESCAN_BYTES {
        body.len()
    } else {
        PRESCAN_BYTES
    };
    let prefix = vstd::slice::slice_subrange(body, 0, n);
    assert(prefix@ =~= body@.take(n as int));
    let decoded = string_from_utf8_lossy(prefix);
    let lower = to_ascii_lowercase(decoded.as_str());
    let text = chars_of(lower.as_str());
    let ghost t = text@;
    assert(t == prescan_text(body@));
    let meta = vec!['<', 'm', 'e', 't', 'a'];
    let gt = vec!['>'];
    assert(meta@ =~= meta_open());
    assert(gt@ =~= seq!['>']);
    let mut cursor: usize = 0;
    loop
        invariant
            cursor <= t.len(),
            t == text@,
            t == prescan_text(body@),
            meta@ == meta_open(),
            gt@ == seq!['>'],
            prescan_from(t, 0) == prescan_from(t, cursor as int),
        decreases t.len() - cursor,
    {
        let start = match find_seq(&text, &meta, cursor) {
            Some(start) => start,
            None => return MetaPrescan::Absent,
        };
        proof {
            lemma_find_seq_from(t, meta_open(), cursor as int);
        }
        let end = match find_seq(&text, &gt, start) {
            Some(e) => e,
            None => text.len(),
        };
        proof {
            lemma_find_seq_from(t, seq!['>'], start as int);
        }
        assert(end == tag_end(t, start as int));
        let tag = copy_range(&text, start, end);
        let found = match meta_label_of(&tag) {
            Some(label) => charset_for_label(label.as_str().as_bytes()),
            None => None,
        };
        assert(opt_charset(found) == tag_charset(t, start as int, end as int));
        if let Some(c) = found {
            return MetaPrescan::Found(c);
        }
        if end >= text.len() {
            return MetaPrescan::Overrun;
        }
        cursor = end + 1;
    }
}

/// The encoding a `<meta charset>` in the first [`PRESCAN_BYTES`] bytes of
/// `body` names. The scan must not run past the text (see
/// [`prescan_from`]).
pub fn prescan_charset(body: &[u8]) -> (charset: Option<Charset>)
    requires
        prescan_spec(body@) is Some,
    ensures
        Some(opt_charset(charset)) == prescan_spec(body@),
{
    match meta_prescan(body) {
        MetaPrescan::Found(c) => Some(c),
        _ => None,
    }
}


/// The encoding a `Content-Type` header, when there is one, names.
pub open spec fn header_charset(content_type: Option<Seq<char>>) -> Option<Seq<char>> {
    match content_type {
        Some(c) => content_type_charset(c),
        None => None,
    }
}

/// Whether sniffing the bytes so far gets as far as the `<meta>` prescan:
/// no byte-order mark, none still possible, and no charset in the header.
pub open spec fn sniff_reaches_prescan(
    bytes: Seq<u8>,
    content_type: Option<Seq<char>>,
    eof: bool,
) -> bool {
    &&& bom_spec(bytes) is None
    &&& eof || !bom_prefix_spec(bytes)
    &&& header_charset(content_type) is None
}

/// The encoding sniffing algorithm on the bytes received so far: the
/// encoding and the length of the byte-order mark to skip, or `None` while
/// more bytes are needed to decide. In order: a byte-order mark; waiting
/// while the bytes could still become one; the header's charset; a
/// `<meta>` charset; windows-1252 once the stream ended or the prescan
/// window is full.
pub open spec fn sniff_spec(bytes: Seq<u8>, content_type: Option<Seq<char>>, eof: bool) -> Option<
    (Seq<char>, nat),
> {
    if bom_spec(bytes) is Some {
        bom_spec(bytes)
    } else if !eof && bom_prefix_spec(bytes) {
        None
    } else if header_charset(content_type) is Some {
        Some((header_charset(content_type)->0, 0))
    } else {
        match prescan_spec(bytes) {
            Some(Some(name)) => Some((name, 0)),
            _ => if eof || bytes.len() >= 1024 {
                Some(("windows-1252"@, 0))
            } else {
                None
            },
        }
    }
}

/// The view of a sniffing result.
pub open spec fn sniffed_view(r: Option<(Charset, usize)>) -> Option<(Seq<char>, nat)> {
    match r {
        Some((c, n)) => Some((c@, n as nat)),
        None => None,
    }
}

/// The encoding of a response body from its first bytes
/// (<https://html.spec.whatwg.org/multipage/parsing.html#encoding-sniffing-algorithm>),
/// with the length of the byte-order mark to skip; `None` until enough
/// bytes arrived, unless `eof` says no more will. When the prescan is
/// reached it must not run past its text.
pub fn sniff_encoding(bytes: &[u8], content_type: Option<&str>, eof: bool) -> (sniffed: Option<
    (Charset, usize),
>)
    requires
        sniff_reaches_prescan(bytes@, opt_view(content_type), eof) ==> prescan_spec(bytes@) is Some,
    ensures
        sniffed_view(sniffed) == sniff_spec(bytes@, opt_view(content_type), eof),
{
    if let Some(bom) = charset_for_bom(bytes) {
        return Some(bom);
    }
    if !eof && bom_prefix(bytes) {
        return None;
    }
    if let Some(ct) = content_type {
        if let Some(c) = charset_from_content_type(ct) {
            return Some((c, 0));
        }
    }
    if let Some(c) = prescan_charset(bytes) {
        return Some((c, 0));
    }
    if eof || bytes.len() >= PRESCAN_BYTES {
        Some((windows_1252(), 0))
    } else {
        None
    }
}

/// The encoding a whole HTML body is decoded with, and the byte-order mark
/// length to skip: a byte-order mark, else the header's charset, else a
/// `<meta>` charset, else windows-1252.
pub open spec fn html_encoding(body: Seq<u8>, content_type: Option<Seq<char>>) -> (Seq<char>, nat) {
    if bom_spec(body) is Some {
        bom_spec(body)->0
    } else if header_charset(content_type) is Some {
        (header_charset(content_type)->0, 0)
    } else {
        match prescan_spec(body) {
            Some(Some(name)) => (name, 0),
            _ => ("windows-1252"@, 0),
        }
    }
}

/// The text of a whole HTML body: the body after its byte-order mark,
/// decoded in [`html_encoding`].
pub open spec fn html_text(body: Seq<u8>, content_type: Option<Seq<char>>) -> Seq<char> {
    let (name, skip) = html_encoding(body, content_type);
    decode_without_bom(name, body.skip(skip as int))
}

/// Decodes a whole HTML response body. The `<meta>` prescan runs on every
/// body and must not run past its text; bodies too long for the decoder's
/// size computation are excluded.
pub fn decode_html(body: &[u8], content_type: Option<&str>) -> (text: String)
    requires
        prescan_spec(body@) is Some,
        body@.len() <= usize::MAX / 16,
    ensures
        text@ == html_text(body@, opt_view(content_type)),
{
    let bom = charset_for_bom(body);
    let header = match content_type {
        Some(ct) => charset_from_content_type(ct),
        None => None,
    };
    let prescan = prescan_charset(body);
    let (charset, skip) = match bom {
        Some(found) => found,
        None => match header {
            Some(c) => (c, 0),
            None => match prescan {
                Some(c) => (c, 0),
                None => (windows_1252(), 0),
            },
        },
    };
    let rest = vstd::slice::slice_subrange(body, skip, body.len());
    assert(rest@ =~= body@.skip(skip as int));
    decode_bytes(&charset, rest)
}

/// Decodes a whole HTML response body as [`decode_html`] does, or gives
/// `None` when the `<meta>` prescan would run past its text.
pub fn try_decode_html(body: &[u8], content_type: Option<&str>) -> (text: Option<String>)
    requires
        body@.len() <= usize::MAX / 16,
    ensures
        text is None <==> prescan_spec(body@) is None,
        text matches Some(t) ==> t@ == html_text(body@, opt_view(content_type)),
{
    match meta_prescan(body) {
        MetaPrescan::Overrun => None,
        _ => Some(decode_html(body, content_type)),
    }
}


/// What the caller does with a chunk of a streamed response body.
pub enum DecodeStep {
    /// Nothing to decode yet: the encoding is still undecided.
    Wait,
    /// The encoding is decided: start a decoder for it (without BOM
    /// handling) and feed it these bytes, the byte-order mark removed.
    Start(Charset, Vec<u8>),
    /// Feed these bytes to the decoder already started.
    Continue(Vec<u8>),
    /// The stream ended: flush the decoder already started.
    Flush,
}

/// The view of a decoding step: `(tag, encoding, bytes)`, with tag 0 for
/// [`DecodeStep::Wait`], 1 for `Start`, 2 for `Continue` and 3 for `Flush`.
pub open spec fn step_view(step: DecodeStep) -> (int, Seq<char>, Seq<u8>) {
    match step {
        DecodeStep::Wait => (0, Seq::empty(), Seq::empty()),
        DecodeStep::Start(c, b) => (1, c@, b@),
        DecodeStep::Continue(b) => (2, Seq::empty(), b@),
        DecodeStep::Flush => (3, Seq::empty(), Seq::empty()),
    }
}

/// Decides the encoding of a streamed response body: bytes are held until
/// [`sniff_spec`] decides, then passed on to the decoder.
pub struct ResponseDecoder {
    content_type: Option<String>,
    pending: Vec<u8>,
    charset: Option<Charset>,
}

/// The view of an optional owned string.
pub open spec fn opt_string(s: Option<String>) -> Option<Seq<char>> {
    match s {
        Some(s) => Some(s@),
        None => None,
    }
}

impl ResponseDecoder {
    /// The `Content-Type` header the body came with.
    pub closed spec fn content_type_view(&self) -> Option<Seq<char>> {
        opt_string(self.content_type)
    }

    /// The bytes held while the encoding is undecided.
    pub closed spec fn pending_view(&self) -> Seq<u8> {
        self.pending@
    }

    /// The encoding decided, once it is.
    pub closed spec fn charset_view(&self) -> Option<Seq<char>> {
        opt_charset(self.charset)
    }

    /// Whether pushing `bytes` can be decided without the prescan running
    /// past its text.
    pub open spec fn push_ok(&self, bytes: Seq<u8>) -> bool {
        self.charset_view() is None && sniff_reaches_prescan(
            self.pending_view() + bytes,
            self.content_type_view(),
            false,
        ) ==> prescan_spec(self.pending_view() + bytes) is Some
    }

    /// Whether finishing can be decided without the prescan running past its
    /// text.
    pub open spec fn finish_ok(&self) -> bool {
        self.charset_view() is None && sniff_reaches_prescan(
            self.pending_view(),
            self.content_type_view(),
            true,
        ) ==> prescan_spec(self.pending_view()) is Some
    }

    /// A decoder for a body served with this `Content-Type`, with nothing
    /// received yet.
    pub fn new(content_type: Option<String>) -> (d: Self)
        ensures
            d.content_type_view() == opt_string(content_type),
            d.pending_view() == Seq::<u8>::empty(),
            d.charset_view() is None,
    {
        ResponseDecoder { content_type, pending: Vec::new(), charset: None }
    }

    /// Takes the next chunk of the body. Once the encoding is decided, the
    /// chunk passes straight on; before, it joins the held bytes, and when
    /// they decide the encoding they are handed over after the byte-order
    /// mark.
    pub fn push(&mut self, bytes: &[u8]) -> (step: DecodeStep)
        requires
            old(self).push_ok(bytes@),
        ensures
            final(self).content_type_view() == old(self).content_type_view(),
            old(self).charset_view() is Some ==> {
                &&& step_view(step) == (2int, Seq::<char>::empty(), bytes@)
                &&& final(self).charset_view() == old(self).charset_view()
                &&& final(self).pending_view() == old(self).pending_view()
            },
            old(self).charset_view() is None ==> {
                let all = old(self).pending_view() + bytes@;
                match sniff_spec(all, old(self).content_type_view(), false) {
                    None => {
                        &&& step_view(step) == (0int, Seq::<char>::empty(), Seq::<u8>::empty())
                        &&& final(self).pending_view() == all
                        &&& final(self).charset_view() is None
                    },
                    Some((name, skip)) => {
                        &&& step_view(step) == (1int, name, all.skip(skip as int))
                        &&& final(self).pending_view() == Seq::<u8>::empty()
                        &&& final(self).charset_view() == Some(name)
                    },
                }
            },
    {
        if self.charset.is_some() {
            return DecodeStep::Continue(vstd::slice::slice_to_vec(bytes));
        }
        let mut i: usize = 0;
        let ghost start = self.pending@;
        while i < bytes.len()
            invariant
                i <= bytes@.len(),
                self.pending@ == start + bytes@.take(i as int),
                self.content_type == old(self).content_type,
                self.charset is None,
            decreases bytes@.len() - i,
        {
            self.pending.push(bytes[i]);
            assert(self.pending@ =~= start + bytes@.take(i + 1));
            i = i + 1;
        }
        assert(bytes@.take(bytes@.len() as int) =~= bytes@);
        let content_type = match &self.content_type {
            Some(ct) => Some(ct.as_str()),
            None => None,
        };
        match sniff_encoding(self.pending.as_slice(), content_type, false) {
            None => DecodeStep::Wait,
            Some((charset, skip)) => {
                let rest = vstd::slice::slice_subrange(self.pending.as_slice(), skip, self.pending.len());
                let out = vstd::slice::slice_to_vec(rest);
                assert(out@ =~= self.pending@.skip(skip as int));
                self.pending = Vec::new();
                self.charset = Some(charset);
                DecodeStep::Start(charset, out)
            },
        }
    }

    /// Ends the body. A started decoder is flushed; otherwise the held bytes
    /// decide the encoding as a complete body, windows-1252 when nothing else
    /// does, and are handed over after the byte-order mark.
    pub fn finish(self) -> (step: DecodeStep)
        requires
            self.finish_ok(),
        ensures
            self.charset_view() is Some ==> step_view(step) == (
                3int,
                Seq::<char>::empty(),
                Seq::<u8>::empty(),
            ),
            self.charset_view() is None ==> {
                let (name, skip) = match sniff_spec(
                    self.pending_view(),
                    self.content_type_view(),
                    true,
                ) {
                    Some(found) => found,
                    None => ("windows-1252"@, 0),
                };
                step_view(step) == (1int, name, self.pending_view().skip(skip as int))
            },
    {
        if self.charset.is_some() {
            return DecodeStep::Flush;
        }
        let content_type = match &self.content_type {
            Some(ct) => Some(ct.as_str()),
            None => None,
        };
        let (charset, skip) = match sniff_encoding(self.pending.as_slice(), content_type, true) {
            Some(found) => found,
            None => (windows_1252(), 0),
        };
        let rest = vstd::slice::slice_subrange(self.pending.as_slice(), skip, self.pending.len());
        let out = vstd::slice::slice_to_vec(rest);
        assert(out@ =~= self.pending@.skip(skip as int));
        DecodeStep::Start(charset, out)
    }

    /// Whether [`ResponseDecoder::push`] may take `bytes`.
    pub fn can_push(&self, bytes: &[u8]) -> (ok: bool)
        ensures
            ok == self.push_ok(bytes@),
    {
        if self.charset.is_none() {
            let mut all = vstd::slice::slice_to_vec(self.pending.as_slice());
            let mut i: usize = 0;
            let ghost start = all@;
            while i < bytes.len()
                invariant
                    i <= bytes@.len(),
                    all@ == start + bytes@.take(i as int),
                decreases bytes@.len() - i,
            {
                all.push(bytes[i]);
                assert(all@ =~= start + bytes@.take(i + 1));
                i = i + 1;
            }
            assert(bytes@.take(bytes@.len() as int) =~= bytes@);
            let content_type = match &self.content_type {
                Some(ct) => Some(ct.as_str()),
                None => None,
            };
            let reaches = charset_for_bom(all.as_slice()).is_none() && !bom_prefix(all.as_slice())
                && match content_type {
                Some(ct) => charset_from_content_type(ct).is_none(),
                None => true,
            };
            if reaches {
                if let MetaPrescan::Overrun = meta_prescan(all.as_slice()) {
                    return false;
                }
            }
        }
        true
    }

    /// [`ResponseDecoder::push`], or `None`, with the decoder unchanged,
    /// when deciding would run the prescan past its text.
    pub fn try_push(&mut self, bytes: &[u8]) -> (step: Option<DecodeStep>)
        ensures
            step is None <==> !old(self).push_ok(bytes@),
            step is None ==> *final(self) == *old(self),
    {
        if self.can_push(bytes) {
            Some(self.push(bytes))
        } else {
            None
        }
    }

    /// [`ResponseDecoder::finish`], or `None` when deciding would run the
    /// prescan past its text.
    pub fn try_finish(self) -> (step: Option<DecodeStep>)
        ensures
            step is None <==> !self.finish_ok(),
    {
        if self.can_finish() {
            Some(self.finish())
        } else {
            None
        }
    }

    /// Whether [`ResponseDecoder::finish`] may run.
    pub fn can_finish(&self) -> (ok: bool)
        ensures
            ok == self.finish_ok(),
    {
        if self.charset.is_none() {
            let content_type = match &self.content_type {
                Some(ct) => Some(ct.as_str()),
                None => None,
            };
            let reaches = charset_for_bom(self.pending.as_slice()).is_none() && match content_type {
                Some(ct) => charset_from_content_type(ct).is_none(),
                None => true,
            };
            if reaches {
                if let MetaPrescan::Overrun = meta_prescan(self.pending.as_slice()) {
                    return false;
                }
            }
        }
        true
    }
}


/// `encoding_rs::Decoder`, held opaquely.
#[verifier::external_type_specification]
#[verifier::external_body]
pub struct ExDecoder(encoding_rs::Decoder);

/// The text an `encoding_rs` decoder for the named encoding, started without
/// BOM handling and already fed `before` (never as the last chunk), gives
/// for `chunk` (`Decoder::decode_to_string`); `last` says the stream ends
/// with it.
pub uninterp spec fn stream_text(encoding: Seq<char>, before: Seq<u8>, chunk: Seq<u8>, last: bool) -> Seq<char>;

/// An `encoding_rs` decoder for one stream, with the bytes fed to it so far.
pub struct ChunkDecoder {
    charset: Charset,
    decoder: encoding_rs::Decoder,
    fed: Ghost<Seq<u8>>,
    ended: Ghost<bool>,
}

impl ChunkDecoder {
    /// The encoding it decodes.
    pub closed spec fn charset_view(&self) -> Seq<char> {
        self.charset@
    }

    /// The bytes fed so far.
    pub closed spec fn fed(&self) -> Seq<u8> {
        self.fed@
    }

    /// Whether the last chunk was fed: the decoder is then spent.
    pub closed spec fn ended(&self) -> bool {
        self.ended@
    }

    /// Calls `Encoding::new_decoder_without_bom_handling`: a decoder for
    /// `charset` that has been fed nothing.
    #[verifier::external_body]
    fn start(charset: Charset) -> (d: Self)
        ensures
            d.charset_view() == charset@,
            d.fed() == Seq::<u8>::empty(),
            !d.ended(),
    {
        ChunkDecoder {
            charset,
            decoder: charset.encoding.new_decoder_without_bom_handling(),
            fed: Ghost(Seq::empty()),
            ended: Ghost(false),
        }
    }

    /// Calls `Decoder::decode_to_string` with an output buffer of
    /// `Decoder::max_utf8_buffer_length` bytes (at least the 4 the crate
    /// documents as the minimum), which the crate documents as enough for
    /// the whole chunk in one call. The text is named [`stream_text`] of the
    /// encoding, the bytes fed before and the chunk. The crate forbids
    /// feeding a decoder after its last chunk, and chunks so long that the
    /// buffer size overflows are excluded.
    #[verifier::external_body]
    fn decode(&mut self, bytes: &[u8], last: bool) -> (text: String)
        requires
            !old(self).ended(),
            bytes@.len() <= usize::MAX / 16,
        ensures
            text@ == stream_text(old(self).charset_view(), old(self).fed(), bytes@, last),
            final(self).charset_view() == old(self).charset_view(),
            final(self).fed() == old(self).fed() + bytes@,
            final(self).ended() == last,
    {
        let capacity = self.decoder.max_utf8_buffer_length(bytes.len()).unwrap_or_default().max(4);
        let mut text = String::with_capacity(capacity);
        let _ = self.decoder.decode_to_string(bytes, &mut text, last);
        self.fed = Ghost(self.fed@ + bytes@);
        self.ended = Ghost(last);
        text
    }
}

/// Where a streamed body stands: its encoding still undecided, or decoding.
pub enum StreamState {
    /// The bytes are held until the encoding is decided.
    Sniffing(ResponseDecoder),
    /// The encoding is decided and a decoder runs.
    Decoding(ChunkDecoder),
}

/// What pushing `bytes` to `before` returns and leaves: once the encoding
/// is decided, the decoder's text for the chunk; before, nothing while the
/// held bytes leave it undecided, and the decoder's text for the held bytes
/// after the byte-order mark once they decide it.
pub open spec fn pushed(before: StreamDecoder, bytes: Seq<u8>, text: Seq<char>, after: StreamDecoder) -> bool {
    match before.decoding() {
        Some((name, fed)) => {
            &&& text == stream_text(name, fed, bytes, false)
            &&& after.decoding() == Some((name, fed + bytes))
        },
        None => {
            let all = before.held() + bytes;
            match sniff_spec(all, before.content_type_view(), false) {
                None => {
                    &&& text == Seq::<char>::empty()
                    &&& after.decoding() is None
                    &&& after.held() == all
                    &&& after.content_type_view() == before.content_type_view()
                },
                Some((name, skip)) => {
                    &&& text == stream_text(name, Seq::empty(), all.skip(skip as int), false)
                    &&& after.decoding() == Some((name, all.skip(skip as int)))
                },
            }
        },
    }
}

/// What finishing `before` returns: a started decoder's last text; else the
/// held bytes decoded, after the byte-order mark, in the encoding they
/// decide as a complete body, windows-1252 when nothing else does.
pub open spec fn finished(before: StreamDecoder, text: Seq<char>) -> bool {
    match before.decoding() {
        Some((name, fed)) => text == stream_text(name, fed, Seq::empty(), true),
        None => {
            let (name, skip) = match sniff_spec(before.held(), before.content_type_view(), true) {
                Some(found) => found,
                None => ("windows-1252"@, 0),
            };
            text == stream_text(name, Seq::empty(), before.held().skip(skip as int), true)
        },
    }
}

/// A streamed response body turned into text: [`ResponseDecoder`] decides
/// the encoding, then a [`ChunkDecoder`] decodes each chunk as it comes.
pub struct StreamDecoder {
    state: StreamState,
}

impl StreamDecoder {
    #[verifier::type_invariant]
    spec fn inv(&self) -> bool {
        match self.state {
            StreamState::Sniffing(r) => r.charset_view() is None,
            StreamState::Decoding(d) => !d.ended(),
        }
    }

    /// The `Content-Type` header, while the encoding is undecided.
    pub closed spec fn content_type_view(&self) -> Option<Seq<char>> {
        match self.state {
            StreamState::Sniffing(r) => r.content_type_view(),
            StreamState::Decoding(_) => None,
        }
    }

    /// The bytes held while the encoding is undecided.
    pub closed spec fn held(&self) -> Seq<u8> {
        match self.state {
            StreamState::Sniffing(r) => r.pending_view(),
            StreamState::Decoding(_) => Seq::empty(),
        }
    }

    /// The encoding decided and the bytes fed to its decoder, once decided.
    pub closed spec fn decoding(&self) -> Option<(Seq<char>, Seq<u8>)> {
        match self.state {
            StreamState::Sniffing(_) => None,
            StreamState::Decoding(d) => Some((d.charset_view(), d.fed())),
        }
    }

    /// Whether pushing `bytes` stays within the decoder's buffer limit and,
    /// while the encoding is undecided, deciding it does not run the prescan
    /// past its text.
    pub open spec fn push_ok(&self, bytes: Seq<u8>) -> bool {
        &&& self.held().len() + bytes.len() <= usize::MAX / 16
        &&& self.decoding() is None && sniff_reaches_prescan(
            self.held() + bytes,
            self.content_type_view(),
            false,
        ) ==> prescan_spec(self.held() + bytes) is Some
    }

    /// Whether finishing stays within the decoder's buffer limit and does not
    /// run the prescan past its text.
    pub open spec fn finish_ok(&self) -> bool {
        &&& self.held().len() <= usize::MAX / 16
        &&& self.decoding() is None && sniff_reaches_prescan(
            self.held(),
            self.content_type_view(),
            true,
        ) ==> prescan_spec(self.held()) is Some
    }

    /// A decoder for a body served with this `Content-Type`.
    pub fn new(content_type: Option<String>) -> (d: Self)
        ensures
            d.content_type_view() == opt_string(content_type),
            d.held() == Seq::<u8>::empty(),
            d.decoding() is None,
    {
        StreamDecoder { state: StreamState::Sniffing(ResponseDecoder::new(content_type)) }
    }

    /// Decodes the next chunk, returning the text it completes: nothing while
    /// the encoding is undecided; once it is decided, the held bytes after
    /// the byte-order mark and then each chunk go to the decoder.
    pub fn push(&mut self, bytes: &[u8]) -> (text: String)
        requires
            old(self).push_ok(bytes@),
        ensures
            pushed(*old(self), bytes@, text@, *final(self)),
    {
        proof {
            use_type_invariant(&*self);
        }
        let mut state = StreamState::Sniffing(ResponseDecoder::new(None));
        std::mem::swap(&mut state, &mut self.state);
        let (next, text) = match state {
            StreamState::Decoding(mut d) => {
                let text = d.decode(bytes, false);
                (StreamState::Decoding(d), text)
            },
            StreamState::Sniffing(mut r) => {
                let step = r.push(bytes);
                match step {
                    DecodeStep::Start(charset, rest) => {
                        let mut d = ChunkDecoder::start(charset);
                        let text = d.decode(rest.as_slice(), false);
                        (StreamState::Decoding(d), text)
                    },
                    _ => (StreamState::Sniffing(r), String::new()),
                }
            },
        };
        self.state = next;
        text
    }

    /// Ends the body, returning the rest of the text: a started decoder is
    /// flushed; otherwise the held bytes decide the encoding as a complete
    /// body, windows-1252 when nothing else does, and are decoded after the
    /// byte-order mark.
    pub fn finish(self) -> (text: String)
        requires
            self.finish_ok(),
        ensures
            finished(self, text@),
    {
        proof {
            use_type_invariant(&self);
        }
        let StreamDecoder { state } = self;
        match state {
            StreamState::Decoding(mut d) => {
                let nothing: Vec<u8> = Vec::new();
                d.decode(nothing.as_slice(), true)
            },
            StreamState::Sniffing(r) => {
                let step = r.finish();
                match step {
                    DecodeStep::Start(charset, rest) => {
                        let mut d = ChunkDecoder::start(charset);
                        d.decode(rest.as_slice(), true)
                    },
                    _ => String::new(),
                }
            },
        }
    }

    /// [`StreamDecoder::push`], or `None`, with the decoder unchanged, when
    /// the chunk is beyond the buffer limit or deciding the encoding would
    /// run the prescan past its text.
    pub fn try_push(&mut self, bytes: &[u8]) -> (text: Option<String>)
        ensures
            text is None <==> !old(self).push_ok(bytes@),
            text is None ==> {
                &&& final(self).decoding() == old(self).decoding()
                &&& final(self).held() == old(self).held()
                &&& final(self).content_type_view() == old(self).content_type_view()
            },
            text matches Some(t) ==> pushed(*old(self), bytes@, t@, *final(self)),
    {
        proof {
            use_type_invariant(&*self);
        }
        let limit: usize = usize::MAX / 16;
        let ok = match &self.state {
            StreamState::Decoding(_) => bytes.len() <= limit,
            StreamState::Sniffing(r) => {
                let held = r.pending.len();
                held <= limit && bytes.len() <= limit - held && r.can_push(bytes)
            },
        };
        if ok {
            Some(self.push(bytes))
        } else {
            None
        }
    }

    /// [`StreamDecoder::finish`], or `None` when the held bytes are beyond
    /// the buffer limit or deciding would run the prescan past its text.
    pub fn try_finish(self) -> (text: Option<String>)
        ensures
            text is None <==> !self.finish_ok(),
            text matches Some(t) ==> finished(self, t@),
    {
        proof {
            use_type_invariant(&self);
        }
        let limit: usize = usize::MAX / 16;
        let ok = match &self.state {
            StreamState::Decoding(_) => true,
            StreamState::Sniffing(r) => r.pending.len() <= limit && r.can_finish(),
        };
        if ok {
            Some(self.finish())
        } else {
            None
        }
    }
}

/// At the end of a body, the stream decoder settles on the encoding a whole
/// body is decoded with.
pub proof fn lemma_stream_end_matches_whole_body(body: Seq<u8>, content_type: Option<Seq<char>>)
    ensures
        sniff_spec(body, content_type, true) == Some(html_encoding(body, content_type)),
{
}

} // verus!

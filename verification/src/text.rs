//! Character classes and small string operations shared by the DOM rules:
//! ASCII whitespace, Unicode whitespace trimming, and ASCII case folding.

use vstd::prelude::*;
use vstd::utf8::*;

verus! {

/// [ASCII whitespace](https://infra.spec.whatwg.org/#ascii-whitespace): tab,
/// line feed, form feed, carriage return, or space.
pub open spec fn spec_is_ascii_whitespace(c: char) -> bool {
    c == '\t' || c == '\n' || c == '\x0C' || c == '\r' || c == ' '
}

/// Whether `c` is ASCII whitespace.
pub fn is_infra_whitespace(c: char) -> (r: bool)
    ensures
        r == spec_is_ascii_whitespace(c),
{
    c == '\t' || c == '\n' || c == '\x0C' || c == '\r' || c == ' '
}

/// The Unicode `White_Space` property, which `str::trim` strips.
pub open spec fn spec_is_unicode_whitespace(c: char) -> bool {
    ('\t' <= c <= '\r') || c == ' ' || c == '\u{85}' || c == '\u{A0}' || c == '\u{1680}' || (
    '\u{2000}' <= c <= '\u{200A}') || c == '\u{2028}' || c == '\u{2029}' || c == '\u{202F}' || c
        == '\u{205F}' || c == '\u{3000}'
}

/// Whether `c` has the Unicode `White_Space` property.
pub fn is_unicode_whitespace(c: char) -> (r: bool)
    ensures
        r == spec_is_unicode_whitespace(c),
{
    (c >= '\t' && c <= '\r') || c == ' ' || c == '\u{85}' || c == '\u{A0}' || c == '\u{1680}' || (c
        >= '\u{2000}' && c <= '\u{200A}') || c == '\u{2028}' || c == '\u{2029}' || c == '\u{202F}'
        || c == '\u{205F}' || c == '\u{3000}'
}

/// The sets of characters that the trimming operations strip.
#[derive(Clone, Copy, Debug, PartialEq, Eq, Structural)]
pub enum CharClass {
    /// The Unicode `White_Space` property, as `str::trim` strips it.
    UnicodeWhitespace,
    /// Single and double quotes.
    Quote,
    /// What precedes a `<meta>` charset label: space, tab, CR, LF and
    /// quotes.
    LabelLead,
    /// What ends a `<meta>` charset label: space, tab, CR, LF, quotes, `;`
    /// and `>`.
    LabelEnd,
}

/// Whether `c` belongs to `class`.
pub open spec fn in_class(c: char, class: CharClass) -> bool {
    match class {
        CharClass::UnicodeWhitespace => spec_is_unicode_whitespace(c),
        CharClass::Quote => c == '\'' || c == '"',
        CharClass::LabelLead => c == ' ' || c == '\t' || c == '\r' || c == '\n' || c == '\'' || c
            == '"',
        CharClass::LabelEnd => c == ' ' || c == '\t' || c == '\r' || c == '\n' || c == '\'' || c
            == '"' || c == ';' || c == '>',
    }
}

/// Whether `c` belongs to `class`.
pub fn is_in_class(c: char, class: CharClass) -> (r: bool)
    ensures
        r == in_class(c, class),
{
    match class {
        CharClass::UnicodeWhitespace => is_unicode_whitespace(c),
        CharClass::Quote => c == '\'' || c == '"',
        CharClass::LabelLead => c == ' ' || c == '\t' || c == '\r' || c == '\n' || c == '\'' || c
            == '"',
        CharClass::LabelEnd => c == ' ' || c == '\t' || c == '\r' || c == '\n' || c == '\'' || c
            == '"' || c == ';' || c == '>',
    }
}

/// `s` without its leading characters of `class`.
pub open spec fn trim_start_class(s: Seq<char>, class: CharClass) -> Seq<char>
    decreases s.len(),
{
    if s.len() > 0 && in_class(s[0], class) {
        trim_start_class(s.skip(1), class)
    } else {
        s
    }
}

/// `s` without its trailing characters of `class`.
pub open spec fn trim_end_class(s: Seq<char>, class: CharClass) -> Seq<char>
    decreases s.len(),
{
    if s.len() > 0 && in_class(s.last(), class) {
        trim_end_class(s.drop_last(), class)
    } else {
        s
    }
}

/// `s` without leading and trailing characters of `class`.
pub open spec fn trim_class_spec(s: Seq<char>, class: CharClass) -> Seq<char> {
    trim_end_class(trim_start_class(s, class), class)
}

/// `s` without leading and trailing Unicode whitespace, as `str::trim` gives.
pub open spec fn trim_spec(s: Seq<char>) -> Seq<char> {
    trim_class_spec(s, CharClass::UnicodeWhitespace)
}

/// Trimming the leading characters of a class stops at the first character
/// outside it.
pub proof fn lemma_trim_start_at(s: Seq<char>, k: int, class: CharClass)
    requires
        0 <= k <= s.len(),
        forall|j: int| 0 <= j < k ==> in_class(s[j], class),
        k == s.len() || !in_class(s[k], class),
    ensures
        trim_start_class(s, class) == s.skip(k),
    decreases k,
{
    if k == 0 {
        assert(s.skip(0) =~= s);
    } else {
        lemma_trim_start_at(s.skip(1), k - 1, class);
        assert(s.skip(1).skip(k - 1) =~= s.skip(k));
    }
}

proof fn lemma_trim_end_at(s: Seq<char>, e: int, class: CharClass)
    requires
        0 <= e <= s.len(),
        forall|j: int| e <= j < s.len() ==> in_class(s[j], class),
        e == 0 || !in_class(s[e - 1], class),
    ensures
        trim_end_class(s, class) == s.take(e),
    decreases s.len() - e,
{
    if e == s.len() {
        assert(s.take(e) =~= s);
    } else {
        lemma_trim_end_at(s.drop_last(), e, class);
        assert(s.drop_last().take(e) =~= s.take(e));
    }
}

/// `s` with leading and trailing characters of `class` removed.
pub fn trim_class(s: &str, class: CharClass) -> (r: &str)
    ensures
        r@ == trim_class_spec(s@, class),
{
    let n = s.unicode_len();
    let mut found = false;
    let mut start: usize = 0;
    let mut end: usize = 0;
    let mut k: usize = 0;
    for c in it: s.chars()
        invariant
            k == it.index(),
            n == s@.len(),
            it.seq() == s@,
            !found ==> end == 0 && forall|j: int| 0 <= j < k ==> in_class(s@[j], class),
            found ==> start < end && !in_class(s@[start as int], class) && forall|j: int|
                0 <= j < start ==> in_class(s@[j], class),
            end <= k,
            forall|j: int| end <= j < k ==> in_class(s@[j], class),
            end == 0 || !in_class(s@[end - 1], class),
    {
        if !is_in_class(c, class) {
            if !found {
                start = k;
                found = true;
            }
            end = k + 1;
        }
        k = k + 1;
    }
    assert(k == n);
    if !found {
        proof {
            lemma_trim_start_at(s@, n as int, class);
            assert(s@.skip(n as int) =~= Seq::<char>::empty());
            lemma_trim_end_at(Seq::<char>::empty(), 0, class);
        }
        return s.substring_char(0, 0);
    }
    proof {
        lemma_trim_start_at(s@, start as int, class);
        let t = s@.skip(start as int);
        assert forall|j: int| end - start <= j < t.len() implies in_class(t[j], class) by {
            assert(t[j] == s@[start + j]);
        }
        assert(t[end - start - 1] == s@[end - 1]);
        lemma_trim_end_at(t, end - start, class);
        assert(t.take(end - start) =~= s@.subrange(start as int, end as int));
    }
    s.substring_char(start, end)
}

/// `s` with leading and trailing Unicode whitespace removed.
pub fn trim(s: &str) -> (r: &str)
    ensures
        r@ == trim_spec(s@),
{
    trim_class(s, CharClass::UnicodeWhitespace)
}

/// ASCII lowercase of one character; every other character is unchanged.
pub open spec fn spec_ascii_lower(c: char) -> char {
    if 'A' <= c <= 'Z' {
        ((c as u32) + 32) as char
    } else {
        c
    }
}

/// ASCII lowercase of one character.
pub fn ascii_lower(c: char) -> (r: char)
    ensures
        r == spec_ascii_lower(c),
{
    if c >= 'A' && c <= 'Z' {
        ((c as u8) + 32) as char
    } else {
        c
    }
}

/// ASCII uppercase of one character; every other character is unchanged.
pub open spec fn spec_ascii_upper(c: char) -> char {
    if 'a' <= c <= 'z' {
        ((c as u32) - 32) as char
    } else {
        c
    }
}

/// ASCII uppercase of one character.
pub fn ascii_upper(c: char) -> (r: char)
    ensures
        r == spec_ascii_upper(c),
{
    if c >= 'a' && c <= 'z' {
        ((c as u8) - 32) as char
    } else {
        c
    }
}

/// The ASCII uppercase of a string.
pub open spec fn spec_ascii_uppercase(s: Seq<char>) -> Seq<char> {
    s.map_values(|c: char| spec_ascii_upper(c))
}

/// The ASCII uppercase of `s`.
pub fn to_ascii_uppercase(s: &str) -> (r: String)
    ensures
        r@ == spec_ascii_uppercase(s@),
{
    let mut out = String::new();
    for c in it: s.chars()
        invariant
            it.seq() == s@,
            out@ == spec_ascii_uppercase(s@.take(it.index() as int)),
    {
        push_char(&mut out, ascii_upper(c));
        assert(out@ =~= spec_ascii_uppercase(s@.take(it.index() + 1)));
    }
    assert(s@.take(s@.len() as int) =~= s@);
    out
}

/// Whether two strings are equal up to ASCII case.
pub open spec fn spec_eq_ignore_ascii_case(a: Seq<char>, b: Seq<char>) -> bool {
    a.len() == b.len() && forall|i: int| 0 <= i < a.len() ==> spec_ascii_lower(a[i]) == spec_ascii_lower(b[i])
}

/// Whether `a` and `b` are equal up to ASCII case.
pub fn eq_ignore_ascii_case(a: &str, b: &str) -> (r: bool)
    ensures
        r == spec_eq_ignore_ascii_case(a@, b@),
{
    let n = a.unicode_len();
    if n != b.unicode_len() {
        return false;
    }
    let mut i: usize = 0;
    for c in it: a.chars()
        invariant
            i == it.index(),
            it.seq() == a@,
            n == a@.len(),
            n == b@.len(),
            forall|j: int| 0 <= j < i ==> spec_ascii_lower(a@[j]) == spec_ascii_lower(b@[j]),
    {
        if ascii_lower(c) != ascii_lower(b.get_char(i)) {
            return false;
        }
        i = i + 1;
    }
    true
}

/// What `String::from_utf8_lossy` makes of a byte string.
pub uninterp spec fn utf8_lossy(bytes: Seq<u8>) -> Seq<char>;

/// Calls `String::from_utf8_lossy`. Its contract: the result is
/// [`utf8_lossy`] of the bytes, and is exactly their UTF-8 decoding when
/// they are valid UTF-8; how invalid sequences become U+FFFD is not stated.
#[verifier::external_body]
pub(crate) fn string_from_utf8_lossy(bytes: &[u8]) -> (text: String)
    ensures
        text@ == utf8_lossy(bytes@),
        valid_utf8(bytes@) ==> text@ == decode_utf8(bytes@),
{
    String::from_utf8_lossy(bytes).into_owned()
}

/// Appends `c` to `s`; calls `String::push`, which extends the text by that
/// one character.
#[verifier::external_body]
pub(crate) fn push_char(s: &mut String, c: char)
    ensures
        final(s)@ == old(s)@.push(c),
{
    s.push(c);
}

/// The ASCII lowercase of a string.
pub open spec fn spec_ascii_lowercase(s: Seq<char>) -> Seq<char> {
    s.map_values(|c: char| spec_ascii_lower(c))
}

/// The ASCII lowercase of `s`.
pub fn to_ascii_lowercase(s: &str) -> (r: String)
    ensures
        r@ == spec_ascii_lowercase(s@),
{
    let mut out = String::new();
    for c in it: s.chars()
        invariant
            it.seq() == s@,
            out@ == spec_ascii_lowercase(s@.take(it.index() as int)),
    {
        let ghost before = out@;
        push_char(&mut out, ascii_lower(c));
        assert(out@ =~= spec_ascii_lowercase(s@.take(it.index() + 1)));
    }
    assert(s@.take(s@.len() as int) =~= s@);
    out
}

/// The position of the first `c` in `s`.
pub open spec fn first_index_of(s: Seq<char>, c: char) -> Option<int> {
    if exists|k: int| 0 <= k < s.len() && s[k] == c {
        Some(choose|k: int| 0 <= k < s.len() && s[k] == c && forall|j: int| 0 <= j < k ==> s[j] != c)
    } else {
        None
    }
}

/// The position of the first `target` in `s`.
pub fn find_char(s: &str, target: char) -> (r: Option<usize>)
    ensures
        r matches Some(k) ==> k < s@.len() && s@[k as int] == target && forall|j: int|
            0 <= j < k ==> s@[j] != target,
        r is None ==> forall|j: int| 0 <= j < s@.len() ==> s@[j] != target,
        first_index_of(s@, target) == (match r {
            Some(k) => Some(k as int),
            None => None::<int>,
        }),
{
    let n = s.unicode_len();
    let mut k: usize = 0;
    for c in it: s.chars()
        invariant
            k == it.index(),
            n == s@.len(),
            it.seq() == s@,
            forall|j: int| 0 <= j < k ==> s@[j] != target,
    {
        if c == target {
            proof {
                lemma_first_index_of(s@, target, k as int);
            }
            return Some(k);
        }
        k = k + 1;
    }
    None
}

/// The first index of `c` in `s` is `k` when `s[k]` is `c` and no earlier
/// character is.
pub proof fn lemma_first_index_of(s: Seq<char>, c: char, k: int)
    requires
        0 <= k < s.len(),
        s[k] == c,
        forall|j: int| 0 <= j < k ==> s[j] != c,
    ensures
        first_index_of(s, c) == Some(k),
{
    assert(exists|j: int| 0 <= j < s.len() && s[j] == c);
    let m = choose|j: int| 0 <= j < s.len() && s[j] == c && forall|i: int| 0 <= i < j ==> s[i] != c;
    assert(0 <= m < s.len() && s[m] == c && forall|i: int| 0 <= i < m ==> s[i] != c);
    if m < k {
    } else if m > k {
    }
}

/// The fields of `s` between occurrences of `sep`, after a pending field
/// `cur`, as `str::split` gives them: empty fields are kept.
pub open spec fn split_from(s: Seq<char>, sep: char, cur: Seq<char>) -> Seq<Seq<char>>
    decreases s.len(),
{
    if s.len() == 0 {
        seq![cur]
    } else if s[0] == sep {
        seq![cur] + split_from(s.skip(1), sep, Seq::empty())
    } else {
        split_from(s.skip(1), sep, cur.push(s[0]))
    }
}

/// Splitting always gives at least one field.
pub proof fn lemma_split_nonempty(s: Seq<char>, sep: char, cur: Seq<char>)
    ensures
        split_from(s, sep, cur).len() >= 1,
    decreases s.len(),
{
    if s.len() > 0 {
        if s[0] == sep {
            lemma_split_nonempty(s.skip(1), sep, Seq::empty());
        } else {
            lemma_split_nonempty(s.skip(1), sep, cur.push(s[0]));
        }
    }
}

/// The fields of `s` between occurrences of `sep`.
pub open spec fn split_spec(s: Seq<char>, sep: char) -> Seq<Seq<char>> {
    split_from(s, sep, Seq::empty())
}

/// The strings a list of strings holds.
pub open spec fn strings_view(v: Seq<String>) -> Seq<Seq<char>> {
    v.map_values(|t: String| t@)
}

/// The fields of `s` between occurrences of `sep`, empty ones included.
pub fn split_char(s: &str, sep: char) -> (fields: Vec<String>)
    ensures
        strings_view(fields@) == split_spec(s@, sep),
{
    let mut fields: Vec<String> = Vec::new();
    let mut cur = String::new();
    let ghost t = s@;
    assert(t.skip(0) =~= t);
    for c in it: s.chars()
        invariant
            it.seq() == t,
            split_spec(t, sep) == strings_view(fields@) + split_from(t.skip(it.index() as int), sep, cur@),
    {
        let ghost i = it.index() as int;
        assert(t.skip(i).skip(1) =~= t.skip(i + 1));
        assert(t.skip(i)[0] == c);
        if c == sep {
            let ghost before = strings_view(fields@);
            let ghost field = cur@;
            fields.push(cur);
            assert(strings_view(fields@) =~= before + seq![field]);
            cur = String::new();
            assert(cur@ =~= Seq::<char>::empty());
        } else {
            push_char(&mut cur, c);
        }
    }
    assert(t.skip(t.len() as int) =~= Seq::<char>::empty());
    let ghost before = strings_view(fields@);
    let ghost field = cur@;
    fields.push(cur);
    assert(strings_view(fields@) =~= before + seq![field]);
    fields
}

/// The characters of `s`, in order.
pub fn chars_of(s: &str) -> (v: Vec<char>)
    ensures
        v@ == s@,
{
    let mut v: Vec<char> = Vec::new();
    for c in it: s.chars()
        invariant
            it.seq() == s@,
            v@ == s@.take(it.index() as int),
    {
        v.push(c);
        assert(v@ =~= s@.take(it.index() + 1));
    }
    assert(s@.take(s@.len() as int) =~= s@);
    v
}

/// The first position, at or after `from`, where `pat` occurs in `s`.
/// Positions at the end of `s` are not considered.
pub open spec fn find_seq_from(s: Seq<char>, pat: Seq<char>, from: int) -> Option<int>
    decreases s.len() - from,
{
    if from < 0 || from >= s.len() || from + pat.len() > s.len() {
        None
    } else if s.subrange(from, from + pat.len()) == pat {
        Some(from)
    } else {
        find_seq_from(s, pat, from + 1)
    }
}

/// A position [`find_seq_from`] finds is an occurrence of the pattern at or
/// after the start, and no earlier position from the start is one.
pub proof fn lemma_find_seq_from(s: Seq<char>, pat: Seq<char>, from: int)
    ensures
        find_seq_from(s, pat, from) matches Some(k) ==> from <= k < s.len() && k + pat.len()
            <= s.len() && s.subrange(k, k + pat.len()) == pat,
    decreases s.len() - from,
{
    if from < 0 || from >= s.len() || from + pat.len() > s.len() {
    } else if s.subrange(from, from + pat.len()) == pat {
    } else {
        lemma_find_seq_from(s, pat, from + 1);
    }
}

/// Whether `pat` occurs in `s` at `i`.
fn matches_at(s: &Vec<char>, pat: &Vec<char>, i: usize) -> (r: bool)
    requires
        i + pat@.len() <= s@.len(),
    ensures
        r == (s@.subrange(i as int, i + pat@.len()) == pat@),
{
    let mut j: usize = 0;
    while j < pat.len()
        invariant
            j <= pat@.len(),
            i + pat@.len() <= s@.len(),
            s@.len() == s.len(),
            forall|k: int| 0 <= k < j ==> s@[i + k] == pat@[k],
        decreases pat@.len() - j,
    {
        if s[i + j] != pat[j] {
            assert(s@.subrange(i as int, i + pat@.len())[j as int] != pat@[j as int]);
            return false;
        }
        j = j + 1;
    }
    assert(s@.subrange(i as int, i + pat@.len()) =~= pat@);
    true
}

/// The first position, at or after `from`, where `pat` occurs in `s`.
pub fn find_seq(s: &Vec<char>, pat: &Vec<char>, from: usize) -> (r: Option<usize>)
    ensures
        find_seq_from(s@, pat@, from as int) == (match r {
            Some(k) => Some(k as int),
            None => None::<int>,
        }),
{
    let mut i = from;
    while i < s.len() && pat.len() <= s.len() - i
        invariant
            from <= i,
            find_seq_from(s@, pat@, from as int) == find_seq_from(s@, pat@, i as int),
        decreases s@.len() - i,
    {
        if matches_at(s, pat, i) {
            return Some(i);
        }
        i = i + 1;
    }
    None
}

/// The leading characters of `s` up to the first one of `class`.
pub open spec fn field_until(s: Seq<char>, class: CharClass) -> Seq<char>
    decreases s.len(),
{
    if s.len() > 0 && !in_class(s[0], class) {
        seq![s[0]] + field_until(s.skip(1), class)
    } else {
        Seq::empty()
    }
}

/// [`field_until`] ends at the first character of the class.
pub proof fn lemma_field_until_at(s: Seq<char>, k: int, class: CharClass)
    requires
        0 <= k <= s.len(),
        forall|j: int| 0 <= j < k ==> !in_class(s[j], class),
        k == s.len() || in_class(s[k], class),
    ensures
        field_until(s, class) == s.take(k),
    decreases k,
{
    if k == 0 {
        assert(s.take(0) =~= Seq::<char>::empty());
    } else {
        lemma_field_until_at(s.skip(1), k - 1, class);
        assert(seq![s[0]] + s.skip(1).take(k - 1) =~= s.take(k));
    }
}

/// `a` followed by `b`.
pub fn concat(a: &str, b: &str) -> (r: String)
    ensures
        r@ == a@ + b@,
{
    let mut out = String::new();
    for c in it: a.chars()
        invariant
            it.seq() == a@,
            out@ == a@.take(it.index() as int),
    {
        push_char(&mut out, c);
        assert(out@ =~= a@.take(it.index() + 1));
    }
    assert(a@.take(a@.len() as int) =~= a@);
    for c in it: b.chars()
        invariant
            it.seq() == b@,
            out@ == a@ + b@.take(it.index() as int),
    {
        push_char(&mut out, c);
        assert(out@ =~= a@ + b@.take(it.index() + 1));
    }
    assert(b@.take(b@.len() as int) =~= b@);
    out
}

/// Whether two strings hold the same characters.
pub fn str_eq(a: &str, b: &str) -> (r: bool)
    ensures
        r == (a@ == b@),
{
    let n = a.unicode_len();
    if n != b.unicode_len() {
        return false;
    }
    let mut i: usize = 0;
    for c in it: a.chars()
        invariant
            i == it.index(),
            it.seq() == a@,
            n == a@.len(),
            n == b@.len(),
            forall|j: int| 0 <= j < i ==> a@[j] == b@[j],
    {
        if c != b.get_char(i) {
            return false;
        }
        i = i + 1;
    }
    assert(a@ =~= b@);
    true
}

} // verus!

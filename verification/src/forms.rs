//! Form-control value rules: textarea hard wrapping, non-negative integer
//! attributes, the selection direction, and the form `enctype` keyword.

use vstd::prelude::*;

use crate::text::{
    eq_ignore_ascii_case, push_char, spec_ascii_lowercase, spec_eq_ignore_ascii_case, str_eq,
    to_ascii_lowercase, trim, trim_spec,
};

verus! {

/// Whether a `textarea`'s `wrap` attribute is in the Hard state
/// (<https://html.spec.whatwg.org/multipage/form-elements.html#attr-textarea-wrap>):
/// an enumerated attribute, ASCII case-insensitive, surrounding whitespace
/// ignored.
pub fn wrap_is_hard(wrap: Option<&str>) -> (hard: bool)
    ensures
        hard == (match wrap {
            Some(w) => spec_eq_ignore_ascii_case(trim_spec(w@), "hard"@),
            None => false,
        }),
{
    match wrap {
        Some(w) => eq_ignore_ascii_case(trim(w), "hard"),
        None => false,
    }
}

/// Whether `c` is an ASCII digit.
pub open spec fn spec_is_ascii_digit(c: char) -> bool {
    '0' <= c <= '9'
}

/// The number an all-digit string spells.
pub open spec fn digits_value(s: Seq<char>) -> nat
    decreases s.len(),
{
    if s.len() == 0 {
        0
    } else {
        digits_value(s.drop_last()) * 10 + ((s.last() as u32) - ('0' as u32)) as nat
    }
}

/// The non-negative integer in an attribute value: surrounding whitespace is
/// ignored; anything but a non-empty run of ASCII digits, or a value beyond
/// `usize`, is no value.
pub open spec fn parse_positive_spec(value: Option<Seq<char>>) -> Option<nat> {
    match value {
        None => None,
        Some(v) => {
            let text = trim_spec(v);
            if text.len() == 0 || !(forall|i: int| 0 <= i < text.len() ==> spec_is_ascii_digit(text[i])) {
                None
            } else if digits_value(text) > usize::MAX {
                None
            } else {
                Some(digits_value(text))
            }
        },
    }
}

/// The non-negative integer in `value`, or `None` for an absent or invalid
/// attribute (<https://html.spec.whatwg.org/multipage/common-microsyntaxes.html#rules-for-parsing-non-negative-integers>).
pub fn parse_positive(value: Option<&str>) -> (parsed: Option<usize>)
    ensures
        (match parsed {
            Some(n) => Some(n as nat),
            None => None::<nat>,
        }) == parse_positive_spec(match value {
            Some(v) => Some(v@),
            None => None::<Seq<char>>,
        }),
{
    let v = match value {
        Some(v) => v,
        None => return None,
    };
    let text = trim(v);
    let n = text.unicode_len();
    if n == 0 {
        return None;
    }
    let mut total: usize = 0;
    let mut overflowed = false;
    let mut i: usize = 0;
    for c in it: text.chars()
        invariant
            i == it.index(),
            it.seq() == text@,
            n == text@.len(),
            n > 0,
            value == Some(v),
            text@ == trim_spec(v@),
            forall|j: int| 0 <= j < i ==> spec_is_ascii_digit(text@[j]),
            !overflowed ==> total == digits_value(text@.take(i as int)),
            overflowed ==> digits_value(text@.take(i as int)) > usize::MAX,
    {
        if !(c >= '0' && c <= '9') {
            assert(!spec_is_ascii_digit(text@[i as int]));
            return None;
        }
        let digit = ((c as u32) - ('0' as u32)) as usize;
        assert(text@.take(i + 1).drop_last() =~= text@.take(i as int));
        assert(text@.take(i + 1).last() == c);
        proof {
            lemma_digits_value_grows(text@.take(i as int), c);
        }
        if !overflowed {
            match total.checked_mul(10) {
                Some(t) => match t.checked_add(digit) {
                    Some(t2) => {
                        total = t2;
                    },
                    None => {
                        overflowed = true;
                    },
                },
                None => {
                    overflowed = true;
                },
            }
        }
        i = i + 1;
    }
    assert(text@.take(text@.len() as int) =~= text@);
    if overflowed {
        None
    } else {
        Some(total)
    }
}

proof fn lemma_digits_value_grows(s: Seq<char>, c: char)
    requires
        spec_is_ascii_digit(c),
    ensures
        digits_value(s.push(c)) == digits_value(s) * 10 + ((c as u32) - ('0' as u32)),
        digits_value(s.push(c)) >= digits_value(s),
{
    assert(s.push(c).drop_last() =~= s);
}

/// The textarea hard-wrapping transformation over `s`, with `col` characters
/// already on the current output line: a line feed starts a new line, and a
/// line break is inserted before a character that would make a line longer
/// than `cols`.
pub open spec fn hard_wrap_from(s: Seq<char>, col: nat, cols: nat) -> Seq<char>
    decreases s.len(),
{
    if s.len() == 0 {
        Seq::empty()
    } else if s[0] == '\n' {
        seq!['\n'] + hard_wrap_from(s.skip(1), 0, cols)
    } else if col >= cols {
        seq!['\n', s[0]] + hard_wrap_from(s.skip(1), 1, cols)
    } else {
        seq![s[0]] + hard_wrap_from(s.skip(1), col + 1, cols)
    }
}

/// The textarea hard-wrapping transformation: break each line every `cols`
/// characters (at least one) and join with LF
/// (<https://html.spec.whatwg.org/multipage/form-elements.html#textarea-wrapping-transformation>).
pub open spec fn hard_wrap_spec(value: Seq<char>, cols: nat) -> Seq<char> {
    hard_wrap_from(value, 0, if cols == 0 { 1 } else { cols })
}

/// `s` with its line feeds removed.
pub open spec fn without_lf(s: Seq<char>) -> Seq<char>
    decreases s.len(),
{
    if s.len() == 0 {
        Seq::empty()
    } else if s[0] == '\n' {
        without_lf(s.skip(1))
    } else {
        seq![s[0]] + without_lf(s.skip(1))
    }
}

/// Whether, with `col` characters already on the current line, no line of
/// `s` grows past `cols` characters.
pub open spec fn lines_within_from(s: Seq<char>, col: nat, cols: nat) -> bool
    decreases s.len(),
{
    if s.len() == 0 {
        true
    } else if s[0] == '\n' {
        lines_within_from(s.skip(1), 0, cols)
    } else {
        col + 1 <= cols && lines_within_from(s.skip(1), col + 1, cols)
    }
}

/// Whether every line of `s` (the text between line feeds) has at most
/// `cols` characters.
pub open spec fn lines_within(s: Seq<char>, cols: nat) -> bool {
    lines_within_from(s, 0, cols)
}

proof fn lemma_wrap_keeps_text(s: Seq<char>, col: nat, cols: nat)
    ensures
        without_lf(hard_wrap_from(s, col, cols)) == without_lf(s),
    decreases s.len(),
{
    if s.len() > 0 {
        let rest = s.skip(1);
        if s[0] == '\n' {
            lemma_wrap_keeps_text(rest, 0, cols);
            let w = hard_wrap_from(s, col, cols);
            assert(w.skip(1) =~= hard_wrap_from(rest, 0, cols));
        } else if col >= cols {
            lemma_wrap_keeps_text(rest, 1, cols);
            let w = hard_wrap_from(s, col, cols);
            assert(w.skip(1).skip(1) =~= hard_wrap_from(rest, 1, cols));
            assert(w.skip(1)[0] == s[0]);
            assert(w[0] == '\n');
            assert(without_lf(w) == without_lf(w.skip(1)));
            assert(without_lf(w.skip(1)) == seq![s[0]] + without_lf(w.skip(1).skip(1)));
        } else {
            lemma_wrap_keeps_text(rest, col + 1, cols);
            let w = hard_wrap_from(s, col, cols);
            assert(w.skip(1) =~= hard_wrap_from(rest, col + 1, cols));
            assert(w[0] == s[0]);
            assert(without_lf(w) == seq![s[0]] + without_lf(w.skip(1)));
        }
    }
}

proof fn lemma_wrap_bounds_lines(s: Seq<char>, col: nat, cols: nat)
    requires
        1 <= cols,
        col <= cols,
    ensures
        lines_within_from(hard_wrap_from(s, col, cols), col, cols),
    decreases s.len(),
{
    if s.len() > 0 {
        let rest = s.skip(1);
        let w = hard_wrap_from(s, col, cols);
        if s[0] == '\n' {
            lemma_wrap_bounds_lines(rest, 0, cols);
            assert(w.skip(1) =~= hard_wrap_from(rest, 0, cols));
        } else if col >= cols {
            lemma_wrap_bounds_lines(rest, 1, cols);
            assert(w.skip(1).skip(1) =~= hard_wrap_from(rest, 1, cols));
            assert(w.skip(1)[0] == s[0]);
            assert(lines_within_from(w.skip(1), 0, cols));
        } else {
            lemma_wrap_bounds_lines(rest, col + 1, cols);
            assert(w.skip(1) =~= hard_wrap_from(rest, col + 1, cols));
        }
    }
}

proof fn lemma_wrap_fixes_bounded(t: Seq<char>, col: nat, cols: nat)
    requires
        lines_within_from(t, col, cols),
    ensures
        hard_wrap_from(t, col, cols) == t,
    decreases t.len(),
{
    if t.len() > 0 {
        let rest = t.skip(1);
        if t[0] == '\n' {
            lemma_wrap_fixes_bounded(rest, 0, cols);
        } else {
            lemma_wrap_fixes_bounded(rest, col + 1, cols);
        }
        assert(t =~= seq![t[0]] + rest);
    }
}

/// Hard wrapping only adds line feeds, leaves no line longer than `cols`
/// characters (at least one), and wrapping its result again changes
/// nothing.
pub proof fn lemma_hard_wrap_laws(value: Seq<char>, cols: nat)
    ensures
        without_lf(hard_wrap_spec(value, cols)) == without_lf(value),
        lines_within(hard_wrap_spec(value, cols), if cols == 0 { 1 } else { cols }),
        hard_wrap_spec(hard_wrap_spec(value, cols), cols) == hard_wrap_spec(value, cols),
{
    let n: nat = if cols == 0 { 1 } else { cols };
    lemma_wrap_keeps_text(value, 0, n);
    lemma_wrap_bounds_lines(value, 0, n);
    lemma_wrap_fixes_bounded(hard_wrap_spec(value, cols), 0, n);
}

/// Applies the textarea hard-wrapping transformation to `value`.
pub fn hard_wrap(value: &str, cols: usize) -> (wrapped: String)
    ensures
        wrapped@ == hard_wrap_spec(value@, cols as nat),
{
    let cols = if cols == 0 { 1 } else { cols };
    let mut out = String::new();
    let mut col: usize = 0;
    let ghost s = value@;
    assert(s.skip(0) =~= s);
    for c in it: value.chars()
        invariant
            it.seq() == s,
            1 <= cols,
            col <= cols,
            hard_wrap_spec(s, cols as nat) == out@ + hard_wrap_from(s.skip(it.index() as int), col as nat, cols as nat),
    {
        let ghost k = it.index() as int;
        assert(s.skip(k).skip(1) =~= s.skip(k + 1));
        assert(s.skip(k)[0] == c);
        let ghost before = out@;
        if c == '\n' {
            push_char(&mut out, '\n');
            col = 0;
            assert(before + (seq!['\n'] + hard_wrap_from(s.skip(k + 1), 0, cols as nat)) =~= out@ + hard_wrap_from(s.skip(k + 1), 0, cols as nat));
        } else if col >= cols {
            push_char(&mut out, '\n');
            push_char(&mut out, c);
            col = 1;
            assert(before + (seq!['\n', c] + hard_wrap_from(s.skip(k + 1), 1, cols as nat)) =~= out@ + hard_wrap_from(s.skip(k + 1), 1, cols as nat));
        } else {
            push_char(&mut out, c);
            col = col + 1;
            assert(before + (seq![c] + hard_wrap_from(s.skip(k + 1), col as nat, cols as nat)) =~= out@ + hard_wrap_from(s.skip(k + 1), col as nat, cols as nat));
        }
    }
    assert(s.skip(s.len() as int) =~= Seq::<char>::empty());
    assert(out@ + Seq::<char>::empty() =~= out@);
    out
}

/// The `SelectionMode` direction name for a stored code
/// (<https://html.spec.whatwg.org/multipage/form-control-infrastructure.html#selection-direction>).
pub open spec fn spec_direction_name(direction: u8) -> Seq<char> {
    if direction == 1 {
        "forward"@
    } else if direction == 2 {
        "backward"@
    } else {
        "none"@
    }
}

/// The direction name for a stored code.
pub fn direction_name(direction: u8) -> (name: &'static str)
    ensures
        name@ == spec_direction_name(direction),
{
    match direction {
        1 => "forward",
        2 => "backward",
        _ => "none",
    }
}

/// The stored code for a `selectionDirection` string; anything but the two
/// known keywords is "none".
pub open spec fn spec_direction_code(direction: Seq<char>) -> u8 {
    if direction == "forward"@ {
        1
    } else if direction == "backward"@ {
        2
    } else {
        0
    }
}

/// Maps a `selectionDirection` string to its stored code.
pub fn direction_code(direction: &str) -> (code: u8)
    ensures
        code == spec_direction_code(direction@),
{
    if str_eq(direction, "forward") {
        1
    } else if str_eq(direction, "backward") {
        2
    } else {
        0
    }
}

/// The form `enctype` keyword for a raw attribute value: the three known
/// keywords, ASCII case-insensitively and ignoring surrounding whitespace,
/// with the urlencoded default for any other value
/// (<https://html.spec.whatwg.org/multipage/form-control-infrastructure.html#attr-fs-enctype>).
pub open spec fn spec_encoding_keyword(raw: Seq<char>) -> Seq<char> {
    let key = spec_ascii_lowercase(trim_spec(raw));
    if key == "multipart/form-data"@ {
        "multipart/form-data"@
    } else if key == "text/plain"@ {
        "text/plain"@
    } else {
        "application/x-www-form-urlencoded"@
    }
}

/// The form `enctype` keyword for a raw attribute value.
pub fn encoding_keyword(raw: &str) -> (keyword: &'static str)
    ensures
        keyword@ == spec_encoding_keyword(raw@),
{
    let key = to_ascii_lowercase(trim(raw));
    if str_eq(key.as_str(), "multipart/form-data") {
        "multipart/form-data"
    } else if str_eq(key.as_str(), "text/plain") {
        "text/plain"
    } else {
        "application/x-www-form-urlencoded"
    }
}


/// One `<option>` of a `<select>`: its value, whether it is selected, and
/// whether it is disabled (itself or through its `optgroup`).
pub struct OptionState {
    pub value: String,
    pub selected: bool,
    pub disabled: bool,
}

/// What the form data set reads of one listed control.
pub struct ControlState {
    /// The element's local name (HTML namespace).
    pub local: String,
    /// The `type` attribute.
    pub type_attr: Option<String>,
    /// The `value` attribute.
    pub value_attr: Option<String>,
    /// The `wrap` attribute.
    pub wrap_attr: Option<String>,
    /// The `cols` attribute.
    pub cols_attr: Option<String>,
    /// Whether the `multiple` attribute is present.
    pub multiple: bool,
    /// The checkedness.
    pub checked: bool,
    /// The current value: a `textarea`'s, an `input`'s or a `select`'s.
    pub current_value: String,
    /// A `select`'s options.
    pub options: Vec<OptionState>,
}

/// One entry a control contributes: a name and text value, or a name whose
/// files the caller reads from the control.
pub enum PendingEntry {
    Text(String, String),
    Files(String),
}

/// The view of an entry: `(is_files, name, value)`.
pub open spec fn entry_view(e: PendingEntry) -> (bool, Seq<char>, Seq<char>) {
    match e {
        PendingEntry::Text(n, v) => (false, n@, v@),
        PendingEntry::Files(n) => (true, n@, Seq::empty()),
    }
}

/// The view of the entries.
pub open spec fn entries_view(v: Seq<PendingEntry>) -> Seq<(bool, Seq<char>, Seq<char>)> {
    v.map_values(|e: PendingEntry| entry_view(e))
}

/// The view of an optional string.
pub open spec fn opt_seq(s: Option<String>) -> Option<Seq<char>> {
    match s {
        Some(s) => Some(s@),
        None => None,
    }
}

/// An `input`'s type keyword: its `type` attribute, `text` when absent,
/// trimmed and ASCII-lowercased.
pub open spec fn input_type(type_attr: Option<Seq<char>>) -> Seq<char> {
    spec_ascii_lowercase(
        trim_spec(
            match type_attr {
                Some(t) => t,
                None => "text"@,
            },
        ),
    )
}

/// The entries of a `<select multiple>`: one per selected, enabled option,
/// in order.
pub open spec fn selected_entries(name: Seq<char>, options: Seq<OptionState>) -> Seq<
    (bool, Seq<char>, Seq<char>),
>
    decreases options.len(),
{
    if options.len() == 0 {
        Seq::empty()
    } else {
        let rest = selected_entries(name, options.drop_last());
        let o = options.last();
        if o.selected && !o.disabled {
            rest.push((false, name, o.value@))
        } else {
            rest
        }
    }
}

/// The value of an attribute, or the empty string.
pub open spec fn or_empty(v: Option<Seq<char>>) -> Seq<char> {
    match v {
        Some(v) => v,
        None => Seq::empty(),
    }
}

/// The entries a control named `name` contributes to the form data set
/// (<https://html.spec.whatwg.org/multipage/form-control-infrastructure.html#constructing-form-data-set>):
/// a `textarea` its (hard-wrapped) value; a button, submit or image input
/// its `value` only when it is the submitter; a checkbox or radio its
/// `value` (`on` by default) only when checked; a file input its files; a
/// `select multiple` each selected enabled option; any other input or
/// `select` its value; reset and plain buttons, and other elements, nothing.
pub open spec fn pending_entry_spec(c: ControlState, name: Seq<char>, is_submitter: bool) -> Seq<
    (bool, Seq<char>, Seq<char>),
> {
    let local = c.local@;
    if local == "textarea"@ {
        let value = if wrap_is_hard_spec(opt_seq(c.wrap_attr)) {
            hard_wrap_spec(
                c.current_value@,
                match parse_positive_spec(opt_seq(c.cols_attr)) {
                    Some(n) => n,
                    None => 20,
                },
            )
        } else {
            c.current_value@
        };
        seq![(false, name, value)]
    } else if local == "button"@ {
        if is_submitter {
            seq![(false, name, or_empty(opt_seq(c.value_attr)))]
        } else {
            Seq::empty()
        }
    } else if local == "input"@ {
        let t = input_type(opt_seq(c.type_attr));
        if t == "reset"@ || t == "button"@ {
            Seq::empty()
        } else if t == "submit"@ || t == "image"@ {
            if is_submitter {
                seq![(false, name, or_empty(opt_seq(c.value_attr)))]
            } else {
                Seq::empty()
            }
        } else if t == "checkbox"@ || t == "radio"@ {
            if c.checked {
                seq![
                    (false, name, match opt_seq(c.value_attr) {
                        Some(v) => v,
                        None => "on"@,
                    }),
                ]
            } else {
                Seq::empty()
            }
        } else if t == "file"@ {
            seq![(true, name, Seq::empty())]
        } else {
            seq![(false, name, c.current_value@)]
        }
    } else if local == "select"@ {
        if c.multiple {
            selected_entries(name, c.options@)
        } else {
            seq![(false, name, c.current_value@)]
        }
    } else {
        Seq::empty()
    }
}

/// A checked checkbox or radio button contributes one entry: the control's
/// name with its `value` attribute, or `"on"` when it has none. Unchecked,
/// it contributes nothing. Whether it is the submitter does not matter.
pub proof fn lemma_checked_box_submits_its_value(c: ControlState, name: Seq<char>, is_submitter: bool)
    requires
        c.local@ == "input"@,
        input_type(opt_seq(c.type_attr)) == "checkbox"@ || input_type(opt_seq(c.type_attr))
            == "radio"@,
    ensures
        !c.checked ==> pending_entry_spec(c, name, is_submitter).len() == 0,
        c.checked ==> {
            let entries = pending_entry_spec(c, name, is_submitter);
            &&& entries.len() == 1
            &&& !entries[0].0
            &&& entries[0].1 == name
            &&& (c.value_attr matches Some(v) ==> entries[0].2 == v@)
            &&& (c.value_attr is None ==> entries[0].2 == "on"@)
        },
{
    reveal_strlit("input");
    reveal_strlit("textarea");
    reveal_strlit("button");
    reveal_strlit("reset");
    reveal_strlit("submit");
    reveal_strlit("image");
    reveal_strlit("checkbox");
    reveal_strlit("radio");
    reveal_strlit("on");
    assert("input"@.len() != "textarea"@.len());
    assert("input"@.len() != "button"@.len());
    let t = input_type(opt_seq(c.type_attr));
    if t == "checkbox"@ {
        assert(t.len() != "reset"@.len() && t.len() != "button"@.len());
        assert(t.len() != "submit"@.len() && t.len() != "image"@.len());
    } else {
        assert(t[1] != "reset"@[1]);
        assert(t.len() != "button"@.len() && t.len() != "submit"@.len());
        assert(t[0] != "image"@[0]);
    }
}

proof fn lemma_control_names_differ()
    ensures
        "input"@ != "textarea"@,
        "input"@ != "button"@,
        "select"@ != "textarea"@,
        "select"@ != "button"@,
        "select"@ != "input"@,
        "textarea"@ != "button"@,
{
    reveal_strlit("input");
    reveal_strlit("textarea");
    reveal_strlit("button");
    reveal_strlit("select");
    assert("input"@.len() != "textarea"@.len() && "input"@.len() != "button"@.len());
    assert("select"@.len() != "textarea"@.len() && "select"@.len() != "input"@.len());
    assert("select"@[0] != "button"@[0]);
    assert("textarea"@.len() != "button"@.len());
}

proof fn lemma_input_types_differ()
    ensures
        "reset"@ != "submit"@ && "reset"@ != "image"@ && "reset"@ != "checkbox"@ && "reset"@
            != "radio"@ && "reset"@ != "file"@ && "reset"@ != "button"@,
        "button"@ != "submit"@ && "button"@ != "image"@ && "button"@ != "checkbox"@ && "button"@
            != "radio"@ && "button"@ != "file"@,
        "submit"@ != "image"@ && "submit"@ != "checkbox"@ && "submit"@ != "radio"@ && "submit"@
            != "file"@,
        "image"@ != "checkbox"@ && "image"@ != "radio"@ && "image"@ != "file"@,
        "checkbox"@ != "radio"@ && "checkbox"@ != "file"@,
        "radio"@ != "file"@,
{
    reveal_strlit("reset");
    reveal_strlit("button");
    reveal_strlit("submit");
    reveal_strlit("image");
    reveal_strlit("checkbox");
    reveal_strlit("radio");
    reveal_strlit("file");
    assert("reset"@[0] != "image"@[0] && "reset"@[1] != "radio"@[1]);
    assert("button"@[0] != "submit"@[0]);
    assert("image"@[0] != "radio"@[0]);
    assert("reset"@.len() != "submit"@.len() && "reset"@.len() != "checkbox"@.len());
    assert("reset"@.len() != "file"@.len() && "reset"@.len() != "button"@.len());
    assert("button"@.len() != "image"@.len() && "button"@.len() != "checkbox"@.len());
    assert("button"@.len() != "radio"@.len() && "button"@.len() != "file"@.len());
    assert("submit"@.len() != "image"@.len() && "submit"@.len() != "checkbox"@.len());
    assert("submit"@.len() != "radio"@.len() && "submit"@.len() != "file"@.len());
    assert("image"@.len() != "checkbox"@.len() && "image"@.len() != "file"@.len());
    assert("checkbox"@.len() != "radio"@.len() && "checkbox"@.len() != "file"@.len());
    assert("radio"@.len() != "file"@.len());
}

/// What an `input` contributes by its type: a reset or button input
/// nothing; a submit or image input its `value` (or the empty string) only
/// when it is the submitter; a file input one file entry; any other type
/// that is not a checkbox or radio button one entry with its current value.
pub proof fn lemma_input_entries(c: ControlState, name: Seq<char>, is_submitter: bool)
    requires
        c.local@ == "input"@,
    ensures
        ({
            let t = input_type(opt_seq(c.type_attr));
            let entries = pending_entry_spec(c, name, is_submitter);
            &&& (t == "reset"@ || t == "button"@) ==> entries.len() == 0
            &&& (t == "submit"@ || t == "image"@) ==> (if is_submitter {
                entries == seq![(false, name, or_empty(opt_seq(c.value_attr)))]
            } else {
                entries.len() == 0
            })
            &&& t == "file"@ ==> entries == seq![(true, name, Seq::<char>::empty())]
            &&& !(t == "reset"@ || t == "button"@ || t == "submit"@ || t == "image"@ || t
                == "checkbox"@ || t == "radio"@ || t == "file"@) ==> entries == seq![
                (false, name, c.current_value@),
            ]
        }),
{
    lemma_control_names_differ();
    lemma_input_types_differ();
}

/// A `textarea` contributes one entry with its current value; with hard
/// wrapping, only line feeds are added to it and no line is longer than the
/// `cols` (20 when missing or invalid).
pub proof fn lemma_textarea_entry(c: ControlState, name: Seq<char>, is_submitter: bool)
    requires
        c.local@ == "textarea"@,
    ensures
        ({
            let entries = pending_entry_spec(c, name, is_submitter);
            let cols: nat = match parse_positive_spec(opt_seq(c.cols_attr)) {
                Some(n) => n,
                None => 20,
            };
            &&& entries.len() == 1
            &&& !entries[0].0 && entries[0].1 == name
            &&& !wrap_is_hard_spec(opt_seq(c.wrap_attr)) ==> entries[0].2 == c.current_value@
            &&& wrap_is_hard_spec(opt_seq(c.wrap_attr)) ==> {
                &&& without_lf(entries[0].2) == without_lf(c.current_value@)
                &&& lines_within(entries[0].2, if cols == 0 { 1 } else { cols })
            }
        }),
{
    let cols: nat = match parse_positive_spec(opt_seq(c.cols_attr)) {
        Some(n) => n,
        None => 20,
    };
    lemma_hard_wrap_laws(c.current_value@, cols);
}

/// A button contributes its `value` (or the empty string) when it is the
/// submitter and nothing otherwise; a `select` without `multiple` its
/// current value; any other element nothing.
pub proof fn lemma_other_control_entries(c: ControlState, name: Seq<char>, is_submitter: bool)
    ensures
        c.local@ == "button"@ ==> pending_entry_spec(c, name, is_submitter) == if is_submitter {
            seq![(false, name, or_empty(opt_seq(c.value_attr)))]
        } else {
            Seq::empty()
        },
        c.local@ == "select"@ && !c.multiple ==> pending_entry_spec(c, name, is_submitter) == seq![
            (false, name, c.current_value@),
        ],
        !(c.local@ == "textarea"@ || c.local@ == "button"@ || c.local@ == "input"@ || c.local@
            == "select"@) ==> pending_entry_spec(c, name, is_submitter).len() == 0,
{
    lemma_control_names_differ();
}

/// Whether an optional `wrap` value is in the Hard state.
pub open spec fn wrap_is_hard_spec(wrap: Option<Seq<char>>) -> bool {
    match wrap {
        Some(w) => spec_eq_ignore_ascii_case(trim_spec(w), "hard"@),
        None => false,
    }
}

/// The view of an optional owned string, borrowed.
fn opt_str(s: &Option<String>) -> (r: Option<&str>)
    ensures
        match r {
            Some(t) => opt_seq(*s) == Some(t@),
            None => opt_seq(*s) is None,
        },
{
    match s {
        Some(t) => Some(t.as_str()),
        None => None,
    }
}

/// A copy of an attribute value, or the empty string.
fn value_or(s: &Option<String>, default: &str) -> (r: String)
    ensures
        r@ == match opt_seq(*s) {
            Some(v) => v,
            None => default@,
        },
{
    match s {
        Some(t) => t.clone(),
        None => default.to_owned(),
    }
}

/// The entries a control named `control_name` contributes to the form data
/// set.
pub fn pending_entry(control: &ControlState, control_name: String, is_submitter: bool) -> (entries: Vec<
    PendingEntry,
>)
    ensures
        entries_view(entries@) == pending_entry_spec(*control, control_name@, is_submitter),
{
    let ghost name = control_name@;
    let ghost expected = pending_entry_spec(*control, name, is_submitter);
    proof {
        reveal_strlit("");
        assert(""@ =~= Seq::<char>::empty());
    }
    let local = control.local.as_str();
    let mut out: Vec<PendingEntry> = Vec::new();
    assert(entries_view(out@) =~= Seq::<(bool, Seq<char>, Seq<char>)>::empty());
    if str_eq(local, "textarea") {
        let value = if wrap_is_hard(opt_str(&control.wrap_attr)) {
            let cols = match parse_positive(opt_str(&control.cols_attr)) {
                Some(n) => n,
                None => 20,
            };
            hard_wrap(control.current_value.as_str(), cols)
        } else {
            control.current_value.clone()
        };
        let ghost v = value@;
        out.push(PendingEntry::Text(control_name, value));
        assert(entries_view(out@) =~= seq![(false, name, v)]);
        assert(entries_view(out@) =~= expected);
    } else if str_eq(local, "button") {
        if is_submitter {
            let value = value_or(&control.value_attr, "");
            let ghost v = value@;
            out.push(PendingEntry::Text(control_name, value));
            assert(entries_view(out@) =~= seq![(false, name, v)]);
        }
        assert(entries_view(out@) =~= expected);
    } else if str_eq(local, "input") {
        let raw = match &control.type_attr {
            Some(t) => t.as_str(),
            None => "text",
        };
        let t = to_ascii_lowercase(trim(raw));
        assert(t@ == input_type(opt_seq(control.type_attr)));
        let ts = t.as_str();
        if str_eq(ts, "reset") || str_eq(ts, "button") {
        } else if str_eq(ts, "submit") || str_eq(ts, "image") {
            if is_submitter {
                let value = value_or(&control.value_attr, "");
                let ghost v = value@;
                out.push(PendingEntry::Text(control_name, value));
                assert(entries_view(out@) =~= seq![(false, name, v)]);
            }
        } else if str_eq(ts, "checkbox") || str_eq(ts, "radio") {
            if control.checked {
                let value = value_or(&control.value_attr, "on");
                let ghost v = value@;
                out.push(PendingEntry::Text(control_name, value));
                assert(entries_view(out@) =~= seq![(false, name, v)]);
            }
        } else if str_eq(ts, "file") {
            out.push(PendingEntry::Files(control_name));
            assert(entries_view(out@) =~= seq![(true, name, Seq::<char>::empty())]);
        } else {
            let value = control.current_value.clone();
            let ghost v = value@;
            out.push(PendingEntry::Text(control_name, value));
            assert(entries_view(out@) =~= seq![(false, name, v)]);
        }
        assert(entries_view(out@) =~= expected);
    } else if str_eq(local, "select") {
        if control.multiple {
            let mut i: usize = 0;
            assert(control.options@.take(0) =~= Seq::<OptionState>::empty());
            while i < control.options.len()
                invariant
                    i <= control.options@.len(),
                    name == control_name@,
                    entries_view(out@) == selected_entries(name, control.options@.take(i as int)),
                decreases control.options@.len() - i,
            {
                let o = &control.options[i];
                assert(control.options@.take(i + 1).drop_last() =~= control.options@.take(i as int));
                assert(control.options@.take(i + 1).last() == *o);
                if o.selected && !o.disabled {
                    let ghost before = out@;
                    out.push(PendingEntry::Text(control_name.clone(), o.value.clone()));
                    assert(entries_view(out@) =~= entries_view(before).push((false, name, o.value@)));
                }
                assert(entries_view(out@) =~= selected_entries(name, control.options@.take(i + 1)));
                i = i + 1;
            }
            assert(control.options@.take(control.options@.len() as int) =~= control.options@);
        } else {
            let value = control.current_value.clone();
            let ghost v = value@;
            out.push(PendingEntry::Text(control_name, value));
            assert(entries_view(out@) =~= seq![(false, name, v)]);
        }
        assert(entries_view(out@) =~= expected);
    } else {
        assert(entries_view(out@) =~= expected);
    }
    out
}


/// The bytes a Latin-1 string carries, one per character (each character
/// below U+0100 stands for its byte).
pub open spec fn latin1_bytes_spec(s: Seq<char>) -> Seq<u8> {
    s.map_values(|c: char| c as u8)
}

/// The bytes of a form body that crossed the script boundary as a Latin-1
/// string, one character per byte.
pub fn latin1_bytes(body: &str) -> (bytes: Vec<u8>)
    ensures
        bytes@ == latin1_bytes_spec(body@),
{
    let mut out: Vec<u8> = Vec::new();
    for c in it: body.chars()
        invariant
            it.seq() == body@,
            out@ == latin1_bytes_spec(body@.take(it.index() as int)),
    {
        out.push(c as u8);
        assert(out@ =~= latin1_bytes_spec(body@.take(it.index() + 1)));
    }
    assert(body@.take(body@.len() as int) =~= body@);
    out
}

/// Whether a form submission's `target` lands in the submitting frame: the
/// empty target and the `_`-keywords do; any other names a frame.
pub fn form_target_is_self(target: &str) -> (own: bool)
    ensures
        own == (target@.len() == 0 || target@[0] == '_'),
{
    if target.unicode_len() == 0 {
        return true;
    }
    target.get_char(0) == '_'
}

/// Reading the Latin-1 text of bytes back as bytes gives the bytes.
pub proof fn lemma_latin1_round_trip(bytes: Seq<u8>)
    ensures
        latin1_bytes_spec(crate::encoding::latin1_text(bytes)) == bytes,
{
    assert forall|i: int| 0 <= i < bytes.len() implies ((bytes[i] as char) as u8) == bytes[i] by {
        let b = bytes[i];
        assert((b as char) as u32 == b as u32);
        assert(((b as char) as u8) == b);
    }
    assert(latin1_bytes_spec(crate::encoding::latin1_text(bytes)) =~= bytes);
}


/// A listed element of the form's tree, as the entry list reads it.
pub struct ListedControl {
    pub state: ControlState,
    /// Whether the form is its form owner.
    pub owned_by_form: bool,
    /// Its `name` attribute.
    pub name: Option<String>,
    /// Whether it is disabled.
    pub disabled: bool,
    /// Whether it has a `datalist` ancestor.
    pub in_datalist: bool,
    /// Whether it is the submitter.
    pub is_submitter: bool,
}

/// Whether an element is a submittable control the entry list reads.
pub open spec fn is_submittable(local: Seq<char>) -> bool {
    local == "input"@ || local == "textarea"@ || local == "select"@ || local == "button"@
}

/// The entries one element contributes to its form's entry list
/// (<https://html.spec.whatwg.org/multipage/form-control-infrastructure.html#constructing-form-data-set>):
/// nothing unless it is a submittable control of this form with a non-empty
/// name, enabled and outside any `datalist`; a hidden input named
/// `_charset_` carries the encoding name; any other control its
/// [`pending_entry_spec`].
pub open spec fn control_entries_spec(c: ListedControl) -> Seq<(bool, Seq<char>, Seq<char>)> {
    match opt_seq(c.name) {
        None => Seq::empty(),
        Some(name) => if !is_submittable(c.state.local@) || !c.owned_by_form || name.len() == 0
            || c.disabled || c.in_datalist {
            Seq::empty()
        } else if c.state.local@ == "input"@ && match opt_seq(c.state.type_attr) {
            Some(t) => spec_eq_ignore_ascii_case(trim_spec(t), "hidden"@),
            None => false,
        } && spec_eq_ignore_ascii_case(name, "_charset_"@) {
            seq![(false, name, "UTF-8"@)]
        } else {
            pending_entry_spec(c.state, name, c.is_submitter)
        },
    }
}

/// The entries of all the elements, in order.
pub open spec fn entry_list_spec(controls: Seq<ListedControl>) -> Seq<(bool, Seq<char>, Seq<char>)>
    decreases controls.len(),
{
    if controls.len() == 0 {
        Seq::empty()
    } else {
        entry_list_spec(controls.drop_last()) + control_entries_spec(controls.last())
    }
}

/// The entries one element contributes to its form's entry list.
pub fn control_entries(c: &ListedControl) -> (entries: Vec<PendingEntry>)
    ensures
        entries_view(entries@) == control_entries_spec(*c),
{
    let name = match &c.name {
        Some(n) => n,
        None => {
            let out: Vec<PendingEntry> = Vec::new();
            assert(entries_view(out@) =~= Seq::<(bool, Seq<char>, Seq<char>)>::empty());
            return out;
        },
    };
    let local = c.state.local.as_str();
    let submittable = str_eq(local, "input") || str_eq(local, "textarea") || str_eq(local, "select")
        || str_eq(local, "button");
    if !submittable || !c.owned_by_form || name.as_str().unicode_len() == 0 || c.disabled || c.in_datalist {
        let out: Vec<PendingEntry> = Vec::new();
        assert(entries_view(out@) =~= Seq::<(bool, Seq<char>, Seq<char>)>::empty());
        return out;
    }
    let hidden = match &c.state.type_attr {
        Some(t) => eq_ignore_ascii_case(trim(t.as_str()), "hidden"),
        None => false,
    };
    if str_eq(local, "input") && hidden && eq_ignore_ascii_case(name.as_str(), "_charset_") {
        let mut out: Vec<PendingEntry> = Vec::new();
        out.push(PendingEntry::Text(name.clone(), "UTF-8".to_owned()));
        assert(entries_view(out@) =~= seq![(false, name@, "UTF-8"@)]);
        return out;
    }
    pending_entry(&c.state, name.clone(), c.is_submitter)
}

/// A form's entry list: the entries of its elements in tree order.
pub fn entry_list(controls: &Vec<ListedControl>) -> (entries: Vec<PendingEntry>)
    ensures
        entries_view(entries@) == entry_list_spec(controls@),
{
    let mut out: Vec<PendingEntry> = Vec::new();
    let mut i: usize = 0;
    assert(controls@.take(0) =~= Seq::<ListedControl>::empty());
    assert(entries_view(out@) =~= Seq::<(bool, Seq<char>, Seq<char>)>::empty());
    while i < controls.len()
        invariant
            i <= controls@.len(),
            entries_view(out@) == entry_list_spec(controls@.take(i as int)),
        decreases controls@.len() - i,
    {
        assert(controls@.take(i + 1).drop_last() =~= controls@.take(i as int));
        assert(controls@.take(i + 1).last() == controls@[i as int]);
        let more = control_entries(&controls[i]);
        let mut j: usize = 0;
        let ghost before = entries_view(out@);
        while j < more.len()
            invariant
                j <= more@.len(),
                entries_view(out@) == before + entries_view(more@).take(j as int),
            decreases more@.len() - j,
        {
            let e = match &more[j] {
                PendingEntry::Text(n, v) => PendingEntry::Text(n.clone(), v.clone()),
                PendingEntry::Files(n) => PendingEntry::Files(n.clone()),
            };
            let ghost ev = entry_view(e);
            let ghost prev = out@;
            assert(ev == entries_view(more@)[j as int]);
            out.push(e);
            assert(out@ == prev.push(e));
            assert(entries_view(out@) =~= entries_view(prev).push(ev));
            assert(entries_view(more@).take(j + 1) =~= entries_view(more@).take(j as int).push(ev));
            assert(entries_view(out@) =~= before + entries_view(more@).take(j + 1));
            j = j + 1;
        }
        assert(entries_view(more@).take(more@.len() as int) =~= entries_view(more@));
        i = i + 1;
    }
    assert(controls@.take(controls@.len() as int) =~= controls@);
    out
}

} // verus!

//! `DOMTokenList` for `Element.classList`
//! (<https://dom.spec.whatwg.org/#interface-domtokenlist>): the class
//! attribute read as an ordered set of tokens, and the list operations.
//!
//! Each operation takes the element's current tokens and answers with the
//! tokens to write back as the `class` attribute; a refused token leaves the
//! attribute untouched.

use vstd::prelude::*;

use crate::exceptions::DomExceptionKind;
use crate::text::{is_infra_whitespace, push_char, spec_is_ascii_whitespace};

verus! {

/// The tokens a list of strings holds.
pub open spec fn tokens_view(v: Seq<String>) -> Seq<Seq<char>> {
    v.map_values(|t: String| t@)
}

/// The pending word, as a list of at most one token.
pub open spec fn flush(cur: Seq<char>) -> Seq<Seq<char>> {
    if cur.len() > 0 {
        seq![cur]
    } else {
        Seq::empty()
    }
}

/// The maximal runs of non-whitespace characters of `s`, after a pending
/// word `cur`.
pub open spec fn split_ws_from(s: Seq<char>, cur: Seq<char>) -> Seq<Seq<char>>
    decreases s.len(),
{
    if s.len() == 0 {
        flush(cur)
    } else if spec_is_ascii_whitespace(s[0]) {
        flush(cur) + split_ws_from(s.skip(1), Seq::empty())
    } else {
        split_ws_from(s.skip(1), cur.push(s[0]))
    }
}

/// The words of `s` between runs of ASCII whitespace, as
/// `str::split_ascii_whitespace` gives them.
pub open spec fn split_ascii_whitespace_spec(s: Seq<char>) -> Seq<Seq<char>> {
    split_ws_from(s, Seq::empty())
}

/// `ts` with every repeat of an earlier token dropped.
pub open spec fn dedup_spec(ts: Seq<Seq<char>>) -> Seq<Seq<char>>
    decreases ts.len(),
{
    if ts.len() == 0 {
        Seq::empty()
    } else {
        let d = dedup_spec(ts.drop_last());
        if d.contains(ts.last()) {
            d
        } else {
            d.push(ts.last())
        }
    }
}

/// The class tokens of an attribute value: an ordered set, so duplicates
/// collapse to their first occurrence.
pub open spec fn class_tokens_spec(value: Seq<char>) -> Seq<Seq<char>> {
    dedup_spec(split_ascii_whitespace_spec(value))
}

/// No token occurs twice.
pub open spec fn no_duplicates(ts: Seq<Seq<char>>) -> bool {
    forall|i: int, j: int| 0 <= i < j < ts.len() ==> ts[i] != ts[j]
}

/// Whether `list` holds a token equal to `token`.
pub fn contains_token(list: &Vec<String>, token: &str) -> (r: bool)
    ensures
        r == tokens_view(list@).contains(token@),
{
    let mut i: usize = 0;
    while i < list.len()
        invariant
            i <= list@.len(),
            forall|j: int| 0 <= j < i ==> list@[j]@ != token@,
        decreases list@.len() - i,
    {
        if crate::text::str_eq(list[i].as_str(), token) {
            assert(tokens_view(list@)[i as int] == token@);
            return true;
        }
        i = i + 1;
    }
    assert forall|j: int| 0 <= j < tokens_view(list@).len() implies tokens_view(list@)[j] != token@ by {
        assert(tokens_view(list@)[j] == list@[j]@);
    }
    false
}

proof fn lemma_split_step(s: Seq<char>, i: int, cur: Seq<char>)
    requires
        0 <= i < s.len(),
    ensures
        split_ws_from(s.skip(i), cur) == if spec_is_ascii_whitespace(s[i]) {
            flush(cur) + split_ws_from(s.skip(i + 1), Seq::empty())
        } else {
            split_ws_from(s.skip(i + 1), cur.push(s[i]))
        },
{
    assert(s.skip(i).skip(1) =~= s.skip(i + 1));
    assert(s.skip(i)[0] == s[i]);
}

/// The words of `value` between runs of ASCII whitespace.
pub fn split_ascii_whitespace(value: &str) -> (parts: Vec<String>)
    ensures
        tokens_view(parts@) == split_ascii_whitespace_spec(value@),
{
    let mut parts: Vec<String> = Vec::new();
    let mut cur = String::new();
    let ghost s = value@;
    assert(s.skip(0) =~= s);
    for c in it: value.chars()
        invariant
            it.seq() == s,
            split_ascii_whitespace_spec(s) == tokens_view(parts@) + split_ws_from(
                s.skip(it.index() as int),
                cur@,
            ),
    {
        let ghost i = it.index() as int;
        proof {
            lemma_split_step(s, i, cur@);
        }
        if is_infra_whitespace(c) {
            if cur.as_str().unicode_len() > 0 {
                let ghost before = tokens_view(parts@);
                let ghost word = cur@;
                parts.push(cur);
                assert(tokens_view(parts@) =~= before + seq![word]);
                cur = String::new();
            } else {
                assert(flush(cur@) =~= Seq::<Seq<char>>::empty());
                assert(tokens_view(parts@) + Seq::<Seq<char>>::empty() =~= tokens_view(parts@));
            }
            assert(cur@ =~= Seq::<char>::empty());
        } else {
            push_char(&mut cur, c);
        }
    }
    assert(s.skip(s.len() as int) =~= Seq::<char>::empty());
    if cur.as_str().unicode_len() > 0 {
        let ghost before = tokens_view(parts@);
        let ghost word = cur@;
        parts.push(cur);
        assert(tokens_view(parts@) =~= before + seq![word]);
    } else {
        assert(tokens_view(parts@) + Seq::<Seq<char>>::empty() =~= tokens_view(parts@));
    }
    parts
}

/// `parts` with repeats of earlier tokens dropped.
pub fn dedup_tokens(parts: Vec<String>) -> (out: Vec<String>)
    ensures
        tokens_view(out@) == dedup_spec(tokens_view(parts@)),
{
    let mut out: Vec<String> = Vec::new();
    let mut i: usize = 0;
    while i < parts.len()
        invariant
            i <= parts@.len(),
            tokens_view(out@) == dedup_spec(tokens_view(parts@.take(i as int))),
        decreases parts@.len() - i,
    {
        assert(tokens_view(parts@.take(i + 1)).drop_last() =~= tokens_view(parts@.take(i as int)));
        assert(tokens_view(parts@.take(i + 1)).last() == parts@[i as int]@);
        if !contains_token(&out, parts[i].as_str()) {
            let ghost before = tokens_view(out@);
            out.push(parts[i].clone());
            assert(tokens_view(out@) =~= before.push(parts@[i as int]@));
        }
        i = i + 1;
    }
    assert(parts@.take(parts@.len() as int) =~= parts@);
    out
}

/// The element's class tokens, from its `class` attribute value.
pub fn class_tokens(value: &str) -> (tokens: Vec<String>)
    ensures
        tokens_view(tokens@) == class_tokens_spec(value@),
        no_duplicates(tokens_view(tokens@)),
{
    let parts = split_ascii_whitespace(value);
    let tokens = dedup_tokens(parts);
    proof {
        lemma_dedup_no_duplicates(split_ascii_whitespace_spec(value@));
    }
    tokens
}

/// Deduplication leaves no token twice.
pub proof fn lemma_dedup_no_duplicates(ts: Seq<Seq<char>>)
    ensures
        no_duplicates(dedup_spec(ts)),
    decreases ts.len(),
{
    if ts.len() > 0 {
        lemma_dedup_no_duplicates(ts.drop_last());
        let d = dedup_spec(ts.drop_last());
        if !d.contains(ts.last()) {
            assert forall|i: int, j: int| 0 <= i < j < d.push(ts.last()).len() implies d.push(
                ts.last(),
            )[i] != d.push(ts.last())[j] by {
                if j == d.len() {
                    assert(d[i] != ts.last()) by {
                        if d[i] == ts.last() {
                            assert(d.contains(ts.last()));
                        }
                    }
                }
            }
        }
    }
}

/// The refusal of a token, if any: the empty token is a syntax error, one
/// holding ASCII whitespace an invalid character
/// (<https://dom.spec.whatwg.org/#validate-a-token>).
pub open spec fn token_check(token: Seq<char>) -> Option<DomExceptionKind> {
    if token.len() == 0 {
        Some(DomExceptionKind::Syntax)
    } else if exists|i: int| 0 <= i < token.len() && spec_is_ascii_whitespace(token[i]) {
        Some(DomExceptionKind::InvalidCharacter)
    } else {
        None
    }
}

/// Whether `token` holds ASCII whitespace.
fn has_ascii_whitespace(token: &str) -> (r: bool)
    ensures
        r == exists|i: int| 0 <= i < token@.len() && spec_is_ascii_whitespace(token@[i]),
{
    for c in it: token.chars()
        invariant
            it.seq() == token@,
            forall|j: int| 0 <= j < it.index() ==> !spec_is_ascii_whitespace(token@[j]),
    {
        if is_infra_whitespace(c) {
            assert(spec_is_ascii_whitespace(token@[it.index() as int]));
            return true;
        }
    }
    false
}

/// [Token validation](https://dom.spec.whatwg.org/#validate-a-token).
pub fn validate_token(token: &str) -> (result: Result<(), DomExceptionKind>)
    ensures
        match token_check(token@) {
            Some(e) => result == Err::<(), DomExceptionKind>(e),
            None => result == Ok::<(), DomExceptionKind>(()),
        },
{
    if token.unicode_len() == 0 {
        return Err(DomExceptionKind::Syntax);
    }
    if has_ascii_whitespace(token) {
        return Err(DomExceptionKind::InvalidCharacter);
    }
    Ok(())
}

/// The refusal of a `replace` pair: emptiness of either token is checked
/// before whitespace in either.
pub open spec fn token_pair_check(old: Seq<char>, new: Seq<char>) -> Option<DomExceptionKind> {
    if old.len() == 0 || new.len() == 0 {
        Some(DomExceptionKind::Syntax)
    } else if token_check(old) is Some || token_check(new) is Some {
        Some(DomExceptionKind::InvalidCharacter)
    } else {
        None
    }
}

/// `replace` validates emptiness for both tokens before whitespace
/// (<https://dom.spec.whatwg.org/#dom-domtokenlist-replace>).
pub fn validate_token_pair(old: &str, new: &str) -> (result: Result<(), DomExceptionKind>)
    ensures
        match token_pair_check(old@, new@) {
            Some(e) => result == Err::<(), DomExceptionKind>(e),
            None => result == Ok::<(), DomExceptionKind>(()),
        },
{
    if old.unicode_len() == 0 || new.unicode_len() == 0 {
        return Err(DomExceptionKind::Syntax);
    }
    if has_ascii_whitespace(old) || has_ascii_whitespace(new) {
        return Err(DomExceptionKind::InvalidCharacter);
    }
    Ok(())
}

/// `l` with `t` appended unless it is already there.
pub open spec fn insert_token(l: Seq<Seq<char>>, t: Seq<char>) -> Seq<Seq<char>> {
    if l.contains(t) {
        l
    } else {
        l.push(t)
    }
}

/// `l` without any token equal to `t`, order kept.
pub open spec fn remove_all(l: Seq<Seq<char>>, t: Seq<char>) -> Seq<Seq<char>>
    decreases l.len(),
{
    if l.len() == 0 {
        Seq::empty()
    } else {
        let r = remove_all(l.drop_last(), t);
        if l.last() == t {
            r
        } else {
            r.push(l.last())
        }
    }
}

/// What `add(tokens...)` makes of `cur`: each token validated in turn, the
/// first refusal ending the call, every valid one appended when absent.
pub open spec fn add_spec(cur: Seq<Seq<char>>, toks: Seq<Seq<char>>) -> Result<
    Seq<Seq<char>>,
    DomExceptionKind,
>
    decreases toks.len(),
{
    if toks.len() == 0 {
        Ok(cur)
    } else {
        match add_spec(cur, toks.drop_last()) {
            Err(e) => Err(e),
            Ok(l) => match token_check(toks.last()) {
                Some(e) => Err(e),
                None => Ok(insert_token(l, toks.last())),
            },
        }
    }
}

/// What `remove(tokens...)` makes of `cur`: each token validated in turn, the
/// first refusal ending the call, every valid one removed.
pub open spec fn remove_spec(cur: Seq<Seq<char>>, toks: Seq<Seq<char>>) -> Result<
    Seq<Seq<char>>,
    DomExceptionKind,
>
    decreases toks.len(),
{
    if toks.len() == 0 {
        Ok(cur)
    } else {
        match remove_spec(cur, toks.drop_last()) {
            Err(e) => Err(e),
            Ok(l) => match token_check(toks.last()) {
                Some(e) => Err(e),
                None => Ok(remove_all(l, toks.last())),
            },
        }
    }
}

/// `list` without any token equal to `token`.
pub fn remove_token(list: Vec<String>, token: &str) -> (out: Vec<String>)
    ensures
        tokens_view(out@) == remove_all(tokens_view(list@), token@),
{
    let mut out: Vec<String> = Vec::new();
    let mut i: usize = 0;
    while i < list.len()
        invariant
            i <= list@.len(),
            tokens_view(out@) == remove_all(tokens_view(list@.take(i as int)), token@),
        decreases list@.len() - i,
    {
        assert(tokens_view(list@.take(i + 1)).drop_last() =~= tokens_view(list@.take(i as int)));
        assert(tokens_view(list@.take(i + 1)).last() == list@[i as int]@);
        if !crate::text::str_eq(list[i].as_str(), token) {
            let ghost before = tokens_view(out@);
            out.push(list[i].clone());
            assert(tokens_view(out@) =~= before.push(list@[i as int]@));
        }
        i = i + 1;
    }
    assert(list@.take(list@.len() as int) =~= list@);
    out
}

/// [`add`](https://dom.spec.whatwg.org/#dom-domtokenlist-add): the tokens to
/// write back, or the refusal of the first invalid token.
pub fn token_list_add(current: Vec<String>, tokens: &Vec<String>) -> (result: Result<
    Vec<String>,
    DomExceptionKind,
>)
    ensures
        match add_spec(tokens_view(current@), tokens_view(tokens@)) {
            Ok(l) => result matches Ok(out) && tokens_view(out@) == l,
            Err(e) => result matches Err(r) && r == e,
        },
{
    let mut list = current;
    let ghost start = tokens_view(list@);
    let mut i: usize = 0;
    while i < tokens.len()
        invariant
            i <= tokens@.len(),
            start == tokens_view(current@),
            add_spec(start, tokens_view(tokens@.take(i as int))) == Ok::<
                Seq<Seq<char>>,
                DomExceptionKind,
            >(tokens_view(list@)),
        decreases tokens@.len() - i,
    {
        let token = tokens[i].as_str();
        assert(tokens_view(tokens@.take(i + 1)).drop_last() =~= tokens_view(tokens@.take(i as int)));
        assert(tokens_view(tokens@.take(i + 1)).last() == token@);
        if let Err(e) = validate_token(token) {
            proof {
                assert(tokens_view(tokens@.take(i + 1)) =~= tokens_view(tokens@).take(i + 1));
                assert(token_check(token@) == Some(e));
                assert(add_spec(start, tokens_view(tokens@.take(i + 1))) == Err::<Seq<Seq<char>>, DomExceptionKind>(e));
                lemma_add_error_sticks(start, tokens_view(tokens@), i as int + 1);
            }
            return Err(e);
        }
        if !contains_token(&list, token) {
            let ghost before = tokens_view(list@);
            list.push(tokens[i].clone());
            assert(tokens_view(list@) =~= before.push(token@));
        }
        i = i + 1;
    }
    assert(tokens@.take(tokens@.len() as int) =~= tokens@);
    Ok(list)
}

proof fn lemma_add_error_sticks(cur: Seq<Seq<char>>, toks: Seq<Seq<char>>, k: int)
    requires
        0 < k <= toks.len(),
        add_spec(cur, toks.take(k)) is Err,
    ensures
        add_spec(cur, toks) == add_spec(cur, toks.take(k)),
    decreases toks.len() - k,
{
    if k < toks.len() {
        assert(toks.take(k + 1).drop_last() =~= toks.take(k));
        lemma_add_error_sticks(cur, toks, k + 1);
    } else {
        assert(toks.take(k) =~= toks);
    }
}

proof fn lemma_remove_error_sticks(cur: Seq<Seq<char>>, toks: Seq<Seq<char>>, k: int)
    requires
        0 < k <= toks.len(),
        remove_spec(cur, toks.take(k)) is Err,
    ensures
        remove_spec(cur, toks) == remove_spec(cur, toks.take(k)),
    decreases toks.len() - k,
{
    if k < toks.len() {
        assert(toks.take(k + 1).drop_last() =~= toks.take(k));
        lemma_remove_error_sticks(cur, toks, k + 1);
    } else {
        assert(toks.take(k) =~= toks);
    }
}

/// [`remove`](https://dom.spec.whatwg.org/#dom-domtokenlist-remove): the
/// tokens to write back, or the refusal of the first invalid token.
pub fn token_list_remove(current: Vec<String>, tokens: &Vec<String>) -> (result: Result<
    Vec<String>,
    DomExceptionKind,
>)
    ensures
        match remove_spec(tokens_view(current@), tokens_view(tokens@)) {
            Ok(l) => result matches Ok(out) && tokens_view(out@) == l,
            Err(e) => result matches Err(r) && r == e,
        },
{
    let mut list = current;
    let ghost start = tokens_view(list@);
    let mut i: usize = 0;
    while i < tokens.len()
        invariant
            i <= tokens@.len(),
            start == tokens_view(current@),
            remove_spec(start, tokens_view(tokens@.take(i as int))) == Ok::<
                Seq<Seq<char>>,
                DomExceptionKind,
            >(tokens_view(list@)),
        decreases tokens@.len() - i,
    {
        let token = tokens[i].as_str();
        assert(tokens_view(tokens@.take(i + 1)).drop_last() =~= tokens_view(tokens@.take(i as int)));
        assert(tokens_view(tokens@.take(i + 1)).last() == token@);
        if let Err(e) = validate_token(token) {
            proof {
                assert(tokens_view(tokens@.take(i + 1)) =~= tokens_view(tokens@).take(i + 1));
                assert(token_check(token@) == Some(e));
                assert(remove_spec(start, tokens_view(tokens@.take(i + 1))) == Err::<Seq<Seq<char>>, DomExceptionKind>(e));
                lemma_remove_error_sticks(start, tokens_view(tokens@), i as int + 1);
            }
            return Err(e);
        }
        list = remove_token(list, token);
        i = i + 1;
    }
    assert(tokens@.take(tokens@.len() as int) =~= tokens@);
    Ok(list)
}

/// What `toggle(token, force)` answers and makes of `cur`: whether the token
/// is present afterwards, and the tokens to write back when that changed.
pub open spec fn toggle_spec(cur: Seq<Seq<char>>, token: Seq<char>, force: Option<bool>) -> Result<
    (bool, Option<Seq<Seq<char>>>),
    DomExceptionKind,
> {
    match token_check(token) {
        Some(e) => Err(e),
        None => {
            let present = cur.contains(token);
            let should_be_present = match force {
                Some(f) => f,
                None => !present,
            };
            if should_be_present == present {
                Ok((should_be_present, None))
            } else if should_be_present {
                Ok((true, Some(cur.push(token))))
            } else {
                Ok((false, Some(remove_all(cur, token))))
            }
        },
    }
}

/// The answer of `toggle`: whether the token is now present, and the tokens
/// to write back when the list changed.
pub struct TokenToggle {
    /// Whether the token is present after the call.
    pub present: bool,
    /// The new token list, when it changed.
    pub updated: Option<Vec<String>>,
}

/// [`toggle`](https://dom.spec.whatwg.org/#dom-domtokenlist-toggle).
pub fn token_list_toggle(current: Vec<String>, token: &str, force: Option<bool>) -> (result: Result<
    TokenToggle,
    DomExceptionKind,
>)
    ensures
        match toggle_spec(tokens_view(current@), token@, force) {
            Ok((present, updated)) => result matches Ok(t) && t.present == present && (match t.updated {
                Some(v) => Some(tokens_view(v@)),
                None => None::<Seq<Seq<char>>>,
            }) == updated,
            Err(e) => result matches Err(r) && r == e,
        },
{
    validate_token(token)?;
    let present = contains_token(&current, token);
    let should_be_present = match force {
        Some(f) => f,
        None => !present,
    };
    if should_be_present == present {
        return Ok(TokenToggle { present: should_be_present, updated: None });
    }
    if should_be_present {
        let mut current = current;
        let ghost before = tokens_view(current@);
        current.push(token.to_owned());
        assert(tokens_view(current@) =~= before.push(token@));
        Ok(TokenToggle { present: true, updated: Some(current) })
    } else {
        Ok(TokenToggle { present: false, updated: Some(remove_token(current, token)) })
    }
}

/// `l` with every `old` replaced by `new`.
pub open spec fn replace_all(l: Seq<Seq<char>>, old: Seq<char>, new: Seq<char>) -> Seq<Seq<char>> {
    l.map_values(|t: Seq<char>| if t == old { new } else { t })
}

/// What `replace(old, new)` makes of `cur`: `None` when `old` is absent
/// (the call answers false), otherwise the tokens with `old` replaced and the
/// first occurrence of each token kept.
pub open spec fn replace_spec(cur: Seq<Seq<char>>, old: Seq<char>, new: Seq<char>) -> Result<
    Option<Seq<Seq<char>>>,
    DomExceptionKind,
> {
    match token_pair_check(old, new) {
        Some(e) => Err(e),
        None => if !cur.contains(old) {
            Ok(None)
        } else {
            Ok(Some(dedup_spec(replace_all(cur, old, new))))
        },
    }
}

/// [`replace`](https://dom.spec.whatwg.org/#dom-domtokenlist-replace): `None`
/// when `old` is absent, otherwise the tokens to write back.
pub fn token_list_replace(current: Vec<String>, old: &str, new: &str) -> (result: Result<
    Option<Vec<String>>,
    DomExceptionKind,
>)
    ensures
        match replace_spec(tokens_view(current@), old@, new@) {
            Ok(r) => result matches Ok(out) && (match out {
                Some(v) => Some(tokens_view(v@)),
                None => None::<Seq<Seq<char>>>,
            }) == r,
            Err(e) => result matches Err(r) && r == e,
        },
{
    validate_token_pair(old, new)?;
    if !contains_token(&current, old) {
        return Ok(None);
    }
    let mut replaced: Vec<String> = Vec::new();
    let mut i: usize = 0;
    while i < current.len()
        invariant
            i <= current@.len(),
            tokens_view(replaced@) == replace_all(tokens_view(current@), old@, new@).take(i as int),
        decreases current@.len() - i,
    {
        let ghost before = tokens_view(replaced@);
        assert(tokens_view(current@)[i as int] == current@[i as int]@);
        assert(replace_all(tokens_view(current@), old@, new@)[i as int] == (if current@[i as int]@
            == old@ {
            new@
        } else {
            current@[i as int]@
        }));
        if crate::text::str_eq(current[i].as_str(), old) {
            replaced.push(new.to_owned());
            assert(tokens_view(replaced@) =~= before.push(new@));
        } else {
            replaced.push(current[i].clone());
            assert(tokens_view(replaced@) =~= before.push(current@[i as int]@));
        }
        assert(tokens_view(replaced@) =~= replace_all(tokens_view(current@), old@, new@).take(
            i + 1,
        ));
        i = i + 1;
    }
    assert(replace_all(tokens_view(current@), old@, new@).take(current@.len() as int)
        =~= replace_all(tokens_view(current@), old@, new@));
    Ok(Some(dedup_tokens(replaced)))
}

/// The tokens joined by single spaces.
pub open spec fn join_spec(ts: Seq<Seq<char>>) -> Seq<char>
    decreases ts.len(),
{
    if ts.len() == 0 {
        Seq::empty()
    } else if ts.len() == 1 {
        ts[0]
    } else {
        join_spec(ts.drop_last()) + seq![' '] + ts.last()
    }
}

/// Whether a token can stand in a serialized list: nonempty and free of
/// ASCII whitespace.
pub open spec fn plain_token(t: Seq<char>) -> bool {
    t.len() > 0 && forall|i: int| 0 <= i < t.len() ==> !spec_is_ascii_whitespace(#[trigger] t[i])
}

proof fn lemma_join_front(ts: Seq<Seq<char>>)
    requires
        ts.len() >= 2,
    ensures
        join_spec(ts) == ts[0] + seq![' '] + join_spec(ts.skip(1)),
    decreases ts.len(),
{
    if ts.len() == 2 {
        assert(ts.drop_last() =~= seq![ts[0]]);
        assert(ts.skip(1) =~= seq![ts[1]]);
        assert(join_spec(ts.drop_last()) == ts[0]);
        assert(join_spec(ts.skip(1)) == ts[1]);
        assert(ts.last() == ts[1]);
    } else {
        let dl = ts.drop_last();
        lemma_join_front(dl);
        assert(dl.skip(1) =~= ts.skip(1).drop_last());
        assert(ts.skip(1).last() == ts.last());
        assert(dl[0] == ts[0]);
        let mid = join_spec(dl.skip(1));
        assert(join_spec(ts.skip(1)) == mid + seq![' '] + ts.last());
        assert(join_spec(ts) == (ts[0] + seq![' '] + mid) + seq![' '] + ts.last());
        assert((ts[0] + seq![' '] + mid) + seq![' '] + ts.last() =~= ts[0] + seq![' '] + (mid + seq![' ']
            + ts.last()));
    }
}

proof fn lemma_split_word(t: Seq<char>, r: Seq<char>, cur: Seq<char>)
    requires
        forall|i: int| 0 <= i < t.len() ==> !spec_is_ascii_whitespace(#[trigger] t[i]),
    ensures
        split_ws_from(t + r, cur) == split_ws_from(r, cur + t),
    decreases t.len(),
{
    if t.len() == 0 {
        assert(t + r =~= r);
        assert(cur + t =~= cur);
    } else {
        let rest = t.skip(1);
        assert forall|i: int| 0 <= i < rest.len() implies !spec_is_ascii_whitespace(#[trigger] rest[i]) by {
            assert(rest[i] == t[i + 1]);
        }
        lemma_split_word(rest, r, cur.push(t[0]));
        assert((t + r).skip(1) =~= rest + r);
        assert((t + r)[0] == t[0]);
        assert(cur.push(t[0]) + rest =~= cur + t);
    }
}

/// Serializing tokens and splitting the value at ASCII whitespace gives the
/// tokens back: adjacent tokens are separated by exactly one space.
pub proof fn lemma_split_serialized_tokens(ts: Seq<Seq<char>>)
    requires
        forall|k: int| 0 <= k < ts.len() ==> plain_token(#[trigger] ts[k]),
    ensures
        split_ascii_whitespace_spec(join_spec(ts)) == ts,
    decreases ts.len(),
{
    if ts.len() == 0 {
        assert(split_ascii_whitespace_spec(Seq::empty()) == flush(Seq::<char>::empty()));
        assert(flush(Seq::<char>::empty()) =~= ts);
    } else if ts.len() == 1 {
        assert(plain_token(ts[0]));
        lemma_split_word(ts[0], Seq::empty(), Seq::empty());
        assert(ts[0] + Seq::<char>::empty() =~= ts[0]);
        assert(Seq::<char>::empty() + ts[0] =~= ts[0]);
        assert(flush(ts[0]) =~= ts);
    } else {
        let rest = ts.skip(1);
        assert forall|k: int| 0 <= k < rest.len() implies plain_token(#[trigger] rest[k]) by {
            assert(rest[k] == ts[k + 1]);
        }
        lemma_split_serialized_tokens(rest);
        lemma_join_front(ts);
        assert(plain_token(ts[0]));
        let tail = seq![' '] + join_spec(rest);
        assert(ts[0] + seq![' '] + join_spec(rest) =~= ts[0] + tail);
        lemma_split_word(ts[0], tail, Seq::empty());
        assert(Seq::<char>::empty() + ts[0] =~= ts[0]);
        assert(tail[0] == ' ');
        assert(tail.skip(1) =~= join_spec(rest));
        assert(split_ws_from(tail, ts[0]) == flush(ts[0]) + split_ws_from(join_spec(rest), Seq::empty()));
        assert(flush(ts[0]) + rest =~= ts);
    }
}

/// The class attribute value for a token list: the tokens joined by single
/// spaces (<https://dom.spec.whatwg.org/#concept-dtl-update>).
pub fn serialize_tokens(tokens: &Vec<String>) -> (value: String)
    ensures
        value@ == join_spec(tokens_view(tokens@)),
{
    let mut out = String::new();
    let mut i: usize = 0;
    while i < tokens.len()
        invariant
            i <= tokens@.len(),
            out@ == join_spec(tokens_view(tokens@.take(i as int))),
        decreases tokens@.len() - i,
    {
        assert(tokens_view(tokens@.take(i + 1)).drop_last() =~= tokens_view(tokens@.take(i as int)));
        assert(tokens_view(tokens@.take(i + 1)).last() == tokens@[i as int]@);
        if i > 0 {
            out.append(" ");
        }
        out.append(tokens[i].as_str());
        proof {
            reveal_strlit(" ");
        }
        assert(out@ =~= join_spec(tokens_view(tokens@.take(i + 1))));
        i = i + 1;
    }
    assert(tokens@.take(tokens@.len() as int) =~= tokens@);
    out
}

/// [`item(index)`](https://dom.spec.whatwg.org/#dom-domtokenlist-item): the
/// token at `index`, or `None` for a negative or too large index.
pub fn token_list_item(tokens: &Vec<String>, index: i64) -> (item: Option<String>)
    ensures
        match item {
            Some(t) => 0 <= index < tokens@.len() && t@ == tokens@[index as int]@,
            None => index < 0 || index >= tokens@.len(),
        },
{
    if index < 0 {
        return None;
    }
    if (index as u64) >= (tokens.len() as u64) {
        return None;
    }
    Some(tokens[index as usize].clone())
}

proof fn lemma_push_contains(s: Seq<Seq<char>>, a: Seq<char>, x: Seq<char>)
    ensures
        s.push(a).contains(x) <==> (s.contains(x) || x == a),
{
    if s.push(a).contains(x) {
        let k = choose|k: int| 0 <= k < s.push(a).len() && s.push(a)[k] == x;
        if k < s.len() {
            assert(s[k] == x);
        }
    }
    if s.contains(x) {
        let k = choose|k: int| 0 <= k < s.len() && s[k] == x;
        assert(s.push(a)[k] == x);
    }
    assert(s.push(a)[s.len() as int] == a);
}

/// Removing every copy of `t` leaves no copy, and keeps every other token
/// exactly when it was there.
pub proof fn lemma_remove_all_membership(l: Seq<Seq<char>>, t: Seq<char>, x: Seq<char>)
    ensures
        !remove_all(l, t).contains(t),
        x != t ==> (remove_all(l, t).contains(x) <==> l.contains(x)),
    decreases l.len(),
{
    if l.len() > 0 {
        lemma_remove_all_membership(l.drop_last(), t, x);
        let r = remove_all(l.drop_last(), t);
        assert(l =~= l.drop_last().push(l.last()));
        lemma_push_contains(r, l.last(), x);
        lemma_push_contains(r, l.last(), t);
        lemma_push_contains(l.drop_last(), l.last(), x);
        assert(l.contains(x) <==> (l.drop_last().contains(x) || x == l.last())) by {
            if l.contains(x) {
                let k = choose|k: int| 0 <= k < l.len() && l[k] == x;
                if k < l.len() - 1 {
                    assert(l.drop_last()[k] == x);
                }
            }
            if l.drop_last().contains(x) {
                let k = choose|k: int| 0 <= k < l.drop_last().len() && l.drop_last()[k] == x;
                assert(l[k] == x);
            }
        }
    }
}

/// Removing a token that is not there changes nothing.
pub proof fn lemma_remove_all_absent(l: Seq<Seq<char>>, t: Seq<char>)
    requires
        !l.contains(t),
    ensures
        remove_all(l, t) == l,
    decreases l.len(),
{
    if l.len() > 0 {
        assert(!l.drop_last().contains(t)) by {
            if l.drop_last().contains(t) {
                let k = choose|k: int| 0 <= k < l.drop_last().len() && l.drop_last()[k] == t;
                assert(l[k] == t);
            }
        }
        lemma_remove_all_absent(l.drop_last(), t);
        assert(l.last() != t) by {
            assert(l[l.len() - 1] == l.last());
        }
        assert(l.drop_last().push(l.last()) =~= l);
    }
}

/// Undo law of the class list: adding a token that was absent and then
/// removing it gives back the tokens it started from.
pub proof fn lemma_add_then_remove_restores(cur: Seq<Seq<char>>, t: Seq<char>)
    requires
        token_check(t) is None,
        !cur.contains(t),
    ensures
        add_spec(cur, seq![t]) == Ok::<Seq<Seq<char>>, DomExceptionKind>(cur.push(t)),
        remove_spec(cur.push(t), seq![t]) == Ok::<Seq<Seq<char>>, DomExceptionKind>(cur),
{
    assert(seq![t].drop_last() =~= Seq::<Seq<char>>::empty());
    assert(seq![t].last() == t);
    assert(add_spec(cur, Seq::<Seq<char>>::empty()) == Ok::<Seq<Seq<char>>, DomExceptionKind>(cur));
    assert(remove_spec(cur.push(t), Seq::<Seq<char>>::empty()) == Ok::<Seq<Seq<char>>, DomExceptionKind>(cur.push(t)));
    lemma_remove_all_absent(cur, t);
    assert(cur.push(t).drop_last() =~= cur);
    assert(cur.push(t).last() == t);
}

/// After a successful `add`, the old tokens come first in their order, every
/// added token is present, and a list without duplicates stays so.
pub proof fn lemma_add_effect(cur: Seq<Seq<char>>, toks: Seq<Seq<char>>)
    requires
        add_spec(cur, toks) is Ok,
    ensures
        ({
            let l = add_spec(cur, toks)->Ok_0;
            &&& cur.len() <= l.len()
            &&& l.take(cur.len() as int) == cur
            &&& forall|i: int| 0 <= i < toks.len() ==> l.contains(#[trigger] toks[i])
            &&& no_duplicates(cur) ==> no_duplicates(l)
        }),
    decreases toks.len(),
{
    if toks.len() == 0 {
        assert(cur.take(cur.len() as int) =~= cur);
    } else {
        lemma_add_effect(cur, toks.drop_last());
        let p = add_spec(cur, toks.drop_last())->Ok_0;
        let t = toks.last();
        let l = add_spec(cur, toks)->Ok_0;
        assert(l == insert_token(p, t));
        if !p.contains(t) {
            assert(p.push(t).take(cur.len() as int) =~= p.take(cur.len() as int));
            assert(p.push(t)[p.len() as int] == t);
            assert forall|i: int| 0 <= i < toks.len() implies l.contains(#[trigger] toks[i]) by {
                if i < toks.len() - 1 {
                    assert(toks.drop_last()[i] == toks[i]);
                    let k = choose|k: int| 0 <= k < p.len() && p[k] == toks[i];
                    assert(l[k] == toks[i]);
                }
            }
            if no_duplicates(cur) {
                assert forall|i: int, j: int| 0 <= i < j < l.len() implies l[i] != l[j] by {
                    if j == p.len() {
                        if l[i] == t {
                            assert(p[i] == t);
                        }
                    }
                }
            }
        } else {
            assert forall|i: int| 0 <= i < toks.len() implies l.contains(#[trigger] toks[i]) by {
                if i < toks.len() - 1 {
                    assert(toks.drop_last()[i] == toks[i]);
                }
            }
        }
    }
}

/// After a successful `remove`, none of the removed tokens is present.
pub proof fn lemma_remove_effect(cur: Seq<Seq<char>>, toks: Seq<Seq<char>>)
    requires
        remove_spec(cur, toks) is Ok,
    ensures
        forall|i: int| 0 <= i < toks.len() ==> !remove_spec(cur, toks)->Ok_0.contains(#[trigger] toks[i]),
    decreases toks.len(),
{
    if toks.len() > 0 {
        lemma_remove_effect(cur, toks.drop_last());
        let p = remove_spec(cur, toks.drop_last())->Ok_0;
        let t = toks.last();
        assert forall|i: int| 0 <= i < toks.len() implies !remove_all(p, t).contains(#[trigger] toks[i]) by {
            lemma_remove_all_membership(p, t, toks[i]);
            if i < toks.len() - 1 {
                assert(toks.drop_last()[i] == toks[i]);
            }
        }
    }
}

/// `toggle` answers whether the token is present in the tokens it leaves:
/// the written-back list when it changed, the old one otherwise.
pub proof fn lemma_toggle_answer(cur: Seq<Seq<char>>, token: Seq<char>, force: Option<bool>)
    requires
        toggle_spec(cur, token, force) is Ok,
    ensures
        ({
            let (present, updated) = toggle_spec(cur, token, force)->Ok_0;
            let after = match updated {
                Some(l) => l,
                None => cur,
            };
            after.contains(token) == present && (force matches Some(f) ==> present == f)
        }),
{
    lemma_remove_all_membership(cur, token, token);
    assert(cur.push(token)[cur.len() as int] == token);
}

/// Deduplication keeps exactly the tokens it was given.
pub proof fn lemma_dedup_membership(ts: Seq<Seq<char>>, x: Seq<char>)
    ensures
        dedup_spec(ts).contains(x) <==> ts.contains(x),
    decreases ts.len(),
{
    if ts.len() > 0 {
        lemma_dedup_membership(ts.drop_last(), x);
        let d = dedup_spec(ts.drop_last());
        assert(ts.contains(x) <==> (ts.drop_last().contains(x) || x == ts.last())) by {
            if ts.contains(x) {
                let k = choose|k: int| 0 <= k < ts.len() && ts[k] == x;
                if k < ts.len() - 1 {
                    assert(ts.drop_last()[k] == x);
                }
            }
            if ts.drop_last().contains(x) {
                let k = choose|k: int| 0 <= k < ts.drop_last().len() && ts.drop_last()[k] == x;
                assert(ts[k] == x);
            }
        }
        if !d.contains(ts.last()) {
            assert(d.push(ts.last())[d.len() as int] == ts.last());
            assert(d.push(ts.last()).contains(x) <==> (d.contains(x) || x == ts.last())) by {
                if d.push(ts.last()).contains(x) {
                    let k = choose|k: int| 0 <= k < d.push(ts.last()).len() && d.push(ts.last())[k] == x;
                    if k < d.len() {
                        assert(d[k] == x);
                    }
                }
                if d.contains(x) {
                    let k = choose|k: int| 0 <= k < d.len() && d[k] == x;
                    assert(d.push(ts.last())[k] == x);
                }
            }
        }
    }
}

/// After a successful `replace`, the new token is present, the old one is
/// gone unless it is the new one, and no token occurs twice.
pub proof fn lemma_replace_effect(cur: Seq<Seq<char>>, old: Seq<char>, new: Seq<char>)
    requires
        replace_spec(cur, old, new) matches Ok(Some(_)),
    ensures
        ({
            let l = replace_spec(cur, old, new)->Ok_0->Some_0;
            &&& l.contains(new)
            &&& old != new ==> !l.contains(old)
            &&& no_duplicates(l)
        }),
{
    let r = replace_all(cur, old, new);
    let k = choose|k: int| 0 <= k < cur.len() && cur[k] == old;
    assert(r[k] == new);
    lemma_dedup_membership(r, new);
    lemma_dedup_membership(r, old);
    lemma_dedup_no_duplicates(r);
    if old != new {
        assert(!r.contains(old)) by {
            if r.contains(old) {
                let j = choose|j: int| 0 <= j < r.len() && r[j] == old;
                assert(r[j] == (if cur[j] == old { new } else { cur[j] }));
            }
        }
    }
}

} // verus!

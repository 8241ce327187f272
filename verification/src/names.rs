//! Name validity rules of XML and the DOM: NCNames, qualified names, doctype
//! names, and [validate and extract](https://dom.spec.whatwg.org/#validate-and-extract).

use vstd::prelude::*;

use crate::exceptions::DomExceptionKind;
use crate::text::{find_char, first_index_of, is_infra_whitespace, spec_is_ascii_whitespace, str_eq};

verus! {

/// [NameStartChar](https://www.w3.org/TR/xml/#NT-NameStartChar) without `:`.
pub open spec fn spec_is_name_start(c: char) -> bool {
    ('A' <= c <= 'Z') || c == '_' || ('a' <= c <= 'z') || ('\u{C0}' <= c <= '\u{D6}') || (
    '\u{D8}' <= c <= '\u{F6}') || ('\u{F8}' <= c <= '\u{2FF}') || ('\u{370}' <= c <= '\u{37D}')
        || ('\u{37F}' <= c <= '\u{1FFF}') || ('\u{200C}' <= c <= '\u{200D}') || ('\u{2070}' <= c
        <= '\u{218F}') || ('\u{2C00}' <= c <= '\u{2FEF}') || ('\u{3001}' <= c <= '\u{D7FF}') || (
    '\u{F900}' <= c <= '\u{FDCF}') || ('\u{FDF0}' <= c <= '\u{FFFD}') || ('\u{10000}' <= c
        <= '\u{EFFFF}')
}

/// [NameChar](https://www.w3.org/TR/xml/#NT-NameChar) without `:`.
pub open spec fn spec_is_name_char(c: char) -> bool {
    spec_is_name_start(c) || c == '-' || c == '.' || ('0' <= c <= '9') || c == '\u{B7}' || (
    '\u{0300}' <= c <= '\u{036F}') || ('\u{203F}' <= c <= '\u{2040}')
}

/// Whether `c` may start an NCName.
pub fn is_name_start(c: char) -> (r: bool)
    ensures
        r == spec_is_name_start(c),
{
    (c >= 'A' && c <= 'Z') || c == '_' || (c >= 'a' && c <= 'z') || (c >= '\u{C0}' && c
        <= '\u{D6}') || (c >= '\u{D8}' && c <= '\u{F6}') || (c >= '\u{F8}' && c <= '\u{2FF}') || (c
        >= '\u{370}' && c <= '\u{37D}') || (c >= '\u{37F}' && c <= '\u{1FFF}') || (c >= '\u{200C}'
        && c <= '\u{200D}') || (c >= '\u{2070}' && c <= '\u{218F}') || (c >= '\u{2C00}' && c
        <= '\u{2FEF}') || (c >= '\u{3001}' && c <= '\u{D7FF}') || (c >= '\u{F900}' && c
        <= '\u{FDCF}') || (c >= '\u{FDF0}' && c <= '\u{FFFD}') || (c >= '\u{10000}' && c
        <= '\u{EFFFF}')
}

/// Whether `c` may continue an NCName.
pub fn is_name_char(c: char) -> (r: bool)
    ensures
        r == spec_is_name_char(c),
{
    is_name_start(c) || c == '-' || c == '.' || (c >= '0' && c <= '9') || c == '\u{B7}' || (c
        >= '\u{0300}' && c <= '\u{036F}') || (c >= '\u{203F}' && c <= '\u{2040}')
}

/// [NCName](https://www.w3.org/TR/xml-names/#NT-NCName): a name start
/// character followed by name characters.
pub open spec fn spec_valid_ncname(s: Seq<char>) -> bool {
    s.len() > 0 && spec_is_name_start(s[0]) && forall|i: int| 1 <= i < s.len() ==> spec_is_name_char(s[i])
}

/// Whether `name` is an NCName.
pub fn valid_ncname(name: &str) -> (r: bool)
    ensures
        r == spec_valid_ncname(name@),
{
    let n = name.unicode_len();
    let mut i: usize = 0;
    for c in it: name.chars()
        invariant
            i == it.index(),
            n == name@.len(),
            it.seq() == name@,
            i > 0 ==> spec_is_name_start(name@[0]),
            forall|j: int| 1 <= j < i ==> spec_is_name_char(name@[j]),
    {
        if i == 0 {
            if !is_name_start(c) {
                return false;
            }
        } else if !is_name_char(c) {
            return false;
        }
        i = i + 1;
    }
    i > 0
}

/// A qualified name: an NCName, or two NCNames around the first `:`.
pub open spec fn spec_valid_qualified_name(tag: Seq<char>) -> bool {
    match first_index_of(tag, ':') {
        Some(k) => spec_valid_ncname(tag.take(k)) && spec_valid_ncname(tag.skip(k + 1)),
        None => spec_valid_ncname(tag),
    }
}

/// Whether `tag` is a qualified name.
pub fn valid_qualified_name(tag: &str) -> (r: bool)
    ensures
        r == spec_valid_qualified_name(tag@),
{
    let n = tag.unicode_len();
    match find_char(tag, ':') {
        Some(k) => {
            let prefix = tag.substring_char(0, k);
            let local = tag.substring_char(k + 1, n);
            assert(prefix@ =~= tag@.take(k as int));
            assert(local@ =~= tag@.skip(k + 1));
            valid_ncname(prefix) && valid_ncname(local)
        },
        None => valid_ncname(tag),
    }
}

/// The prefix and local name of `tag`: split at the first `:` when both
/// sides are non-empty, otherwise no prefix and the whole tag.
pub open spec fn spec_split_qualified_name(tag: Seq<char>) -> (Option<Seq<char>>, Seq<char>) {
    match first_index_of(tag, ':') {
        Some(k) => if k > 0 && k + 1 < tag.len() {
            (Some(tag.take(k)), tag.skip(k + 1))
        } else {
            (None, tag)
        },
        None => (None, tag),
    }
}

/// The prefix and local name of `tag`.
pub fn split_qualified_name(tag: &str) -> (r: (Option<&str>, &str))
    ensures
        (match r.0 {
            Some(p) => Some(p@),
            None => None::<Seq<char>>,
        }, r.1@) == spec_split_qualified_name(tag@),
{
    let n = tag.unicode_len();
    match find_char(tag, ':') {
        Some(k) => {
            if k > 0 && k + 1 < n {
                let prefix = tag.substring_char(0, k);
                let local = tag.substring_char(k + 1, n);
                assert(prefix@ =~= tag@.take(k as int));
                assert(local@ =~= tag@.skip(k + 1));
                (Some(prefix), local)
            } else {
                (None, tag)
            }
        },
        None => (None, tag),
    }
}

/// A [valid doctype name](https://dom.spec.whatwg.org/#valid-doctype-name):
/// no ASCII whitespace, NULL, or `>`.
pub open spec fn spec_valid_doctype_name(name: Seq<char>) -> bool {
    forall|i: int| 0 <= i < name.len() ==> !(spec_is_ascii_whitespace(name[i]) || name[i] == '\0' || name[i] == '>')
}

/// Whether `name` is a valid doctype name.
pub fn valid_doctype_name(name: &str) -> (r: bool)
    ensures
        r == spec_valid_doctype_name(name@),
{
    for c in it: name.chars()
        invariant
            it.seq() == name@,
            forall|j: int| 0 <= j < it.index() ==> !(spec_is_ascii_whitespace(name@[j]) || name@[j] == '\0' || name@[j] == '>'),
    {
        if is_infra_whitespace(c) || c == '\0' || c == '>' {
            return false;
        }
    }
    true
}

/// A [valid namespace prefix](https://dom.spec.whatwg.org/#valid-namespace-prefix):
/// non-empty, without ASCII whitespace, NULL, `/` or `>`.
pub open spec fn spec_valid_namespace_prefix(prefix: Seq<char>) -> bool {
    prefix.len() > 0 && forall|i: int| 0 <= i < prefix.len() ==> !(spec_is_ascii_whitespace(prefix[i]) || prefix[i] == '\0' || prefix[i] == '/' || prefix[i] == '>')
}

/// Whether `prefix` is a valid namespace prefix.
pub fn valid_namespace_prefix(prefix: &str) -> (r: bool)
    ensures
        r == spec_valid_namespace_prefix(prefix@),
{
    if prefix.unicode_len() == 0 {
        return false;
    }
    for c in it: prefix.chars()
        invariant
            it.seq() == prefix@,
            forall|j: int| 0 <= j < it.index() ==> !(spec_is_ascii_whitespace(prefix@[j]) || prefix@[j] == '\0' || prefix@[j] == '/' || prefix@[j] == '>'),
    {
        if is_infra_whitespace(c) || c == '\0' || c == '/' || c == '>' {
            return false;
        }
    }
    true
}

/// A [valid attribute local name](https://dom.spec.whatwg.org/#valid-attribute-local-name):
/// non-empty, without ASCII whitespace, NULL, `/`, `=` or `>`.
pub open spec fn spec_valid_attribute_local_name(local: Seq<char>) -> bool {
    local.len() > 0 && forall|i: int| 0 <= i < local.len() ==> !(spec_is_ascii_whitespace(local[i]) || local[i] == '\0' || local[i] == '/' || local[i] == '=' || local[i] == '>')
}

/// Whether `local` is a valid attribute local name.
pub fn valid_attribute_local_name(local: &str) -> (r: bool)
    ensures
        r == spec_valid_attribute_local_name(local@),
{
    if local.unicode_len() == 0 {
        return false;
    }
    for c in it: local.chars()
        invariant
            it.seq() == local@,
            forall|j: int| 0 <= j < it.index() ==> !(spec_is_ascii_whitespace(local@[j]) || local@[j] == '\0' || local@[j] == '/' || local@[j] == '=' || local@[j] == '>'),
    {
        if is_infra_whitespace(c) || c == '\0' || c == '/' || c == '=' || c == '>' {
            return false;
        }
    }
    true
}

/// Whether `c` is an ASCII letter.
pub open spec fn spec_is_ascii_alpha(c: char) -> bool {
    ('A' <= c <= 'Z') || ('a' <= c <= 'z')
}

/// A character allowed after a non-letter start of an element local name.
pub open spec fn spec_is_element_name_char(c: char) -> bool {
    spec_is_ascii_alpha(c) || ('0' <= c <= '9') || c == '-' || c == '.' || c == ':' || c == '_' || c > '\x7F'
}

/// A [valid element local name](https://dom.spec.whatwg.org/#valid-element-local-name):
/// one that starts with an ASCII letter and holds no ASCII whitespace, NULL,
/// `/` or `>`; or one that starts with `:`, `_` or a non-ASCII character and
/// holds only ASCII alphanumerics, `-`, `.`, `:`, `_` and non-ASCII
/// characters.
pub open spec fn spec_valid_element_local_name(name: Seq<char>) -> bool {
    if name.len() == 0 {
        false
    } else if spec_is_ascii_alpha(name[0]) {
        forall|i: int| 0 <= i < name.len() ==> !(spec_is_ascii_whitespace(name[i]) || name[i] == '\0' || name[i] == '/' || name[i] == '>')
    } else if name[0] != ':' && name[0] != '_' && name[0] <= '\x7F' {
        false
    } else {
        forall|i: int| 0 <= i < name.len() ==> spec_is_element_name_char(name[i])
    }
}

/// Whether `name` is a valid element local name.
pub fn valid_element_local_name(name: &str) -> (r: bool)
    ensures
        r == spec_valid_element_local_name(name@),
{
    if name.unicode_len() == 0 {
        return false;
    }
    let first = name.get_char(0);
    if (first >= 'A' && first <= 'Z') || (first >= 'a' && first <= 'z') {
        for c in it: name.chars()
            invariant
                it.seq() == name@,
                forall|j: int| 0 <= j < it.index() ==> !(spec_is_ascii_whitespace(name@[j]) || name@[j] == '\0' || name@[j] == '/' || name@[j] == '>'),
                name@.len() > 0,
                spec_is_ascii_alpha(name@[0]),
        {
            if is_infra_whitespace(c) || c == '\0' || c == '/' || c == '>' {
                return false;
            }
        }
        return true;
    }
    if first != ':' && first != '_' && first <= '\x7F' {
        return false;
    }
    for c in it: name.chars()
        invariant
            it.seq() == name@,
            forall|j: int| 0 <= j < it.index() ==> spec_is_element_name_char(name@[j]),
            name@.len() > 0,
            !spec_is_ascii_alpha(name@[0]),
            !(name@[0] != ':' && name@[0] != '_' && name@[0] <= '\x7F'),
    {
        let allowed = (c >= 'A' && c <= 'Z') || (c >= 'a' && c <= 'z') || (c >= '0' && c <= '9') || c == '-' || c == '.' || c == ':' || c == '_' || c > '\x7F';
        if !allowed {
            assert(!spec_is_element_name_char(name@[it.index() as int]));
            return false;
        }
    }
    true
}

/// Which rules the local name of a qualified name is held to
/// (<https://dom.spec.whatwg.org/#validate-and-extract> steps 6 and 7).
#[derive(Clone, Copy, Debug, PartialEq, Eq, Structural)]
pub enum NodeContext {
    /// An attribute's local name.
    Attribute,
    /// An element's local name.
    Element,
}

/// The XML namespace.
pub open spec fn xml_namespace() -> Seq<char> {
    "http://www.w3.org/XML/1998/namespace"@
}

/// The XMLNS namespace.
pub open spec fn xmlns_namespace() -> Seq<char> {
    "http://www.w3.org/2000/xmlns/"@
}

/// The outcome of validate and extract: the prefix, the namespace (empty for
/// none) and the local name, or the exception it throws.
pub open spec fn validate_and_extract_spec(
    namespace: Option<Seq<char>>,
    qualified: Seq<char>,
    context: NodeContext,
) -> Result<(Option<Seq<char>>, Seq<char>, Seq<char>), DomExceptionKind> {
    let ns = match namespace {
        Some(n) => if n.len() > 0 {
            Some(n)
        } else {
            None
        },
        None => None,
    };
    let prefix = match first_index_of(qualified, ':') {
        Some(k) => Some(qualified.take(k)),
        None => None,
    };
    let local = match first_index_of(qualified, ':') {
        Some(k) => qualified.skip(k + 1),
        None => qualified,
    };
    let local_valid = match context {
        NodeContext::Attribute => spec_valid_attribute_local_name(local),
        NodeContext::Element => spec_valid_element_local_name(local),
    };
    if prefix is Some && !spec_valid_namespace_prefix(prefix->0) {
        Err(DomExceptionKind::InvalidCharacter)
    } else if !local_valid {
        Err(DomExceptionKind::InvalidCharacter)
    } else if prefix is Some && ns is None {
        Err(DomExceptionKind::Namespace)
    } else if prefix == Some("xml"@) && ns != Some(xml_namespace()) {
        Err(DomExceptionKind::Namespace)
    } else if (qualified == "xmlns"@ || prefix == Some("xmlns"@)) && ns != Some(xmlns_namespace()) {
        Err(DomExceptionKind::Namespace)
    } else if ns == Some(xmlns_namespace()) && qualified != "xmlns"@ && prefix != Some("xmlns"@) {
        Err(DomExceptionKind::Namespace)
    } else {
        Ok(
            (
                prefix,
                match ns {
                    Some(n) => n,
                    None => Seq::empty(),
                },
                local,
            ),
        )
    }
}

/// A namespace-qualified name split into its parts.
pub struct QualifiedName {
    /// The prefix before the first `:`, if any.
    pub prefix: Option<String>,
    /// The namespace, empty for none.
    pub namespace: String,
    /// The local name.
    pub local: String,
}

/// The view of an optional string.
pub open spec fn opt_view(s: Option<&str>) -> Option<Seq<char>> {
    match s {
        Some(s) => Some(s@),
        None => None,
    }
}

/// Whether an optional string is `Some(expected)`.
fn opt_str_eq(s: Option<&str>, expected: &str) -> (r: bool)
    ensures
        r == (opt_view(s) == Some(expected@)),
{
    match s {
        Some(s) => str_eq(s, expected),
        None => false,
    }
}

/// [Validate and extract](https://dom.spec.whatwg.org/#validate-and-extract)
/// a namespace and qualified name.
pub fn validate_and_extract(
    namespace: Option<&str>,
    qualified: &str,
    context: NodeContext,
) -> (result: Result<QualifiedName, DomExceptionKind>)
    ensures
        match validate_and_extract_spec(opt_view(namespace), qualified@, context) {
            Ok((prefix, ns, local)) => result matches Ok(name) && (match name.prefix {
                Some(p) => Some(p@),
                None => None::<Seq<char>>,
            }) == prefix && name.namespace@ == ns && name.local@ == local,
            Err(e) => result == Err::<QualifiedName, DomExceptionKind>(e),
        },
{
    let namespace = match namespace {
        Some(n) => if n.unicode_len() > 0 {
            Some(n)
        } else {
            None
        },
        None => None,
    };
    let n = qualified.unicode_len();
    let colon = find_char(qualified, ':');
    let (prefix, local) = match colon {
        Some(k) => {
            let prefix = qualified.substring_char(0, k);
            let local = qualified.substring_char(k + 1, n);
            assert(prefix@ =~= qualified@.take(k as int));
            assert(local@ =~= qualified@.skip(k + 1));
            if !valid_namespace_prefix(prefix) {
                return Err(DomExceptionKind::InvalidCharacter);
            }
            (Some(prefix), local)
        },
        None => (None, qualified),
    };
    let local_valid = match context {
        NodeContext::Attribute => valid_attribute_local_name(local),
        NodeContext::Element => valid_element_local_name(local),
    };
    if !local_valid {
        return Err(DomExceptionKind::InvalidCharacter);
    }
    let xml = "http://www.w3.org/XML/1998/namespace";
    let xmlns = "http://www.w3.org/2000/xmlns/";
    if prefix.is_some() && namespace.is_none() {
        return Err(DomExceptionKind::Namespace);
    }
    if opt_str_eq(prefix, "xml") && !opt_str_eq(namespace, xml) {
        return Err(DomExceptionKind::Namespace);
    }
    if (str_eq(qualified, "xmlns") || opt_str_eq(prefix, "xmlns")) && !opt_str_eq(namespace, xmlns) {
        return Err(DomExceptionKind::Namespace);
    }
    if opt_str_eq(namespace, xmlns) && !str_eq(qualified, "xmlns") && !opt_str_eq(prefix, "xmlns") {
        return Err(DomExceptionKind::Namespace);
    }
    let prefix = match prefix {
        Some(p) => Some(p.to_owned()),
        None => None,
    };
    let namespace = match namespace {
        Some(ns) => ns.to_owned(),
        None => String::new(),
    };
    Ok(QualifiedName { prefix, namespace, local: local.to_owned() })
}

} // verus!

//! `DOMException` and its legacy code table
//! (<https://webidl.spec.whatwg.org/#idl-DOMException>).

use vstd::prelude::*;

use crate::text::str_eq;

verus! {

/// The legacy `code` of a `DOMException` name: the legacy names map to their
/// constant's value; anything else is 0
/// (<https://webidl.spec.whatwg.org/#dom-domexception-code>).
pub open spec fn spec_exception_code(name: Seq<char>) -> i32 {
    if name == "IndexSizeError"@ {
        1i32
    } else if name == "DOMStringSizeError"@ {
        2i32
    } else if name == "HierarchyRequestError"@ {
        3i32
    } else if name == "WrongDocumentError"@ {
        4i32
    } else if name == "InvalidCharacterError"@ {
        5i32
    } else if name == "NoDataAllowedError"@ {
        6i32
    } else if name == "NoModificationAllowedError"@ {
        7i32
    } else if name == "NotFoundError"@ {
        8i32
    } else if name == "NotSupportedError"@ {
        9i32
    } else if name == "InUseAttributeError"@ {
        10i32
    } else if name == "InvalidStateError"@ {
        11i32
    } else if name == "SyntaxError"@ {
        12i32
    } else if name == "InvalidModificationError"@ {
        13i32
    } else if name == "NamespaceError"@ {
        14i32
    } else if name == "InvalidAccessError"@ {
        15i32
    } else if name == "ValidationError"@ {
        16i32
    } else if name == "TypeMismatchError"@ {
        17i32
    } else if name == "SecurityError"@ {
        18i32
    } else if name == "NetworkError"@ {
        19i32
    } else if name == "AbortError"@ {
        20i32
    } else if name == "URLMismatchError"@ {
        21i32
    } else if name == "QuotaExceededError"@ {
        22i32
    } else if name == "TimeoutError"@ {
        23i32
    } else if name == "InvalidNodeTypeError"@ {
        24i32
    } else if name == "DataCloneError"@ {
        25i32
    } else {
        0i32
    }
}

/// The legacy `code` for an exception name.
pub fn dom_exception_code(name: &str) -> (code: i32)
    ensures
        code == spec_exception_code(name@),
{
    if str_eq(name, "IndexSizeError") {
        return 1;
    }
    if str_eq(name, "DOMStringSizeError") {
        return 2;
    }
    if str_eq(name, "HierarchyRequestError") {
        return 3;
    }
    if str_eq(name, "WrongDocumentError") {
        return 4;
    }
    if str_eq(name, "InvalidCharacterError") {
        return 5;
    }
    if str_eq(name, "NoDataAllowedError") {
        return 6;
    }
    if str_eq(name, "NoModificationAllowedError") {
        return 7;
    }
    if str_eq(name, "NotFoundError") {
        return 8;
    }
    if str_eq(name, "NotSupportedError") {
        return 9;
    }
    if str_eq(name, "InUseAttributeError") {
        return 10;
    }
    if str_eq(name, "InvalidStateError") {
        return 11;
    }
    if str_eq(name, "SyntaxError") {
        return 12;
    }
    if str_eq(name, "InvalidModificationError") {
        return 13;
    }
    if str_eq(name, "NamespaceError") {
        return 14;
    }
    if str_eq(name, "InvalidAccessError") {
        return 15;
    }
    if str_eq(name, "ValidationError") {
        return 16;
    }
    if str_eq(name, "TypeMismatchError") {
        return 17;
    }
    if str_eq(name, "SecurityError") {
        return 18;
    }
    if str_eq(name, "NetworkError") {
        return 19;
    }
    if str_eq(name, "AbortError") {
        return 20;
    }
    if str_eq(name, "URLMismatchError") {
        return 21;
    }
    if str_eq(name, "QuotaExceededError") {
        return 22;
    }
    if str_eq(name, "TimeoutError") {
        return 23;
    }
    if str_eq(name, "InvalidNodeTypeError") {
        return 24;
    }
    if str_eq(name, "DataCloneError") {
        return 25;
    }
    0
}

/// The `DOMException` names the DOM rules of this library throw.
#[derive(Clone, Copy, Debug, PartialEq, Eq, Structural)]
pub enum DomExceptionKind {
    /// An offset outside the data.
    IndexSize,
    /// A string holds a character that is not allowed.
    InvalidCharacter,
    /// A string does not parse, such as an empty token.
    Syntax,
    /// A namespace and a qualified name do not fit together.
    Namespace,
    /// An operation this user agent does not support.
    NotSupported,
}

/// The exception name of a kind.
pub open spec fn spec_kind_name(kind: DomExceptionKind) -> Seq<char> {
    match kind {
        DomExceptionKind::IndexSize => "IndexSizeError"@,
        DomExceptionKind::InvalidCharacter => "InvalidCharacterError"@,
        DomExceptionKind::Syntax => "SyntaxError"@,
        DomExceptionKind::Namespace => "NamespaceError"@,
        DomExceptionKind::NotSupported => "NotSupportedError"@,
    }
}

impl DomExceptionKind {
    /// The `DOMException` name thrown for this kind.
    pub fn name(&self) -> (name: &'static str)
        ensures
            name@ == spec_kind_name(*self),
    {
        match self {
            DomExceptionKind::IndexSize => "IndexSizeError",
            DomExceptionKind::InvalidCharacter => "InvalidCharacterError",
            DomExceptionKind::Syntax => "SyntaxError",
            DomExceptionKind::Namespace => "NamespaceError",
            DomExceptionKind::NotSupported => "NotSupportedError",
        }
    }

    /// The legacy code of this kind's exception.
    pub fn code(&self) -> (code: i32)
        ensures
            code == spec_exception_code(spec_kind_name(*self)),
    {
        dom_exception_code(self.name())
    }
}

/// What a `QuotaExceededError` member reads as: `null` on that name, absent
/// (undefined) on every other exception.
#[derive(Clone, Copy, Debug, PartialEq, Eq, Structural)]
pub enum QuotaMember {
    /// The member is `null`.
    Null,
    /// The member is `undefined`.
    Undefined,
}

/// `DOMException` as a platform object
/// (<https://webidl.spec.whatwg.org/#idl-DOMException>).
pub struct JsDomException {
    /// The exception name.
    pub name: String,
    /// The exception message.
    pub message: String,
}

impl JsDomException {
    /// The constructor
    /// (<https://webidl.spec.whatwg.org/#dom-domexception-domexception>): an
    /// absent or empty name becomes `"Error"`, an absent message the empty
    /// string.
    pub fn new(message: Option<String>, name: Option<String>) -> (exception: Self)
        ensures
            exception.name@ == (match name {
                Some(n) => if n@.len() > 0 {
                    n@
                } else {
                    "Error"@
                },
                None => "Error"@,
            }),
            exception.message@ == (match message {
                Some(m) => m@,
                None => Seq::<char>::empty(),
            }),
    {
        let name = match name {
            Some(n) => if n.as_str().unicode_len() > 0 {
                n
            } else {
                "Error".to_owned()
            },
            None => "Error".to_owned(),
        };
        let message = match message {
            Some(m) => m,
            None => String::new(),
        };
        JsDomException { name, message }
    }

    /// The `name` attribute.
    pub fn get_name(&self) -> (name: String)
        ensures
            name@ == self.name@,
    {
        self.name.clone()
    }

    /// The `message` attribute.
    pub fn get_message(&self) -> (message: String)
        ensures
            message@ == self.message@,
    {
        self.message.clone()
    }

    /// The legacy `code`, derived from the name
    /// (<https://webidl.spec.whatwg.org/#dom-domexception-code>).
    pub fn get_code(&self) -> (code: i32)
        ensures
            code == spec_exception_code(self.name@),
    {
        dom_exception_code(self.name.as_str())
    }

    /// `QuotaExceededError.requested`: this user agent names no requested
    /// size (<https://storage.spec.whatwg.org/#quotaexceedederror>).
    pub fn get_requested(&self) -> (member: QuotaMember)
        ensures
            member == (if self.name@ == "QuotaExceededError"@ {
                QuotaMember::Null
            } else {
                QuotaMember::Undefined
            }),
    {
        if str_eq(self.name.as_str(), "QuotaExceededError") {
            QuotaMember::Null
        } else {
            QuotaMember::Undefined
        }
    }

    /// `QuotaExceededError.quota`; see [`Self::get_requested`].
    pub fn get_quota(&self) -> (member: QuotaMember)
        ensures
            member == (if self.name@ == "QuotaExceededError"@ {
                QuotaMember::Null
            } else {
                QuotaMember::Undefined
            }),
    {
        self.get_requested()
    }
}

} // verus!

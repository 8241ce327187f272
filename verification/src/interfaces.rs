//! Small script-facing interfaces whose behaviour is data alone: `Event`,
//! `DOMParser`'s type check and the document's encoding getters.

use vstd::prelude::*;

use crate::text::{concat, str_eq};

verus! {

/// `Event` (<https://dom.spec.whatwg.org/#interface-event>), as far as its
/// type goes.
pub struct JsEvent {
    typ: String,
}

impl JsEvent {
    /// `new Event(type)`.
    pub fn new(typ: String) -> (e: Self)
        ensures
            e.type_view() == typ@,
    {
        JsEvent { typ }
    }

    /// The event type.
    pub closed spec fn type_view(&self) -> Seq<char> {
        self.typ@
    }

    /// `type`.
    pub fn event_type(&self) -> (t: String)
        ensures
            t@ == self.type_view(),
    {
        self.typ.clone()
    }
}

/// The `DOMParser.parseFromString` `SupportedType` values
/// (<https://html.spec.whatwg.org/multipage/dynamic-markup-insertion.html#dom-domparser-parsefromstring>).
pub open spec fn is_supported_type(t: Seq<char>) -> bool {
    t == "text/html"@ || t == "text/xml"@ || t == "application/xml"@ || t
        == "application/xhtml+xml"@ || t == "image/svg+xml"@
}

/// The `TypeError` message for a type that is not a `SupportedType`.
pub open spec fn unsupported_type_message(t: Seq<char>) -> Seq<char> {
    "The provided value '"@ + t + "' is not a valid enum value"@
}

/// What `parseFromString` parses: the source, the content type, whether
/// the HTML parser (with scripting disabled) or the XML parser reads it,
/// and the URL the new document takes.
pub struct ParseRequest {
    pub source: String,
    pub content_type: &'static str,
    pub html: bool,
    pub url: String,
}

/// `DOMParser`: remembers the URL of the realm that constructed it; the
/// documents it parses take that URL, never one a caller passes.
pub struct JsDomParser {
    url: String,
}

impl JsDomParser {
    /// `new DOMParser()` in a realm whose document URL is `url`.
    pub fn new(url: String) -> (p: Self)
        ensures
            p.url_view() == url@,
    {
        JsDomParser { url }
    }

    /// The constructing realm's document URL.
    pub closed spec fn url_view(&self) -> Seq<char> {
        self.url@
    }

    /// `parseFromString(source, type)`: a type that is not a
    /// `SupportedType` is a `TypeError` with this message; otherwise the
    /// parse to run, HTML for `text/html` and XML for the rest.
    pub fn parse_from_string(&self, source: String, type_: &str) -> (r: Result<
        ParseRequest,
        String,
    >)
        ensures
            match r {
                Ok(req) => {
                    &&& is_supported_type(type_@)
                    &&& req.source@ == source@
                    &&& req.content_type@ == type_@
                    &&& req.html == (type_@ == "text/html"@)
                    &&& req.url@ == self.url_view()
                },
                Err(message) => !is_supported_type(type_@) && message@ == unsupported_type_message(
                    type_@,
                ),
            },
    {
        let content_type: &'static str = if str_eq(type_, "text/html") {
            "text/html"
        } else if str_eq(type_, "text/xml") {
            "text/xml"
        } else if str_eq(type_, "application/xml") {
            "application/xml"
        } else if str_eq(type_, "application/xhtml+xml") {
            "application/xhtml+xml"
        } else if str_eq(type_, "image/svg+xml") {
            "image/svg+xml"
        } else {
            let head = concat("The provided value '", type_);
            return Err(concat(head.as_str(), "' is not a valid enum value"));
        };
        let html = str_eq(content_type, "text/html");
        Ok(ParseRequest { source, content_type, html, url: self.url.clone() })
    }
}

/// A node as script sees it, named by its node id.
pub struct JsNode {
    pub id: u64,
}

impl JsNode {
    /// `scrollIntoView()`: there is no viewport to scroll, so nothing
    /// happens.
    pub fn scroll_into_view(&self) {
    }

    /// `characterSet`: documents are held as UTF-8 text.
    pub fn character_set(&self) -> (name: &'static str)
        ensures
            name@ == "UTF-8"@,
    {
        "UTF-8"
    }

    /// `charset`, the legacy alias of `characterSet`.
    pub fn charset(&self) -> (name: &'static str)
        ensures
            name@ == "UTF-8"@,
    {
        "UTF-8"
    }

    /// `inputEncoding`, the legacy alias of `characterSet`.
    pub fn input_encoding(&self) -> (name: &'static str)
        ensures
            name@ == "UTF-8"@,
    {
        "UTF-8"
    }
}

} // verus!

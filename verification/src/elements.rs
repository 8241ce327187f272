//! The element interface an HTML local name maps to
//! (<https://html.spec.whatwg.org/multipage/dom.html#elements-in-the-dom:html-element>).

use vstd::prelude::*;

use crate::text::{find_char, spec_ascii_upper, str_eq};

verus! {

/// The interface the table lists for an HTML local name.
pub open spec fn listed_interface(local: Seq<char>) -> Option<Seq<char>> {
    if local == "a"@ {
        Some("HTMLAnchorElement"@)
    } else if local == "abbr"@ {
        Some("HTMLElement"@)
    } else if local == "acronym"@ {
        Some("HTMLElement"@)
    } else if local == "address"@ {
        Some("HTMLElement"@)
    } else if local == "area"@ {
        Some("HTMLAreaElement"@)
    } else if local == "article"@ {
        Some("HTMLElement"@)
    } else if local == "aside"@ {
        Some("HTMLElement"@)
    } else if local == "audio"@ {
        Some("HTMLAudioElement"@)
    } else if local == "b"@ {
        Some("HTMLElement"@)
    } else if local == "base"@ {
        Some("HTMLBaseElement"@)
    } else if local == "bdi"@ {
        Some("HTMLElement"@)
    } else if local == "bdo"@ {
        Some("HTMLElement"@)
    } else if local == "bgsound"@ {
        Some("HTMLElement"@)
    } else if local == "big"@ {
        Some("HTMLElement"@)
    } else if local == "blockquote"@ {
        Some("HTMLElement"@)
    } else if local == "body"@ {
        Some("HTMLBodyElement"@)
    } else if local == "br"@ {
        Some("HTMLBRElement"@)
    } else if local == "button"@ {
        Some("HTMLButtonElement"@)
    } else if local == "canvas"@ {
        Some("HTMLCanvasElement"@)
    } else if local == "caption"@ {
        Some("HTMLTableCaptionElement"@)
    } else if local == "center"@ {
        Some("HTMLElement"@)
    } else if local == "cite"@ {
        Some("HTMLElement"@)
    } else if local == "code"@ {
        Some("HTMLElement"@)
    } else if local == "col"@ {
        Some("HTMLTableColElement"@)
    } else if local == "colgroup"@ {
        Some("HTMLTableColElement"@)
    } else if local == "data"@ {
        Some("HTMLDataElement"@)
    } else if local == "datalist"@ {
        Some("HTMLDataListElement"@)
    } else if local == "dd"@ {
        Some("HTMLElement"@)
    } else if local == "del"@ {
        Some("HTMLModElement"@)
    } else if local == "details"@ {
        Some("HTMLElement"@)
    } else if local == "dfn"@ {
        Some("HTMLElement"@)
    } else if local == "dialog"@ {
        Some("HTMLDialogElement"@)
    } else if local == "dir"@ {
        Some("HTMLDirectoryElement"@)
    } else if local == "div"@ {
        Some("HTMLDivElement"@)
    } else if local == "dl"@ {
        Some("HTMLDListElement"@)
    } else if local == "dt"@ {
        Some("HTMLElement"@)
    } else if local == "embed"@ {
        Some("HTMLEmbedElement"@)
    } else if local == "fieldset"@ {
        Some("HTMLFieldSetElement"@)
    } else if local == "figcaption"@ {
        Some("HTMLElement"@)
    } else if local == "figure"@ {
        Some("HTMLElement"@)
    } else if local == "font"@ {
        Some("HTMLFontElement"@)
    } else if local == "footer"@ {
        Some("HTMLElement"@)
    } else if local == "form"@ {
        Some("HTMLFormElement"@)
    } else if local == "frame"@ {
        Some("HTMLFrameElement"@)
    } else if local == "frameset"@ {
        Some("HTMLFrameSetElement"@)
    } else if local == "h1"@ {
        Some("HTMLHeadingElement"@)
    } else if local == "h2"@ {
        Some("HTMLHeadingElement"@)
    } else if local == "h3"@ {
        Some("HTMLHeadingElement"@)
    } else if local == "h4"@ {
        Some("HTMLHeadingElement"@)
    } else if local == "h5"@ {
        Some("HTMLHeadingElement"@)
    } else if local == "h6"@ {
        Some("HTMLHeadingElement"@)
    } else if local == "head"@ {
        Some("HTMLHeadElement"@)
    } else if local == "header"@ {
        Some("HTMLElement"@)
    } else if local == "hgroup"@ {
        Some("HTMLElement"@)
    } else if local == "hr"@ {
        Some("HTMLHRElement"@)
    } else if local == "html"@ {
        Some("HTMLHtmlElement"@)
    } else if local == "i"@ {
        Some("HTMLElement"@)
    } else if local == "iframe"@ {
        Some("HTMLIFrameElement"@)
    } else if local == "img"@ {
        Some("HTMLImageElement"@)
    } else if local == "input"@ {
        Some("HTMLInputElement"@)
    } else if local == "ins"@ {
        Some("HTMLModElement"@)
    } else if local == "isindex"@ {
        Some("HTMLElement"@)
    } else if local == "kbd"@ {
        Some("HTMLElement"@)
    } else if local == "label"@ {
        Some("HTMLLabelElement"@)
    } else if local == "legend"@ {
        Some("HTMLLegendElement"@)
    } else if local == "li"@ {
        Some("HTMLLIElement"@)
    } else if local == "link"@ {
        Some("HTMLLinkElement"@)
    } else if local == "main"@ {
        Some("HTMLElement"@)
    } else if local == "map"@ {
        Some("HTMLMapElement"@)
    } else if local == "mark"@ {
        Some("HTMLElement"@)
    } else if local == "marquee"@ {
        Some("HTMLElement"@)
    } else if local == "meta"@ {
        Some("HTMLMetaElement"@)
    } else if local == "meter"@ {
        Some("HTMLMeterElement"@)
    } else if local == "nav"@ {
        Some("HTMLElement"@)
    } else if local == "nobr"@ {
        Some("HTMLElement"@)
    } else if local == "noframes"@ {
        Some("HTMLElement"@)
    } else if local == "noscript"@ {
        Some("HTMLElement"@)
    } else if local == "object"@ {
        Some("HTMLObjectElement"@)
    } else if local == "ol"@ {
        Some("HTMLOListElement"@)
    } else if local == "optgroup"@ {
        Some("HTMLOptGroupElement"@)
    } else if local == "option"@ {
        Some("HTMLOptionElement"@)
    } else if local == "output"@ {
        Some("HTMLOutputElement"@)
    } else if local == "p"@ {
        Some("HTMLParagraphElement"@)
    } else if local == "param"@ {
        Some("HTMLParamElement"@)
    } else if local == "pre"@ {
        Some("HTMLPreElement"@)
    } else if local == "progress"@ {
        Some("HTMLProgressElement"@)
    } else if local == "q"@ {
        Some("HTMLQuoteElement"@)
    } else if local == "rp"@ {
        Some("HTMLElement"@)
    } else if local == "rt"@ {
        Some("HTMLElement"@)
    } else if local == "ruby"@ {
        Some("HTMLElement"@)
    } else if local == "s"@ {
        Some("HTMLElement"@)
    } else if local == "samp"@ {
        Some("HTMLElement"@)
    } else if local == "script"@ {
        Some("HTMLScriptElement"@)
    } else if local == "section"@ {
        Some("HTMLElement"@)
    } else if local == "select"@ {
        Some("HTMLSelectElement"@)
    } else if local == "small"@ {
        Some("HTMLElement"@)
    } else if local == "source"@ {
        Some("HTMLSourceElement"@)
    } else if local == "spacer"@ {
        Some("HTMLElement"@)
    } else if local == "span"@ {
        Some("HTMLSpanElement"@)
    } else if local == "strike"@ {
        Some("HTMLElement"@)
    } else if local == "style"@ {
        Some("HTMLStyleElement"@)
    } else if local == "sub"@ {
        Some("HTMLElement"@)
    } else if local == "summary"@ {
        Some("HTMLElement"@)
    } else if local == "sup"@ {
        Some("HTMLElement"@)
    } else if local == "table"@ {
        Some("HTMLTableElement"@)
    } else if local == "tbody"@ {
        Some("HTMLTableSectionElement"@)
    } else if local == "td"@ {
        Some("HTMLTableCellElement"@)
    } else if local == "template"@ {
        Some("HTMLTemplateElement"@)
    } else if local == "textarea"@ {
        Some("HTMLTextAreaElement"@)
    } else if local == "th"@ {
        Some("HTMLTableCellElement"@)
    } else if local == "time"@ {
        Some("HTMLTimeElement"@)
    } else if local == "title"@ {
        Some("HTMLTitleElement"@)
    } else if local == "tr"@ {
        Some("HTMLTableRowElement"@)
    } else if local == "track"@ {
        Some("HTMLTrackElement"@)
    } else if local == "tt"@ {
        Some("HTMLElement"@)
    } else if local == "u"@ {
        Some("HTMLElement"@)
    } else if local == "ul"@ {
        Some("HTMLUListElement"@)
    } else if local == "unknown"@ {
        Some("HTMLUnknownElement"@)
    } else if local == "var"@ {
        Some("HTMLElement"@)
    } else if local == "video"@ {
        Some("HTMLVideoElement"@)
    } else if local == "wbr"@ {
        Some("HTMLElement"@)
    } else {
        None
    }
}

/// The interface the table lists for `local`, if any.
/// The interface a regular element's name gives: `HTML`, the name with its
/// first letter in upper case, and `Element` (`span` gives
/// `HTMLSpanElement`).
pub open spec fn regular_interface(local: Seq<char>) -> Seq<char> {
    "HTML"@ + seq![spec_ascii_upper(local[0])] + local.skip(1) + "Element"@
}

/// The HTML standard's element index, written as a rule: the elements
/// without an interface of their own are `HTMLElement`, most others follow
/// [`regular_interface`], and the rest name their interface outright.
pub open spec fn standard_interface(local: Seq<char>) -> Option<Seq<char>> {
    if local == "a"@ {
        Some("HTMLAnchorElement"@)
    } else if local == "abbr"@ {
        Some("HTMLElement"@)
    } else if local == "acronym"@ {
        Some("HTMLElement"@)
    } else if local == "address"@ {
        Some("HTMLElement"@)
    } else if local == "area"@ {
        Some(regular_interface(local))
    } else if local == "article"@ {
        Some("HTMLElement"@)
    } else if local == "aside"@ {
        Some("HTMLElement"@)
    } else if local == "audio"@ {
        Some(regular_interface(local))
    } else if local == "b"@ {
        Some("HTMLElement"@)
    } else if local == "base"@ {
        Some(regular_interface(local))
    } else if local == "bdi"@ {
        Some("HTMLElement"@)
    } else if local == "bdo"@ {
        Some("HTMLElement"@)
    } else if local == "bgsound"@ {
        Some("HTMLElement"@)
    } else if local == "big"@ {
        Some("HTMLElement"@)
    } else if local == "blockquote"@ {
        Some("HTMLElement"@)
    } else if local == "body"@ {
        Some(regular_interface(local))
    } else if local == "br"@ {
        Some("HTMLBRElement"@)
    } else if local == "button"@ {
        Some(regular_interface(local))
    } else if local == "canvas"@ {
        Some(regular_interface(local))
    } else if local == "caption"@ {
        Some("HTMLTableCaptionElement"@)
    } else if local == "center"@ {
        Some("HTMLElement"@)
    } else if local == "cite"@ {
        Some("HTMLElement"@)
    } else if local == "code"@ {
        Some("HTMLElement"@)
    } else if local == "col"@ {
        Some("HTMLTableColElement"@)
    } else if local == "colgroup"@ {
        Some("HTMLTableColElement"@)
    } else if local == "data"@ {
        Some(regular_interface(local))
    } else if local == "datalist"@ {
        Some("HTMLDataListElement"@)
    } else if local == "dd"@ {
        Some("HTMLElement"@)
    } else if local == "del"@ {
        Some("HTMLModElement"@)
    } else if local == "details"@ {
        Some("HTMLElement"@)
    } else if local == "dfn"@ {
        Some("HTMLElement"@)
    } else if local == "dialog"@ {
        Some(regular_interface(local))
    } else if local == "dir"@ {
        Some("HTMLDirectoryElement"@)
    } else if local == "div"@ {
        Some(regular_interface(local))
    } else if local == "dl"@ {
        Some("HTMLDListElement"@)
    } else if local == "dt"@ {
        Some("HTMLElement"@)
    } else if local == "embed"@ {
        Some(regular_interface(local))
    } else if local == "fieldset"@ {
        Some("HTMLFieldSetElement"@)
    } else if local == "figcaption"@ {
        Some("HTMLElement"@)
    } else if local == "figure"@ {
        Some("HTMLElement"@)
    } else if local == "font"@ {
        Some(regular_interface(local))
    } else if local == "footer"@ {
        Some("HTMLElement"@)
    } else if local == "form"@ {
        Some(regular_interface(local))
    } else if local == "frame"@ {
        Some(regular_interface(local))
    } else if local == "frameset"@ {
        Some("HTMLFrameSetElement"@)
    } else if local == "h1"@ {
        Some("HTMLHeadingElement"@)
    } else if local == "h2"@ {
        Some("HTMLHeadingElement"@)
    } else if local == "h3"@ {
        Some("HTMLHeadingElement"@)
    } else if local == "h4"@ {
        Some("HTMLHeadingElement"@)
    } else if local == "h5"@ {
        Some("HTMLHeadingElement"@)
    } else if local == "h6"@ {
        Some("HTMLHeadingElement"@)
    } else if local == "head"@ {
        Some(regular_interface(local))
    } else if local == "header"@ {
        Some("HTMLElement"@)
    } else if local == "hgroup"@ {
        Some("HTMLElement"@)
    } else if local == "hr"@ {
        Some("HTMLHRElement"@)
    } else if local == "html"@ {
        Some(regular_interface(local))
    } else if local == "i"@ {
        Some("HTMLElement"@)
    } else if local == "iframe"@ {
        Some("HTMLIFrameElement"@)
    } else if local == "img"@ {
        Some("HTMLImageElement"@)
    } else if local == "input"@ {
        Some(regular_interface(local))
    } else if local == "ins"@ {
        Some("HTMLModElement"@)
    } else if local == "isindex"@ {
        Some("HTMLElement"@)
    } else if local == "kbd"@ {
        Some("HTMLElement"@)
    } else if local == "label"@ {
        Some(regular_interface(local))
    } else if local == "legend"@ {
        Some(regular_interface(local))
    } else if local == "li"@ {
        Some("HTMLLIElement"@)
    } else if local == "link"@ {
        Some(regular_interface(local))
    } else if local == "main"@ {
        Some("HTMLElement"@)
    } else if local == "map"@ {
        Some(regular_interface(local))
    } else if local == "mark"@ {
        Some("HTMLElement"@)
    } else if local == "marquee"@ {
        Some("HTMLElement"@)
    } else if local == "meta"@ {
        Some(regular_interface(local))
    } else if local == "meter"@ {
        Some(regular_interface(local))
    } else if local == "nav"@ {
        Some("HTMLElement"@)
    } else if local == "nobr"@ {
        Some("HTMLElement"@)
    } else if local == "noframes"@ {
        Some("HTMLElement"@)
    } else if local == "noscript"@ {
        Some("HTMLElement"@)
    } else if local == "object"@ {
        Some(regular_interface(local))
    } else if local == "ol"@ {
        Some("HTMLOListElement"@)
    } else if local == "optgroup"@ {
        Some("HTMLOptGroupElement"@)
    } else if local == "option"@ {
        Some(regular_interface(local))
    } else if local == "output"@ {
        Some(regular_interface(local))
    } else if local == "p"@ {
        Some("HTMLParagraphElement"@)
    } else if local == "param"@ {
        Some(regular_interface(local))
    } else if local == "pre"@ {
        Some(regular_interface(local))
    } else if local == "progress"@ {
        Some(regular_interface(local))
    } else if local == "q"@ {
        Some("HTMLQuoteElement"@)
    } else if local == "rp"@ {
        Some("HTMLElement"@)
    } else if local == "rt"@ {
        Some("HTMLElement"@)
    } else if local == "ruby"@ {
        Some("HTMLElement"@)
    } else if local == "s"@ {
        Some("HTMLElement"@)
    } else if local == "samp"@ {
        Some("HTMLElement"@)
    } else if local == "script"@ {
        Some(regular_interface(local))
    } else if local == "section"@ {
        Some("HTMLElement"@)
    } else if local == "select"@ {
        Some(regular_interface(local))
    } else if local == "small"@ {
        Some("HTMLElement"@)
    } else if local == "source"@ {
        Some(regular_interface(local))
    } else if local == "spacer"@ {
        Some("HTMLElement"@)
    } else if local == "span"@ {
        Some(regular_interface(local))
    } else if local == "strike"@ {
        Some("HTMLElement"@)
    } else if local == "style"@ {
        Some(regular_interface(local))
    } else if local == "sub"@ {
        Some("HTMLElement"@)
    } else if local == "summary"@ {
        Some("HTMLElement"@)
    } else if local == "sup"@ {
        Some("HTMLElement"@)
    } else if local == "table"@ {
        Some(regular_interface(local))
    } else if local == "tbody"@ {
        Some("HTMLTableSectionElement"@)
    } else if local == "td"@ {
        Some("HTMLTableCellElement"@)
    } else if local == "template"@ {
        Some(regular_interface(local))
    } else if local == "textarea"@ {
        Some("HTMLTextAreaElement"@)
    } else if local == "th"@ {
        Some("HTMLTableCellElement"@)
    } else if local == "time"@ {
        Some(regular_interface(local))
    } else if local == "title"@ {
        Some(regular_interface(local))
    } else if local == "tr"@ {
        Some("HTMLTableRowElement"@)
    } else if local == "track"@ {
        Some(regular_interface(local))
    } else if local == "tt"@ {
        Some("HTMLElement"@)
    } else if local == "u"@ {
        Some("HTMLElement"@)
    } else if local == "ul"@ {
        Some("HTMLUListElement"@)
    } else if local == "unknown"@ {
        Some(regular_interface(local))
    } else if local == "var"@ {
        Some("HTMLElement"@)
    } else if local == "video"@ {
        Some(regular_interface(local))
    } else if local == "wbr"@ {
        Some("HTMLElement"@)
    } else {
        None
    }
}

proof fn lemma_regular_names()
    ensures
        regular_interface("area"@) == "HTMLAreaElement"@,
        regular_interface("audio"@) == "HTMLAudioElement"@,
        regular_interface("base"@) == "HTMLBaseElement"@,
        regular_interface("body"@) == "HTMLBodyElement"@,
        regular_interface("button"@) == "HTMLButtonElement"@,
        regular_interface("canvas"@) == "HTMLCanvasElement"@,
        regular_interface("data"@) == "HTMLDataElement"@,
        regular_interface("dialog"@) == "HTMLDialogElement"@,
        regular_interface("div"@) == "HTMLDivElement"@,
        regular_interface("embed"@) == "HTMLEmbedElement"@,
        regular_interface("font"@) == "HTMLFontElement"@,
        regular_interface("form"@) == "HTMLFormElement"@,
        regular_interface("frame"@) == "HTMLFrameElement"@,
        regular_interface("head"@) == "HTMLHeadElement"@,
        regular_interface("html"@) == "HTMLHtmlElement"@,
        regular_interface("input"@) == "HTMLInputElement"@,
        regular_interface("label"@) == "HTMLLabelElement"@,
        regular_interface("legend"@) == "HTMLLegendElement"@,
        regular_interface("link"@) == "HTMLLinkElement"@,
        regular_interface("map"@) == "HTMLMapElement"@,
        regular_interface("meta"@) == "HTMLMetaElement"@,
        regular_interface("meter"@) == "HTMLMeterElement"@,
        regular_interface("object"@) == "HTMLObjectElement"@,
        regular_interface("option"@) == "HTMLOptionElement"@,
        regular_interface("output"@) == "HTMLOutputElement"@,
        regular_interface("param"@) == "HTMLParamElement"@,
        regular_interface("pre"@) == "HTMLPreElement"@,
        regular_interface("progress"@) == "HTMLProgressElement"@,
        regular_interface("script"@) == "HTMLScriptElement"@,
        regular_interface("select"@) == "HTMLSelectElement"@,
        regular_interface("source"@) == "HTMLSourceElement"@,
        regular_interface("span"@) == "HTMLSpanElement"@,
        regular_interface("style"@) == "HTMLStyleElement"@,
        regular_interface("table"@) == "HTMLTableElement"@,
        regular_interface("template"@) == "HTMLTemplateElement"@,
        regular_interface("time"@) == "HTMLTimeElement"@,
        regular_interface("title"@) == "HTMLTitleElement"@,
        regular_interface("track"@) == "HTMLTrackElement"@,
        regular_interface("unknown"@) == "HTMLUnknownElement"@,
        regular_interface("video"@) == "HTMLVideoElement"@,
{
    reveal_strlit("HTML");
    reveal_strlit("Element");
    reveal_strlit("area");
    reveal_strlit("HTMLAreaElement");
    assert(regular_interface("area"@) =~= "HTMLAreaElement"@);
    reveal_strlit("audio");
    reveal_strlit("HTMLAudioElement");
    assert(regular_interface("audio"@) =~= "HTMLAudioElement"@);
    reveal_strlit("base");
    reveal_strlit("HTMLBaseElement");
    assert(regular_interface("base"@) =~= "HTMLBaseElement"@);
    reveal_strlit("body");
    reveal_strlit("HTMLBodyElement");
    assert(regular_interface("body"@) =~= "HTMLBodyElement"@);
    reveal_strlit("button");
    reveal_strlit("HTMLButtonElement");
    assert(regular_interface("button"@) =~= "HTMLButtonElement"@);
    reveal_strlit("canvas");
    reveal_strlit("HTMLCanvasElement");
    assert(regular_interface("canvas"@) =~= "HTMLCanvasElement"@);
    reveal_strlit("data");
    reveal_strlit("HTMLDataElement");
    assert(regular_interface("data"@) =~= "HTMLDataElement"@);
    reveal_strlit("dialog");
    reveal_strlit("HTMLDialogElement");
    assert(regular_interface("dialog"@) =~= "HTMLDialogElement"@);
    reveal_strlit("div");
    reveal_strlit("HTMLDivElement");
    assert(regular_interface("div"@) =~= "HTMLDivElement"@);
    reveal_strlit("embed");
    reveal_strlit("HTMLEmbedElement");
    assert(regular_interface("embed"@) =~= "HTMLEmbedElement"@);
    reveal_strlit("font");
    reveal_strlit("HTMLFontElement");
    assert(regular_interface("font"@) =~= "HTMLFontElement"@);
    reveal_strlit("form");
    reveal_strlit("HTMLFormElement");
    assert(regular_interface("form"@) =~= "HTMLFormElement"@);
    reveal_strlit("frame");
    reveal_strlit("HTMLFrameElement");
    assert(regular_interface("frame"@) =~= "HTMLFrameElement"@);
    reveal_strlit("head");
    reveal_strlit("HTMLHeadElement");
    assert(regular_interface("head"@) =~= "HTMLHeadElement"@);
    reveal_strlit("html");
    reveal_strlit("HTMLHtmlElement");
    assert(regular_interface("html"@) =~= "HTMLHtmlElement"@);
    reveal_strlit("input");
    reveal_strlit("HTMLInputElement");
    assert(regular_interface("input"@) =~= "HTMLInputElement"@);
    reveal_strlit("label");
    reveal_strlit("HTMLLabelElement");
    assert(regular_interface("label"@) =~= "HTMLLabelElement"@);
    reveal_strlit("legend");
    reveal_strlit("HTMLLegendElement");
    assert(regular_interface("legend"@) =~= "HTMLLegendElement"@);
    reveal_strlit("link");
    reveal_strlit("HTMLLinkElement");
    assert(regular_interface("link"@) =~= "HTMLLinkElement"@);
    reveal_strlit("map");
    reveal_strlit("HTMLMapElement");
    assert(regular_interface("map"@) =~= "HTMLMapElement"@);
    reveal_strlit("meta");
    reveal_strlit("HTMLMetaElement");
    assert(regular_interface("meta"@) =~= "HTMLMetaElement"@);
    reveal_strlit("meter");
    reveal_strlit("HTMLMeterElement");
    assert(regular_interface("meter"@) =~= "HTMLMeterElement"@);
    reveal_strlit("object");
    reveal_strlit("HTMLObjectElement");
    assert(regular_interface("object"@) =~= "HTMLObjectElement"@);
    reveal_strlit("option");
    reveal_strlit("HTMLOptionElement");
    assert(regular_interface("option"@) =~= "HTMLOptionElement"@);
    reveal_strlit("output");
    reveal_strlit("HTMLOutputElement");
    assert(regular_interface("output"@) =~= "HTMLOutputElement"@);
    reveal_strlit("param");
    reveal_strlit("HTMLParamElement");
    assert(regular_interface("param"@) =~= "HTMLParamElement"@);
    reveal_strlit("pre");
    reveal_strlit("HTMLPreElement");
    assert(regular_interface("pre"@) =~= "HTMLPreElement"@);
    reveal_strlit("progress");
    reveal_strlit("HTMLProgressElement");
    assert(regular_interface("progress"@) =~= "HTMLProgressElement"@);
    reveal_strlit("script");
    reveal_strlit("HTMLScriptElement");
    assert(regular_interface("script"@) =~= "HTMLScriptElement"@);
    reveal_strlit("select");
    reveal_strlit("HTMLSelectElement");
    assert(regular_interface("select"@) =~= "HTMLSelectElement"@);
    reveal_strlit("source");
    reveal_strlit("HTMLSourceElement");
    assert(regular_interface("source"@) =~= "HTMLSourceElement"@);
    reveal_strlit("span");
    reveal_strlit("HTMLSpanElement");
    assert(regular_interface("span"@) =~= "HTMLSpanElement"@);
    reveal_strlit("style");
    reveal_strlit("HTMLStyleElement");
    assert(regular_interface("style"@) =~= "HTMLStyleElement"@);
    reveal_strlit("table");
    reveal_strlit("HTMLTableElement");
    assert(regular_interface("table"@) =~= "HTMLTableElement"@);
    reveal_strlit("template");
    reveal_strlit("HTMLTemplateElement");
    assert(regular_interface("template"@) =~= "HTMLTemplateElement"@);
    reveal_strlit("time");
    reveal_strlit("HTMLTimeElement");
    assert(regular_interface("time"@) =~= "HTMLTimeElement"@);
    reveal_strlit("title");
    reveal_strlit("HTMLTitleElement");
    assert(regular_interface("title"@) =~= "HTMLTitleElement"@);
    reveal_strlit("track");
    reveal_strlit("HTMLTrackElement");
    assert(regular_interface("track"@) =~= "HTMLTrackElement"@);
    reveal_strlit("unknown");
    reveal_strlit("HTMLUnknownElement");
    assert(regular_interface("unknown"@) =~= "HTMLUnknownElement"@);
    reveal_strlit("video");
    reveal_strlit("HTMLVideoElement");
    assert(regular_interface("video"@) =~= "HTMLVideoElement"@);
}

/// Every name the table lists maps to the interface the standard's element
/// index names for it, and no other name is listed.
pub proof fn lemma_listed_interfaces_follow_the_standard(local: Seq<char>)
    ensures
        listed_interface(local) == standard_interface(local),
{
    lemma_regular_names();
}

pub fn listed_element_interface(local: &str) -> (interface: Option<&'static str>)
    ensures
        (match interface {
            Some(i) => Some(i@),
            None => None::<Seq<char>>,
        }) == listed_interface(local@),
{
    if str_eq(local, "a") {
        return Some("HTMLAnchorElement");
    }
    if str_eq(local, "abbr") {
        return Some("HTMLElement");
    }
    if str_eq(local, "acronym") {
        return Some("HTMLElement");
    }
    if str_eq(local, "address") {
        return Some("HTMLElement");
    }
    if str_eq(local, "area") {
        return Some("HTMLAreaElement");
    }
    if str_eq(local, "article") {
        return Some("HTMLElement");
    }
    if str_eq(local, "aside") {
        return Some("HTMLElement");
    }
    if str_eq(local, "audio") {
        return Some("HTMLAudioElement");
    }
    if str_eq(local, "b") {
        return Some("HTMLElement");
    }
    if str_eq(local, "base") {
        return Some("HTMLBaseElement");
    }
    if str_eq(local, "bdi") {
        return Some("HTMLElement");
    }
    if str_eq(local, "bdo") {
        return Some("HTMLElement");
    }
    if str_eq(local, "bgsound") {
        return Some("HTMLElement");
    }
    if str_eq(local, "big") {
        return Some("HTMLElement");
    }
    if str_eq(local, "blockquote") {
        return Some("HTMLElement");
    }
    if str_eq(local, "body") {
        return Some("HTMLBodyElement");
    }
    if str_eq(local, "br") {
        return Some("HTMLBRElement");
    }
    if str_eq(local, "button") {
        return Some("HTMLButtonElement");
    }
    if str_eq(local, "canvas") {
        return Some("HTMLCanvasElement");
    }
    if str_eq(local, "caption") {
        return Some("HTMLTableCaptionElement");
    }
    if str_eq(local, "center") {
        return Some("HTMLElement");
    }
    if str_eq(local, "cite") {
        return Some("HTMLElement");
    }
    if str_eq(local, "code") {
        return Some("HTMLElement");
    }
    if str_eq(local, "col") {
        return Some("HTMLTableColElement");
    }
    if str_eq(local, "colgroup") {
        return Some("HTMLTableColElement");
    }
    if str_eq(local, "data") {
        return Some("HTMLDataElement");
    }
    if str_eq(local, "datalist") {
        return Some("HTMLDataListElement");
    }
    if str_eq(local, "dd") {
        return Some("HTMLElement");
    }
    if str_eq(local, "del") {
        return Some("HTMLModElement");
    }
    if str_eq(local, "details") {
        return Some("HTMLElement");
    }
    if str_eq(local, "dfn") {
        return Some("HTMLElement");
    }
    if str_eq(local, "dialog") {
        return Some("HTMLDialogElement");
    }
    if str_eq(local, "dir") {
        return Some("HTMLDirectoryElement");
    }
    if str_eq(local, "div") {
        return Some("HTMLDivElement");
    }
    if str_eq(local, "dl") {
        return Some("HTMLDListElement");
    }
    if str_eq(local, "dt") {
        return Some("HTMLElement");
    }
    if str_eq(local, "embed") {
        return Some("HTMLEmbedElement");
    }
    if str_eq(local, "fieldset") {
        return Some("HTMLFieldSetElement");
    }
    if str_eq(local, "figcaption") {
        return Some("HTMLElement");
    }
    if str_eq(local, "figure") {
        return Some("HTMLElement");
    }
    if str_eq(local, "font") {
        return Some("HTMLFontElement");
    }
    if str_eq(local, "footer") {
        return Some("HTMLElement");
    }
    if str_eq(local, "form") {
        return Some("HTMLFormElement");
    }
    if str_eq(local, "frame") {
        return Some("HTMLFrameElement");
    }
    if str_eq(local, "frameset") {
        return Some("HTMLFrameSetElement");
    }
    if str_eq(local, "h1") {
        return Some("HTMLHeadingElement");
    }
    if str_eq(local, "h2") {
        return Some("HTMLHeadingElement");
    }
    if str_eq(local, "h3") {
        return Some("HTMLHeadingElement");
    }
    if str_eq(local, "h4") {
        return Some("HTMLHeadingElement");
    }
    if str_eq(local, "h5") {
        return Some("HTMLHeadingElement");
    }
    if str_eq(local, "h6") {
        return Some("HTMLHeadingElement");
    }
    if str_eq(local, "head") {
        return Some("HTMLHeadElement");
    }
    if str_eq(local, "header") {
        return Some("HTMLElement");
    }
    if str_eq(local, "hgroup") {
        return Some("HTMLElement");
    }
    if str_eq(local, "hr") {
        return Some("HTMLHRElement");
    }
    if str_eq(local, "html") {
        return Some("HTMLHtmlElement");
    }
    if str_eq(local, "i") {
        return Some("HTMLElement");
    }
    if str_eq(local, "iframe") {
        return Some("HTMLIFrameElement");
    }
    if str_eq(local, "img") {
        return Some("HTMLImageElement");
    }
    if str_eq(local, "input") {
        return Some("HTMLInputElement");
    }
    if str_eq(local, "ins") {
        return Some("HTMLModElement");
    }
    if str_eq(local, "isindex") {
        return Some("HTMLElement");
    }
    if str_eq(local, "kbd") {
        return Some("HTMLElement");
    }
    if str_eq(local, "label") {
        return Some("HTMLLabelElement");
    }
    if str_eq(local, "legend") {
        return Some("HTMLLegendElement");
    }
    if str_eq(local, "li") {
        return Some("HTMLLIElement");
    }
    if str_eq(local, "link") {
        return Some("HTMLLinkElement");
    }
    if str_eq(local, "main") {
        return Some("HTMLElement");
    }
    if str_eq(local, "map") {
        return Some("HTMLMapElement");
    }
    if str_eq(local, "mark") {
        return Some("HTMLElement");
    }
    if str_eq(local, "marquee") {
        return Some("HTMLElement");
    }
    if str_eq(local, "meta") {
        return Some("HTMLMetaElement");
    }
    if str_eq(local, "meter") {
        return Some("HTMLMeterElement");
    }
    if str_eq(local, "nav") {
        return Some("HTMLElement");
    }
    if str_eq(local, "nobr") {
        return Some("HTMLElement");
    }
    if str_eq(local, "noframes") {
        return Some("HTMLElement");
    }
    if str_eq(local, "noscript") {
        return Some("HTMLElement");
    }
    if str_eq(local, "object") {
        return Some("HTMLObjectElement");
    }
    if str_eq(local, "ol") {
        return Some("HTMLOListElement");
    }
    if str_eq(local, "optgroup") {
        return Some("HTMLOptGroupElement");
    }
    if str_eq(local, "option") {
        return Some("HTMLOptionElement");
    }
    if str_eq(local, "output") {
        return Some("HTMLOutputElement");
    }
    if str_eq(local, "p") {
        return Some("HTMLParagraphElement");
    }
    if str_eq(local, "param") {
        return Some("HTMLParamElement");
    }
    if str_eq(local, "pre") {
        return Some("HTMLPreElement");
    }
    if str_eq(local, "progress") {
        return Some("HTMLProgressElement");
    }
    if str_eq(local, "q") {
        return Some("HTMLQuoteElement");
    }
    if str_eq(local, "rp") {
        return Some("HTMLElement");
    }
    if str_eq(local, "rt") {
        return Some("HTMLElement");
    }
    if str_eq(local, "ruby") {
        return Some("HTMLElement");
    }
    if str_eq(local, "s") {
        return Some("HTMLElement");
    }
    if str_eq(local, "samp") {
        return Some("HTMLElement");
    }
    if str_eq(local, "script") {
        return Some("HTMLScriptElement");
    }
    if str_eq(local, "section") {
        return Some("HTMLElement");
    }
    if str_eq(local, "select") {
        return Some("HTMLSelectElement");
    }
    if str_eq(local, "small") {
        return Some("HTMLElement");
    }
    if str_eq(local, "source") {
        return Some("HTMLSourceElement");
    }
    if str_eq(local, "spacer") {
        return Some("HTMLElement");
    }
    if str_eq(local, "span") {
        return Some("HTMLSpanElement");
    }
    if str_eq(local, "strike") {
        return Some("HTMLElement");
    }
    if str_eq(local, "style") {
        return Some("HTMLStyleElement");
    }
    if str_eq(local, "sub") {
        return Some("HTMLElement");
    }
    if str_eq(local, "summary") {
        return Some("HTMLElement");
    }
    if str_eq(local, "sup") {
        return Some("HTMLElement");
    }
    if str_eq(local, "table") {
        return Some("HTMLTableElement");
    }
    if str_eq(local, "tbody") {
        return Some("HTMLTableSectionElement");
    }
    if str_eq(local, "td") {
        return Some("HTMLTableCellElement");
    }
    if str_eq(local, "template") {
        return Some("HTMLTemplateElement");
    }
    if str_eq(local, "textarea") {
        return Some("HTMLTextAreaElement");
    }
    if str_eq(local, "th") {
        return Some("HTMLTableCellElement");
    }
    if str_eq(local, "time") {
        return Some("HTMLTimeElement");
    }
    if str_eq(local, "title") {
        return Some("HTMLTitleElement");
    }
    if str_eq(local, "tr") {
        return Some("HTMLTableRowElement");
    }
    if str_eq(local, "track") {
        return Some("HTMLTrackElement");
    }
    if str_eq(local, "tt") {
        return Some("HTMLElement");
    }
    if str_eq(local, "u") {
        return Some("HTMLElement");
    }
    if str_eq(local, "ul") {
        return Some("HTMLUListElement");
    }
    if str_eq(local, "unknown") {
        return Some("HTMLUnknownElement");
    }
    if str_eq(local, "var") {
        return Some("HTMLElement");
    }
    if str_eq(local, "video") {
        return Some("HTMLVideoElement");
    }
    if str_eq(local, "wbr") {
        return Some("HTMLElement");
    }
    None
}

/// The interface of an HTML element: the listed one, `HTMLElement` for an
/// unlisted name with a hyphen (a valid custom element name), and
/// `HTMLUnknownElement` otherwise.
pub open spec fn spec_html_element_interface(local: Seq<char>) -> Seq<char> {
    match listed_interface(local) {
        Some(i) => i,
        None => if local.contains('-') {
            "HTMLElement"@
        } else {
            "HTMLUnknownElement"@
        },
    }
}

/// The interface name of the HTML element with this local name.
pub fn html_element_interface(local: &str) -> (interface: &'static str)
    ensures
        interface@ == spec_html_element_interface(local@),
{
    if let Some(interface) = listed_element_interface(local) {
        return interface;
    }
    match find_char(local, '-') {
        Some(k) => {
            assert(local@[k as int] == '-');
            "HTMLElement"
        },
        None => "HTMLUnknownElement",
    }
}

} // verus!

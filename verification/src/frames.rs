//! How a child frame navigates when its container's `src` is set
//! (<https://html.spec.whatwg.org/multipage/iframe-embed-object.html#process-the-iframe-attributes>):
//! the `src` is resolved against the parent's base URL with the `url` crate,
//! and its scheme decides what the child loads.

use vstd::prelude::*;

use crate::data_url::{chars_match_at, data_url_spec, decode_data_url, opt_string_view, percent_decode, percent_decode_spec, starts_with};
use crate::loads::{LoadState, LoadTracker};
use crate::text::{first_index_of, str_eq, utf8_lossy};
use vstd::utf8::*;

verus! {

/// The serialization `url::Url::parse` gives `input`, or `None` when it
/// fails.
pub uninterp spec fn parsed_url(input: Seq<char>) -> Option<Seq<char>>;

/// The serialization `url::Url::join` gives `input` against the URL that
/// `base` parses to, or `None` when either fails.
pub uninterp spec fn joined_url(base: Seq<char>, input: Seq<char>) -> Option<Seq<char>>;

/// The scheme of a URL serialization: the text before its first `:`.
pub open spec fn scheme_of(url: Seq<char>) -> Seq<char> {
    match first_index_of(url, ':') {
        Some(k) => url.take(k),
        None => url,
    }
}

/// The serialization of an optional parsed URL.
pub open spec fn opt_url(r: Option<(String, String)>) -> Option<Seq<char>> {
    match r {
        Some((s, _)) => Some(s@),
        None => None,
    }
}

/// Calls `url::Url::parse`, returning the URL's serialization (`as_str`)
/// and scheme (`scheme`). The serialization is named [`parsed_url`]; the
/// scheme is the serialization's text before its first `:`, which is how
/// the crate stores it.
#[verifier::external_body]
fn parse_url(input: &str) -> (r: Option<(String, String)>)
    ensures
        opt_url(r) == parsed_url(input@),
        r matches Some((s, scheme)) ==> scheme@ == scheme_of(s@),
{
    url::Url::parse(input).ok().map(|u| (u.as_str().to_owned(), u.scheme().to_owned()))
}

/// Calls `url::Url::parse` on `base` and then `Url::join` with `input`,
/// returning the joined URL's serialization and scheme. The serialization
/// is named [`joined_url`]; the scheme is its text before the first `:`.
#[verifier::external_body]
fn join_url(base: &str, input: &str) -> (r: Option<(String, String)>)
    ensures
        opt_url(r) == joined_url(base@, input@),
        r matches Some((s, scheme)) ==> scheme@ == scheme_of(s@),
{
    match url::Url::parse(base) {
        Ok(b) => b.join(input).ok().map(|u| (u.as_str().to_owned(), u.scheme().to_owned())),
        Err(_) => None,
    }
}

/// A frame URL: `spec` parsed on its own, else joined to the base URL.
pub open spec fn resolve_spec(spec: Seq<char>, base: Seq<char>) -> Option<Seq<char>> {
    match parsed_url(spec) {
        Some(u) => Some(u),
        None => joined_url(base, spec),
    }
}

/// Resolves a frame's `src` against the parent document's base URL
/// (serialized), as the parent document does.
pub fn resolve_frame_url(spec: &str, base: &str) -> (r: Option<(String, String)>)
    ensures
        opt_url(r) == resolve_spec(spec@, base@),
        r matches Some((s, scheme)) ==> scheme@ == scheme_of(s@),
{
    match parse_url(spec) {
        Some(found) => Some(found),
        None => join_url(base, spec),
    }
}

/// The parent document, as the navigation needs it.
pub struct ParentDocument {
    /// The parent's URL, which an `about:blank` child inherits.
    pub url: String,
    /// The parent's base URL, serialized.
    pub base: String,
}

/// What the child frame loads.
pub enum FrameLoad {
    /// Nothing: the child stays on the `about:blank` document created at
    /// insertion, keeping its realm.
    KeepInitial,
    /// `about:blank`, inheriting this URL when there is one.
    AboutBlank(Option<String>),
    /// This response: URL, content type and body.
    Response { url: String, content_type: Option<String>, body: Vec<u8> },
    /// Run this `javascript:` URL script in the initial document.
    EvalScript(String),
    /// Load `about:blank` inheriting the URL, then run the script there.
    ScriptDocument { inherited: String, script: String },
    /// The parent realm's object URL contents for this URL.
    Blob(String),
    /// Navigate over the network, initiated by `initiator`.
    Fetch { url: String, initiator: String },
}

/// The view of a frame load: `(tag, url, text, bytes, content type)`,
/// the tag numbering the variants in declaration order from 0.
pub open spec fn frame_load_view(f: FrameLoad) -> (int, Option<Seq<char>>, Seq<char>, Seq<u8>, Option<Seq<char>>) {
    match f {
        FrameLoad::KeepInitial => (0, None, Seq::empty(), Seq::empty(), None),
        FrameLoad::AboutBlank(u) => (1, opt_string_view(u), Seq::empty(), Seq::empty(), None),
        FrameLoad::Response { url, content_type, body } => (2, Some(url@), Seq::empty(), body@, opt_string_view(content_type)),
        FrameLoad::EvalScript(s) => (3, None, s@, Seq::empty(), None),
        FrameLoad::ScriptDocument { inherited, script } => (4, Some(inherited@), script@, Seq::empty(), None),
        FrameLoad::Blob(u) => (5, Some(u@), Seq::empty(), Seq::empty(), None),
        FrameLoad::Fetch { url, initiator } => (6, Some(url@), initiator@, Seq::empty(), None),
    }
}

/// The script of a `javascript:` URL: the percent-decoded URL without its
/// `javascript:` prefix.
pub open spec fn javascript_source(url: Seq<char>) -> Seq<char> {
    let decoded = utf8_lossy(percent_decode_spec(encode_utf8(url)));
    if starts_with(decoded, "javascript:"@) {
        decoded.skip(11)
    } else {
        decoded
    }
}

/// What a child frame loads for `spec`: an empty or unresolvable `src`
/// means `about:blank` inheriting the parent's URL (kept as it is when the
/// child is still on its initial document, the one whose URL is the
/// parent's); otherwise the resolved URL's scheme decides.
pub open spec fn frame_plan_spec(
    spec: Seq<char>,
    parent: Option<(Seq<char>, Seq<char>)>,
    child_url: Seq<char>,
) -> (int, Option<Seq<char>>, Seq<char>, Seq<u8>, Option<Seq<char>>) {
    let parent_url = match parent {
        Some((u, _)) => u,
        None => "about:blank"@,
    };
    let initial = child_url == parent_url;
    let resolved = if spec.len() == 0 {
        None
    } else {
        match parent {
            Some((_, base)) => resolve_spec(spec, base),
            None => None,
        }
    };
    match resolved {
        None => if initial {
            (0, None, Seq::empty(), Seq::empty(), None)
        } else {
            (1, Some(parent_url), Seq::empty(), Seq::empty(), None)
        },
        Some(url) => {
            let scheme = scheme_of(url);
            if scheme == "about"@ {
                if initial {
                    (0, None, Seq::empty(), Seq::empty(), None)
                } else {
                    (1, Some(parent_url), Seq::empty(), Seq::empty(), None)
                }
            } else if scheme == "data"@ {
                (2, Some(url), Seq::empty(), data_url_spec(url).1, data_url_spec(url).0)
            } else if scheme == "javascript"@ {
                if initial {
                    (3, None, javascript_source(url), Seq::empty(), None)
                } else {
                    (4, Some(parent_url), javascript_source(url), Seq::empty(), None)
                }
            } else if scheme == "blob"@ {
                (5, Some(url), Seq::empty(), Seq::empty(), None)
            } else if scheme == "http"@ || scheme == "https"@ {
                let initiator = match parent {
                    Some((u, _)) => match parsed_url(u) {
                        Some(p) => p,
                        None => url,
                    },
                    None => url,
                };
                (6, Some(url), initiator, Seq::empty(), None)
            } else {
                (1, None, Seq::empty(), Seq::empty(), None)
            }
        },
    }
}

/// The view of the parent document.
pub open spec fn parent_view(p: Option<&ParentDocument>) -> Option<(Seq<char>, Seq<char>)> {
    match p {
        Some(d) => Some((d.url@, d.base@)),
        None => None,
    }
}

/// The script of a `javascript:` URL.
fn javascript_script(url: &str) -> (script: String)
    ensures
        script@ == javascript_source(url@),
{
    let decoded = percent_decode(url);
    let n = decoded.as_str().unicode_len();
    let prefix = "javascript:";
    proof {
        reveal_strlit("javascript:");
    }
    if n >= 11 && chars_match_at(decoded.as_str(), 0, prefix) {
        assert(decoded@.take(11) =~= decoded@.subrange(0, 11));
        let rest = decoded.as_str().substring_char(11, n);
        assert(rest@ =~= decoded@.skip(11));
        rest.to_owned()
    } else {
        assert(!starts_with(decoded@, "javascript:"@)) by {
            if n >= 11 {
                assert(decoded@.take(11) =~= decoded@.subrange(0, 11));
            }
        }
        decoded
    }
}

/// Decides what the child frame loads when its container's `src` is set to
/// `spec`. `parent` is the parent document, when it exists; `child_url` is
/// the child document's URL. [`navigate_frame`] also marks the container's
/// load as pending in the parent.
#[verifier::spinoff_prover]
#[verifier::rlimit(40)]
pub fn plan_frame_navigation(spec: &str, parent: Option<&ParentDocument>, child_url: &str) -> (plan: FrameLoad)
    ensures
        frame_load_view(plan) == frame_plan_spec(spec@, parent_view(parent), child_url@),
{
    let parent_url: String = match parent {
        Some(p) => p.url.clone(),
        None => {
            proof {
                reveal_strlit("about:blank");
            }
            "about:blank".to_owned()
        },
    };
    let initial = str_eq(child_url, parent_url.as_str());
    let resolved = if spec.unicode_len() == 0 {
        None
    } else {
        match parent {
            Some(p) => resolve_frame_url(spec, p.base.as_str()),
            None => None,
        }
    };
    let (url, scheme) = match resolved {
        None => {
            return if initial {
                FrameLoad::KeepInitial
            } else {
                FrameLoad::AboutBlank(Some(parent_url))
            };
        },
        Some(found) => found,
    };
    if str_eq(scheme.as_str(), "about") {
        if initial {
            FrameLoad::KeepInitial
        } else {
            FrameLoad::AboutBlank(Some(parent_url))
        }
    } else if str_eq(scheme.as_str(), "data") {
        let (content_type, body) = decode_data_url(url.as_str());
        FrameLoad::Response { url, content_type, body }
    } else if str_eq(scheme.as_str(), "javascript") {
        let script = javascript_script(url.as_str());
        if initial {
            FrameLoad::EvalScript(script)
        } else {
            FrameLoad::ScriptDocument { inherited: parent_url, script }
        }
    } else if str_eq(scheme.as_str(), "blob") {
        FrameLoad::Blob(url)
    } else if str_eq(scheme.as_str(), "http") || str_eq(scheme.as_str(), "https") {
        let initiator = match parent {
            Some(p) => match parse_url(p.url.as_str()) {
                Some((u, _)) => u,
                None => url.clone(),
            },
            None => url.clone(),
        };
        FrameLoad::Fetch { url, initiator }
    } else {
        FrameLoad::AboutBlank(None)
    }
}

/// Navigates the child frame in `container` when its `src` is set to `spec`:
/// on every path where the parent document exists, its load event starts
/// waiting for the container, and the plan says what the child loads.
/// `parent_loads` is the parent document's load tracker; with no parent
/// document it is left alone.
pub fn navigate_frame(
    parent_loads: &mut LoadTracker,
    container: u64,
    spec: &str,
    parent: Option<&ParentDocument>,
    child_url: &str,
) -> (plan: FrameLoad)
    ensures
        frame_load_view(plan) == frame_plan_spec(spec@, parent_view(parent), child_url@),
        parent is Some ==> final(parent_loads)@ == (LoadState {
            frame_loads: old(parent_loads)@.frame_loads.insert(container),
            ..old(parent_loads)@
        }),
        parent is None ==> final(parent_loads)@ == old(parent_loads)@,
{
    let plan = plan_frame_navigation(spec, parent, child_url);
    if parent.is_some() {
        parent_loads.begin_frame_load(container);
    }
    plan
}


/// A dial URL that does not resolve to an `http` or `https` URL; it keeps
/// the text it was given.
pub struct InvalidUrl {
    pub spec: String,
}

/// Whether a scheme may be dialed.
pub open spec fn dialable_scheme(scheme: Seq<char>) -> bool {
    scheme == "http"@ || scheme == "https"@
}

/// Resolves the URL of a fetch, script, style sheet or image against the
/// document's base URL; only `http` and `https` URLs may be dialed.
pub fn resolve_dial_url(spec: &str, base: &str) -> (r: Result<String, InvalidUrl>)
    ensures
        match r {
            Ok(url) => resolve_spec(spec@, base@) == Some(url@) && dialable_scheme(scheme_of(url@)),
            Err(e) => e.spec@ == spec@ && match resolve_spec(spec@, base@) {
                Some(u) => !dialable_scheme(scheme_of(u)),
                None => true,
            },
        },
{
    match resolve_frame_url(spec, base) {
        Some((url, scheme)) => if str_eq(scheme.as_str(), "http") || str_eq(scheme.as_str(), "https") {
            Ok(url)
        } else {
            Err(InvalidUrl { spec: spec.to_owned() })
        },
        None => Err(InvalidUrl { spec: spec.to_owned() }),
    }
}

/// A script element the parser stopped at.
pub enum ParsedScript {
    /// A classic script with inline source.
    InlineClassic,
    /// A classic script with this `src`.
    ExternalClassic(String),
    /// A module script; modules are deferred.
    Module,
    /// The element no longer holds a script.
    Missing,
}

/// What the document does with a script the parser stopped at
/// (<https://html.spec.whatwg.org/multipage/scripting.html#prepare-the-script-element>).
pub enum ScriptStep {
    /// Run the inline source now, then let the parser go on.
    Evaluate,
    /// Dial this URL; the parser waits for the script.
    Fetch(String),
    /// Queue the module to run before `DOMContentLoaded`; the parser goes on.
    Defer,
    /// Nothing to run; the parser goes on.
    Skip,
}

/// Decides the step for a script the parser stopped at: an external classic
/// script whose URL cannot be dialed is skipped.
pub fn script_step(script: &ParsedScript, base: &str) -> (step: ScriptStep)
    ensures
        match *script {
            ParsedScript::InlineClassic => step is Evaluate,
            ParsedScript::ExternalClassic(src) => match resolve_spec(src@, base@) {
                Some(u) => if dialable_scheme(scheme_of(u)) {
                    step matches ScriptStep::Fetch(url) && url@ == u
                } else {
                    step is Skip
                },
                None => step is Skip,
            },
            ParsedScript::Module => step is Defer,
            ParsedScript::Missing => step is Skip,
        },
{
    match script {
        ParsedScript::InlineClassic => ScriptStep::Evaluate,
        ParsedScript::ExternalClassic(src) => match resolve_dial_url(src.as_str(), base) {
            Ok(url) => ScriptStep::Fetch(url),
            Err(_) => ScriptStep::Skip,
        },
        ParsedScript::Module => ScriptStep::Defer,
        ParsedScript::Missing => ScriptStep::Skip,
    }
}

} // verus!

use renderer::data_url::{decode_base64, decode_data_url, hex_digit, percent_decode, percent_decode_bytes};
use renderer::documents::{DocumentStore, DocumentTree};
use renderer::frames::{
    plan_frame_navigation, resolve_dial_url, resolve_frame_url, script_step, FrameLoad,
    ParentDocument, ParsedScript, ScriptStep,
};
use renderer::messaging::{endpoint_owned, origin_string, route_port, window_message_allowed, PortRoute};
use renderer::interfaces::{JsDomParser, JsEvent, JsNode};
use renderer::stop::Stop;
use renderer::tasks::{
    accept_js_fetch, wake_plan, EventLog, PendingTimeout, TimerQueue, WakePlan,
    MAX_PENDING_EVENTS, MAX_PENDING_JS_FETCHES,
};

#[test]
fn timers_fire_earliest_first() {
    let mut q = TimerQueue::new();
    assert_eq!(q.schedule_timer(100, 50), 1);
    assert_eq!(q.schedule_timer(100, 10), 2);
    assert_eq!(q.schedule_timer(100, 10), 3);
    assert_eq!(q.next_timer_deadline(), Some(110));
    assert_eq!(q.due_timer(109), None);
    assert_eq!(q.due_timer(200), Some(2));
    assert_eq!(q.due_timer(200), Some(3));
    assert_eq!(q.next_timer_deadline(), Some(150));
    assert_eq!(q.due_timer(200), Some(1));
    assert_eq!(q.due_timer(200), None);
    assert_eq!(q.next_timer_deadline(), None);
    q.remove_timer(1);
    assert_eq!(q.next_timer_deadline(), None);
}

#[test]
fn script_timeouts_link_to_host_timers() {
    let mut q = TimerQueue::new();
    let id = q.schedule_js_timeout(0, 5, 70);
    assert_eq!(q.cancel_js_timeout(71), None);
    assert_eq!(q.cancel_js_timeout(70), Some(id));
    assert_eq!(q.next_timer_deadline(), None);
    let id = q.schedule_js_timeout(0, 5, 80);
    assert_eq!(q.take_slot(id), Some(80));
    assert_eq!(q.take_slot(id), None);
}

#[test]
fn a_turn_of_timer_work_cancels_first() {
    let mut q = TimerQueue::new();
    let old = q.schedule_js_timeout(0, 100, 1);
    let timeouts = vec![
        PendingTimeout { js_id: 2, delay: 10 },
        PendingTimeout { js_id: 3, delay: 20 },
    ];
    let dropped = q.adopt_timeouts(1000, &timeouts, &vec![1, 3]);
    assert_eq!(dropped, vec![old]);
    assert_eq!(q.next_timer_deadline(), Some(1010));
    assert_eq!(q.due_timer(5000), Some(old + 1));
    assert_eq!(q.due_timer(5000), None);
    assert_eq!(q.take_slot(old + 1), Some(2));
}

#[test]
fn the_event_log_is_bounded() {
    let mut log: EventLog<u32> = EventLog::new();
    log.record_event(1);
    log.record_event(2);
    assert_eq!(log.take_events(), Ok(vec![1, 2]));
    for i in 0..MAX_PENDING_EVENTS {
        log.record_event(i as u32);
    }
    log.record_event(9);
    assert_eq!(log.take_events(), Err(()));
    assert_eq!(log.take_events(), Ok(vec![]));
}

#[test]
fn fetch_admission_and_waking() {
    assert!(accept_js_fetch(MAX_PENDING_JS_FETCHES - 1, 0));
    assert!(!accept_js_fetch(200, 56));
    assert!(!accept_js_fetch(usize::MAX, 1));
    assert_eq!(wake_plan(false, false, None, None, 5), WakePlan::Done);
    assert_eq!(wake_plan(false, true, None, None, 5), WakePlan::Yield);
    assert_eq!(wake_plan(true, false, Some(100), None, 5), WakePlan::Sleep(Some(6)));
    assert_eq!(wake_plan(false, false, Some(100), Some(50), 5), WakePlan::Sleep(Some(50)));
    assert_eq!(wake_plan(true, true, None, None, 5), WakePlan::Sleep(Some(6)));
}

struct Doc(u32, &'static str);

impl DocumentTree for Doc {
    fn document_id(&self) -> u32 {
        self.0
    }
}

#[test]
fn documents_are_stored_by_id() {
    let mut store = DocumentStore::new();
    assert_eq!(store.insert(Doc(4, "a")), 4);
    assert_eq!(store.insert(Doc(5, "b")), 5);
    assert_eq!(store.get(4).map(|d| d.1), Some("a"));
    if let Some(doc) = store.get_mut(5) {
        doc.1 = "c";
    }
    assert_eq!(store.get(5).map(|d| d.1), Some("c"));
    assert_eq!(store.remove(4).map(|d| d.1), Some("a"));
    assert!(store.get(4).is_none());
    assert!(store.remove(4).is_none());
    assert!(store.get_mut(9).is_none());
}

#[test]
fn stop_flags() {
    let stop = Stop::new();
    assert!(!stop.is_set());
    stop.request();
    assert!(stop.is_set());
    stop.request();
    assert!(stop.is_set());
}

#[test]
fn small_interfaces() {
    assert_eq!(JsEvent::new("click".into()).event_type(), "click");
    let node = JsNode { id: 1 };
    node.scroll_into_view();
    assert_eq!(node.character_set(), "UTF-8");
    assert_eq!(node.charset(), "UTF-8");
    assert_eq!(node.input_encoding(), "UTF-8");
}

#[test]
fn dom_parser_checks_the_type() {
    let parser = JsDomParser::new("https://a.test/page".into());
    let request = parser.parse_from_string("<p>".into(), "text/html").expect("html");
    assert!(request.html);
    assert_eq!(request.content_type, "text/html");
    assert_eq!(request.url, "https://a.test/page");
    assert_eq!(request.source, "<p>");
    let svg = parser.parse_from_string("<svg/>".into(), "image/svg+xml").expect("svg");
    assert!(!svg.html);
    assert_eq!(
        parser.parse_from_string("x".into(), "text/plain").err(),
        Some("The provided value 'text/plain' is not a valid enum value".to_string())
    );
    assert!(parser.parse_from_string("x".into(), "TEXT/HTML").is_err());
}

#[test]
fn data_urls_decode() {
    assert_eq!(hex_digit(b'a'), Some(10));
    assert_eq!(hex_digit(b'G'), None);
    assert_eq!(percent_decode_bytes("a%20b%zz"), b"a b%zz".to_vec());
    assert_eq!(percent_decode("%E2%9C%93"), "\u{2713}");
    assert_eq!(percent_decode("%FF"), "\u{FFFD}");
    assert_eq!(decode_base64("aGk="), b"hi".to_vec());
    assert_eq!(decode_data_url("data:text/plain,a%20b"), (Some("text/plain".into()), b"a b".to_vec()));
    assert_eq!(decode_data_url("data:;base64,aGk="), (None, b"hi".to_vec()));
    assert_eq!(decode_data_url("data:text/html"), (None, vec![]));
    assert_eq!(decode_data_url("http://x,y"), (None, vec![]));
}

fn parent() -> ParentDocument {
    ParentDocument { url: "https://a.test/dir/page".into(), base: "https://a.test/dir/page".into() }
}

fn plan(spec: &str, parent: Option<&ParentDocument>, child: &str) -> String {
    match plan_frame_navigation(spec, parent, child) {
        FrameLoad::KeepInitial => "keep".into(),
        FrameLoad::AboutBlank(u) => format!("blank {u:?}"),
        FrameLoad::Response { url, content_type, body } => {
            format!("response {url} {content_type:?} {}", String::from_utf8_lossy(&body))
        }
        FrameLoad::EvalScript(s) => format!("eval {s}"),
        FrameLoad::ScriptDocument { inherited, script } => format!("script {inherited} {script}"),
        FrameLoad::Blob(u) => format!("blob {u}"),
        FrameLoad::Fetch { url, initiator } => format!("fetch {url} {initiator}"),
    }
}

#[test]
fn frame_urls_resolve_against_the_base() {
    let (url, scheme) = resolve_frame_url("x.html", "https://a.test/dir/page").expect("joins");
    assert_eq!(url, "https://a.test/dir/x.html");
    assert_eq!(scheme, "https");
    let (url, scheme) = resolve_frame_url("HTTP://B.test", "https://a.test/").expect("absolute");
    assert_eq!(url, "http://b.test/");
    assert_eq!(scheme, "http");
    assert!(resolve_frame_url("x", "not a url").is_none());
}

#[test]
fn frame_navigation_plans() {
    let p = parent();
    let initial = "https://a.test/dir/page";
    assert_eq!(plan("", Some(&p), initial), "keep");
    assert_eq!(plan("", Some(&p), "about:blank"), "blank Some(\"https://a.test/dir/page\")");
    assert_eq!(plan("about:blank", Some(&p), initial), "keep");
    assert_eq!(plan("about:blank", Some(&p), "https://other/"), "blank Some(\"https://a.test/dir/page\")");
    assert_eq!(plan("data:text/plain,hi", Some(&p), initial), "response data:text/plain,hi Some(\"text/plain\") hi");
    assert_eq!(plan("javascript:a%20b", Some(&p), initial), "eval a b");
    assert_eq!(plan("javascript:go()", Some(&p), "x:"), "script https://a.test/dir/page go()");
    assert_eq!(plan("blob:https://a.test/1", Some(&p), initial), "blob blob:https://a.test/1");
    assert_eq!(plan("next.html", Some(&p), initial), "fetch https://a.test/dir/next.html https://a.test/dir/page");
    assert_eq!(plan("mailto:x@y.test", Some(&p), initial), "blank None");
    assert_eq!(plan("next.html", None, "about:blank"), "keep");
    assert_eq!(plan("next.html", None, "https://x/"), "blank Some(\"about:blank\")");
}

#[test]
fn dial_urls_must_be_http() {
    let base = "https://a.test/dir/page";
    assert_eq!(resolve_dial_url("x.js", base).ok(), Some("https://a.test/dir/x.js".to_string()));
    let err = resolve_dial_url("data:,x", base).err().expect("not dialable");
    assert_eq!(err.spec, "data:,x");
    assert!(resolve_dial_url("x", "nope").is_err());
    assert!(matches!(script_step(&ParsedScript::InlineClassic, base), ScriptStep::Evaluate));
    assert!(matches!(script_step(&ParsedScript::Module, base), ScriptStep::Defer));
    assert!(matches!(script_step(&ParsedScript::Missing, base), ScriptStep::Skip));
    match script_step(&ParsedScript::ExternalClassic("/s.js".into()), base) {
        ScriptStep::Fetch(url) => assert_eq!(url, "https://a.test/s.js"),
        _ => panic!("expected a fetch"),
    }
    assert!(matches!(
        script_step(&ParsedScript::ExternalClassic("javascript:1".into()), base),
        ScriptStep::Skip
    ));
}

#[test]
fn message_routing() {
    assert_eq!(origin_string("https://a.test:443/x?y"), Some("https://a.test".to_string()));
    assert_eq!(origin_string("data:,x"), Some("null".to_string()));
    assert_eq!(origin_string("::"), None);
    assert!(window_message_allowed("*", Some("https://a.test/")));
    assert!(window_message_allowed("https://a.test", Some("https://a.test/p")));
    assert!(!window_message_allowed("https://b.test", Some("https://a.test/p")));
    assert!(!window_message_allowed("*", None));
    assert_eq!(route_port(Some(3), true), PortRoute::Deliver(3));
    assert_eq!(route_port(Some(3), false), PortRoute::Drop);
    assert_eq!(route_port(None, true), PortRoute::Requeue);
    assert!(endpoint_owned(Some(2), 2));
    assert!(!endpoint_owned(Some(2), 3));
    assert!(!endpoint_owned(None, 3));
}

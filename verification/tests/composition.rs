use renderer::attributes::{plan_set_attribute_node, SetAttrAction};
use renderer::data_url::decode_base64;
use renderer::encoding::StreamDecoder;
use renderer::forms::hard_wrap;
use renderer::frames::{navigate_frame, FrameLoad, ParentDocument};
use renderer::loads::LoadTracker;
use renderer::messaging::{deliver_window_message, route_port_message, PortRoute, PortTable};
use renderer::tasks::{adopt_fetches, EventLog, FetchAction, PendingFetch, MAX_PENDING_EVENTS};

#[test]
fn frame_navigation_marks_the_parent_on_every_path() {
    let parent = ParentDocument { url: "https://a.test/".into(), base: "https://a.test/".into() };
    for spec in ["", "about:blank", "data:,hi", "https://b.test/x", "ftp://c.test/"] {
        let mut loads = LoadTracker::new();
        let _ = navigate_frame(&mut loads, 7, spec, Some(&parent), "about:blank");
        assert!(loads.end_frame_load(7), "{spec}");
    }
    let mut loads = LoadTracker::new();
    let _ = navigate_frame(&mut loads, 7, "https://b.test/x", None, "about:blank");
    assert!(!loads.end_frame_load(7));
    let plan = navigate_frame(&mut loads, 3, "page", Some(&parent), "about:blank");
    assert!(matches!(
        plan,
        FrameLoad::Fetch { ref url, ref initiator }
            if url == "https://a.test/page" && initiator == "https://a.test/"
    ));
    let plan = navigate_frame(&mut loads, 3, "ftp://c.test/", Some(&parent), "about:blank");
    assert!(matches!(plan, FrameLoad::AboutBlank(None)));
}

fn fetch(js_id: i32, url: &str) -> PendingFetch {
    PendingFetch { js_id, url: url.into() }
}

#[test]
fn fetches_queue_until_the_cap_then_fail() {
    let fetches = vec![fetch(1, "/a"), fetch(2, "mailto:x@y"), fetch(3, "/b"), fetch(4, "/c")];
    let plan = adopt_fetches(250, 4, "https://a.test/", &fetches);
    assert_eq!(
        plan,
        vec![
            FetchAction::Queue { js_id: 1, url: "https://a.test/a".into() },
            FetchAction::Fail { js_id: 2 },
            FetchAction::Queue { js_id: 3, url: "https://a.test/b".into() },
            FetchAction::Fail { js_id: 4 },
        ]
    );
    let plan = adopt_fetches(0, 0, "https://a.test/", &fetches);
    assert_eq!(plan.len(), 4);
    assert_eq!(plan[2], FetchAction::Queue { js_id: 3, url: "https://a.test/b".into() });
    assert!(adopt_fetches(300, 0, "https://a.test/", &fetches)
        .iter()
        .all(|a| matches!(a, FetchAction::Fail { .. })));
}

#[test]
fn refused_messages_forget_their_ports() {
    let mut table = PortTable::new();
    for e in [1, 2, 3] {
        table.register(e);
    }
    let ports = vec![2, 3];
    assert!(deliver_window_message(&mut table, "*", Some("https://a.test/"), &ports));
    assert!(table.contains(2));
    assert!(!deliver_window_message(&mut table, "https://b.test", Some("https://a.test/"), &ports));
    assert!(table.contains(1));
    assert!(!table.contains(2));
    assert!(!table.contains(3));
    assert!(!deliver_window_message(&mut table, "*", None, &vec![1]));
    assert!(!table.contains(1));
}

#[test]
fn dropped_port_messages_forget_their_ports() {
    let mut table = PortTable::new();
    table.register(5);
    table.register(6);
    assert_eq!(route_port_message(&mut table, None, false, &vec![5]), PortRoute::Requeue);
    assert!(table.contains(5));
    assert_eq!(route_port_message(&mut table, Some(9), true, &vec![5]), PortRoute::Deliver(9));
    assert!(table.contains(5));
    assert_eq!(route_port_message(&mut table, Some(9), false, &vec![5]), PortRoute::Drop);
    assert!(!table.contains(5));
    assert!(table.contains(6));
}

#[test]
fn attribute_nodes_attach_once() {
    assert_eq!(plan_set_attribute_node(1, 10, Some(2), None), SetAttrAction::InUse);
    assert_eq!(plan_set_attribute_node(1, 10, Some(1), Some(10)), SetAttrAction::Unchanged);
    assert_eq!(plan_set_attribute_node(1, 10, None, Some(11)), SetAttrAction::Attach { detach: Some(11) });
    assert_eq!(plan_set_attribute_node(1, 10, None, None), SetAttrAction::Attach { detach: None });
    assert_eq!(plan_set_attribute_node(1, 10, Some(1), None), SetAttrAction::Attach { detach: None });
}

#[test]
fn streamed_bodies_decode_across_chunks() {
    let mut d = StreamDecoder::new(Some("text/html; charset=utf-8".into()));
    let mut text = d.push(&[0x61, 0xC3]);
    assert_eq!(text, "a");
    text.push_str(&d.push(&[0xA9, 0x62]));
    text.push_str(&d.finish());
    assert_eq!(text, "a\u{e9}b");
}

#[test]
fn streamed_bodies_in_a_legacy_encoding() {
    let mut d = StreamDecoder::new(Some("text/html; charset=windows-1252".into()));
    let mut text = d.push(&[0x63, 0x61, 0x66, 0xE9]);
    text.push_str(&d.finish());
    assert_eq!(text, "caf\u{e9}");
    let d = StreamDecoder::new(None);
    assert_eq!(d.finish(), "");
}

#[test]
fn decoded_text_waits_for_the_byte_order_mark() {
    let mut d = StreamDecoder::new(None);
    assert_eq!(d.push(&[0xEF, 0xBB]), "");
    let mut text = d.push(&[0xBF, 0x78]);
    text.push_str(&d.finish());
    assert_eq!(text, "x");
}

#[test]
fn hard_wrap_only_adds_line_feeds_and_is_idempotent() {
    let value = "abcdefg\nhi";
    let w = hard_wrap(value, 3);
    assert_eq!(w, "abc\ndef\ng\nhi");
    assert_eq!(w.replace('\n', ""), value.replace('\n', ""));
    assert!(w.split('\n').all(|line| line.chars().count() <= 3));
    assert_eq!(hard_wrap(&w, 3), w);
    assert_eq!(hard_wrap("ab", 0), "a\nb");
}

#[test]
fn base64_round_trips_through_whitespace() {
    assert_eq!(decode_base64("aGVs bG8=\n"), b"hello".to_vec());
    assert_eq!(decode_base64("aGVsbA=="), b"hell".to_vec());
    assert_eq!(decode_base64("a\tG\rV s"), b"hel".to_vec());
    assert_eq!(decode_base64("aGVsb").len(), 6 * 5 / 8);
    assert_eq!(decode_base64("a!G*V#s"), decode_base64("aGVs"));
}

#[test]
fn a_run_of_records_then_a_take() {
    let mut log = EventLog::new();
    for e in 0..3 {
        log.record_event(e);
    }
    assert_eq!(log.take_events(), Ok(vec![0, 1, 2]));
    assert_eq!(log.take_events(), Ok(vec![]));
    for e in 0..=MAX_PENDING_EVENTS {
        log.record_event(e);
    }
    assert_eq!(log.take_events(), Err(()));
    assert_eq!(log.take_events(), Ok(vec![]));
}

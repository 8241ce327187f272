use renderer::loads::{DialContext, DialEffect, DialReport, FetchRecord, LoadTracker};

#[test]
fn style_sheets_hold_the_load_event() {
    let mut t = LoadTracker::new();
    let sheet = t.stylesheet_dial(10);
    assert_eq!(sheet, DialContext::Stylesheet { element: 10, epoch: 0 });
    assert!(!t.document_load_due(false));
    let report = t.finish_dial(sheet, 200);
    assert_eq!(
        report,
        DialReport {
            record: FetchRecord::Fetch(200),
            effect: DialEffect::StylesheetDone { element: 10, store: true },
            adopt_work: true,
        }
    );
    assert!(t.document_load_due(false));
    assert!(!t.document_load_due(true));
}

#[test]
fn stale_completions_change_nothing() {
    let mut t = LoadTracker::new();
    let sheet = t.stylesheet_dial(1);
    let image_gen = t.begin_image(2, false, false).expect("new image");
    let image = t.image_dial(2, image_gen);
    t.reset();
    let report = t.finish_dial(sheet, 200);
    assert_eq!(report.effect, DialEffect::Nothing);
    assert_eq!(report.record, FetchRecord::Nothing);
    assert!(!report.adopt_work);
    assert_eq!(t.fail_dial(image).effect, DialEffect::Nothing);
    assert!(t.document_load_due(false));
    let fetch = LoadTracker::new().fetch_dial(5);
    assert_eq!(t.finish_dial(fetch, 200).effect, DialEffect::Nothing);
}

#[test]
fn fetch_completions_settle_the_promise() {
    let mut t = LoadTracker::new();
    let fetch = t.fetch_dial(7);
    assert_eq!(
        t.finish_dial(fetch, 404).effect,
        DialEffect::SettleFetch { id: 7, ok: true, status: 404 }
    );
    let report = t.fail_dial(fetch);
    assert_eq!(report.record, FetchRecord::FetchFailed);
    assert_eq!(report.effect, DialEffect::SettleFetch { id: 7, ok: false, status: 0 });
}

#[test]
fn parser_blocking_scripts() {
    let mut t = LoadTracker::new();
    let script = t.script_dial(3);
    assert!(t.script_in_flight());
    assert!(t.waiting_for_load(false, false, true));
    assert_eq!(
        t.finish_dial(script, 500).effect,
        DialEffect::ResumeParser { element: 3, run: false }
    );
    assert!(!t.script_in_flight());
    assert!(!t.waiting_for_load(false, false, true));
    assert!(t.waiting_for_load(true, false, true));
    assert!(t.waiting_for_load(false, false, false));
    let script = t.script_dial(4);
    assert_eq!(t.finish_dial(script, 204).effect, DialEffect::ResumeParser { element: 4, run: true });
}

#[test]
fn image_generations() {
    let mut t = LoadTracker::new();
    assert_eq!(t.image_generation(9), 0);
    let first = t.begin_image(9, false, false).expect("first fetch");
    assert_eq!(first, 1);
    assert_eq!(t.begin_image(9, false, false), None);
    assert_eq!(t.begin_image(8, false, true), None);
    let old = t.image_dial(9, first);
    let second = t.begin_image(9, true, false).expect("forced");
    assert_eq!(second, 2);
    let new = t.image_dial(9, second);
    assert_eq!(
        t.finish_dial(old, 200).effect,
        DialEffect::ImageDone { element: 9, current: false, success: true }
    );
    assert!(!t.document_load_due(false));
    assert_eq!(
        t.finish_dial(new, 200).effect,
        DialEffect::ImageDone { element: 9, current: true, success: true }
    );
    assert!(t.document_load_due(false));
    t.disconnect_image(9);
    assert_eq!(t.image_generation(9), 3);
}

#[test]
fn frame_navigations_supersede_each_other() {
    let mut t = LoadTracker::new();
    let first = t.navigate();
    assert!(t.frame_in_flight());
    let second = t.navigate();
    assert_eq!(t.finish_dial(first, 200).effect, DialEffect::Nothing);
    assert!(t.frame_in_flight());
    assert_eq!(t.finish_dial(second, 200).effect, DialEffect::CommitFrame);
    assert!(!t.frame_in_flight());
}

#[test]
fn the_load_event_fires_once_after_child_frames() {
    let mut t = LoadTracker::new();
    t.begin_frame_load(100);
    assert!(!t.take_load_event(true));
    assert!(t.end_frame_load(100));
    assert!(!t.end_frame_load(100));
    assert!(!t.take_load_event(false));
    assert!(t.take_load_event(true));
    assert!(!t.take_load_event(true));
    t.reset();
    assert!(t.take_load_event(true));
}

use renderer::focus::{
    blur_actions, focus_after_blur, focus_begin, focus_finish, FocusAction, FocusEventKind,
    FocusWait,
};

fn fire(target: u64, event: FocusEventKind, bubbles: bool, related: Option<u64>) -> FocusAction {
    FocusAction::Fire { target, event, bubbles, related }
}

#[test]
fn focus_moves_with_blur_then_focus() {
    assert_eq!(focus_begin(Some(3), 3), (vec![], FocusWait::Done));
    assert_eq!(
        focus_begin(Some(1), 2),
        (
            vec![FocusAction::SetActive(None), fire(1, FocusEventKind::Blur, false, Some(2))],
            FocusWait::ActiveAfterBlur
        )
    );
    assert_eq!(
        focus_after_blur(1, 2, None),
        (vec![fire(1, FocusEventKind::Focusout, true, Some(2))], FocusWait::Focusable)
    );
    assert_eq!(
        focus_after_blur(1, 2, Some(7)),
        (vec![fire(1, FocusEventKind::Focusout, true, Some(7))], FocusWait::Done)
    );
    assert_eq!(
        focus_finish(Some(1), 2, true),
        vec![
            FocusAction::SetActive(Some(2)),
            fire(2, FocusEventKind::Focus, false, Some(1)),
            fire(2, FocusEventKind::Focusin, true, Some(1)),
        ]
    );
    assert!(focus_finish(Some(1), 2, false).is_empty());
    assert_eq!(focus_begin(None, 2), (vec![FocusAction::SetActive(None)], FocusWait::Focusable));
}

#[test]
fn blur_only_affects_the_focused_node() {
    assert!(blur_actions(Some(1), 2).is_empty());
    assert!(blur_actions(None, 2).is_empty());
    assert_eq!(
        blur_actions(Some(2), 2),
        vec![
            FocusAction::SetActive(None),
            fire(2, FocusEventKind::Blur, false, None),
            fire(2, FocusEventKind::Focusout, true, None),
        ]
    );
}

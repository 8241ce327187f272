//! The focus update steps
//! (<https://html.spec.whatwg.org/multipage/interaction.html#focus-update-steps>)
//! as decisions: what to set and which events to fire, in order, given what
//! the event handlers left behind. Handlers run between the steps, so the
//! caller fires the events and reports back. Nodes are named by their ids.

use vstd::prelude::*;

verus! {

/// A focus event.
#[derive(Clone, Copy, Debug, PartialEq, Eq, Structural)]
pub enum FocusEventKind {
    Blur,
    Focusout,
    Focus,
    Focusin,
}

/// One thing the caller does.
#[derive(Clone, Copy, Debug, PartialEq, Eq, Structural)]
pub enum FocusAction {
    /// Make this the document's focused area (`None` clears it).
    SetActive(Option<u64>),
    /// Fire a trusted, non-cancelable focus event at `target`.
    Fire { target: u64, event: FocusEventKind, bubbles: bool, related: Option<u64> },
}

/// What the caller reports back next.
#[derive(Clone, Copy, Debug, PartialEq, Eq, Structural)]
pub enum FocusWait {
    /// Nothing: the update is over.
    Done,
    /// The focused area after the `blur` handlers ran.
    ActiveAfterBlur,
    /// Whether the target is still focusable.
    Focusable,
}

/// Moving focus to `node` from `previous` starts here: nothing when `node`
/// already has focus; otherwise focus is cleared and, when something had
/// it, that node gets `blur` with `node` as the related target.
pub fn focus_begin(previous: Option<u64>, node: u64) -> (r: (Vec<FocusAction>, FocusWait))
    ensures
        previous == Some(node) ==> r.0@ == Seq::<FocusAction>::empty() && r.1 == FocusWait::Done,
        previous is None ==> r.0@ == seq![FocusAction::SetActive(None)] && r.1
            == FocusWait::Focusable,
        (previous matches Some(p) && p != node) ==> r.0@ == seq![
            FocusAction::SetActive(None),
            FocusAction::Fire {
                target: previous->0,
                event: FocusEventKind::Blur,
                bubbles: false,
                related: Some(node),
            },
        ] && r.1 == FocusWait::ActiveAfterBlur,
{
    let mut actions: Vec<FocusAction> = Vec::new();
    match previous {
        Some(p) => {
            if p == node {
                return (actions, FocusWait::Done);
            }
            actions.push(FocusAction::SetActive(None));
            actions.push(
                FocusAction::Fire { target: p, event: FocusEventKind::Blur, bubbles: false, related: Some(node) },
            );
            (actions, FocusWait::ActiveAfterBlur)
        },
        None => {
            actions.push(FocusAction::SetActive(None));
            (actions, FocusWait::Focusable)
        },
    }
}

/// After `blur` on `previous`: `focusout` follows. When a handler moved
/// focus elsewhere, it carries the new area as related target and the
/// update stops; otherwise it carries `node` and the target's focusability
/// is checked next.
pub fn focus_after_blur(previous: u64, node: u64, active: Option<u64>) -> (r: (Vec<FocusAction>, FocusWait))
    ensures
        match active {
            Some(moved) => r.0@ == seq![
                FocusAction::Fire {
                    target: previous,
                    event: FocusEventKind::Focusout,
                    bubbles: true,
                    related: Some(moved),
                },
            ] && r.1 == FocusWait::Done,
            None => r.0@ == seq![
                FocusAction::Fire {
                    target: previous,
                    event: FocusEventKind::Focusout,
                    bubbles: true,
                    related: Some(node),
                },
            ] && r.1 == FocusWait::Focusable,
        },
{
    let mut actions: Vec<FocusAction> = Vec::new();
    match active {
        Some(moved) => {
            actions.push(
                FocusAction::Fire { target: previous, event: FocusEventKind::Focusout, bubbles: true, related: Some(moved) },
            );
            (actions, FocusWait::Done)
        },
        None => {
            actions.push(
                FocusAction::Fire { target: previous, event: FocusEventKind::Focusout, bubbles: true, related: Some(node) },
            );
            (actions, FocusWait::Focusable)
        },
    }
}

/// The last step: a target that is no longer focusable gets nothing;
/// otherwise it becomes the focused area and gets `focus` and then
/// `focusin`, with the previously focused node as related target.
pub fn focus_finish(previous: Option<u64>, node: u64, focusable: bool) -> (actions: Vec<FocusAction>)
    ensures
        !focusable ==> actions@ == Seq::<FocusAction>::empty(),
        focusable ==> actions@ == seq![
            FocusAction::SetActive(Some(node)),
            FocusAction::Fire { target: node, event: FocusEventKind::Focus, bubbles: false, related: previous },
            FocusAction::Fire { target: node, event: FocusEventKind::Focusin, bubbles: true, related: previous },
        ],
{
    let mut actions: Vec<FocusAction> = Vec::new();
    if focusable {
        actions.push(FocusAction::SetActive(Some(node)));
        actions.push(FocusAction::Fire { target: node, event: FocusEventKind::Focus, bubbles: false, related: previous });
        actions.push(FocusAction::Fire { target: node, event: FocusEventKind::Focusin, bubbles: true, related: previous });
    }
    actions
}

/// `blur()` on `node`: when it has focus, focus is cleared and it gets
/// `blur` and then `focusout`; otherwise nothing happens.
pub fn blur_actions(active: Option<u64>, node: u64) -> (actions: Vec<FocusAction>)
    ensures
        active != Some(node) ==> actions@ == Seq::<FocusAction>::empty(),
        active == Some(node) ==> actions@ == seq![
            FocusAction::SetActive(None),
            FocusAction::Fire { target: node, event: FocusEventKind::Blur, bubbles: false, related: None },
            FocusAction::Fire { target: node, event: FocusEventKind::Focusout, bubbles: true, related: None },
        ],
{
    let mut actions: Vec<FocusAction> = Vec::new();
    let has_focus = match active {
        Some(a) => a == node,
        None => false,
    };
    if has_focus {
        actions.push(FocusAction::SetActive(None));
        actions.push(FocusAction::Fire { target: node, event: FocusEventKind::Blur, bubbles: false, related: None });
        actions.push(FocusAction::Fire { target: node, event: FocusEventKind::Focusout, bubbles: true, related: None });
    }
    actions
}

} // verus!

//! Setting an `Attr` node on an element
//! (<https://dom.spec.whatwg.org/#concept-element-attributes-set>): attributes
//! and elements are named by their ids.

use vstd::prelude::*;

verus! {

/// What setting an attribute node on an element does.
#[derive(Clone, Copy, Debug, PartialEq, Eq, Structural)]
pub enum SetAttrAction {
    /// The attribute belongs to another element: `InUseAttributeError`.
    InUse,
    /// The attribute is already attached here: nothing changes and the
    /// attribute itself is returned.
    Unchanged,
    /// The attribute is attached: its value is set on the element and its
    /// owner and identity recorded; `detach` is the attribute it replaces,
    /// which loses its owner.
    Attach { detach: Option<u64> },
}

/// The action for setting attribute `attr`, owned by `owner`, on `element`,
/// where `attached` is the attribute recorded for the element and the
/// attribute's name, if any.
pub open spec fn set_attr_spec(element: u64, attr: u64, owner: Option<u64>, attached: Option<u64>) -> SetAttrAction {
    if owner is Some && owner != Some(element) {
        SetAttrAction::InUse
    } else if owner == Some(element) && attached == Some(attr) {
        SetAttrAction::Unchanged
    } else {
        SetAttrAction::Attach {
            detach: match attached {
                Some(previous) => if previous != attr {
                    Some(previous)
                } else {
                    None
                },
                None => None,
            },
        }
    }
}

/// Decides `setAttributeNode(attr)` on `element`.
pub fn plan_set_attribute_node(element: u64, attr: u64, owner: Option<u64>, attached: Option<u64>) -> (a:
    SetAttrAction)
    ensures
        a == set_attr_spec(element, attr, owner, attached),
{
    if let Some(o) = owner {
        if o != element {
            return SetAttrAction::InUse;
        }
    }
    let previous = match attached {
        Some(p) => if p != attr {
            Some(p)
        } else {
            None
        },
        None => None,
    };
    if previous.is_none() && owner == Some(element) && attached == Some(attr) {
        return SetAttrAction::Unchanged;
    }
    SetAttrAction::Attach { detach: previous }
}

} // verus!

//! A document tree as the node algorithms read it: each node's kind, its
//! parent and its children, nodes named by their index. The tree keeps each
//! node's depth as ghost state, which bounds every walk up or down it.
//!
//! On it stand the algorithms that only read kinds and tree shape:
//! [`Tree::nodes_equal`] (`isEqualNode`), [`Tree::descendant_text`],
//! [`Tree::locate_namespace`], [`Tree::locate_prefix`] and the focus fixup
//! after a removal.

use vstd::prelude::*;

use crate::text::{concat, spec_ascii_uppercase, str_eq, to_ascii_uppercase};

verus! {

/// The HTML namespace.
pub open spec fn html_namespace() -> Seq<char> {
    "http://www.w3.org/1999/xhtml"@
}

/// A namespace-qualified name: namespace (empty for none), optional prefix
/// and local name.
pub struct QualName {
    pub namespace: String,
    pub prefix: Option<String>,
    pub local: String,
}

/// A qualified name as values.
pub struct QualNameView {
    pub namespace: Seq<char>,
    pub prefix: Option<Seq<char>>,
    pub local: Seq<char>,
}

/// The view of an optional string.
pub open spec fn opt_chars(s: Option<String>) -> Option<Seq<char>> {
    match s {
        Some(s) => Some(s@),
        None => None,
    }
}

impl View for QualName {
    type V = QualNameView;

    open spec fn view(&self) -> QualNameView {
        QualNameView { namespace: self.namespace@, prefix: opt_chars(self.prefix), local: self.local@ }
    }
}

/// An attribute: its name and value.
pub struct Attribute {
    pub name: QualName,
    pub value: String,
}

/// An attribute as values.
pub struct AttributeView {
    pub name: QualNameView,
    pub value: Seq<char>,
}

impl View for Attribute {
    type V = AttributeView;

    open spec fn view(&self) -> AttributeView {
        AttributeView { name: self.name@, value: self.value@ }
    }
}

/// The attributes as values.
pub open spec fn attributes_view(a: Seq<Attribute>) -> Seq<AttributeView> {
    a.map_values(|x: Attribute| x@)
}

/// What a node is.
#[allow(inconsistent_fields)]
pub enum NodeKind {
    Document,
    Fragment,
    Doctype { name: String, public_id: String, system_id: String },
    Element { name: QualName, attributes: Vec<Attribute> },
    Text { data: String },
    CDataSection { data: String },
    Comment { data: String },
    ProcessingInstruction { target: String, data: String },
}

/// A node kind as values.
#[allow(inconsistent_fields)]
pub enum KindView {
    Document,
    Fragment,
    Doctype { name: Seq<char>, public_id: Seq<char>, system_id: Seq<char> },
    Element { name: QualNameView, attributes: Seq<AttributeView> },
    Text { data: Seq<char> },
    CDataSection { data: Seq<char> },
    Comment { data: Seq<char> },
    ProcessingInstruction { target: Seq<char>, data: Seq<char> },
}

impl View for NodeKind {
    type V = KindView;

    open spec fn view(&self) -> KindView {
        match self {
            NodeKind::Document => KindView::Document,
            NodeKind::Fragment => KindView::Fragment,
            NodeKind::Doctype { name, public_id, system_id } => KindView::Doctype {
                name: name@,
                public_id: public_id@,
                system_id: system_id@,
            },
            NodeKind::Element { name, attributes } => KindView::Element {
                name: name@,
                attributes: attributes_view(attributes@),
            },
            NodeKind::Text { data } => KindView::Text { data: data@ },
            NodeKind::CDataSection { data } => KindView::CDataSection { data: data@ },
            NodeKind::Comment { data } => KindView::Comment { data: data@ },
            NodeKind::ProcessingInstruction { target, data } => KindView::ProcessingInstruction {
                target: target@,
                data: data@,
            },
        }
    }
}

/// One node as values.
pub struct NodeView {
    pub kind: KindView,
    pub parent: Option<usize>,
    pub children: Seq<usize>,
}

/// A tree as values, with each node's depth.
pub struct TreeView {
    pub nodes: Seq<NodeView>,
    pub depth: Seq<nat>,
}

/// The shape every tree keeps: depths are below the node count, a parent is
/// one level up, and a node's children are nodes one level down whose
/// parent it is.
pub open spec fn wf(t: TreeView) -> bool {
    &&& t.depth.len() == t.nodes.len()
    &&& forall|i: int| 0 <= i < t.nodes.len() ==> #[trigger] t.depth[i] < t.nodes.len()
    &&& forall|i: int|
        0 <= i < t.nodes.len() && (#[trigger] t.nodes[i]).parent is Some ==> {
            let p = t.nodes[i].parent->0 as int;
            0 <= p < t.nodes.len() && t.depth[p] + 1 == t.depth[i]
        }
    &&& forall|i: int, k: int|
        0 <= i < t.nodes.len() && 0 <= k < t.nodes[i].children.len() ==> {
            let c = #[trigger] t.nodes[i].children[k] as int;
            &&& 0 <= c < t.nodes.len()
            &&& t.nodes[c].parent == Some(i as usize)
            &&& t.depth[c] == t.depth[i] + 1
        }
}

/// Whether `attribute` is among `list`.
pub open spec fn has_attribute(list: Seq<AttributeView>, attribute: AttributeView) -> bool {
    exists|j: int| 0 <= j < list.len() && list[j] == attribute
}

/// Whether two attribute lists hold the same attributes: as many of them,
/// and each of the first among the second.
pub open spec fn attributes_match(a: Seq<AttributeView>, b: Seq<AttributeView>) -> bool {
    a.len() == b.len() && forall|i: int| 0 <= i < a.len() ==> #[trigger] has_attribute(b, a[i])
}

/// Whether two node kinds are equal as `isEqualNode` compares them
/// (<https://dom.spec.whatwg.org/#concept-node-equals>).
pub open spec fn kinds_equal(a: KindView, b: KindView) -> bool {
    match (a, b) {
        (KindView::Document, KindView::Document) => true,
        (KindView::Fragment, KindView::Fragment) => true,
        (
            KindView::Doctype { name: n1, public_id: p1, system_id: s1 },
            KindView::Doctype { name: n2, public_id: p2, system_id: s2 },
        ) => n1 == n2 && p1 == p2 && s1 == s2,
        (
            KindView::Element { name: n1, attributes: a1 },
            KindView::Element { name: n2, attributes: a2 },
        ) => n1 == n2 && attributes_match(a1, a2),
        (KindView::Text { data: d1 }, KindView::Text { data: d2 }) => d1 == d2,
        (KindView::CDataSection { data: d1 }, KindView::CDataSection { data: d2 }) => d1 == d2,
        (KindView::Comment { data: d1 }, KindView::Comment { data: d2 }) => d1 == d2,
        (
            KindView::ProcessingInstruction { target: t1, data: d1 },
            KindView::ProcessingInstruction { target: t2, data: d2 },
        ) => t1 == t2 && d1 == d2,
        _ => false,
    }
}

/// The measure that bounds a walk down from `a`.
pub open spec fn height_bound(t: TreeView, a: int) -> int {
    if 0 <= a < t.nodes.len() {
        t.nodes.len() - t.depth[a]
    } else {
        0
    }
}

/// `isEqualNode`: the same node, or nodes of equal kinds whose children are
/// pairwise equal.
pub open spec fn nodes_equal_spec(t: TreeView, a: int, b: int) -> bool
    decreases height_bound(t, a),
    when wf(t)
{
    if a == b {
        true
    } else if !(0 <= a < t.nodes.len() && 0 <= b < t.nodes.len()) {
        false
    } else if !kinds_equal(t.nodes[a].kind, t.nodes[b].kind) {
        false
    } else {
        let ka = t.nodes[a].children;
        let kb = t.nodes[b].children;
        ka.len() == kb.len() && forall|i: int|
            0 <= i < ka.len() ==> nodes_equal_spec(t, #[trigger] ka[i] as int, kb[i] as int)
    }
}

/// A document tree.
pub struct Tree {
    nodes: Vec<TreeNode>,
    depth: Ghost<Seq<nat>>,
}

/// One node of a tree.
pub struct TreeNode {
    pub kind: NodeKind,
    pub parent: Option<usize>,
    pub children: Vec<usize>,
}

impl View for TreeNode {
    type V = NodeView;

    open spec fn view(&self) -> NodeView {
        NodeView { kind: self.kind@, parent: self.parent, children: self.children@ }
    }
}

impl View for Tree {
    type V = TreeView;

    closed spec fn view(&self) -> TreeView {
        TreeView { nodes: self.nodes@.map_values(|n: TreeNode| n@), depth: self.depth@ }
    }
}

/// A copy of a list of node indices.
fn copy_indices(v: &Vec<usize>) -> (r: Vec<usize>)
    ensures
        r@ == v@,
{
    let mut r: Vec<usize> = Vec::new();
    let mut i: usize = 0;
    while i < v.len()
        invariant
            i <= v@.len(),
            r@ == v@.take(i as int),
        decreases v@.len() - i,
    {
        r.push(v[i]);
        assert(r@ =~= v@.take(i + 1));
        i = i + 1;
    }
    assert(v@.take(v@.len() as int) =~= v@);
    r
}

impl Tree {
    /// A tree holding only its root, node 0.
    pub fn new(root: NodeKind) -> (t: Self)
        ensures
            wf(t@),
            t@.nodes.len() == 1,
            t@.nodes[0] == (NodeView { kind: root@, parent: None, children: Seq::empty() }),
            t@.depth[0] == 0,
    {
        let mut nodes: Vec<TreeNode> = Vec::new();
        nodes.push(TreeNode { kind: root, parent: None, children: Vec::new() });
        let ghost depth: Seq<nat> = seq![0nat];
        let t = Tree { nodes, depth: Ghost(depth) };
        assert(t@.nodes[0].children =~= Seq::<usize>::empty());
        t
    }

    /// How many nodes the tree holds.
    pub fn len(&self) -> (n: usize)
        ensures
            n == self@.nodes.len(),
    {
        self.nodes.len()
    }

    /// Appends a node of `kind` as the last child of `parent`; returns its
    /// index, the next one.
    pub fn append_child(&mut self, parent: usize, kind: NodeKind) -> (id: usize)
        requires
            wf(old(self)@),
            parent < old(self)@.nodes.len(),
            old(self)@.nodes.len() < usize::MAX,
        ensures
            wf(final(self)@),
            id == old(self)@.nodes.len(),
            final(self)@.nodes == old(self)@.nodes.update(
                parent as int,
                NodeView {
                    children: old(self)@.nodes[parent as int].children.push(id),
                    ..old(self)@.nodes[parent as int]
                },
            ).push(NodeView { kind: kind@, parent: Some(parent), children: Seq::empty() }),
    {
        let ghost before = self@;
        let id = self.nodes.len();
        let mut children = copy_indices(&self.nodes[parent].children);
        children.push(id);
        let ghost d = self.depth@;
        let mut nodes: Vec<TreeNode> = Vec::new();
        std::mem::swap(&mut nodes, &mut self.nodes);
        let old_node = nodes.remove(parent);
        let updated = TreeNode { kind: old_node.kind, parent: old_node.parent, children };
        nodes.insert(parent, updated);
        nodes.push(TreeNode { kind, parent: Some(parent), children: Vec::new() });
        self.nodes = nodes;
        let ghost new_depth: Seq<nat> = d.push(d[parent as int] + 1);
        self.depth = Ghost(new_depth);
        proof {
            let after = self@;
            let n = before.nodes.len() as int;
            assert(after.nodes =~= before.nodes.update(
                parent as int,
                NodeView { children: before.nodes[parent as int].children.push(id), ..before.nodes[parent as int] },
            ).push(NodeView { kind: kind@, parent: Some(parent), children: Seq::empty() }));
            assert(after.nodes[n].children =~= Seq::<usize>::empty());
            assert forall|i: int| 0 <= i < after.nodes.len() implies #[trigger] after.depth[i] < after.nodes.len() by {
                if i < n {
                    assert(before.depth[i] < n);
                } else {
                    assert(before.depth[parent as int] < n);
                }
            }
            assert forall|i: int| 0 <= i < after.nodes.len() && (#[trigger] after.nodes[i]).parent is Some implies {
                let p = after.nodes[i].parent->0 as int;
                0 <= p < after.nodes.len() && after.depth[p] + 1 == after.depth[i]
            } by {
                if i < n {
                    assert(before.nodes[i].parent == after.nodes[i].parent);
                    let p = before.nodes[i].parent->0 as int;
                    assert(0 <= p < n && before.depth[p] + 1 == before.depth[i]);
                }
            }
            assert forall|i: int, k: int| 0 <= i < after.nodes.len() && 0 <= k < after.nodes[i].children.len() implies {
                let c = #[trigger] after.nodes[i].children[k] as int;
                &&& 0 <= c < after.nodes.len()
                &&& after.nodes[c].parent == Some(i as usize)
                &&& after.depth[c] == after.depth[i] + 1
            } by {
                if i < n {
                    if i == parent && k == before.nodes[i].children.len() {
                        assert(after.nodes[i].children[k] == id);
                    } else {
                        assert(after.nodes[i].children[k] == before.nodes[i].children[k]);
                        let c = before.nodes[i].children[k] as int;
                        assert(0 <= c < n && before.nodes[c].parent == Some(i as usize) && before.depth[c] == before.depth[i] + 1);
                    }
                }
            }
        }
        id
    }

    /// The node at `id`.
    pub fn node(&self, id: usize) -> (node: &TreeNode)
        requires
            id < self@.nodes.len(),
        ensures
            node@ == self@.nodes[id as int],
    {
        &self.nodes[id]
    }

    /// Whether the attributes of one element are those of another.
    fn attributes_equal(a: &Vec<Attribute>, b: &Vec<Attribute>) -> (r: bool)
        ensures
            r == attributes_match(attributes_view(a@), attributes_view(b@)),
    {
        let ghost va = attributes_view(a@);
        let ghost vb = attributes_view(b@);
        assert(va.len() == a@.len() && vb.len() == b@.len());
        if a.len() != b.len() {
            return false;
        }
        let mut i: usize = 0;
        while i < a.len()
            invariant
                i <= a@.len(),
                a@.len() == b@.len(),
                va == attributes_view(a@),
                vb == attributes_view(b@),
                va.len() == a@.len() && vb.len() == b@.len(),
                forall|x: int| 0 <= x < i ==> #[trigger] has_attribute(vb, va[x]),
            decreases a@.len() - i,
        {
            let mut found = false;
            let mut j: usize = 0;
            while j < b.len() && !found
                invariant
                    j <= b@.len(),
                    i < a@.len(),
                    va == attributes_view(a@),
                    vb == attributes_view(b@),
                    va.len() == a@.len() && vb.len() == b@.len(),
                    found ==> exists|y: int| 0 <= y < vb.len() && vb[y] == va[i as int],
                    !found ==> forall|y: int| 0 <= y < j ==> vb[y] != va[i as int],
                decreases b@.len() - j,
            {
                if attribute_eq(&a[i], &b[j]) {
                    found = true;
                    assert(vb[j as int] == va[i as int]);
                }
                j = j + 1;
            }
            if !found {
                assert(!has_attribute(vb, va[i as int]));
                return false;
            }
            i = i + 1;
        }
        true
    }

    /// Whether two node kinds are equal as `isEqualNode` compares them.
    fn kind_equal(a: &NodeKind, b: &NodeKind) -> (r: bool)
        ensures
            r == kinds_equal(a@, b@),
    {
        match (a, b) {
            (NodeKind::Document, NodeKind::Document) => true,
            (NodeKind::Fragment, NodeKind::Fragment) => true,
            (
                NodeKind::Doctype { name: n1, public_id: p1, system_id: s1 },
                NodeKind::Doctype { name: n2, public_id: p2, system_id: s2 },
            ) => str_eq(n1.as_str(), n2.as_str()) && str_eq(p1.as_str(), p2.as_str()) && str_eq(s1.as_str(), s2.as_str()),
            (
                NodeKind::Element { name: n1, attributes: a1 },
                NodeKind::Element { name: n2, attributes: a2 },
            ) => qual_name_eq(n1, n2) && Self::attributes_equal(a1, a2),
            (NodeKind::Text { data: d1 }, NodeKind::Text { data: d2 }) => str_eq(d1.as_str(), d2.as_str()),
            (NodeKind::CDataSection { data: d1 }, NodeKind::CDataSection { data: d2 }) => str_eq(d1.as_str(), d2.as_str()),
            (NodeKind::Comment { data: d1 }, NodeKind::Comment { data: d2 }) => str_eq(d1.as_str(), d2.as_str()),
            (
                NodeKind::ProcessingInstruction { target: t1, data: d1 },
                NodeKind::ProcessingInstruction { target: t2, data: d2 },
            ) => str_eq(t1.as_str(), t2.as_str()) && str_eq(d1.as_str(), d2.as_str()),
            _ => false,
        }
    }

    /// `isEqualNode` (<https://dom.spec.whatwg.org/#concept-node-equals>):
    /// whether the nodes at `a` and `b` are the same node, or have equal
    /// kinds and pairwise equal children.
    pub fn nodes_equal(&self, a: usize, b: usize) -> (r: bool)
        requires
            wf(self@),
        ensures
            r == nodes_equal_spec(self@, a as int, b as int),
        decreases height_bound(self@, a as int),
    {
        if a == b {
            return true;
        }
        if a >= self.nodes.len() || b >= self.nodes.len() {
            return false;
        }
        let ghost t = self@;
        let na = &self.nodes[a];
        let nb = &self.nodes[b];
        assert(na@ == t.nodes[a as int]);
        assert(nb@ == t.nodes[b as int]);
        if !Self::kind_equal(&na.kind, &nb.kind) {
            return false;
        }
        if na.children.len() != nb.children.len() {
            return false;
        }
        let mut i: usize = 0;
        while i < na.children.len()
            invariant
                t == self@,
                wf(t),
                a < t.nodes.len(),
                b < t.nodes.len(),
                na@ == t.nodes[a as int],
                nb@ == t.nodes[b as int],
                na.children@.len() == nb.children@.len(),
                i <= na.children@.len(),
                forall|j: int| 0 <= j < i ==> nodes_equal_spec(t, #[trigger] na.children@[j] as int, nb.children@[j] as int),
            decreases na.children@.len() - i,
        {
            let ca = na.children[i];
            let cb = nb.children[i];
            assert(t.nodes[a as int].children[i as int] == ca);
            assert(height_bound(t, ca as int) < height_bound(t, a as int));
            if !self.nodes_equal(ca, cb) {
                return false;
            }
            i = i + 1;
        }
        true
    }
}

/// Whether two qualified names are equal.
fn qual_name_eq(a: &QualName, b: &QualName) -> (r: bool)
    ensures
        r == (a@ == b@),
{
    let prefix_eq = match (&a.prefix, &b.prefix) {
        (Some(x), Some(y)) => str_eq(x.as_str(), y.as_str()),
        (None, None) => true,
        _ => false,
    };
    str_eq(a.namespace.as_str(), b.namespace.as_str()) && prefix_eq && str_eq(a.local.as_str(), b.local.as_str())
}

/// Whether two attributes are equal.
fn attribute_eq(a: &Attribute, b: &Attribute) -> (r: bool)
    ensures
        r == (a@ == b@),
{
    qual_name_eq(&a.name, &b.name) && str_eq(a.value.as_str(), b.value.as_str())
}


/// The text of the first `k` children of `a`: a text or CDATA child gives
/// its data, an element or fragment child the text of its own children, any
/// other child nothing
/// (<https://dom.spec.whatwg.org/#concept-descendant-text-content>).
pub open spec fn prefix_text(t: TreeView, a: int, k: int) -> Seq<char>
    decreases height_bound(t, a), k,
    when wf(t) && 0 <= a < t.nodes.len() && 0 <= k <= t.nodes[a].children.len()
{
    if k == 0 {
        Seq::empty()
    } else {
        let c = t.nodes[a].children[k - 1] as int;
        prefix_text(t, a, k - 1) + match t.nodes[c].kind {
            KindView::Text { data } => data,
            KindView::CDataSection { data } => data,
            KindView::Element { .. } => prefix_text(t, c, t.nodes[c].children.len() as int),
            KindView::Fragment => prefix_text(t, c, t.nodes[c].children.len() as int),
            _ => Seq::empty(),
        }
    }
}

/// The descendant text content of `a`: the data of its text descendants
/// reached through elements and fragments, in tree order; empty for a node
/// not in the tree.
pub open spec fn descendant_text_spec(t: TreeView, a: int) -> Seq<char> {
    if 0 <= a < t.nodes.len() {
        prefix_text(t, a, t.nodes[a].children.len() as int)
    } else {
        Seq::empty()
    }
}

/// A non-empty prefix, or `None`.
pub open spec fn actual_prefix(prefix: Option<Seq<char>>) -> Option<Seq<char>> {
    match prefix {
        Some(p) => if p.len() > 0 {
            Some(p)
        } else {
            None
        },
        None => None,
    }
}

/// The measure that bounds a walk up from `c`.
pub open spec fn depth_bound(t: TreeView, c: int) -> int {
    if 0 <= c < t.nodes.len() {
        t.depth[c] as int
    } else {
        0
    }
}

/// [Locate a namespace](https://dom.spec.whatwg.org/#locate-a-namespace) for
/// `prefix` over the inclusive ancestors of `c`: the first element whose
/// namespace is not empty and whose (non-empty) prefix is `prefix`.
pub open spec fn locate_namespace_spec(t: TreeView, c: int, prefix: Option<Seq<char>>) -> Option<Seq<char>>
    decreases depth_bound(t, c),
    when wf(t)
{
    if !(0 <= c < t.nodes.len()) {
        None
    } else {
        let here = match t.nodes[c].kind {
            KindView::Element { name, .. } => if name.namespace.len() > 0 && actual_prefix(name.prefix) == prefix {
                Some(name.namespace)
            } else {
                None
            },
            _ => None,
        };
        if here is Some {
            here
        } else {
            match t.nodes[c].parent {
                Some(p) => locate_namespace_spec(t, p as int, prefix),
                None => None,
            }
        }
    }
}

/// The (non-empty) prefix of the first of `attributes` in `namespace`.
pub open spec fn attribute_prefix(attributes: Seq<AttributeView>, namespace: Seq<char>) -> Option<Seq<char>>
    decreases attributes.len(),
{
    if attributes.len() == 0 {
        None
    } else if attributes[0].name.namespace == namespace && actual_prefix(attributes[0].name.prefix) is Some {
        actual_prefix(attributes[0].name.prefix)
    } else {
        attribute_prefix(attributes.skip(1), namespace)
    }
}

/// [Locate a namespace prefix](https://dom.spec.whatwg.org/#locate-a-namespace-prefix)
/// for `namespace` over the inclusive ancestors of `c`: an element in the
/// namespace with a prefix gives it, else the first of its attributes in the
/// namespace with a prefix does.
pub open spec fn locate_prefix_spec(t: TreeView, c: int, namespace: Seq<char>) -> Option<Seq<char>>
    decreases depth_bound(t, c),
    when wf(t)
{
    if !(0 <= c < t.nodes.len()) {
        None
    } else {
        let here = match t.nodes[c].kind {
            KindView::Element { name, attributes } => if name.namespace == namespace && actual_prefix(name.prefix) is Some {
                actual_prefix(name.prefix)
            } else {
                attribute_prefix(attributes, namespace)
            },
            _ => None,
        };
        if here is Some {
            here
        } else {
            match t.nodes[c].parent {
                Some(p) => locate_prefix_spec(t, p as int, namespace),
                None => None,
            }
        }
    }
}

/// Whether `node` is `ancestor` or below it.
pub open spec fn in_subtree(t: TreeView, ancestor: int, node: int) -> bool
    decreases depth_bound(t, node),
    when wf(t)
{
    if !(0 <= node < t.nodes.len()) {
        false
    } else if node == ancestor {
        true
    } else {
        match t.nodes[node].parent {
            Some(p) => in_subtree(t, ancestor, p as int),
            None => false,
        }
    }
}

/// The qualified name: `prefix:local` with a non-empty prefix, else the
/// local name.
pub open spec fn qualified_name_spec(name: QualNameView) -> Seq<char> {
    match actual_prefix(name.prefix) {
        Some(p) => p + ":"@ + name.local,
        None => name.local,
    }
}

/// The view of an optional string slice.
pub open spec fn opt_str(s: Option<&str>) -> Option<Seq<char>> {
    match s {
        Some(s) => Some(s@),
        None => None,
    }
}

/// The non-empty prefix of a name.
fn prefix_of(name: &QualName) -> (p: Option<&str>)
    ensures
        opt_str(p) == actual_prefix(name@.prefix),
{
    match &name.prefix {
        Some(p) => if p.as_str().unicode_len() > 0 {
            Some(p.as_str())
        } else {
            None
        },
        None => None,
    }
}

/// Whether two optional strings are equal.
fn opt_str_eq(a: Option<&str>, b: Option<&str>) -> (r: bool)
    ensures
        r == (opt_str(a) == opt_str(b)),
{
    match (a, b) {
        (Some(x), Some(y)) => str_eq(x, y),
        (None, None) => true,
        _ => false,
    }
}

/// The qualified name of an element or attribute.
pub fn qualified_name(name: &QualName) -> (q: String)
    ensures
        q@ == qualified_name_spec(name@),
{
    match prefix_of(name) {
        Some(p) => {
            let head = concat(p, ":");
            proof {
                reveal_strlit(":");
            }
            concat(head.as_str(), name.local.as_str())
        },
        None => name.local.clone(),
    }
}

/// An element's `nodeName`/`tagName`: its qualified name, ASCII-uppercased
/// when asked for and the element is in the HTML namespace.
pub fn element_node_name(name: &QualName, uppercase: bool) -> (n: String)
    ensures
        n@ == (if uppercase && name@.namespace == html_namespace() {
            spec_ascii_uppercase(qualified_name_spec(name@))
        } else {
            qualified_name_spec(name@)
        }),
{
    let q = qualified_name(name);
    if uppercase && str_eq(name.namespace.as_str(), "http://www.w3.org/1999/xhtml") {
        to_ascii_uppercase(q.as_str())
    } else {
        q
    }
}

impl Tree {
    /// Appends the text of the first `k` children of `a` to `out`.
    fn append_text(&self, a: usize, k: usize, out: &mut String)
        requires
            wf(self@),
            a < self@.nodes.len(),
            k <= self@.nodes[a as int].children.len(),
        ensures
            final(out)@ == old(out)@ + prefix_text(self@, a as int, k as int),
        decreases height_bound(self@, a as int), k,
    {
        if k == 0 {
            assert(old(out)@ + Seq::<char>::empty() =~= old(out)@);
            return;
        }
        let ghost t = self@;
        self.append_text(a, k - 1, out);
        let c = self.nodes[a].children[k - 1];
        assert(t.nodes[a as int].children[k - 1] == c);
        let ghost before = out@;
        match &self.nodes[c].kind {
            NodeKind::Text { data } => {
                let joined = concat(out.as_str(), data.as_str());
                *out = joined;
            },
            NodeKind::CDataSection { data } => {
                let joined = concat(out.as_str(), data.as_str());
                *out = joined;
            },
            NodeKind::Element { .. } | NodeKind::Fragment => {
                assert(height_bound(t, c as int) < height_bound(t, a as int));
                let n = self.nodes[c].children.len();
                self.append_text(c, n, out);
            },
            _ => {
                assert(before + Seq::<char>::empty() =~= before);
            },
        }
        assert(out@ =~= old(out)@ + prefix_text(t, a as int, k as int));
    }

    /// The descendant text content of the node at `id`.
    pub fn descendant_text(&self, id: usize) -> (text: String)
        requires
            wf(self@),
        ensures
            text@ == descendant_text_spec(self@, id as int),
    {
        let mut out = String::new();
        if id < self.nodes.len() {
            let n = self.nodes[id].children.len();
            self.append_text(id, n, &mut out);
            assert(out@ =~= prefix_text(self@, id as int, n as int));
        }
        out
    }

    /// Locates the namespace bound to `prefix` at the node `cursor`.
    pub fn locate_namespace(&self, cursor: usize, prefix: Option<&str>) -> (ns: Option<String>)
        requires
            wf(self@),
        ensures
            opt_chars(ns) == locate_namespace_spec(self@, cursor as int, opt_str(prefix)),
        decreases depth_bound(self@, cursor as int),
    {
        if cursor >= self.nodes.len() {
            return None;
        }
        let node = &self.nodes[cursor];
        assert(node@ == self@.nodes[cursor as int]);
        if let NodeKind::Element { name, .. } = &node.kind {
            if name.namespace.as_str().unicode_len() > 0 && opt_str_eq(prefix_of(name), prefix) {
                return Some(name.namespace.clone());
            }
        }
        match node.parent {
            Some(p) => {
                assert(depth_bound(self@, p as int) < depth_bound(self@, cursor as int));
                self.locate_namespace(p, prefix)
            },
            None => None,
        }
    }

    /// The prefix of the first attribute in `namespace` that has one.
    fn attribute_prefix_of(attributes: &Vec<Attribute>, namespace: &str) -> (p: Option<String>)
        ensures
            opt_chars(p) == attribute_prefix(attributes_view(attributes@), namespace@),
    {
        let ghost v = attributes_view(attributes@);
        let mut i: usize = 0;
        assert(v.skip(0) =~= v);
        while i < attributes.len()
            invariant
                i <= attributes@.len(),
                v == attributes_view(attributes@),
                v.len() == attributes@.len(),
                attribute_prefix(v, namespace@) == attribute_prefix(v.skip(i as int), namespace@),
            decreases attributes@.len() - i,
        {
            let ghost rest = v.skip(i as int);
            assert(rest[0] == attributes@[i as int]@);
            assert(rest.skip(1) =~= v.skip(i + 1));
            let a = &attributes[i];
            if str_eq(a.name.namespace.as_str(), namespace) {
                if let Some(p) = prefix_of(&a.name) {
                    return Some(p.to_owned());
                }
            }
            i = i + 1;
        }
        assert(v.skip(i as int) =~= Seq::<AttributeView>::empty());
        None
    }

    /// Locates the prefix bound to `namespace` at the node `cursor`.
    pub fn locate_prefix(&self, cursor: usize, namespace: &str) -> (prefix: Option<String>)
        requires
            wf(self@),
        ensures
            opt_chars(prefix) == locate_prefix_spec(self@, cursor as int, namespace@),
        decreases depth_bound(self@, cursor as int),
    {
        if cursor >= self.nodes.len() {
            return None;
        }
        let node = &self.nodes[cursor];
        assert(node@ == self@.nodes[cursor as int]);
        if let NodeKind::Element { name, attributes } = &node.kind {
            if str_eq(name.namespace.as_str(), namespace) {
                if let Some(p) = prefix_of(name) {
                    return Some(p.to_owned());
                }
            }
            if let Some(p) = Self::attribute_prefix_of(attributes, namespace) {
                return Some(p);
            }
        }
        match node.parent {
            Some(p) => {
                assert(depth_bound(self@, p as int) < depth_bound(self@, cursor as int));
                self.locate_prefix(p, namespace)
            },
            None => None,
        }
    }

    /// Whether `node` is `ancestor` or one of its descendants.
    pub fn is_inclusive_descendant(&self, ancestor: usize, node: usize) -> (r: bool)
        requires
            wf(self@),
        ensures
            r == in_subtree(self@, ancestor as int, node as int),
        decreases depth_bound(self@, node as int),
    {
        if node >= self.nodes.len() {
            return false;
        }
        if node == ancestor {
            return true;
        }
        match self.nodes[node].parent {
            Some(p) => {
                assert(self@.nodes[node as int].parent == Some(p));
                assert(depth_bound(self@, p as int) < depth_bound(self@, node as int));
                self.is_inclusive_descendant(ancestor, p)
            },
            None => false,
        }
    }

    /// The node-removal focus fixup
    /// (<https://html.spec.whatwg.org/multipage/dom.html#node-remove-focus-fixup>):
    /// the focused node after the subtree at `removed` leaves the document.
    /// A focus inside it is cleared; any other focus stays.
    pub fn focus_after_removal(&self, active: Option<usize>, removed: usize) -> (focus: Option<usize>)
        requires
            wf(self@),
        ensures
            focus == (match active {
                Some(a) => if in_subtree(self@, removed as int, a as int) {
                    None
                } else {
                    Some(a)
                },
                None => None,
            }),
    {
        match active {
            Some(a) => if self.is_inclusive_descendant(removed, a) {
                None
            } else {
                Some(a)
            },
            None => None,
        }
    }
}

/// `isEqualNode` holds of every node and itself.
pub proof fn lemma_nodes_equal_reflexive(t: TreeView, a: int)
    requires
        wf(t),
    ensures
        nodes_equal_spec(t, a, a),
{
}


/// Whether no element of the tree carries the same attribute twice.
pub open spec fn distinct_attributes(t: TreeView) -> bool {
    forall|i: int|
        0 <= i < t.nodes.len() ==> match #[trigger] t.nodes[i].kind {
            KindView::Element { attributes, .. } => attributes.no_duplicates(),
            _ => true,
        }
}

/// Between attribute lists without repeats, matching goes both ways.
pub proof fn lemma_attributes_match_symmetric(a: Seq<AttributeView>, b: Seq<AttributeView>)
    requires
        attributes_match(a, b),
        a.no_duplicates(),
    ensures
        attributes_match(b, a),
{
    broadcast use vstd::set::group_set_axioms;

    let sa = a.to_set();
    let sb = b.to_set();
    a.unique_seq_to_set();
    b.lemma_cardinality_of_set();
    vstd::seq_lib::seq_to_set_is_finite(a);
    vstd::seq_lib::seq_to_set_is_finite(b);
    assert forall|x: AttributeView| sa.contains(x) implies sb.contains(x) by {
        let i = choose|i: int| 0 <= i < a.len() && a[i] == x;
        assert(has_attribute(b, a[i]));
        let j = choose|j: int| 0 <= j < b.len() && b[j] == a[i];
        assert(b.contains(x));
    }
    vstd::set_lib::lemma_len_subset(sa, sb);
    vstd::set_lib::lemma_subset_equality(sa, sb);
    assert forall|j: int| 0 <= j < b.len() implies #[trigger] has_attribute(a, b[j]) by {
        assert(b.contains(b[j]));
        assert(sb.contains(b[j]));
        assert(sa.contains(b[j]));
        let i = choose|i: int| 0 <= i < a.len() && a[i] == b[j];
        assert(a[i] == b[j]);
    }
}

/// `isEqualNode` is symmetric on trees whose elements carry no attribute
/// twice.
pub proof fn lemma_nodes_equal_symmetric(t: TreeView, a: int, b: int)
    requires
        wf(t),
        distinct_attributes(t),
        nodes_equal_spec(t, a, b),
    ensures
        nodes_equal_spec(t, b, a),
    decreases height_bound(t, a),
{
    if a != b {
        let na = t.nodes[a];
        let nb = t.nodes[b];
        match (na.kind, nb.kind) {
            (KindView::Element { attributes: x, .. }, KindView::Element { attributes: y, .. }) => {
                assert(match t.nodes[a].kind {
                    KindView::Element { attributes, .. } => attributes.no_duplicates(),
                    _ => true,
                });
                lemma_attributes_match_symmetric(x, y);
            },
            _ => {},
        }
        assert(kinds_equal(nb.kind, na.kind));
        let ka = na.children;
        let kb = nb.children;
        assert forall|i: int| 0 <= i < kb.len() implies nodes_equal_spec(t, #[trigger] kb[i] as int, ka[i] as int) by {
            assert(nodes_equal_spec(t, ka[i] as int, kb[i] as int));
            assert(height_bound(t, ka[i] as int) < height_bound(t, a));
            lemma_nodes_equal_symmetric(t, ka[i] as int, kb[i] as int);
        }
    }
}


/// `isEqualNode` does not depend on the order of its two nodes, on trees
/// whose elements carry no attribute twice.
pub proof fn lemma_nodes_equal_commutes(t: TreeView, a: int, b: int)
    requires
        wf(t),
        distinct_attributes(t),
    ensures
        nodes_equal_spec(t, a, b) == nodes_equal_spec(t, b, a),
{
    if nodes_equal_spec(t, a, b) {
        lemma_nodes_equal_symmetric(t, a, b);
    }
    if nodes_equal_spec(t, b, a) {
        lemma_nodes_equal_symmetric(t, b, a);
    }
}

/// Two distinct nodes are equal exactly when their kinds and kind data are
/// equal and they have equally many children, pairwise equal.
pub proof fn lemma_nodes_equal_unfolds(t: TreeView, a: int, b: int)
    requires
        wf(t),
        0 <= a < t.nodes.len(),
        0 <= b < t.nodes.len(),
        a != b,
    ensures
        nodes_equal_spec(t, a, b) == (kinds_equal(t.nodes[a].kind, t.nodes[b].kind)
            && t.nodes[a].children.len() == t.nodes[b].children.len() && forall|i: int|
            0 <= i < t.nodes[a].children.len() ==> nodes_equal_spec(
                t,
                #[trigger] t.nodes[a].children[i] as int,
                t.nodes[b].children[i] as int,
            )),
{
}


/// The `nodeType` of a node kind.
pub open spec fn node_type_spec(k: KindView) -> i32 {
    match k {
        KindView::Element { .. } => 1,
        KindView::Text { .. } => 3,
        KindView::CDataSection { .. } => 4,
        KindView::ProcessingInstruction { .. } => 7,
        KindView::Comment { .. } => 8,
        KindView::Document => 9,
        KindView::Doctype { .. } => 10,
        KindView::Fragment => 11,
    }
}

/// `nodeType` tells the kinds apart: nodes of two kinds never share a type,
/// and every type is one of the DOM's node type constants.
pub proof fn lemma_node_type_tells_kinds_apart(a: KindView, b: KindView)
    ensures
        node_type_spec(a) == node_type_spec(b) ==> {
            &&& (a is Element <==> b is Element)
            &&& (a is Text <==> b is Text)
            &&& (a is CDataSection <==> b is CDataSection)
            &&& (a is ProcessingInstruction <==> b is ProcessingInstruction)
            &&& (a is Comment <==> b is Comment)
            &&& (a is Document <==> b is Document)
            &&& (a is Doctype <==> b is Doctype)
            &&& (a is Fragment <==> b is Fragment)
        },
        1 <= node_type_spec(a) <= 11,
        node_type_spec(a) != 2 && node_type_spec(a) != 5 && node_type_spec(a) != 6,
{
}

/// The `nodeName` of a node kind; element names are uppercased when
/// `uppercase` (the node is in an HTML document) and in the HTML namespace.
pub open spec fn node_name_spec(k: KindView, uppercase: bool) -> Seq<char> {
    match k {
        KindView::Element { name, .. } => if uppercase && name.namespace == html_namespace() {
            spec_ascii_uppercase(qualified_name_spec(name))
        } else {
            qualified_name_spec(name)
        },
        KindView::Text { .. } => "#text"@,
        KindView::CDataSection { .. } => "#cdata-section"@,
        KindView::ProcessingInstruction { target, .. } => target,
        KindView::Comment { .. } => "#comment"@,
        KindView::Document => "#document"@,
        KindView::Doctype { name, .. } => name,
        KindView::Fragment => "#document-fragment"@,
    }
}

/// The `nodeValue` of a node kind: the data of character data, else null.
pub open spec fn node_value_spec(k: KindView) -> Option<Seq<char>> {
    match k {
        KindView::Text { data } => Some(data),
        KindView::CDataSection { data } => Some(data),
        KindView::ProcessingInstruction { data, .. } => Some(data),
        KindView::Comment { data } => Some(data),
        _ => None,
    }
}

/// `nodeValue` is the node's data exactly for the character data kinds
/// (`nodeType` 3, 4, 7 and 8: text, CDATA section, processing instruction,
/// comment) and null for every other kind.
pub proof fn lemma_node_value_is_character_data(k: KindView)
    ensures
        node_value_spec(k) is Some <==> (node_type_spec(k) == 3 || node_type_spec(k) == 4
            || node_type_spec(k) == 7 || node_type_spec(k) == 8),
        k matches KindView::Text { data } ==> node_value_spec(k) == Some(data),
        k matches KindView::CDataSection { data } ==> node_value_spec(k) == Some(data),
        k matches KindView::ProcessingInstruction { data, .. } ==> node_value_spec(k) == Some(data),
        k matches KindView::Comment { data } ==> node_value_spec(k) == Some(data),
{
}

/// `textContent` of a node in the tree is its descendant text for an
/// element or fragment, and its `nodeValue` otherwise: the data of character
/// data, null for a document or doctype.
pub proof fn lemma_text_content_of_character_data(t: TreeView, id: int)
    requires
        0 <= id < t.nodes.len(),
    ensures
        node_type_spec(t.nodes[id].kind) != 1 && !(t.nodes[id].kind is Fragment) ==> text_content_spec(
            t,
            id,
        ) == node_value_spec(t.nodes[id].kind),
        t.nodes[id].kind matches KindView::Comment { data } ==> text_content_spec(t, id) == Some(data),
        t.nodes[id].kind matches KindView::Text { data } ==> text_content_spec(t, id) == Some(data),
        t.nodes[id].kind is Document || t.nodes[id].kind is Doctype ==> text_content_spec(t, id) is None,
{
}

/// The `textContent` of the node at `id`: its descendant text for an
/// element or fragment, its data for character data, null otherwise.
pub open spec fn text_content_spec(t: TreeView, id: int) -> Option<Seq<char>> {
    if !(0 <= id < t.nodes.len()) {
        None
    } else {
        match t.nodes[id].kind {
            KindView::Element { .. } => Some(descendant_text_spec(t, id)),
            KindView::Fragment => Some(descendant_text_spec(t, id)),
            _ => node_value_spec(t.nodes[id].kind),
        }
    }
}

impl Tree {
    /// `nodeType`, or `None` for a node not in the tree.
    pub fn node_type(&self, id: usize) -> (r: Option<i32>)
        ensures
            r == (if id < self@.nodes.len() {
                Some(node_type_spec(self@.nodes[id as int].kind))
            } else {
                None
            }),
    {
        if id >= self.nodes.len() {
            return None;
        }
        assert(self.nodes[id as int]@ == self@.nodes[id as int]);
        Some(
            match &self.nodes[id].kind {
                NodeKind::Element { .. } => 1,
                NodeKind::Text { .. } => 3,
                NodeKind::CDataSection { .. } => 4,
                NodeKind::ProcessingInstruction { .. } => 7,
                NodeKind::Comment { .. } => 8,
                NodeKind::Document => 9,
                NodeKind::Doctype { .. } => 10,
                NodeKind::Fragment => 11,
            },
        )
    }

    /// `nodeName`, or `None` for a node not in the tree.
    pub fn node_name(&self, id: usize, uppercase: bool) -> (r: Option<String>)
        ensures
            opt_chars(r) == (if id < self@.nodes.len() {
                Some(node_name_spec(self@.nodes[id as int].kind, uppercase))
            } else {
                None
            }),
    {
        if id >= self.nodes.len() {
            return None;
        }
        assert(self.nodes[id as int]@ == self@.nodes[id as int]);
        let name: String = match &self.nodes[id].kind {
            NodeKind::Element { name, .. } => element_node_name(name, uppercase),
            NodeKind::Text { .. } => "#text".to_owned(),
            NodeKind::CDataSection { .. } => "#cdata-section".to_owned(),
            NodeKind::ProcessingInstruction { target, .. } => target.clone(),
            NodeKind::Comment { .. } => "#comment".to_owned(),
            NodeKind::Document => "#document".to_owned(),
            NodeKind::Doctype { name, .. } => name.clone(),
            NodeKind::Fragment => "#document-fragment".to_owned(),
        };
        Some(name)
    }

    /// `nodeValue`: the data of a character-data node, `None` for null.
    pub fn node_value(&self, id: usize) -> (r: Option<String>)
        ensures
            opt_chars(r) == (if id < self@.nodes.len() {
                node_value_spec(self@.nodes[id as int].kind)
            } else {
                None
            }),
    {
        if id >= self.nodes.len() {
            return None;
        }
        assert(self.nodes[id as int]@ == self@.nodes[id as int]);
        match &self.nodes[id].kind {
            NodeKind::Text { data } => Some(data.clone()),
            NodeKind::CDataSection { data } => Some(data.clone()),
            NodeKind::ProcessingInstruction { data, .. } => Some(data.clone()),
            NodeKind::Comment { data } => Some(data.clone()),
            _ => None,
        }
    }

    /// `textContent`, `None` for null.
    pub fn text_content(&self, id: usize) -> (r: Option<String>)
        requires
            wf(self@),
        ensures
            opt_chars(r) == text_content_spec(self@, id as int),
    {
        if id >= self.nodes.len() {
            return None;
        }
        assert(self.nodes[id as int]@ == self@.nodes[id as int]);
        match &self.nodes[id].kind {
            NodeKind::Element { .. } | NodeKind::Fragment => Some(self.descendant_text(id)),
            _ => self.node_value(id),
        }
    }
}


/// The root of the tree `c` is in: its topmost inclusive ancestor.
pub open spec fn root_spec(t: TreeView, c: int) -> int
    decreases depth_bound(t, c),
    when wf(t)
{
    if !(0 <= c < t.nodes.len()) {
        c
    } else {
        match t.nodes[c].parent {
            Some(p) => root_spec(t, p as int),
            None => c,
        }
    }
}

impl Tree {
    /// `getRootNode()`: the topmost inclusive ancestor of `id`.
    pub fn root_of(&self, id: usize) -> (root: usize)
        requires
            wf(self@),
        ensures
            root as int == root_spec(self@, id as int),
        decreases depth_bound(self@, id as int),
    {
        if id >= self.nodes.len() {
            return id;
        }
        match self.nodes[id].parent {
            Some(p) => {
                assert(self@.nodes[id as int].parent == Some(p));
                assert(depth_bound(self@, p as int) < depth_bound(self@, id as int));
                self.root_of(p)
            },
            None => {
                assert(self@.nodes[id as int].parent is None);
                id
            },
        }
    }

    /// `firstChild` and `lastChild`: the first and last child of `id`.
    pub fn first_last_child(&self, id: usize) -> (r: (Option<usize>, Option<usize>))
        ensures
            id < self@.nodes.len() && self@.nodes[id as int].children.len() > 0 ==> r == (
                Some(self@.nodes[id as int].children[0]),
                Some(self@.nodes[id as int].children.last()),
            ),
            !(id < self@.nodes.len() && self@.nodes[id as int].children.len() > 0) ==> r == (
                None::<usize>,
                None::<usize>,
            ),
    {
        if id >= self.nodes.len() {
            return (None, None);
        }
        let kids = &self.nodes[id].children;
        assert(kids@ == self@.nodes[id as int].children);
        if kids.len() == 0 {
            return (None, None);
        }
        (Some(kids[0]), Some(kids[kids.len() - 1]))
    }

    /// `hasChildNodes()`.
    pub fn has_child_nodes(&self, id: usize) -> (r: bool)
        ensures
            r == (id < self@.nodes.len() && self@.nodes[id as int].children.len() > 0),
    {
        if id >= self.nodes.len() {
            return false;
        }
        assert(self.nodes[id as int].children@ == self@.nodes[id as int].children);
        self.nodes[id].children.len() > 0
    }
}

} // verus!

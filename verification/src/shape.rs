//! The shape of a tree: sibling links that agree with each other, child
//! lists whose head, tail and members agree with their parent, and cached
//! tails that are the ends of their lists.

use crate::doc::Document;
use crate::links::{
    lemma_chain_extend, lemma_chain_push, lemma_chain_update_other, lemma_on_list_kept,
    lemma_reaches_tail, lemma_tail_is, spec_attr_links, spec_chain_ends, spec_chain_fuel,
    spec_chain_tail, spec_node_links, spec_on_list, spec_tail,
};
use crate::tree::{xmlAttr, xmlElementType, xmlNode};
use vstd::prelude::*;

verus! {

/// Whether the sibling links of the node in slot `a` agree with those of its
/// neighbours: the node is not its own parent, the node behind it points
/// back to it and has the same parent, and the node before it points forward
/// to it.
pub open spec fn spec_siblings_ok(nodes: Seq<xmlNode>, a: usize) -> bool {
    &&& nodes[a as int].parent != Some(a)
    &&& nodes[a as int].next matches Some(b) ==> b < nodes.len() && nodes[b as int].prev == Some(a)
        && nodes[b as int].parent == nodes[a as int].parent
    &&& nodes[a as int].prev matches Some(b) ==> b < nodes.len() && nodes[b as int].next == Some(a)
}

/// Whether `first` and `last` delimit a list of children of `parent`: both
/// absent, or the head a node of that parent without a predecessor, and the
/// cached tail a node of that parent and the slot where the list from the
/// head ends.
pub open spec fn spec_list_ok(
    nodes: Seq<xmlNode>,
    parent: Option<usize>,
    first: Option<usize>,
    last: Option<usize>,
) -> bool {
    match first {
        None => last is None,
        Some(head) => {
            &&& head < nodes.len()
            &&& nodes[head as int].parent == parent
            &&& nodes[head as int].prev is None
            &&& last is Some
            &&& last.unwrap() < nodes.len()
            &&& nodes[last.unwrap() as int].parent == parent
            &&& spec_chain_ends(spec_node_links(nodes), head)
            &&& spec_tail(spec_node_links(nodes), head) == last.unwrap()
        },
    }
}

/// Whether the child list of the node in slot `p` is in shape.
pub open spec fn spec_children_ok(nodes: Seq<xmlNode>, p: usize) -> bool {
    spec_list_ok(nodes, Some(p), nodes[p as int].children, nodes[p as int].last)
}

/// Whether the node in slot `i` points to `target` as a sibling or a child.
pub open spec fn spec_points_to(nodes: Seq<xmlNode>, i: usize, target: usize) -> bool {
    nodes[i as int].next == Some(target) || nodes[i as int].prev == Some(target)
        || nodes[i as int].children == Some(target) || nodes[i as int].last == Some(target)
}

/// Whether two arenas of nodes have the same links: slot by slot the same
/// parent, siblings and ends of the child list.
pub open spec fn spec_same_links(a: Seq<xmlNode>, b: Seq<xmlNode>) -> bool {
    &&& a.len() == b.len()
    &&& forall|i: int|
        0 <= i < a.len() ==> {
            &&& (#[trigger] a[i]).parent == b[i].parent
            &&& a[i].next == b[i].next
            &&& a[i].prev == b[i].prev
            &&& a[i].children == b[i].children
            &&& a[i].last == b[i].last
        }
}

/// Whether the nodes of an arena, with `first` and `last` as the ends of the
/// list of top-level nodes, form a tree in shape: sibling links agree, the
/// list of top-level nodes and the child list of every node are delimited by
/// a head and a cached tail that belong to them, and every cached tail is
/// the end of its list.
pub open spec fn spec_shape(nodes: Seq<xmlNode>, first: Option<usize>, last: Option<usize>) -> bool {
    &&& nodes.len() <= usize::MAX
    &&& forall|a: usize| a < nodes.len() ==> #[trigger] spec_siblings_ok(nodes, a)
    &&& spec_list_ok(nodes, None, first, last)
    &&& forall|p: usize| p < nodes.len() ==> #[trigger] spec_children_ok(nodes, p)
}

/// Whether the node in `slot` is detached: it has no parent and no siblings,
/// and neither an end of the list of top-level nodes nor any node points to
/// it as a sibling or a child.
pub open spec fn spec_unlinked(
    nodes: Seq<xmlNode>,
    first: Option<usize>,
    last: Option<usize>,
    slot: usize,
) -> bool {
    &&& slot < nodes.len()
    &&& nodes[slot as int].parent is None
    &&& nodes[slot as int].next is None
    &&& nodes[slot as int].prev is None
    &&& first != Some(slot)
    &&& last != Some(slot)
    &&& forall|i: usize| i < nodes.len() ==> !#[trigger] spec_points_to(nodes, i, slot)
}

impl Document {
    /// Whether the tree of the document is in shape.
    pub open spec fn spec_linked(self) -> bool {
        spec_shape(self.arena().nodes, self.record.children, self.record.last)
    }

    /// Whether the node in `slot` is detached.
    pub open spec fn spec_detached(self, slot: usize) -> bool {
        spec_unlinked(self.arena().nodes, self.record.children, self.record.last, slot)
    }
}

/// Arenas with the same links have lists that end at the same slots.
pub proof fn lemma_same_links_chain(a: Seq<xmlNode>, b: Seq<xmlNode>)
    requires
        spec_same_links(a, b),
    ensures
        spec_node_links(a) == spec_node_links(b),
{
    assert(spec_node_links(a) =~= spec_node_links(b));
}

/// A tree in shape stays in shape where no link of it changes.
pub proof fn lemma_same_links_linked(before: Document, after: Document)
    requires
        before.spec_linked(),
        spec_same_links(before.arena().nodes, after.arena().nodes),
        before.record.children == after.record.children,
        before.record.last == after.record.last,
    ensures
        after.spec_linked(),
{
    let a = before.arena().nodes;
    let b = after.arena().nodes;
    lemma_same_links_chain(a, b);
    assert forall|i: usize| i < b.len() implies #[trigger] spec_siblings_ok(b, i) by {
        assert(spec_siblings_ok(a, i));
    }
    assert forall|p: usize| p < b.len() implies #[trigger] spec_children_ok(b, p) by {
        assert(spec_children_ok(a, p));
    }
}

/// A detached node stays detached where no link changes.
pub proof fn lemma_same_links_detached(before: Document, after: Document, slot: usize)
    requires
        before.spec_detached(slot),
        spec_same_links(before.arena().nodes, after.arena().nodes),
        before.record.children == after.record.children,
        before.record.last == after.record.last,
    ensures
        after.spec_detached(slot),
{
    let a = before.arena().nodes;
    let b = after.arena().nodes;
    assert forall|i: usize| i < b.len() implies !#[trigger] spec_points_to(b, i, slot) by {
        assert(!spec_points_to(a, i, slot));
    }
}

/// A tree in shape stays in shape where a node that is linked to nothing is
/// added to the arena, and the added node is detached.
pub proof fn lemma_push_linked(before: Document, after: Document, added: xmlNode, slot: usize)
    requires
        slot == before.arena().nodes.len(),
        before.wf(),
        before.spec_linked(),
        after.arena().nodes == before.arena().nodes.push(added),
        after.arena().nodes.len() <= usize::MAX,
        after.record.children == before.record.children,
        after.record.last == before.record.last,
        added.parent is None,
        added.next is None,
        added.prev is None,
        added.children is None,
        added.last is None,
    ensures
        after.spec_linked(),
        after.spec_detached(slot),
        forall|other: usize| before.spec_detached(other) ==> after.spec_detached(other),
{
    let a = before.arena().nodes;
    let b = after.arena().nodes;
    let la = spec_node_links(a);
    let lb = spec_node_links(b);
    assert(lb =~= la.push(None));
    assert forall|i: usize| i < b.len() implies #[trigger] spec_siblings_ok(b, i) by {
        if i < a.len() {
            assert(spec_siblings_ok(a, i));
        }
    }
    assert forall|head: usize| spec_chain_ends(la, head) implies spec_chain_ends(lb, head)
        && spec_tail(lb, head) == spec_tail(la, head) by {
        let fuel = spec_chain_fuel(la, head);
        lemma_chain_push(la, head, fuel, None);
        lemma_tail_is(la, head, fuel);
        lemma_tail_is(lb, head, fuel);
    }
    assert forall|p: usize| p < b.len() implies #[trigger] spec_children_ok(b, p) by {
        if p < a.len() {
            assert(spec_children_ok(a, p));
        }
    }
    assert forall|i: usize| i < b.len() implies !#[trigger] spec_points_to(b, i, slot) by {
        if i < a.len() {
            assert(before.arena().node_ok(a[i as int]));
        }
    }
    assert forall|other: usize| before.spec_detached(other) implies after.spec_detached(other) by {
        assert forall|i: usize| i < b.len() implies !#[trigger] spec_points_to(b, i, other) by {
            if i < a.len() {
                assert(!spec_points_to(a, i, other));
            }
        }
    }
}

/// A list that ends at another slot than `tail`, the end of a list, ends at
/// the same slot once `tail` points on to `child`.
proof fn lemma_other_list(links: Seq<Option<usize>>, start: usize, tail: usize, child: usize)
    requires
        spec_chain_ends(links, start),
        spec_tail(links, start) != tail,
        tail < links.len(),
        links[tail as int] is None,
    ensures
        spec_chain_ends(links.update(tail as int, Some(child)), start),
        spec_tail(links.update(tail as int, Some(child)), start) == spec_tail(links, start),
{
    let fuel = spec_chain_fuel(links, start);
    lemma_tail_is(links, start, fuel);
    lemma_chain_update_other(links, start, fuel, tail, Some(child));
    lemma_tail_is(links.update(tail as int, Some(child)), start, fuel);
}

/// Whether `done` is `nodes` after the detached node `child` became the
/// only child of `parent`, or the only top-level node.
pub open spec fn spec_only_child(
    nodes: Seq<xmlNode>,
    done: Seq<xmlNode>,
    parent: Option<usize>,
    child: usize,
) -> bool {
    &&& done.len() == nodes.len()
    &&& forall|i: usize|
        i < nodes.len() ==> {
            &&& (#[trigger] done[i as int]).next == nodes[i as int].next
            &&& done[i as int].prev == nodes[i as int].prev
            &&& done[i as int].parent == if i == child {
                parent
            } else {
                nodes[i as int].parent
            }
            &&& done[i as int].children == if parent == Some(i) {
                Some(child)
            } else {
                nodes[i as int].children
            }
            &&& done[i as int].last == if parent == Some(i) {
                Some(child)
            } else {
                nodes[i as int].last
            }
        }
}

/// Whether `done` is `nodes` after the detached node `child` was linked
/// behind `tail`, the cached tail of the list of `parent`.
pub open spec fn spec_behind_tail(
    nodes: Seq<xmlNode>,
    done: Seq<xmlNode>,
    parent: Option<usize>,
    tail: usize,
    child: usize,
) -> bool {
    &&& done.len() == nodes.len()
    &&& forall|i: usize|
        i < nodes.len() ==> {
            &&& (#[trigger] done[i as int]).next == if i == tail {
                Some(child)
            } else {
                nodes[i as int].next
            }
            &&& done[i as int].prev == if i == child {
                Some(tail)
            } else {
                nodes[i as int].prev
            }
            &&& done[i as int].parent == if i == child {
                parent
            } else {
                nodes[i as int].parent
            }
            &&& done[i as int].children == nodes[i as int].children
            &&& done[i as int].last == if parent == Some(i) {
                Some(child)
            } else {
                nodes[i as int].last
            }
        }
}

/// A tree in shape stays in shape where a detached node becomes the only
/// member of an empty list.
pub proof fn lemma_only_child_shape(
    nodes: Seq<xmlNode>,
    first: Option<usize>,
    last: Option<usize>,
    done: Seq<xmlNode>,
    parent: Option<usize>,
    child: usize,
)
    requires
        spec_shape(nodes, first, last),
        spec_unlinked(nodes, first, last, child),
        spec_only_child(nodes, done, parent, child),
        match parent {
            Some(p) => p < nodes.len() && p != child && nodes[p as int].children is None,
            None => first is None,
        },
    ensures
        match parent {
            Some(p) => spec_shape(done, first, last),
            None => spec_shape(done, Some(child), Some(child)),
        },
{
    let links = spec_node_links(nodes);
    assert forall|i: int| 0 <= i < done.len() implies spec_node_links(done)[i] == links[i] by {
        assert(done[(i as usize) as int].next == nodes[i].next);
    }
    assert(spec_node_links(done) =~= links);
    assert(spec_chain_tail(links, child, 0) == Some(child));
    lemma_tail_is(links, child, 0);
    assert forall|a: usize| a < done.len() implies #[trigger] spec_siblings_ok(done, a) by {
        assert(spec_siblings_ok(nodes, a));
        assert(!spec_points_to(nodes, a, child));
    }
    assert forall|q: usize| q < done.len() implies #[trigger] spec_children_ok(done, q) by {
        assert(spec_children_ok(nodes, q));
        assert(!spec_points_to(nodes, q, child));
    }
}

/// A tree in shape stays in shape where a detached node is linked behind
/// the cached tail of a list.
pub proof fn lemma_behind_tail_shape(
    nodes: Seq<xmlNode>,
    first: Option<usize>,
    last: Option<usize>,
    done: Seq<xmlNode>,
    parent: Option<usize>,
    tail: usize,
    child: usize,
)
    requires
        spec_shape(nodes, first, last),
        spec_unlinked(nodes, first, last, child),
        spec_behind_tail(nodes, done, parent, tail, child),
        match parent {
            Some(p) => p < nodes.len() && p != child && nodes[p as int].children is Some
                && nodes[p as int].last == Some(tail),
            None => first is Some && last == Some(tail),
        },
    ensures
        match parent {
            Some(p) => spec_shape(done, first, last),
            None => spec_shape(done, first, Some(child)),
        },
{
    let links = spec_node_links(nodes);
    let after = spec_node_links(done);
    let head = match parent {
        Some(p) => nodes[p as int].children.unwrap(),
        None => first.unwrap(),
    };
    match parent {
        Some(p) => {
            assert(spec_children_ok(nodes, p));
            assert(!spec_points_to(nodes, p, child));
        },
        None => {},
    }
    assert(spec_list_ok(nodes, parent, Some(head), Some(tail)));
    let fuel = spec_chain_fuel(links, head);
    lemma_tail_is(links, head, fuel);
    assert(!spec_points_to(nodes, tail, child));
    assert forall|i: int| 0 <= i < done.len() implies after[i] == links.update(
        tail as int,
        Some(child),
    )[i] by {
        assert(done[(i as usize) as int].children == nodes[i].children);
    }
    assert(after =~= links.update(tail as int, Some(child)));
    lemma_chain_extend(links, head, fuel, tail, child);
    lemma_tail_is(after, head, fuel + 1);
    assert(spec_siblings_ok(nodes, tail));
    assert forall|a: usize| a < done.len() implies #[trigger] spec_siblings_ok(done, a) by {
        assert(spec_siblings_ok(nodes, a));
        assert(!spec_points_to(nodes, a, child));
        match nodes[a as int].prev {
            Some(b) => {
                assert(spec_siblings_ok(nodes, b));
            },
            None => {},
        }
    }
    match first {
        Some(top) => {
            if parent is Some {
                lemma_other_list(links, top, tail, child);
            }
        },
        None => {},
    }
    assert forall|q: usize| q < done.len() implies #[trigger] spec_children_ok(done, q) by {
        assert(spec_children_ok(nodes, q));
        assert(!spec_points_to(nodes, q, child));
        match nodes[q as int].children {
            Some(start) => {
                if parent != Some(q) {
                    lemma_other_list(links, start, tail, child);
                }
            },
            None => {},
        }
    }
}

/// Attaching a detached node under a parent other than itself keeps a tree
/// in shape. The child can be attached, and nothing but links changes.
pub proof fn lemma_attach_child_linked(doc: Document, parent: Option<usize>, child: usize)
    requires
        doc.wf(),
        doc.spec_linked(),
        doc.spec_detached(child),
        parent matches Some(p) ==> p < doc.arena().nodes.len() && p != child,
    ensures
        doc.spec_can_attach(parent, child),
        doc.spec_attach_child(parent, child).spec_linked(),
        spec_same_links_but(doc.arena().nodes, doc.spec_attach_child(parent, child).arena().nodes),
        spec_reparented(
            doc.arena().nodes,
            doc.spec_attach_child(parent, child).arena().nodes,
            parent,
            child,
        ),
        doc.spec_attach_child(parent, child).arena() == (crate::extras::Extras {
            nodes: doc.spec_attach_child(parent, child).arena().nodes,
            ..doc.arena()
        }),
        spec_links_grown(doc.arena().nodes, doc.spec_attach_child(parent, child).arena().nodes),
        doc.spec_attach_child(parent, child).record.children == if parent is None
            && doc.record.children is None {
            Some(child)
        } else {
            doc.record.children
        },
        parent is None ==> spec_on_list(
            spec_node_links(doc.spec_attach_child(parent, child).arena().nodes),
            doc.spec_attach_child(parent, child).record.children,
            child,
        ),
{
    let nodes = doc.arena().nodes;
    let cut = doc.spec_detach(parent, child);
    let first = doc.spec_first_child(parent);
    let last = doc.spec_last_child(parent);
    let after = doc.spec_attach_child(parent, child);
    let done = after.arena().nodes;
    match parent {
        Some(p) => {
            assert(spec_children_ok(nodes, p));
            assert(!spec_points_to(nodes, p, child));
        },
        None => {},
    }
    assert(cut.spec_first_child(parent) == first);
    assert(cut.spec_last_child(parent) == last);
    assert(spec_list_ok(nodes, parent, first, last));
    match first {
        None => {
            assert(spec_only_child(nodes, done, parent, child));
            lemma_only_child_shape(nodes, doc.record.children, doc.record.last, done, parent, child);
        },
        Some(head) => {
            let tail = last.unwrap();
            assert(cut.spec_splice_tail(head, cut.spec_last_child(parent)) == tail);
            assert(!spec_points_to(nodes, tail, child));
            assert(spec_siblings_ok(nodes, tail));
            assert(spec_behind_tail(nodes, done, parent, tail, child));
            lemma_behind_tail_shape(
                nodes,
                doc.record.children,
                doc.record.last,
                done,
                parent,
                tail,
                child,
            );
            lemma_tail_is(
                spec_node_links(nodes),
                head,
                spec_chain_fuel(spec_node_links(nodes), head),
            );
        },
    }
    if parent is None {
        let links = spec_node_links(done);
        let head = after.record.children.unwrap();
        assert(after.record.last == Some(child));
        let fuel = spec_chain_fuel(links, head);
        lemma_tail_is(links, head, fuel);
        lemma_reaches_tail(links, head, fuel);
    }
}

/// Whether `after` has every next-pointer that `before` has: nodes may have
/// been added, and next-pointers set that were absent.
pub open spec fn spec_links_grown(before: Seq<xmlNode>, after: Seq<xmlNode>) -> bool {
    &&& before.len() <= after.len()
    &&& forall|i: usize|
        i < before.len() && (#[trigger] before[i as int]).next is Some ==> after[i as int].next
            == before[i as int].next
}

/// Whether the arena `b` is the arena `a` with some links changed and
/// nothing else: slot by slot the same kind, name, content, owner,
/// namespace, attributes and declarations.
pub open spec fn spec_same_links_but(a: Seq<xmlNode>, b: Seq<xmlNode>) -> bool {
    &&& a.len() == b.len()
    &&& forall|i: int|
        0 <= i < a.len() ==> {
            &&& (#[trigger] a[i]).type_ == b[i].type_
            &&& a[i].name == b[i].name
            &&& a[i].content == b[i].content
            &&& a[i].doc == b[i].doc
            &&& a[i].ns == b[i].ns
            &&& a[i].properties == b[i].properties
            &&& a[i].nsDef == b[i].nsDef
            &&& a[i].line == b[i].line
            &&& a[i].extra == b[i].extra
        }
}

/// Whether `done` is `nodes` with the parent of `child` set to `parent`,
/// and the kind and the parent of every other node as they were.
pub open spec fn spec_reparented(
    nodes: Seq<xmlNode>,
    done: Seq<xmlNode>,
    parent: Option<usize>,
    child: usize,
) -> bool {
    &&& done.len() == nodes.len()
    &&& forall|i: usize|
        i < nodes.len() ==> {
            &&& (#[trigger] done[i as int]).type_ == nodes[i as int].type_
            &&& done[i as int].parent == if i == child {
                parent
            } else {
                nodes[i as int].parent
            }
        }
}

/// Whether `after` is `before` with nodes added of which none is an
/// element, and the kind, the parent and the next sibling of every node of
/// `before` as they were.
pub open spec fn spec_kept(before: Seq<xmlNode>, after: Seq<xmlNode>) -> bool {
    &&& before.len() <= after.len()
    &&& forall|i: usize|
        i < after.len() ==> if i < before.len() {
            &&& (#[trigger] after[i as int]).type_ == before[i as int].type_
            &&& after[i as int].parent == before[i as int].parent
            &&& after[i as int].next == before[i as int].next
        } else {
            after[i as int].type_ != xmlElementType::ElementNode
        }
}

/// Whether the node in slot `i` is an element without a parent.
pub open spec fn spec_top_element(nodes: Seq<xmlNode>, i: usize) -> bool {
    nodes[i as int].type_ == xmlElementType::ElementNode && nodes[i as int].parent is None
}

/// Whether the node in slot `root` is the one element without a parent,
/// the node in `pending` not counted.
pub open spec fn spec_only_top(nodes: Seq<xmlNode>, root: usize, pending: Option<usize>) -> bool {
    &&& root < nodes.len()
    &&& pending != Some(root)
    &&& forall|i: usize|
        i < nodes.len() && pending != Some(i) ==> (#[trigger] spec_top_element(nodes, i) <==> i
            == root)
}

/// Whether the elements without a parent are `count` many, for a count of
/// none or one, the node in `pending` not counted.
pub open spec fn spec_top_elements(nodes: Seq<xmlNode>, count: nat, pending: Option<usize>) -> bool {
    &&& nodes.len() <= usize::MAX
    &&& count <= 1
    &&& count == 0 ==> forall|i: usize|
        i < nodes.len() && pending != Some(i) ==> !#[trigger] spec_top_element(nodes, i)
    &&& count == 1 ==> exists|root: usize| #[trigger] spec_only_top(nodes, root, pending)
}

impl Document {
    /// Whether the document has exactly one top-level element: exactly one
    /// element has no parent, and it lies on the list of top-level nodes.
    pub open spec fn spec_single_root(self) -> bool {
        &&& spec_top_elements(self.arena().nodes, 1, None)
        &&& spec_tops_listed(self.arena().nodes, self.record.children, None)
    }
}

/// Whether every element without a parent lies on the list of top-level
/// nodes with the head `first`, the node in `pending` not counted.
pub open spec fn spec_tops_listed(
    nodes: Seq<xmlNode>,
    first: Option<usize>,
    pending: Option<usize>,
) -> bool {
    forall|r: usize|
        r < nodes.len() && pending != Some(r) && #[trigger] spec_top_element(nodes, r)
            ==> spec_on_list(spec_node_links(nodes), first, r)
}

/// The next-pointers of an arena that has every next-pointer of another
/// agree with those of the other wherever the other has one.
proof fn lemma_links_grown(before: Seq<xmlNode>, after: Seq<xmlNode>)
    requires
        spec_links_grown(before, after),
        after.len() <= usize::MAX,
    ensures
        spec_node_links(before).len() <= spec_node_links(after).len(),
        forall|i: int|
            0 <= i < spec_node_links(before).len() && spec_node_links(before)[i] is Some
                ==> spec_node_links(after)[i] == spec_node_links(before)[i],
{
    assert forall|i: int|
        0 <= i < spec_node_links(before).len() && spec_node_links(
            before,
        )[i] is Some implies spec_node_links(after)[i] == spec_node_links(before)[i] by {
        assert(before[(i as usize) as int].next is Some);
    }
}

/// Adding nodes of which none is an element, but perhaps the pending one,
/// leaves every element without a parent on the list of top-level nodes.
pub proof fn lemma_kept_tops_listed(
    before: Seq<xmlNode>,
    after: Seq<xmlNode>,
    first: Option<usize>,
    pending: Option<usize>,
)
    requires
        after.len() <= usize::MAX,
        spec_links_grown(before, after),
        forall|i: usize|
            i < after.len() && pending != Some(i) ==> if i < before.len() {
                &&& (#[trigger] after[i as int]).type_ == before[i as int].type_
                &&& after[i as int].parent == before[i as int].parent
            } else {
                after[i as int].type_ != xmlElementType::ElementNode
            },
        spec_tops_listed(before, first, if pending matches Some(p) && p >= before.len() {
            None
        } else {
            pending
        }),
    ensures
        spec_tops_listed(after, first, pending),
{
    lemma_links_grown(before, after);
    assert forall|r: usize|
        r < after.len() && pending != Some(r) && #[trigger] spec_top_element(
            after,
            r,
        ) implies spec_on_list(spec_node_links(after), first, r) by {
        assert(after[r as int].type_ == xmlElementType::ElementNode);
        assert(r < before.len());
        assert(spec_top_element(before, r));
        lemma_on_list_kept(spec_node_links(before), spec_node_links(after), first, r);
    }
}

/// Attaching the pending node leaves every element without a parent on the
/// list of top-level nodes, the attached node among them where it is one.
pub proof fn lemma_attached_tops_listed(
    nodes: Seq<xmlNode>,
    done: Seq<xmlNode>,
    first: Option<usize>,
    after_first: Option<usize>,
    parent: Option<usize>,
    child: usize,
)
    requires
        child < nodes.len(),
        done.len() <= usize::MAX,
        spec_reparented(nodes, done, parent, child),
        spec_links_grown(nodes, done),
        spec_tops_listed(nodes, first, Some(child)),
        first is Some ==> after_first == first,
        parent is None ==> spec_on_list(spec_node_links(done), after_first, child),
    ensures
        spec_tops_listed(done, after_first, None),
{
    lemma_links_grown(nodes, done);
    assert forall|r: usize| r < done.len() && #[trigger] spec_top_element(done, r) implies spec_on_list(
        spec_node_links(done),
        after_first,
        r,
    ) by {
        if r != child {
            assert(done[r as int].type_ == nodes[r as int].type_);
            assert(spec_top_element(nodes, r));
            lemma_on_list_kept(spec_node_links(nodes), spec_node_links(done), first, r);
        }
    }
}

/// Adding nodes of which none is an element, but perhaps the pending one,
/// leaves the number of elements without a parent as it was.
pub proof fn lemma_kept_top_elements(
    before: Seq<xmlNode>,
    after: Seq<xmlNode>,
    count: nat,
    pending: Option<usize>,
)
    requires
        after.len() <= usize::MAX,
        before.len() <= after.len(),
        forall|i: usize|
            i < after.len() && pending != Some(i) ==> if i < before.len() {
                &&& (#[trigger] after[i as int]).type_ == before[i as int].type_
                &&& after[i as int].parent == before[i as int].parent
            } else {
                after[i as int].type_ != xmlElementType::ElementNode
            },
        spec_top_elements(before, count, if pending matches Some(p) && p >= before.len() {
            None
        } else {
            pending
        }),
    ensures
        spec_top_elements(after, count, pending),
{
    let earlier: Option<usize> = if pending matches Some(p) && p >= before.len() {
        None
    } else {
        pending
    };
    if count == 0 {
        assert forall|i: usize| i < after.len() && pending != Some(i) implies !#[trigger] spec_top_element(
            after,
            i,
        ) by {
            if i < before.len() {
                assert(!spec_top_element(before, i));
            }
        }
    } else {
        let root = choose|root: usize| #[trigger] spec_only_top(before, root, earlier);
        assert forall|i: usize| i < after.len() && pending != Some(i) implies (#[trigger] spec_top_element(
            after,
            i,
        ) <==> i == root) by {
            if i < before.len() {
                assert(spec_top_element(before, i) <==> i == root);
            }
        }
        assert(spec_only_top(after, root, pending));
    }
}

/// Attaching the pending node leaves the number of elements without a
/// parent as it was where the node gets a parent or is no element, and
/// makes it one where the node is an element that stays without a parent
/// and there was none before.
pub proof fn lemma_attached_top_elements(
    nodes: Seq<xmlNode>,
    done: Seq<xmlNode>,
    parent: Option<usize>,
    child: usize,
    count: nat,
)
    requires
        child < nodes.len(),
        spec_reparented(nodes, done, parent, child),
        spec_top_elements(nodes, count, Some(child)),
        parent is None && nodes[child as int].type_ == xmlElementType::ElementNode ==> count == 0,
    ensures
        spec_top_elements(
            done,
            if parent is None && nodes[child as int].type_ == xmlElementType::ElementNode {
                1
            } else {
                count
            },
            None,
        ),
{
    if parent is None && nodes[child as int].type_ == xmlElementType::ElementNode {
        assert forall|i: usize| i < done.len() implies (#[trigger] spec_top_element(done, i) <==> i
            == child) by {
            if i != child {
                assert(!spec_top_element(nodes, i));
            }
        }
        assert(spec_only_top(done, child, None));
    } else if count == 0 {
        assert forall|i: usize| i < done.len() implies !#[trigger] spec_top_element(done, i) by {
            if i != child {
                assert(!spec_top_element(nodes, i));
            }
        }
    } else {
        let root = choose|root: usize| #[trigger] spec_only_top(nodes, root, Some(child));
        assert forall|i: usize| i < done.len() implies (#[trigger] spec_top_element(done, i) <==> i
            == root) by {
            if i != child {
                assert(spec_top_element(nodes, i) <==> i == root);
            }
        }
        assert(spec_only_top(done, root, None));
    }
}

/// Whether the sibling links of the attribute in slot `a` agree with those
/// of its neighbours: the attribute behind it points back to it and belongs
/// to the same element, and the attribute before it points forward to it.
pub open spec fn spec_attr_siblings_ok(attrs: Seq<xmlAttr>, a: usize) -> bool {
    &&& attrs[a as int].next matches Some(b) ==> b < attrs.len() && attrs[b as int].prev == Some(a)
        && attrs[b as int].parent == attrs[a as int].parent
    &&& attrs[a as int].prev matches Some(b) ==> b < attrs.len() && attrs[b as int].next == Some(a)
}

/// Whether the attribute list of the node in slot `e` is in shape: it is
/// empty, or its head is an attribute of the node without a predecessor,
/// and the list from the head ends at an attribute of the node.
pub open spec fn spec_properties_ok(nodes: Seq<xmlNode>, attrs: Seq<xmlAttr>, e: usize) -> bool {
    match nodes[e as int].properties {
        None => true,
        Some(head) => {
            &&& head < attrs.len()
            &&& attrs[head as int].parent == Some(e)
            &&& attrs[head as int].prev is None
            &&& spec_chain_ends(spec_attr_links(attrs), head)
            &&& attrs[spec_tail(spec_attr_links(attrs), head) as int].parent == Some(e)
        },
    }
}

/// Whether the value of the attribute in slot `a` is in shape: the
/// attribute has no value, or its first and its last child are one text
/// node.
pub open spec fn spec_value_ok(nodes: Seq<xmlNode>, attrs: Seq<xmlAttr>, a: usize) -> bool {
    match attrs[a as int].children {
        None => attrs[a as int].last is None,
        Some(text) => {
            &&& attrs[a as int].last == Some(text)
            &&& text < nodes.len()
            &&& nodes[text as int].type_ == xmlElementType::TextNode
        },
    }
}

/// Whether the attributes of an arena are in shape: sibling links agree,
/// the attribute list of every node is in shape, and so is the value of
/// every attribute.
pub open spec fn spec_attrs_shape(nodes: Seq<xmlNode>, attrs: Seq<xmlAttr>) -> bool {
    &&& nodes.len() <= usize::MAX
    &&& attrs.len() <= usize::MAX
    &&& forall|a: usize| a < attrs.len() ==> #[trigger] spec_attr_siblings_ok(attrs, a)
    &&& forall|e: usize| e < nodes.len() ==> #[trigger] spec_properties_ok(nodes, attrs, e)
    &&& forall|a: usize| a < attrs.len() ==> #[trigger] spec_value_ok(nodes, attrs, a)
}

/// Whether something points to the attribute in slot `target`: the
/// attribute in slot `i` as a sibling.
pub open spec fn spec_attr_points_to(attrs: Seq<xmlAttr>, i: usize, target: usize) -> bool {
    attrs[i as int].next == Some(target) || attrs[i as int].prev == Some(target)
}

/// Whether the attribute in `slot` is detached: it belongs to no element
/// and has no siblings, and no attribute and no node points to it.
pub open spec fn spec_attr_unlinked(nodes: Seq<xmlNode>, attrs: Seq<xmlAttr>, slot: usize) -> bool {
    &&& slot < attrs.len()
    &&& attrs[slot as int].parent is None
    &&& attrs[slot as int].next is None
    &&& attrs[slot as int].prev is None
    &&& forall|i: usize| i < attrs.len() ==> !#[trigger] spec_attr_points_to(attrs, i, slot)
    &&& forall|e: usize| e < nodes.len() ==> (#[trigger] nodes[e as int]).properties != Some(slot)
}

impl Document {
    /// Whether the attributes of the document are in shape.
    pub open spec fn spec_attrs_linked(self) -> bool {
        spec_attrs_shape(self.arena().nodes, self.arena().attrs)
    }
}

/// Whether `after` is `before` with nodes added that have no attributes,
/// and the kind and the attributes of every node of `before` as they were.
pub open spec fn spec_same_properties(before: Seq<xmlNode>, after: Seq<xmlNode>) -> bool {
    &&& before.len() <= after.len()
    &&& forall|i: usize|
        i < after.len() ==> if i < before.len() {
            &&& (#[trigger] after[i as int]).type_ == before[i as int].type_
            &&& after[i as int].properties == before[i as int].properties
        } else {
            after[i as int].properties is None
        }
}

/// Attributes in shape stay in shape where the nodes change in nothing but
/// their links and nodes without attributes are added.
pub proof fn lemma_same_properties_shape(
    before: Seq<xmlNode>,
    after: Seq<xmlNode>,
    attrs: Seq<xmlAttr>,
)
    requires
        spec_attrs_shape(before, attrs),
        spec_same_properties(before, after),
        after.len() <= usize::MAX,
    ensures
        spec_attrs_shape(after, attrs),
{
    assert forall|e: usize| e < after.len() implies #[trigger] spec_properties_ok(after, attrs, e) by {
        if e < before.len() {
            assert(spec_properties_ok(before, attrs, e));
        }
    }
    assert forall|a: usize| a < attrs.len() implies #[trigger] spec_value_ok(after, attrs, a) by {
        assert(spec_value_ok(before, attrs, a));
    }
}

/// Attributes in shape stay in shape where an attribute that is linked to
/// nothing is added, and the added attribute is detached.
pub proof fn lemma_push_attr_shape(
    nodes: Seq<xmlNode>,
    attrs: Seq<xmlAttr>,
    added: xmlAttr,
    slot: usize,
)
    requires
        slot == attrs.len(),
        attrs.len() < usize::MAX,
        spec_attrs_shape(nodes, attrs),
        forall|i: usize|
            i < attrs.len() ==> !#[trigger] spec_attr_points_to(attrs, i, slot),
        forall|e: usize| e < nodes.len() ==> (#[trigger] nodes[e as int]).properties != Some(slot),
        added.parent is None,
        added.next is None,
        added.prev is None,
        added.children is None,
        added.last is None,
    ensures
        spec_attrs_shape(nodes, attrs.push(added)),
        spec_attr_unlinked(nodes, attrs.push(added), slot),
{
    let after = attrs.push(added);
    let la = spec_attr_links(attrs);
    let lb = spec_attr_links(after);
    assert(lb =~= la.push(None));
    assert forall|a: usize| a < after.len() implies #[trigger] spec_attr_siblings_ok(after, a) by {
        if a < attrs.len() {
            assert(spec_attr_siblings_ok(attrs, a));
        }
    }
    assert forall|e: usize| e < nodes.len() implies #[trigger] spec_properties_ok(nodes, after, e) by {
        assert(spec_properties_ok(nodes, attrs, e));
        match nodes[e as int].properties {
            Some(head) => {
                let fuel = spec_chain_fuel(la, head);
                lemma_tail_is(la, head, fuel);
                lemma_chain_push(la, head, fuel, None);
                lemma_tail_is(lb, head, fuel);
            },
            None => {},
        }
    }
    assert forall|a: usize| a < after.len() implies #[trigger] spec_value_ok(nodes, after, a) by {
        if a < attrs.len() {
            assert(spec_value_ok(nodes, attrs, a));
        }
    }
    assert forall|i: usize| i < after.len() implies !#[trigger] spec_attr_points_to(after, i, slot) by {
        if i < attrs.len() {
            assert(!spec_attr_points_to(attrs, i, slot));
        }
    }
}

/// Attributes in shape stay in shape where a text node becomes the value of
/// an attribute without a value, and a detached attribute stays detached.
pub proof fn lemma_attr_value_shape(
    nodes: Seq<xmlNode>,
    attrs: Seq<xmlAttr>,
    after: Seq<xmlAttr>,
    attr: usize,
    text: usize,
)
    requires
        spec_attrs_shape(nodes, attrs),
        attr < attrs.len(),
        text < nodes.len(),
        nodes[text as int].type_ == xmlElementType::TextNode,
        after == attrs.update(
            attr as int,
            xmlAttr { children: Some(text), last: Some(text), ..attrs[attr as int] },
        ),
    ensures
        spec_attrs_shape(nodes, after),
        spec_attr_links(after) == spec_attr_links(attrs),
        spec_attr_unlinked(nodes, attrs, attr) ==> spec_attr_unlinked(nodes, after, attr),
{
    assert(spec_attr_links(after) =~= spec_attr_links(attrs));
    assert forall|a: usize| a < after.len() implies #[trigger] spec_attr_siblings_ok(after, a) by {
        assert(spec_attr_siblings_ok(attrs, a));
    }
    assert forall|e: usize| e < nodes.len() implies #[trigger] spec_properties_ok(nodes, after, e) by {
        assert(spec_properties_ok(nodes, attrs, e));
        match nodes[e as int].properties {
            Some(head) => {
                let links = spec_attr_links(attrs);
                lemma_tail_is(links, head, spec_chain_fuel(links, head));
            },
            None => {},
        }
    }
    assert forall|a: usize| a < after.len() implies #[trigger] spec_value_ok(nodes, after, a) by {
        assert(spec_value_ok(nodes, attrs, a));
    }
    if spec_attr_unlinked(nodes, attrs, attr) {
        assert forall|i: usize| i < after.len() implies !#[trigger] spec_attr_points_to(
            after,
            i,
            attr,
        ) by {
            assert(!spec_attr_points_to(attrs, i, attr));
        }
    }
}

/// Whether `done` and `owners` are `attrs` and `nodes` after the detached
/// attribute `attr` was appended to the attribute list of `element`, behind
/// `tail` where the list had one.
pub open spec fn spec_appended(
    nodes: Seq<xmlNode>,
    attrs: Seq<xmlAttr>,
    owners: Seq<xmlNode>,
    done: Seq<xmlAttr>,
    element: usize,
    tail: Option<usize>,
    attr: usize,
) -> bool {
    &&& done.len() == attrs.len()
    &&& owners.len() == nodes.len()
    &&& forall|i: usize|
        i < attrs.len() ==> {
            &&& (#[trigger] done[i as int]).next == if tail == Some(i) {
                Some(attr)
            } else {
                attrs[i as int].next
            }
            &&& done[i as int].prev == if i == attr {
                tail
            } else {
                attrs[i as int].prev
            }
            &&& done[i as int].parent == if i == attr {
                Some(element)
            } else {
                attrs[i as int].parent
            }
            &&& done[i as int].children == attrs[i as int].children
            &&& done[i as int].last == attrs[i as int].last
        }
    &&& forall|e: usize|
        e < nodes.len() ==> {
            &&& (#[trigger] owners[e as int]).type_ == nodes[e as int].type_
            &&& owners[e as int].properties == if e == element && tail is None {
                Some(attr)
            } else {
                nodes[e as int].properties
            }
        }
}

/// Attributes in shape stay in shape where a detached attribute is
/// appended to the attribute list of an element.
pub proof fn lemma_appended_shape(
    nodes: Seq<xmlNode>,
    attrs: Seq<xmlAttr>,
    owners: Seq<xmlNode>,
    done: Seq<xmlAttr>,
    element: usize,
    tail: Option<usize>,
    attr: usize,
)
    requires
        spec_attrs_shape(nodes, attrs),
        spec_attr_unlinked(nodes, attrs, attr),
        element < nodes.len(),
        spec_appended(nodes, attrs, owners, done, element, tail, attr),
        match nodes[element as int].properties {
            Some(head) => tail == Some(spec_tail(spec_attr_links(attrs), head)),
            None => tail is None,
        },
    ensures
        spec_attrs_shape(owners, done),
{
    let links = spec_attr_links(attrs);
    let after = spec_attr_links(done);
    assert(spec_properties_ok(nodes, attrs, element));
    match tail {
        None => {
            assert forall|i: int| 0 <= i < done.len() implies after[i] == links[i] by {
                assert(done[(i as usize) as int].next == attrs[i].next);
            }
            assert(after =~= links);
            assert(spec_chain_tail(after, attr, 0) == Some(attr));
            lemma_tail_is(after, attr, 0);
            assert forall|a: usize| a < done.len() implies #[trigger] spec_attr_siblings_ok(done, a) by {
                assert(spec_attr_siblings_ok(attrs, a));
                assert(!spec_attr_points_to(attrs, a, attr));
            }
            assert forall|e: usize| e < owners.len() implies #[trigger] spec_properties_ok(
                owners,
                done,
                e,
            ) by {
                assert(spec_properties_ok(nodes, attrs, e));
                match nodes[e as int].properties {
                    Some(head) => {
                        let fuel = spec_chain_fuel(links, head);
                        lemma_tail_is(links, head, fuel);
                    },
                    None => {},
                }
            }
        },
        Some(end) => {
            let head = nodes[element as int].properties.unwrap();
            let fuel = spec_chain_fuel(links, head);
            lemma_tail_is(links, head, fuel);
            assert(!spec_attr_points_to(attrs, end, attr));
            assert(end != attr);
            assert forall|i: int| 0 <= i < done.len() implies after[i] == links.update(
                end as int,
                Some(attr),
            )[i] by {
                assert(done[(i as usize) as int].next == if end == i {
                    Some(attr)
                } else {
                    attrs[i].next
                });
            }
            assert(after =~= links.update(end as int, Some(attr)));
            lemma_chain_extend(links, head, fuel, end, attr);
            lemma_tail_is(after, head, fuel + 1);
            assert(spec_attr_siblings_ok(attrs, end));
            assert forall|a: usize| a < done.len() implies #[trigger] spec_attr_siblings_ok(done, a) by {
                assert(spec_attr_siblings_ok(attrs, a));
                assert(!spec_attr_points_to(attrs, a, attr));
                match attrs[a as int].prev {
                    Some(b) => {
                        assert(spec_attr_siblings_ok(attrs, b));
                    },
                    None => {},
                }
            }
            assert forall|e: usize| e < owners.len() implies #[trigger] spec_properties_ok(
                owners,
                done,
                e,
            ) by {
                assert(spec_properties_ok(nodes, attrs, e));
                match nodes[e as int].properties {
                    Some(start) => {
                        if e != element {
                            let f = spec_chain_fuel(links, start);
                            lemma_tail_is(links, start, f);
                            lemma_chain_update_other(links, start, f, end, Some(attr));
                            lemma_tail_is(after, start, f);
                        }
                    },
                    None => {},
                }
            }
        },
    }
    assert forall|a: usize| a < done.len() implies #[trigger] spec_value_ok(owners, done, a) by {
        assert(spec_value_ok(nodes, attrs, a));
    }
}

/// Appending a detached attribute to the attribute list of an element
/// keeps the attributes in shape. The attribute can be appended.
pub proof fn lemma_append_attribute_linked(doc: Document, element: usize, attr: usize)
    requires
        doc.wf(),
        doc.spec_attrs_linked(),
        spec_attr_unlinked(doc.arena().nodes, doc.arena().attrs, attr),
        element < doc.arena().nodes.len(),
    ensures
        doc.spec_can_append_attribute(element, attr),
        doc.spec_append_attribute(element, attr).spec_attrs_linked(),
{
    let nodes = doc.arena().nodes;
    let attrs = doc.arena().attrs;
    let links = spec_attr_links(attrs);
    let own = doc.spec_own_attribute(element, attr);
    let after = doc.spec_append_attribute(element, attr);
    assert(spec_attr_links(own.arena().attrs) =~= links);
    assert(spec_properties_ok(nodes, attrs, element));
    let tail: Option<usize> = match nodes[element as int].properties {
        Some(head) => Some(spec_tail(links, head)),
        None => None,
    };
    match nodes[element as int].properties {
        Some(head) => {
            lemma_tail_is(links, head, spec_chain_fuel(links, head));
            assert(!spec_attr_points_to(attrs, tail.unwrap(), attr));
        },
        None => {},
    }
    assert(spec_appended(nodes, attrs, after.arena().nodes, after.arena().attrs, element, tail, attr));
    lemma_appended_shape(nodes, attrs, after.arena().nodes, after.arena().attrs, element, tail, attr);
}

} // verus!

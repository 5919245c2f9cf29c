//! Singly linked lists inside an arena: each slot holds the pointer to the
//! next slot of its list, or none where the list ends.

use crate::tree::{xmlAttr, xmlNode, xmlNs};
use vstd::prelude::*;

verus! {

/// The next-pointers of the nodes of an arena, slot by slot.
pub open spec fn spec_node_links(nodes: Seq<xmlNode>) -> Seq<Option<usize>> {
    Seq::new(nodes.len(), |i: int| nodes[i].next)
}

/// The next-pointers of the attributes of an arena, slot by slot.
pub open spec fn spec_attr_links(attrs: Seq<xmlAttr>) -> Seq<Option<usize>> {
    Seq::new(attrs.len(), |i: int| attrs[i].next)
}

/// The next-pointers of the namespace declarations of an arena, slot by slot.
pub open spec fn spec_ns_links(namespaces: Seq<xmlNs>) -> Seq<Option<usize>> {
    Seq::new(namespaces.len(), |i: int| namespaces[i].next)
}

/// The slot where the list through `from` ends, found in at most `fuel`
/// steps: the first slot on the way whose next-pointer is absent. `None`
/// where the way leaves the arena or takes more than `fuel` steps.
pub open spec fn spec_chain_tail(links: Seq<Option<usize>>, from: usize, fuel: nat) -> Option<usize>
    decreases fuel,
{
    if from >= links.len() {
        None
    } else {
        match links[from as int] {
            None => Some(from),
            Some(next) => if fuel == 0 {
                None
            } else {
                spec_chain_tail(links, next, (fuel - 1) as nat)
            },
        }
    }
}

/// Whether the list through `from` ends: following the next-pointers from
/// `from` reaches, inside the arena, a slot without a next-pointer.
pub open spec fn spec_chain_ends(links: Seq<Option<usize>>, from: usize) -> bool {
    exists|fuel: nat| (#[trigger] spec_chain_tail(links, from, fuel)) is Some
}

/// A number of steps within which the list through `from` ends, where it
/// ends.
pub open spec fn spec_chain_fuel(links: Seq<Option<usize>>, from: usize) -> nat {
    choose|fuel: nat| (#[trigger] spec_chain_tail(links, from, fuel)) is Some
}

/// The slot where the list through `from` ends.
pub open spec fn spec_tail(links: Seq<Option<usize>>, from: usize) -> usize {
    spec_chain_tail(links, from, spec_chain_fuel(links, from)).unwrap()
}

/// The end of a list lies in the arena and has no next-pointer.
pub proof fn lemma_chain_tail_is_end(links: Seq<Option<usize>>, from: usize, fuel: nat)
    requires
        spec_chain_tail(links, from, fuel) is Some,
    ensures
        spec_chain_tail(links, from, fuel).unwrap() < links.len(),
        links[spec_chain_tail(links, from, fuel).unwrap() as int] is None,
    decreases fuel,
{
    if links[from as int] is Some && fuel > 0 {
        lemma_chain_tail_is_end(links, links[from as int].unwrap(), (fuel - 1) as nat);
    }
}

/// A list that ends within `fuel` steps ends at the same slot within any
/// larger number of steps.
pub proof fn lemma_chain_tail_more_fuel(
    links: Seq<Option<usize>>,
    from: usize,
    fuel: nat,
    more: nat,
)
    requires
        spec_chain_tail(links, from, fuel) is Some,
        fuel <= more,
    ensures
        spec_chain_tail(links, from, more) == spec_chain_tail(links, from, fuel),
    decreases fuel,
{
    if links[from as int] is Some && fuel > 0 {
        lemma_chain_tail_more_fuel(
            links,
            links[from as int].unwrap(),
            (fuel - 1) as nat,
            (more - 1) as nat,
        );
    }
}

/// Where a list ends does not depend on the number of steps allowed, as
/// long as they suffice.
pub proof fn lemma_tail_is(links: Seq<Option<usize>>, from: usize, fuel: nat)
    requires
        spec_chain_tail(links, from, fuel) is Some,
    ensures
        spec_chain_ends(links, from),
        spec_tail(links, from) == spec_chain_tail(links, from, fuel).unwrap(),
        spec_tail(links, from) < links.len(),
        links[spec_tail(links, from) as int] is None,
{
    let chosen = spec_chain_fuel(links, from);
    if chosen <= fuel {
        lemma_chain_tail_more_fuel(links, from, chosen, fuel);
    } else {
        lemma_chain_tail_more_fuel(links, from, fuel, chosen);
    }
    lemma_chain_tail_is_end(links, from, fuel);
}

/// A list that ends, ends at the same slot after a slot was added to the
/// arena.
pub proof fn lemma_chain_push(links: Seq<Option<usize>>, from: usize, fuel: nat, added: Option<usize>)
    requires
        spec_chain_tail(links, from, fuel) is Some,
    ensures
        spec_chain_tail(links.push(added), from, fuel) == spec_chain_tail(links, from, fuel),
    decreases fuel,
{
    if links[from as int] is Some && fuel > 0 {
        lemma_chain_push(links, links[from as int].unwrap(), (fuel - 1) as nat, added);
    }
}

/// A list that ends at `tail` ends at `added` once the next-pointer of
/// `tail` is set to `added`, a slot other than `tail` without a
/// next-pointer.
pub proof fn lemma_chain_extend(
    links: Seq<Option<usize>>,
    from: usize,
    fuel: nat,
    tail: usize,
    added: usize,
)
    requires
        spec_chain_tail(links, from, fuel) == Some(tail),
        added < links.len(),
        links[added as int] is None,
        added != tail,
    ensures
        spec_chain_tail(links.update(tail as int, Some(added)), from, fuel + 1) == Some(added),
    decreases fuel,
{
    let after = links.update(tail as int, Some(added));
    lemma_chain_tail_is_end(links, from, fuel);
    if from == tail {
        assert(spec_chain_tail(after, added, fuel) == Some(added));
    } else {
        lemma_chain_extend(links, links[from as int].unwrap(), (fuel - 1) as nat, tail, added);
    }
}

/// A list that ends at another slot than `changed`, a slot without a
/// next-pointer, ends at the same slot whatever the next-pointer of
/// `changed` is set to.
pub proof fn lemma_chain_update_other(
    links: Seq<Option<usize>>,
    from: usize,
    fuel: nat,
    changed: usize,
    value: Option<usize>,
)
    requires
        spec_chain_tail(links, from, fuel) is Some,
        spec_chain_tail(links, from, fuel) != Some(changed),
        changed < links.len(),
        links[changed as int] is None,
    ensures
        spec_chain_tail(links.update(changed as int, value), from, fuel) == spec_chain_tail(
            links,
            from,
            fuel,
        ),
    decreases fuel,
{
    if links[from as int] is Some && fuel > 0 {
        lemma_chain_update_other(links, links[from as int].unwrap(), (fuel - 1) as nat, changed, value);
    }
}

/// Whether the list through `from` passes the slot `target` within `fuel`
/// steps.
pub open spec fn spec_chain_reaches(
    links: Seq<Option<usize>>,
    from: usize,
    target: usize,
    fuel: nat,
) -> bool
    decreases fuel,
{
    if from >= links.len() {
        false
    } else if from == target {
        true
    } else if fuel == 0 {
        false
    } else {
        match links[from as int] {
            Some(next) => spec_chain_reaches(links, next, target, (fuel - 1) as nat),
            None => false,
        }
    }
}

/// Whether the slot `target` lies on the list with the head `first`: the
/// list has a head, and following the next-pointers from it passes the slot.
pub open spec fn spec_on_list(links: Seq<Option<usize>>, first: Option<usize>, target: usize) -> bool {
    match first {
        Some(head) => exists|fuel: nat| #[trigger] spec_chain_reaches(links, head, target, fuel),
        None => false,
    }
}

/// The slot where a list ends lies on the list.
pub proof fn lemma_reaches_tail(links: Seq<Option<usize>>, from: usize, fuel: nat)
    requires
        spec_chain_tail(links, from, fuel) is Some,
    ensures
        spec_chain_reaches(links, from, spec_chain_tail(links, from, fuel).unwrap(), fuel),
    decreases fuel,
{
    if links[from as int] is Some && fuel > 0 {
        lemma_reaches_tail(links, links[from as int].unwrap(), (fuel - 1) as nat);
    }
}

/// A slot that lies on a list lies on it still where slots are added to the
/// arena and next-pointers are set that were absent: where every
/// next-pointer that there was is as it was.
pub proof fn lemma_reaches_kept(
    links: Seq<Option<usize>>,
    after: Seq<Option<usize>>,
    from: usize,
    target: usize,
    fuel: nat,
)
    requires
        spec_chain_reaches(links, from, target, fuel),
        links.len() <= after.len(),
        forall|i: int| 0 <= i < links.len() && links[i] is Some ==> after[i] == links[i],
    ensures
        spec_chain_reaches(after, from, target, fuel),
    decreases fuel,
{
    if from != target {
        lemma_reaches_kept(links, after, links[from as int].unwrap(), target, (fuel - 1) as nat);
    }
}

/// What `lemma_reaches_kept` says, of a list with its head.
pub proof fn lemma_on_list_kept(
    links: Seq<Option<usize>>,
    after: Seq<Option<usize>>,
    first: Option<usize>,
    target: usize,
)
    requires
        spec_on_list(links, first, target),
        links.len() <= after.len(),
        forall|i: int| 0 <= i < links.len() && links[i] is Some ==> after[i] == links[i],
    ensures
        spec_on_list(after, first, target),
{
    let head = first.unwrap();
    let fuel = choose|fuel: nat| #[trigger] spec_chain_reaches(links, head, target, fuel);
    lemma_reaches_kept(links, after, head, target, fuel);
}

} // verus!

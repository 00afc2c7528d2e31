//! The arena that nodes live in, which `bumpalo` provides. Its functions stop the program when
//! memory runs out; beyond that they do as stated here.
use crate::ast::Node;
use bumpalo::collections::Vec as BumpVec;
use bumpalo::Bump;
use vstd::prelude::*;

verus! {

/// `bumpalo::Bump`, carried through as it is.
#[verifier::external_type_specification]
#[verifier::external_body]
pub struct ExBump<const MIN_ALIGN: usize>(Bump<MIN_ALIGN>);

/// `bumpalo::collections::Vec`, a vector whose items live in an arena.
#[verifier::external_type_specification]
#[verifier::external_body]
#[verifier::reject_recursive_types(T)]
pub struct ExBumpVec<'bump, T>(BumpVec<'bump, T>);

/// The nodes that an arena vector holds, in order.
pub uninterp spec fn nodes_in(list: BumpVec<'static, &'static Node<'static>>) -> Seq<
    &'static Node<'static>,
>;

/// The pairs of nodes that an arena vector holds, in order.
pub uninterp spec fn pairs_in(
    list: BumpVec<'static, (&'static Node<'static>, &'static Node<'static>)>,
) -> Seq<(&'static Node<'static>, &'static Node<'static>)>;

/// Calls `bumpalo::Bump::alloc`, which moves the node into the arena and returns a reference to
/// it there.
#[verifier::external_body]
pub(crate) fn alloc_node<'arena>(bump: &'arena Bump, node: Node<'arena>) -> (place: &'arena Node<
    'arena,
>)
    ensures
        *place == node,
{
    bump.alloc(node)
}

/// Calls `bumpalo::Bump::alloc_slice_copy`, which copies the items of a slice into the arena, in
/// order.
#[verifier::external_body]
pub(crate) fn alloc_nodes<'arena>(bump: &'arena Bump, nodes: &[&'arena Node<'arena>]) -> (place:
    &'arena [&'arena Node<'arena>])
    ensures
        place@ == nodes@,
{
    bump.alloc_slice_copy(nodes)
}

/// Calls `bumpalo::collections::Vec::new_in`, which makes an empty vector.
#[verifier::external_body]
pub(crate) fn new_nodes<'arena>(bump: &'arena Bump) -> (list: BumpVec<
    'arena,
    &'arena Node<'arena>,
>)
    ensures
        nodes_in(list) == Seq::<&Node<'arena>>::empty(),
{
    BumpVec::new_in(bump)
}

/// Calls `bumpalo::collections::Vec::push`, which appends an item.
#[verifier::external_body]
pub(crate) fn push_node<'arena>(
    list: &mut BumpVec<'arena, &'arena Node<'arena>>,
    node: &'arena Node<'arena>,
)
    ensures
        nodes_in(*final(list)) == nodes_in(*old(list)).push(node),
{
    list.push(node)
}

/// Calls `bumpalo::collections::Vec::is_empty`.
#[verifier::external_body]
pub(crate) fn no_nodes<'arena>(list: &BumpVec<'arena, &'arena Node<'arena>>) -> (empty: bool)
    ensures
        empty == (nodes_in(*list).len() == 0),
{
    list.is_empty()
}

/// Calls `bumpalo::collections::Vec::into_bump_slice`, which hands out the items in order.
#[verifier::external_body]
pub(crate) fn nodes_slice<'arena>(list: BumpVec<'arena, &'arena Node<'arena>>) -> (slice:
    &'arena [&'arena Node<'arena>])
    ensures
        slice@ == nodes_in(list),
{
    list.into_bump_slice()
}

/// Calls `bumpalo::collections::Vec::new_in`, which makes an empty vector, for pairs.
#[verifier::external_body]
pub(crate) fn new_pairs<'arena>(bump: &'arena Bump) -> (list: BumpVec<
    'arena,
    (&'arena Node<'arena>, &'arena Node<'arena>),
>)
    ensures
        pairs_in(list) == Seq::<(&Node<'arena>, &Node<'arena>)>::empty(),
{
    BumpVec::new_in(bump)
}

/// Calls `bumpalo::collections::Vec::push`, which appends an item, for pairs.
#[verifier::external_body]
pub(crate) fn push_pair<'arena>(
    list: &mut BumpVec<'arena, (&'arena Node<'arena>, &'arena Node<'arena>)>,
    pair: (&'arena Node<'arena>, &'arena Node<'arena>),
)
    ensures
        pairs_in(*final(list)) == pairs_in(*old(list)).push(pair),
{
    list.push(pair)
}

/// Calls `bumpalo::collections::Vec::into_bump_slice`, which hands out the items in order, for
/// pairs.
#[verifier::external_body]
pub(crate) fn pairs_slice<'arena>(
    list: BumpVec<'arena, (&'arena Node<'arena>, &'arena Node<'arena>)>,
) -> (slice: &'arena [(&'arena Node<'arena>, &'arena Node<'arena>)])
    ensures
        slice@ == pairs_in(list),
{
    list.into_bump_slice()
}

} // verus!

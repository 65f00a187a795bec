//! Link editing: creating a typed link between two slots, and the
//! drag-a-link state machine the presentation layer drives.
//!
//! A link may only connect an output slot to an input slot of the same
//! declared type; `make_link` is the one place links are created, and its
//! contract is the type-matching guarantee. The floating-link functions
//! turn pointer events into decisions — detach an existing link, keep a
//! loose end in hand, or attach it — and hand the resulting store action
//! back to the caller.

use vstd::prelude::*;
use crate::graph::Graph;
use crate::graph::GraphV;
use crate::graph::Link;
use crate::graph::LinkType;
use crate::graph::LinkV;
use crate::graph::NodeType;
use crate::project::Node;
use crate::project::ProjNodeV;
use crate::project::avail_find;
use crate::project::avail_view;
use crate::codec::lookup_meta;

verus! {

/// Why a link could not be created.
#[derive(Clone, Copy, PartialEq, Eq, Structural, Debug)]
pub enum LinkError {
    /// The producing node index is stale.
    BadSrcNode,
    /// The consuming node index is stale.
    BadDstNode,
    /// The producing node's kind is not in the catalog.
    UnknownSrcKind,
    /// The consuming node's kind is not in the catalog.
    UnknownDstKind,
    /// The producing node declares no such output slot.
    BadSrcSlot,
    /// The consuming node declares no such input slot.
    BadDstSlot,
    /// The two slots declare different types.
    TypeMismatch,
}

/// The result of creating a link between two slots, checked against the
/// catalog: the link exists exactly when both endpoints exist, both slots
/// are declared, and their types agree; the link then carries that shared
/// type.
pub open spec fn make_link_spec(
    avail: Seq<(Seq<char>, ProjNodeV)>,
    g: GraphV,
    src_node: usize,
    src_slot: usize,
    dst_node: usize,
    dst_slot: usize,
) -> Result<LinkV, LinkError> {
    if src_node >= g.nodes.len() {
        Err(LinkError::BadSrcNode)
    } else if dst_node >= g.nodes.len() {
        Err(LinkError::BadDstNode)
    } else {
        match avail_find(avail, g.nodes[src_node as int].ty) {
            None => Err(LinkError::UnknownSrcKind),
            Some(sm) => match avail_find(avail, g.nodes[dst_node as int].ty) {
                None => Err(LinkError::UnknownDstKind),
                Some(dm) => if src_slot >= sm.outputs.len() {
                    Err(LinkError::BadSrcSlot)
                } else if dst_slot >= dm.inputs.len() {
                    Err(LinkError::BadDstSlot)
                } else if sm.outputs[src_slot as int].1 != dm.inputs[dst_slot as int].1 {
                    Err(LinkError::TypeMismatch)
                } else {
                    Ok(
                        LinkV {
                            src_node,
                            src_slot,
                            dst_node,
                            dst_slot,
                            ty: sm.outputs[src_slot as int].1,
                        },
                    )
                },
            },
        }
    }
}

/// Type matching at creation: a link this module creates carries the
/// declared type of both of its endpoint slots.
pub proof fn lemma_link_type_matches(
    avail: Seq<(Seq<char>, ProjNodeV)>,
    g: GraphV,
    src_node: usize,
    src_slot: usize,
    dst_node: usize,
    dst_slot: usize,
    l: LinkV,
)
    requires
        make_link_spec(avail, g, src_node, src_slot, dst_node, dst_slot) == Ok::<
            LinkV,
            LinkError,
        >(l),
    ensures
        l.ty == avail_find(avail, g.nodes[l.src_node as int].ty)->0.outputs[l.src_slot as int].1,
        l.ty == avail_find(avail, g.nodes[l.dst_node as int].ty)->0.inputs[l.dst_slot as int].1,
{
}

/// Creates a link between two slots, validated against the catalog, as
/// `make_link_spec` describes.
pub fn make_link(
    available: &Vec<(NodeType, Node)>,
    graph: &Graph,
    src_node: usize,
    src_slot: usize,
    dst_node: usize,
    dst_slot: usize,
) -> (r: Result<Link, LinkError>)
    ensures
        match r {
            Ok(l) => make_link_spec(
                avail_view(available@),
                graph@,
                src_node,
                src_slot,
                dst_node,
                dst_slot,
            ) == Ok::<LinkV, LinkError>(l@),
            Err(e) => make_link_spec(
                avail_view(available@),
                graph@,
                src_node,
                src_slot,
                dst_node,
                dst_slot,
            ) == Err::<LinkV, LinkError>(e),
        },
{
    let nodes = graph.get_nodes();
    if src_node >= nodes.len() {
        return Err(LinkError::BadSrcNode);
    }
    if dst_node >= nodes.len() {
        return Err(LinkError::BadDstNode);
    }
    let src = &nodes[src_node];
    let dst = &nodes[dst_node];
    let sm = match lookup_meta(available, &src.ty.0) {
        Some(mi) => &available[mi].1,
        None => {
            return Err(LinkError::UnknownSrcKind);
        },
    };
    let dm = match lookup_meta(available, &dst.ty.0) {
        Some(mi) => &available[mi].1,
        None => {
            return Err(LinkError::UnknownDstKind);
        },
    };
    if src_slot >= sm.outputs.len() {
        return Err(LinkError::BadSrcSlot);
    }
    if dst_slot >= dm.inputs.len() {
        return Err(LinkError::BadDstSlot);
    }
    if !sm.outputs[src_slot].1.0.eq(&dm.inputs[dst_slot].1.0) {
        return Err(LinkError::TypeMismatch);
    }
    Ok(
        Link {
            src_node,
            src_slot,
            dst_node,
            dst_slot,
            ty: LinkType(sm.outputs[src_slot].1.0.clone()),
        },
    )
}

/// A link being dragged: nothing in hand, a loose destination end whose
/// source is attached, or a loose source end whose destination is attached.
#[derive(PartialEq, Eq, Debug)]
pub enum Floating {
    Idle,
    SrcAttached { node: usize, slot: usize, ty: LinkType },
    DstAttached { node: usize, slot: usize, ty: LinkType },
}

/// Mathematical model of a dragged link.
pub enum FloatingV {
    Idle,
    SrcAttached { node: usize, slot: usize, ty: Seq<char> },
    DstAttached { node: usize, slot: usize, ty: Seq<char> },
}

impl View for Floating {
    type V = FloatingV;

    open spec fn view(&self) -> FloatingV {
        match self {
            Floating::Idle => FloatingV::Idle,
            Floating::SrcAttached { node, slot, ty } => FloatingV::SrcAttached {
                node: *node,
                slot: *slot,
                ty: ty@,
            },
            Floating::DstAttached { node, slot, ty } => FloatingV::DstAttached {
                node: *node,
                slot: *slot,
                ty: ty@,
            },
        }
    }
}

/// The store mutation a link-editing step asks for.
#[derive(PartialEq, Eq, Debug)]
pub enum LinkEditAction {
    Keep,
    RemoveLink(usize),
    AddLink(Link),
}

/// Mathematical model of a link-editing action.
pub enum LinkEditActionV {
    Keep,
    RemoveLink(usize),
    AddLink(LinkV),
}

impl View for LinkEditAction {
    type V = LinkEditActionV;

    open spec fn view(&self) -> LinkEditActionV {
        match self {
            LinkEditAction::Keep => LinkEditActionV::Keep,
            LinkEditAction::RemoveLink(i) => LinkEditActionV::RemoveLink(*i),
            LinkEditAction::AddLink(l) => LinkEditActionV::AddLink(l@),
        }
    }
}

/// The position of the first link leaving the given output slot.
pub open spec fn first_link_from(links: Seq<LinkV>, node: usize, slot: usize) -> Option<int>
    decreases links.len(),
{
    if links.len() == 0 {
        None
    } else if links[0].src_node == node && links[0].src_slot == slot {
        Some(0int)
    } else {
        match first_link_from(links.drop_first(), node, slot) {
            Some(i) => Some(i + 1),
            None => None,
        }
    }
}

/// The position of the first link ending at the given input slot.
pub open spec fn first_link_to(links: Seq<LinkV>, node: usize, slot: usize) -> Option<int>
    decreases links.len(),
{
    if links.len() == 0 {
        None
    } else if links[0].dst_node == node && links[0].dst_slot == slot {
        Some(0int)
    } else {
        match first_link_to(links.drop_first(), node, slot) {
            Some(i) => Some(i + 1),
            None => None,
        }
    }
}

/// Starting a drag from an output slot: if a link already leaves that slot,
/// it is detached — its loose destination end follows the pointer and the
/// store is asked to remove it; otherwise a fresh source end is picked up.
/// A slot that does not resolve changes nothing.
pub open spec fn begin_from_output_spec(
    avail: Seq<(Seq<char>, ProjNodeV)>,
    g: GraphV,
    f: FloatingV,
    node: usize,
    slot: usize,
) -> (FloatingV, LinkEditActionV) {
    if node < g.nodes.len() {
        match avail_find(avail, g.nodes[node as int].ty) {
            Some(meta) => if slot < meta.outputs.len() {
                let ty = meta.outputs[slot as int].1;
                match first_link_from(g.links, node, slot) {
                    Some(i) => (
                        FloatingV::DstAttached {
                            node: g.links[i].dst_node,
                            slot: g.links[i].dst_slot,
                            ty,
                        },
                        LinkEditActionV::RemoveLink(i as usize),
                    ),
                    None => (FloatingV::SrcAttached { node, slot, ty }, LinkEditActionV::Keep),
                }
            } else {
                (f, LinkEditActionV::Keep)
            },
            None => (f, LinkEditActionV::Keep),
        }
    } else {
        (f, LinkEditActionV::Keep)
    }
}

/// Starting a drag from an input slot: if a link already ends at that slot,
/// it is detached — its loose source end follows the pointer and the store
/// is asked to remove it; otherwise a fresh destination end is picked up.
/// A slot that does not resolve changes nothing.
pub open spec fn begin_from_input_spec(
    avail: Seq<(Seq<char>, ProjNodeV)>,
    g: GraphV,
    f: FloatingV,
    node: usize,
    slot: usize,
) -> (FloatingV, LinkEditActionV) {
    if node < g.nodes.len() {
        match avail_find(avail, g.nodes[node as int].ty) {
            Some(meta) => if slot < meta.inputs.len() {
                let ty = meta.inputs[slot as int].1;
                match first_link_to(g.links, node, slot) {
                    Some(i) => (
                        FloatingV::SrcAttached {
                            node: g.links[i].src_node,
                            slot: g.links[i].src_slot,
                            ty,
                        },
                        LinkEditActionV::RemoveLink(i as usize),
                    ),
                    None => (FloatingV::DstAttached { node, slot, ty }, LinkEditActionV::Keep),
                }
            } else {
                (f, LinkEditActionV::Keep)
            },
            None => (f, LinkEditActionV::Keep),
        }
    } else {
        (f, LinkEditActionV::Keep)
    }
}

/// Dropping a dragged link on an input slot: when a source end is in hand
/// and the slot resolves to the same type, the store is asked to add the
/// link; in every case the hand is emptied.
pub open spec fn attach_to_input_spec(
    avail: Seq<(Seq<char>, ProjNodeV)>,
    g: GraphV,
    f: FloatingV,
    node: usize,
    slot: usize,
) -> (FloatingV, LinkEditActionV) {
    if node < g.nodes.len() {
        match avail_find(avail, g.nodes[node as int].ty) {
            Some(meta) => if slot < meta.inputs.len() {
                let ty = meta.inputs[slot as int].1;
                match f {
                    FloatingV::SrcAttached { node: sn, slot: ss, ty: fty } => if fty == ty {
                        (
                            FloatingV::Idle,
                            LinkEditActionV::AddLink(
                                LinkV {
                                    src_node: sn,
                                    src_slot: ss,
                                    dst_node: node,
                                    dst_slot: slot,
                                    ty,
                                },
                            ),
                        )
                    } else {
                        (FloatingV::Idle, LinkEditActionV::Keep)
                    },
                    _ => (FloatingV::Idle, LinkEditActionV::Keep),
                }
            } else {
                (FloatingV::Idle, LinkEditActionV::Keep)
            },
            None => (FloatingV::Idle, LinkEditActionV::Keep),
        }
    } else {
        (FloatingV::Idle, LinkEditActionV::Keep)
    }
}

/// Dropping a dragged link on an output slot: when a destination end is in
/// hand and the slot resolves to the same type, the store is asked to add
/// the link; in every case the hand is emptied.
pub open spec fn attach_to_output_spec(
    avail: Seq<(Seq<char>, ProjNodeV)>,
    g: GraphV,
    f: FloatingV,
    node: usize,
    slot: usize,
) -> (FloatingV, LinkEditActionV) {
    if node < g.nodes.len() {
        match avail_find(avail, g.nodes[node as int].ty) {
            Some(meta) => if slot < meta.outputs.len() {
                let ty = meta.outputs[slot as int].1;
                match f {
                    FloatingV::DstAttached { node: dn, slot: ds, ty: fty } => if fty == ty {
                        (
                            FloatingV::Idle,
                            LinkEditActionV::AddLink(
                                LinkV {
                                    src_node: node,
                                    src_slot: slot,
                                    dst_node: dn,
                                    dst_slot: ds,
                                    ty,
                                },
                            ),
                        )
                    } else {
                        (FloatingV::Idle, LinkEditActionV::Keep)
                    },
                    _ => (FloatingV::Idle, LinkEditActionV::Keep),
                }
            } else {
                (FloatingV::Idle, LinkEditActionV::Keep)
            },
            None => (FloatingV::Idle, LinkEditActionV::Keep),
        }
    } else {
        (FloatingV::Idle, LinkEditActionV::Keep)
    }
}

/// The first link leaving the given output slot.
fn find_link_from(links: &Vec<Link>, node: usize, slot: usize) -> (r: Option<usize>)
    ensures
        match r {
            Some(i) => {
                &&& i < links@.len()
                &&& first_link_from(crate::graph::links_view(links@), node, slot) == Some(i as int)
            },
            None => first_link_from(crate::graph::links_view(links@), node, slot) is None,
        },
{
    let ghost lv = crate::graph::links_view(links@);
    let mut i: usize = 0;
    proof {
        assert(lv.skip(0int) =~= lv);
    }
    while i < links.len()
        invariant
            i <= links@.len(),
            lv == crate::graph::links_view(links@),
            lv.len() == links@.len(),
            match first_link_from(lv.skip(i as int), node, slot) {
                Some(j) => first_link_from(lv, node, slot) == Some(j + i),
                None => first_link_from(lv, node, slot) is None,
            },
        decreases links@.len() - i,
    {
        proof {
            assert(lv.skip(i as int)[0] == lv[i as int]);
            assert(lv.skip(i as int).drop_first() =~= lv.skip(i as int + 1));
        }
        if links[i].src_node == node && links[i].src_slot == slot {
            return Some(i);
        }
        i = i + 1;
    }
    None
}

/// The first link ending at the given input slot.
fn find_link_to(links: &Vec<Link>, node: usize, slot: usize) -> (r: Option<usize>)
    ensures
        match r {
            Some(i) => {
                &&& i < links@.len()
                &&& first_link_to(crate::graph::links_view(links@), node, slot) == Some(i as int)
            },
            None => first_link_to(crate::graph::links_view(links@), node, slot) is None,
        },
{
    let ghost lv = crate::graph::links_view(links@);
    let mut i: usize = 0;
    proof {
        assert(lv.skip(0int) =~= lv);
    }
    while i < links.len()
        invariant
            i <= links@.len(),
            lv == crate::graph::links_view(links@),
            lv.len() == links@.len(),
            match first_link_to(lv.skip(i as int), node, slot) {
                Some(j) => first_link_to(lv, node, slot) == Some(j + i),
                None => first_link_to(lv, node, slot) is None,
            },
        decreases links@.len() - i,
    {
        proof {
            assert(lv.skip(i as int)[0] == lv[i as int]);
            assert(lv.skip(i as int).drop_first() =~= lv.skip(i as int + 1));
        }
        if links[i].dst_node == node && links[i].dst_slot == slot {
            return Some(i);
        }
        i = i + 1;
    }
    None
}

/// Starting a drag from an output slot, as `begin_from_output_spec`
/// describes.
pub fn begin_from_output(
    available: &Vec<(NodeType, Node)>,
    graph: &Graph,
    floating: Floating,
    node: usize,
    slot: usize,
) -> (r: (Floating, LinkEditAction))
    ensures
        (r.0@, r.1@) == begin_from_output_spec(
            avail_view(available@),
            graph@,
            floating@,
            node,
            slot,
        ),
{
    let nodes = graph.get_nodes();
    if node < nodes.len() {
        let inst = &nodes[node];
        match lookup_meta(available, &inst.ty.0) {
            Some(mi) => {
                let meta = &available[mi].1;
                if slot < meta.outputs.len() {
                    let ty = LinkType(meta.outputs[slot].1.0.clone());
                    let links = graph.get_links();
                    match find_link_from(links, node, slot) {
                        Some(i) => {
                            let l = &links[i];
                            (
                                Floating::DstAttached { node: l.dst_node, slot: l.dst_slot, ty },
                                LinkEditAction::RemoveLink(i),
                            )
                        },
                        None => (Floating::SrcAttached { node, slot, ty }, LinkEditAction::Keep),
                    }
                } else {
                    (floating, LinkEditAction::Keep)
                }
            },
            None => (floating, LinkEditAction::Keep),
        }
    } else {
        (floating, LinkEditAction::Keep)
    }
}

/// Starting a drag from an input slot, as `begin_from_input_spec`
/// describes.
pub fn begin_from_input(
    available: &Vec<(NodeType, Node)>,
    graph: &Graph,
    floating: Floating,
    node: usize,
    slot: usize,
) -> (r: (Floating, LinkEditAction))
    ensures
        (r.0@, r.1@) == begin_from_input_spec(
            avail_view(available@),
            graph@,
            floating@,
            node,
            slot,
        ),
{
    let nodes = graph.get_nodes();
    if node < nodes.len() {
        let inst = &nodes[node];
        match lookup_meta(available, &inst.ty.0) {
            Some(mi) => {
                let meta = &available[mi].1;
                if slot < meta.inputs.len() {
                    let ty = LinkType(meta.inputs[slot].1.0.clone());
                    let links = graph.get_links();
                    match find_link_to(links, node, slot) {
                        Some(i) => {
                            let l = &links[i];
                            (
                                Floating::SrcAttached { node: l.src_node, slot: l.src_slot, ty },
                                LinkEditAction::RemoveLink(i),
                            )
                        },
                        None => (Floating::DstAttached { node, slot, ty }, LinkEditAction::Keep),
                    }
                } else {
                    (floating, LinkEditAction::Keep)
                }
            },
            None => (floating, LinkEditAction::Keep),
        }
    } else {
        (floating, LinkEditAction::Keep)
    }
}

/// Dropping a dragged link on an input slot, as `attach_to_input_spec`
/// describes.
pub fn attach_to_input(
    available: &Vec<(NodeType, Node)>,
    graph: &Graph,
    floating: Floating,
    node: usize,
    slot: usize,
) -> (r: (Floating, LinkEditAction))
    ensures
        (r.0@, r.1@) == attach_to_input_spec(
            avail_view(available@),
            graph@,
            floating@,
            node,
            slot,
        ),
{
    let nodes = graph.get_nodes();
    if node < nodes.len() {
        let inst = &nodes[node];
        match lookup_meta(available, &inst.ty.0) {
            Some(mi) => {
                let meta = &available[mi].1;
                if slot < meta.inputs.len() {
                    let ty = &meta.inputs[slot].1;
                    match floating {
                        Floating::SrcAttached { node: sn, slot: ss, ty: fty } => {
                            if fty.0.eq(&ty.0) {
                                (
                                    Floating::Idle,
                                    LinkEditAction::AddLink(
                                        Link {
                                            src_node: sn,
                                            src_slot: ss,
                                            dst_node: node,
                                            dst_slot: slot,
                                            ty: LinkType(ty.0.clone()),
                                        },
                                    ),
                                )
                            } else {
                                (Floating::Idle, LinkEditAction::Keep)
                            }
                        },
                        _ => (Floating::Idle, LinkEditAction::Keep),
                    }
                } else {
                    (Floating::Idle, LinkEditAction::Keep)
                }
            },
            None => (Floating::Idle, LinkEditAction::Keep),
        }
    } else {
        (Floating::Idle, LinkEditAction::Keep)
    }
}

/// Dropping a dragged link on an output slot, as `attach_to_output_spec`
/// describes.
pub fn attach_to_output(
    available: &Vec<(NodeType, Node)>,
    graph: &Graph,
    floating: Floating,
    node: usize,
    slot: usize,
) -> (r: (Floating, LinkEditAction))
    ensures
        (r.0@, r.1@) == attach_to_output_spec(
            avail_view(available@),
            graph@,
            floating@,
            node,
            slot,
        ),
{
    let nodes = graph.get_nodes();
    if node < nodes.len() {
        let inst = &nodes[node];
        match lookup_meta(available, &inst.ty.0) {
            Some(mi) => {
                let meta = &available[mi].1;
                if slot < meta.outputs.len() {
                    let ty = &meta.outputs[slot].1;
                    match floating {
                        Floating::DstAttached { node: dn, slot: ds, ty: fty } => {
                            if fty.0.eq(&ty.0) {
                                (
                                    Floating::Idle,
                                    LinkEditAction::AddLink(
                                        Link {
                                            src_node: node,
                                            src_slot: slot,
                                            dst_node: dn,
                                            dst_slot: ds,
                                            ty: LinkType(ty.0.clone()),
                                        },
                                    ),
                                )
                            } else {
                                (Floating::Idle, LinkEditAction::Keep)
                            }
                        },
                        _ => (Floating::Idle, LinkEditAction::Keep),
                    }
                } else {
                    (Floating::Idle, LinkEditAction::Keep)
                }
            },
            None => (Floating::Idle, LinkEditAction::Keep),
        }
    } else {
        (Floating::Idle, LinkEditAction::Keep)
    }
}

} // verus!

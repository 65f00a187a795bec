//! The graph store: node instances, their per-instance field state, and the
//! directed links between typed slots, together with the view transform of
//! the editor canvas.
//!
//! Nodes are identified by their index in the node list; nodes are never
//! removed, so indices stay stable. Links are identified by their current
//! index, which shifts when an earlier link is removed. A stale node or link
//! index makes the operation a harmless no-op rather than a failure.

use vstd::prelude::*;
use vstd::pervasive::VecAdditionalExecFns;
use crate::field::FieldV;
use crate::field::NodeField;
use crate::field::Real;
use crate::field::float_applied;
use crate::field::int_applied;
use crate::field::option_applied;
use crate::field::text_applied;
use crate::schema::state_view;

verus! {

/// Bit pattern of 1.0, the zoom of a fresh graph.
pub const REAL_ONE_BITS: u64 = 0x3FF0000000000000;

/// A slot type: the tag that decides which outputs may feed which inputs.
#[derive(PartialEq, Eq, Debug)]
pub struct LinkType(pub String);

impl View for LinkType {
    type V = Seq<char>;

    open spec fn view(&self) -> Seq<char> {
        self.0@
    }
}

impl Clone for LinkType {
    fn clone(&self) -> (r: Self)
        ensures
            r@ == self@,
    {
        LinkType(self.0.clone())
    }
}

/// The identifier of a node kind, as declared by the remote schema.
#[derive(PartialEq, Eq, Hash, PartialOrd, Ord, Debug)]
pub struct NodeType(pub String);

impl View for NodeType {
    type V = Seq<char>;

    open spec fn view(&self) -> Seq<char> {
        self.0@
    }
}

impl Clone for NodeType {
    fn clone(&self) -> (r: Self)
        ensures
            r@ == self@,
    {
        NodeType(self.0.clone())
    }
}

/// A directed edge from one node's output slot to another node's input slot
/// of the same slot type. Links are immutable once created.
#[derive(PartialEq, Eq, Debug)]
pub struct Link {
    pub src_node: usize,
    pub src_slot: usize,
    pub dst_node: usize,
    pub dst_slot: usize,
    pub ty: LinkType,
}

/// Mathematical model of a `Link`.
#[verifier::ext_equal]
pub struct LinkV {
    pub src_node: usize,
    pub src_slot: usize,
    pub dst_node: usize,
    pub dst_slot: usize,
    pub ty: Seq<char>,
}

impl View for Link {
    type V = LinkV;

    open spec fn view(&self) -> LinkV {
        LinkV {
            src_node: self.src_node,
            src_slot: self.src_slot,
            dst_node: self.dst_node,
            dst_slot: self.dst_slot,
            ty: self.ty@,
        }
    }
}

impl Clone for Link {
    fn clone(&self) -> (r: Self)
        ensures
            r@ == self@,
    {
        Link {
            src_node: self.src_node,
            src_slot: self.src_slot,
            dst_node: self.dst_node,
            dst_slot: self.dst_slot,
            ty: self.ty.clone(),
        }
    }
}

/// One node placed in the graph: its kind, its canvas position, its live
/// field state in declared order, and the reference of its last computed
/// output image, if any has arrived.
#[derive(PartialEq, Eq, Debug)]
pub struct NodeInstance {
    pub ty: NodeType,
    pub pos: (i64, i64),
    pub state: Vec<(String, NodeField)>,
    pub image: Option<String>,
}

/// Mathematical model of a `NodeInstance`.
#[verifier::ext_equal]
pub struct NodeInstanceV {
    pub ty: Seq<char>,
    pub pos: (i64, i64),
    pub state: Seq<(Seq<char>, FieldV)>,
    pub image: Option<Seq<char>>,
}

impl View for NodeInstance {
    type V = NodeInstanceV;

    open spec fn view(&self) -> NodeInstanceV {
        NodeInstanceV {
            ty: self.ty@,
            pos: self.pos,
            state: state_view(self.state@),
            image: match self.image {
                Some(ref s) => Some(s@),
                None => None,
            },
        }
    }
}

/// The model of a link list.
pub open spec fn links_view(s: Seq<Link>) -> Seq<LinkV> {
    s.map_values(|l: Link| l@)
}

/// The model of a node list.
pub open spec fn nodes_view(s: Seq<NodeInstance>) -> Seq<NodeInstanceV> {
    s.map_values(|n: NodeInstance| n@)
}

/// The editable graph of one project tab.
#[derive(PartialEq, Eq, Debug)]
pub struct Graph {
    nodes: Vec<NodeInstance>,
    links: Vec<Link>,
    zoom: Real,
    offset: (i64, i64),
}

/// Mathematical model of a `Graph`.
#[verifier::ext_equal]
pub struct GraphV {
    pub nodes: Seq<NodeInstanceV>,
    pub links: Seq<LinkV>,
    pub zoom: Real,
    pub offset: (i64, i64),
}

impl View for Graph {
    type V = GraphV;

    closed spec fn view(&self) -> GraphV {
        GraphV {
            nodes: nodes_view(self.nodes@),
            links: links_view(self.links@),
            zoom: self.zoom,
            offset: self.offset,
        }
    }
}

/// Where a freshly added node lands on one axis: a fixed margin adjusted by
/// the view offset, clamped at the numeric limit so that an extreme pan
/// cannot overflow.
pub open spec fn place_coord(off: i64) -> i64 {
    if 20 - off <= i64::MAX {
        (20 - off) as i64
    } else {
        i64::MAX
    }
}

fn place_coord_exec(off: i64) -> (r: i64)
    ensures
        r == place_coord(off),
{
    if off >= i64::MIN + 21 {
        20 - off
    } else {
        i64::MAX
    }
}

/// `links` without every link that ends at the given destination slot; an
/// input slot accepts at most one incoming edge, so adding a link first
/// clears its destination.
pub open spec fn drop_dst(links: Seq<LinkV>, dst_node: usize, dst_slot: usize) -> Seq<LinkV>
    decreases links.len(),
{
    if links.len() == 0 {
        Seq::empty()
    } else {
        drop_dst(links.drop_last(), dst_node, dst_slot) + (if links.last().dst_node == dst_node
            && links.last().dst_slot == dst_slot {
            Seq::<LinkV>::empty()
        } else {
            seq![links.last()]
        })
    }
}

impl Graph {
    /// A fresh, empty graph with the identity view transform.
    pub fn new() -> (r: Graph)
        ensures
            r@.nodes == Seq::<NodeInstanceV>::empty(),
            r@.links == Seq::<LinkV>::empty(),
            r@.zoom == (Real { bits: REAL_ONE_BITS }),
            r@.offset == (0i64, 0i64),
    {
        let r = Graph {
            nodes: Vec::new(),
            links: Vec::new(),
            zoom: Real { bits: REAL_ONE_BITS },
            offset: (0, 0),
        };
        proof {
            assert(r@.nodes =~= Seq::<NodeInstanceV>::empty());
            assert(r@.links =~= Seq::<LinkV>::empty());
        }
        r
    }

    /// A graph assembled from restored nodes and links, with the view
    /// transform at its defaults.
    pub fn from_parts(nodes: Vec<NodeInstance>, links: Vec<Link>) -> (r: Graph)
        ensures
            r@ == (GraphV {
                nodes: nodes_view(nodes@),
                links: links_view(links@),
                zoom: Real { bits: REAL_ONE_BITS },
                offset: (0i64, 0i64),
            }),
    {
        Graph { nodes, links, zoom: Real { bits: REAL_ONE_BITS }, offset: (0, 0) }
    }

    /// The canvas zoom.
    pub fn zoom(&self) -> (r: Real)
        ensures
            r == self@.zoom,
    {
        self.zoom
    }

    /// The canvas pan offset.
    pub fn offset(&self) -> (r: (i64, i64))
        ensures
            r == self@.offset,
    {
        self.offset
    }

    /// Sets the canvas zoom; nodes and links are untouched.
    pub fn set_zoom(&mut self, zoom: Real)
        ensures
            final(self)@ == (GraphV { zoom, ..old(self)@ }),
    {
        self.zoom = zoom;
    }

    /// Sets the canvas pan offset; nodes and links are untouched.
    pub fn set_offset(&mut self, offset: (i64, i64))
        ensures
            final(self)@ == (GraphV { offset, ..old(self)@ }),
    {
        self.offset = offset;
    }

    /// Appends a node of the given kind with the given initial field state.
    /// The node lands at a fixed margin adjusted by the current pan, so that
    /// it appears in the visible viewport.
    pub fn add_node(&mut self, id: NodeType, state: Vec<(String, NodeField)>)
        ensures
            final(self)@ == (GraphV {
                nodes: old(self)@.nodes.push(
                    NodeInstanceV {
                        ty: id@,
                        pos: (place_coord(old(self)@.offset.0), place_coord(old(self)@.offset.1)),
                        state: state_view(state@),
                        image: None,
                    },
                ),
                ..old(self)@
            }),
    {
        let ghost prev = self.nodes@;
        let x = place_coord_exec(self.offset.0);
        let y = place_coord_exec(self.offset.1);
        self.nodes.push(NodeInstance { ty: id, pos: (x, y), state, image: None });
        proof {
            assert(nodes_view(self.nodes@) =~= nodes_view(prev).push(self.nodes@.last()@));
        }
    }

    /// Moves a node to the given position. A stale index is a no-op.
    pub fn set_node_position(&mut self, node_idx: usize, x: i64, y: i64)
        ensures
            if node_idx < old(self)@.nodes.len() {
                final(self)@ == (GraphV {
                    nodes: old(self)@.nodes.update(
                        node_idx as int,
                        NodeInstanceV { pos: (x, y), ..old(self)@.nodes[node_idx as int] },
                    ),
                    ..old(self)@
                })
            } else {
                final(self)@ == old(self)@
            },
    {
        if node_idx < self.nodes.len() {
            let ghost prev = self.nodes@;
            let mut tmp = NodeInstance {
                ty: NodeType(String::new()),
                pos: (0, 0),
                state: Vec::new(),
                image: None,
            };
            self.nodes.set_and_swap(node_idx, &mut tmp);
            tmp.pos = (x, y);
            self.nodes.set_and_swap(node_idx, &mut tmp);
            proof {
                assert(nodes_view(self.nodes@) =~= nodes_view(prev).update(
                    node_idx as int,
                    self.nodes@[node_idx as int]@,
                ));
            }
        }
    }

    /// Stores the output-image reference of a node. A stale index is a no-op.
    pub fn set_node_image(&mut self, node_idx: usize, image: String)
        ensures
            if node_idx < old(self)@.nodes.len() {
                final(self)@ == (GraphV {
                    nodes: old(self)@.nodes.update(
                        node_idx as int,
                        NodeInstanceV {
                            image: Some(image@),
                            ..old(self)@.nodes[node_idx as int]
                        },
                    ),
                    ..old(self)@
                })
            } else {
                final(self)@ == old(self)@
            },
    {
        if node_idx < self.nodes.len() {
            let ghost prev = self.nodes@;
            let mut tmp = NodeInstance {
                ty: NodeType(String::new()),
                pos: (0, 0),
                state: Vec::new(),
                image: None,
            };
            self.nodes.set_and_swap(node_idx, &mut tmp);
            tmp.image = Some(image);
            self.nodes.set_and_swap(node_idx, &mut tmp);
            proof {
                assert(nodes_view(self.nodes@) =~= nodes_view(prev).update(
                    node_idx as int,
                    self.nodes@[node_idx as int]@,
                ));
            }
        }
    }

    /// Removes the link at the given index; later links shift down by one, so
    /// callers must not hold on to link indices across mutations. A stale
    /// index is a no-op.
    pub fn remove_link(&mut self, idx: usize)
        ensures
            if idx < old(self)@.links.len() {
                final(self)@ == (GraphV {
                    links: old(self)@.links.remove(idx as int),
                    ..old(self)@
                })
            } else {
                final(self)@ == old(self)@
            },
    {
        if idx < self.links.len() {
            let ghost prev = self.links@;
            self.links.remove(idx);
            proof {
                assert(links_view(self.links@) =~= links_view(prev).remove(idx as int));
            }
        }
    }

    /// Appends a link. Any link already ending at the same destination slot
    /// is evicted first: an input slot accepts at most one incoming edge, and
    /// the store keeps that invariant itself.
    pub fn add_link(&mut self, lnk: Link)
        ensures
            final(self)@ == (GraphV {
                links: drop_dst(old(self)@.links, lnk.dst_node, lnk.dst_slot).push(lnk@),
                ..old(self)@
            }),
    {
        let ghost lv = lnk@;
        let mut kept: Vec<Link> = Vec::new();
        let mut i: usize = 0;
        proof {
            assert(links_view(self.links@).take(0int) =~= Seq::<LinkV>::empty());
            assert(drop_dst(links_view(self.links@).take(0int), lnk.dst_node, lnk.dst_slot)
                =~= links_view(kept@));
        }
        while i < self.links.len()
            invariant
                i <= self.links@.len(),
                drop_dst(links_view(self.links@).take(i as int), lv.dst_node, lv.dst_slot)
                    == links_view(kept@),
                lv.dst_node == lnk.dst_node && lv.dst_slot == lnk.dst_slot,
            decreases self.links@.len() - i,
        {
            proof {
                assert(links_view(self.links@).take(i as int + 1).drop_last() =~= links_view(
                    self.links@,
                ).take(i as int));
                assert(links_view(self.links@).take(i as int + 1).last() == self.links@[i as int]@);
            }
            let l = &self.links[i];
            if !(l.dst_node == lnk.dst_node && l.dst_slot == lnk.dst_slot) {
                let ghost prevk = kept@;
                kept.push(l.clone());
                proof {
                    assert(links_view(kept@) =~= links_view(prevk).push(kept@.last()@));
                    assert(kept@.last()@ == self.links@[i as int]@);
                }
            }
            i = i + 1;
        }
        proof {
            assert(links_view(self.links@).take(self.links@.len() as int) =~= links_view(
                self.links@,
            ));
        }
        let ghost keptv = links_view(kept@);
        kept.push(lnk);
        self.links = kept;
        proof {
            assert(links_view(self.links@) =~= keptv.push(lv));
        }
    }

    /// The node list.
    pub fn get_nodes(&self) -> (r: &Vec<NodeInstance>)
        ensures
            nodes_view(r@) == self@.nodes,
    {
        &self.nodes
    }

    /// The field state of a node. A stale index yields `None`.
    pub fn get_state(&self, id: usize) -> (r: Option<&Vec<(String, NodeField)>>)
        ensures
            if id < self@.nodes.len() {
                r is Some && state_view(r->0@) == self@.nodes[id as int].state
            } else {
                r is None
            },
    {
        if id < self.nodes.len() {
            Some(&self.nodes[id].state)
        } else {
            None
        }
    }

    /// One node of the graph. A stale index yields `None`.
    pub fn get_node(&self, idx: usize) -> (r: Option<&NodeInstance>)
        ensures
            if idx < self@.nodes.len() {
                r is Some && r->0@ == self@.nodes[idx as int]
            } else {
                r is None
            },
    {
        if idx < self.nodes.len() {
            Some(&self.nodes[idx])
        } else {
            None
        }
    }

    /// The link list.
    pub fn get_links(&self) -> (r: &Vec<Link>)
        ensures
            links_view(r@) == self@.links,
    {
        &self.links
    }

    /// Edits one named field of one node with the given text. A stale node
    /// index or an unknown field name is a no-op.
    pub fn set_field_text(&mut self, id: usize, input: &String, text: String)
        ensures
            node_field_edited(
                old(self)@,
                id,
                input@,
                |a: FieldV, b: FieldV| text_applied(a, text@, b),
                final(self)@,
            ),
    {
        if id < self.nodes.len() {
            let ghost prev = self.nodes@;
            let mut tmp = NodeInstance {
                ty: NodeType(String::new()),
                pos: (0, 0),
                state: Vec::new(),
                image: None,
            };
            self.nodes.set_and_swap(id, &mut tmp);
            match find_entry(&tmp.state, input) {
                Some(j) => {
                    let mut pair = (String::new(), NodeField::Unknown);
                    tmp.state.set_and_swap(j, &mut pair);
                    let ghost mid = pair.1@;
                    pair.1.set_text(text);
                    proof {
                        assert(text_applied(mid, text@, pair.1@));
                    }
                    tmp.state.set_and_swap(j, &mut pair);
                    proof {
                        assert(state_view(tmp.state@) =~= state_view(prev[id as int].state@)
                            .update(j as int, (input@, tmp.state@[j as int].1@)));
                    }
                },
                None => (),
            }
            self.nodes.set_and_swap(id, &mut tmp);
            proof {
                assert(nodes_view(self.nodes@) =~= nodes_view(prev).update(
                    id as int,
                    self.nodes@[id as int]@,
                ));
                if first_named(state_view(prev[id as int].state@), input@) is None {
                    assert(nodes_view(self.nodes@) =~= nodes_view(prev));
                    assert(self@ =~= old(self)@);
                }
            }
        }
    }

    /// Edits one named field of one node with the given integer. A stale
    /// node index or an unknown field name is a no-op.
    pub fn set_field_int(&mut self, id: usize, input: &String, value: i64)
        ensures
            node_field_edited(
                old(self)@,
                id,
                input@,
                |a: FieldV, b: FieldV| b == int_applied(a, value),
                final(self)@,
            ),
    {
        if id < self.nodes.len() {
            let ghost prev = self.nodes@;
            let mut tmp = NodeInstance {
                ty: NodeType(String::new()),
                pos: (0, 0),
                state: Vec::new(),
                image: None,
            };
            self.nodes.set_and_swap(id, &mut tmp);
            match find_entry(&tmp.state, input) {
                Some(j) => {
                    let mut pair = (String::new(), NodeField::Unknown);
                    tmp.state.set_and_swap(j, &mut pair);
                    pair.1.set_int(value);
                    tmp.state.set_and_swap(j, &mut pair);
                    proof {
                        assert(state_view(tmp.state@) =~= state_view(prev[id as int].state@)
                            .update(j as int, (input@, tmp.state@[j as int].1@)));
                    }
                },
                None => (),
            }
            self.nodes.set_and_swap(id, &mut tmp);
            proof {
                assert(nodes_view(self.nodes@) =~= nodes_view(prev).update(
                    id as int,
                    self.nodes@[id as int]@,
                ));
                if first_named(state_view(prev[id as int].state@), input@) is None {
                    assert(nodes_view(self.nodes@) =~= nodes_view(prev));
                    assert(self@ =~= old(self)@);
                }
            }
        }
    }

    /// Edits one named field of one node with the given floating-point
    /// value. A stale node index or an unknown field name is a no-op.
    pub fn set_field_float(&mut self, id: usize, input: &String, value: Real)
        ensures
            node_field_edited(
                old(self)@,
                id,
                input@,
                |a: FieldV, b: FieldV| b == float_applied(a, value),
                final(self)@,
            ),
    {
        if id < self.nodes.len() {
            let ghost prev = self.nodes@;
            let mut tmp = NodeInstance {
                ty: NodeType(String::new()),
                pos: (0, 0),
                state: Vec::new(),
                image: None,
            };
            self.nodes.set_and_swap(id, &mut tmp);
            match find_entry(&tmp.state, input) {
                Some(j) => {
                    let mut pair = (String::new(), NodeField::Unknown);
                    tmp.state.set_and_swap(j, &mut pair);
                    pair.1.set_float(value);
                    tmp.state.set_and_swap(j, &mut pair);
                    proof {
                        assert(state_view(tmp.state@) =~= state_view(prev[id as int].state@)
                            .update(j as int, (input@, tmp.state@[j as int].1@)));
                    }
                },
                None => (),
            }
            self.nodes.set_and_swap(id, &mut tmp);
            proof {
                assert(nodes_view(self.nodes@) =~= nodes_view(prev).update(
                    id as int,
                    self.nodes@[id as int]@,
                ));
                if first_named(state_view(prev[id as int].state@), input@) is None {
                    assert(nodes_view(self.nodes@) =~= nodes_view(prev));
                    assert(self@ =~= old(self)@);
                }
            }
        }
    }

    /// Edits one named drop-down of one node with the given selection. A
    /// stale node index or an unknown field name is a no-op.
    pub fn set_field_option(&mut self, id: usize, input: &String, selection: Option<usize>)
        ensures
            node_field_edited(
                old(self)@,
                id,
                input@,
                |a: FieldV, b: FieldV| b == option_applied(a, selection),
                final(self)@,
            ),
    {
        if id < self.nodes.len() {
            let ghost prev = self.nodes@;
            let mut tmp = NodeInstance {
                ty: NodeType(String::new()),
                pos: (0, 0),
                state: Vec::new(),
                image: None,
            };
            self.nodes.set_and_swap(id, &mut tmp);
            match find_entry(&tmp.state, input) {
                Some(j) => {
                    let mut pair = (String::new(), NodeField::Unknown);
                    tmp.state.set_and_swap(j, &mut pair);
                    pair.1.set_option(selection);
                    tmp.state.set_and_swap(j, &mut pair);
                    proof {
                        assert(state_view(tmp.state@) =~= state_view(prev[id as int].state@)
                            .update(j as int, (input@, tmp.state@[j as int].1@)));
                    }
                },
                None => (),
            }
            self.nodes.set_and_swap(id, &mut tmp);
            proof {
                assert(nodes_view(self.nodes@) =~= nodes_view(prev).update(
                    id as int,
                    self.nodes@[id as int]@,
                ));
                if first_named(state_view(prev[id as int].state@), input@) is None {
                    assert(nodes_view(self.nodes@) =~= nodes_view(prev));
                    assert(self@ =~= old(self)@);
                }
            }
        }
    }
}

/// The position of the first field named `name` in a state list.
pub open spec fn first_named(s: Seq<(Seq<char>, FieldV)>, name: Seq<char>) -> Option<int>
    decreases s.len(),
{
    if s.len() == 0 {
        None
    } else if s[0].0 == name {
        Some(0int)
    } else {
        match first_named(s.drop_first(), name) {
            Some(i) => Some(i + 1),
            None => None,
        }
    }
}

/// `g_new` is `g_old` after the first field named `name` of node `id` was
/// rewritten as `rel` describes. A stale node index or an unknown field name
/// leaves the graph unchanged; everything else of the graph, of the node and
/// of the other fields is untouched.
pub open spec fn node_field_edited(
    g_old: GraphV,
    id: usize,
    name: Seq<char>,
    rel: spec_fn(FieldV, FieldV) -> bool,
    g_new: GraphV,
) -> bool {
    if id < g_old.nodes.len() {
        match first_named(g_old.nodes[id as int].state, name) {
            Some(j) => {
                &&& g_new.links == g_old.links
                &&& g_new.zoom == g_old.zoom
                &&& g_new.offset == g_old.offset
                &&& g_new.nodes.len() == g_old.nodes.len()
                &&& forall|k: int|
                    0 <= k < g_old.nodes.len() && k != id ==> g_new.nodes[k] == g_old.nodes[k]
                &&& g_new.nodes[id as int].ty == g_old.nodes[id as int].ty
                &&& g_new.nodes[id as int].pos == g_old.nodes[id as int].pos
                &&& g_new.nodes[id as int].image == g_old.nodes[id as int].image
                &&& g_new.nodes[id as int].state.len() == g_old.nodes[id as int].state.len()
                &&& forall|k: int|
                    0 <= k < g_old.nodes[id as int].state.len() && k != j ==> g_new.nodes[
                        id as int
                    ].state[k] == g_old.nodes[id as int].state[k]
                &&& g_new.nodes[id as int].state[j].0 == name
                &&& rel(g_old.nodes[id as int].state[j].1, g_new.nodes[id as int].state[j].1)
            },
            None => g_new == g_old,
        }
    } else {
        g_new == g_old
    }
}

/// The index of the first state entry named `input`, or `None` when no entry
/// carries that name.
fn find_entry(state: &Vec<(String, NodeField)>, input: &String) -> (r: Option<usize>)
    ensures
        match r {
            Some(j) => {
                &&& j < state@.len()
                &&& first_named(state_view(state@), input@) == Some(j as int)
                &&& state_view(state@)[j as int].0 == input@
                &&& forall|k: int| 0 <= k < j ==> state_view(state@)[k].0 != input@
            },
            None => first_named(state_view(state@), input@) is None,
        },
{
    let mut i: usize = 0;
    proof {
        assert(state_view(state@).skip(0int) =~= state_view(state@));
    }
    while i < state.len()
        invariant
            i <= state@.len(),
            forall|j: int| 0 <= j < i ==> state_view(state@)[j].0 != input@,
            match first_named(state_view(state@).skip(i as int), input@) {
                Some(j) => first_named(state_view(state@), input@) == Some(j + i),
                None => first_named(state_view(state@), input@) is None,
            },
        decreases state@.len() - i,
    {
        proof {
            assert(state_view(state@).skip(i as int)[0] == state_view(state@)[i as int]);
            assert(state_view(state@).skip(i as int).drop_first() =~= state_view(state@).skip(
                i as int + 1,
            ));
        }
        if state[i].0.eq(input) {
            return Some(i);
        }
        i = i + 1;
    }
    None
}

} // verus!

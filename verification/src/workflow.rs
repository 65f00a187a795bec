//! The document side of the codec: the interchange shape the remote tool
//! itself authors. A document carries monotone node and link counters, the
//! node records with their positional widget values, and each link as a flat
//! six-field record.
//!
//! Adding a node assigns it `last_node_id + 1` and reserves one link id per
//! declared input, advancing `last_link_id` by the input count; this
//! reservation must be reproduced exactly so that numbering stays stable
//! across repeated saves.

use vstd::prelude::*;
use vstd::pervasive::VecAdditionalExecFns;
use crate::field::Real;
use crate::field::WidgetValue;
use crate::field::WidgetV;

verus! {

/// Bit pattern of 0.4, the document format version this codec speaks.
pub const VERSION_BITS: u64 = 0x3FD999999999999A;

/// One declared input of a document node: its name, its slot type, and the
/// link id reserved for it.
#[derive(PartialEq, Eq, Debug)]
pub struct WorkflowNodeInput {
    pub name: String,
    pub ty: String,
    pub link: usize,
}

/// Mathematical model of a document node input.
#[verifier::ext_equal]
pub struct WfInputV {
    pub name: Seq<char>,
    pub ty: Seq<char>,
    pub link: usize,
}

impl View for WorkflowNodeInput {
    type V = WfInputV;

    open spec fn view(&self) -> WfInputV {
        WfInputV { name: self.name@, ty: self.ty@, link: self.link }
    }
}

/// One declared output of a document node: its name, its slot type, the ids
/// of the consumer nodes linked from it, and its slot index.
#[derive(PartialEq, Eq, Debug)]
pub struct WorkflowNodeOutput {
    pub name: String,
    pub ty: String,
    pub links: Vec<usize>,
    pub slot_index: usize,
}

/// Mathematical model of a document node output.
#[verifier::ext_equal]
pub struct WfOutputV {
    pub name: Seq<char>,
    pub ty: Seq<char>,
    pub links: Seq<usize>,
    pub slot_index: usize,
}

impl View for WorkflowNodeOutput {
    type V = WfOutputV;

    open spec fn view(&self) -> WfOutputV {
        WfOutputV {
            name: self.name@,
            ty: self.ty@,
            links: self.links@,
            slot_index: self.slot_index,
        }
    }
}

/// One node record of the document.
#[derive(PartialEq, Eq, Debug)]
pub struct WorkflowNode {
    pub id: usize,
    pub ty: String,
    pub pos: (i64, i64),
    pub order: usize,
    pub mode: usize,
    pub inputs: Vec<WorkflowNodeInput>,
    pub outputs: Vec<WorkflowNodeOutput>,
    pub properties: Vec<(String, String)>,
    pub widgets_values: Vec<WidgetValue>,
}

/// Mathematical model of a document node record.
#[verifier::ext_equal]
pub struct WfNodeV {
    pub id: usize,
    pub ty: Seq<char>,
    pub pos: (i64, i64),
    pub order: usize,
    pub mode: usize,
    pub inputs: Seq<WfInputV>,
    pub outputs: Seq<WfOutputV>,
    pub properties: Seq<(Seq<char>, Seq<char>)>,
    pub widgets_values: Seq<WidgetV>,
}

impl View for WorkflowNode {
    type V = WfNodeV;

    open spec fn view(&self) -> WfNodeV {
        WfNodeV {
            id: self.id,
            ty: self.ty@,
            pos: self.pos,
            order: self.order,
            mode: self.mode,
            inputs: self.inputs@.map_values(|i: WorkflowNodeInput| i@),
            outputs: self.outputs@.map_values(|o: WorkflowNodeOutput| o@),
            properties: self.properties@.map_values(|p: (String, String)| (p.0@, p.1@)),
            widgets_values: self.widgets_values@.map_values(|w: WidgetValue| w@),
        }
    }
}

/// One link record of the document. The on-disk format stores it as a flat
/// six-element array; `to_tuple` and `from_tuple` are the two directions of
/// that bridge.
#[derive(PartialEq, Eq, Debug)]
pub struct LinkItem {
    /// The link id reserved by the consuming node's input.
    pub link: usize,
    /// The producing node's id.
    pub out_node_id: usize,
    /// The producing node's output slot index.
    pub out_node_link_idx: usize,
    /// The consuming node's id.
    pub in_node_id: usize,
    /// The consuming node's input slot index.
    pub in_node_link_idx: usize,
    /// The slot type carried over the link.
    pub ty: String,
}

/// Mathematical model of a document link record.
#[verifier::ext_equal]
pub struct LinkItemV {
    pub link: usize,
    pub out_node_id: usize,
    pub out_node_link_idx: usize,
    pub in_node_id: usize,
    pub in_node_link_idx: usize,
    pub ty: Seq<char>,
}

impl View for LinkItem {
    type V = LinkItemV;

    open spec fn view(&self) -> LinkItemV {
        LinkItemV {
            link: self.link,
            out_node_id: self.out_node_id,
            out_node_link_idx: self.out_node_link_idx,
            in_node_id: self.in_node_id,
            in_node_link_idx: self.in_node_link_idx,
            ty: self.ty@,
        }
    }
}

impl Clone for LinkItem {
    fn clone(&self) -> (r: Self)
        ensures
            r@ == self@,
    {
        LinkItem {
            link: self.link,
            out_node_id: self.out_node_id,
            out_node_link_idx: self.out_node_link_idx,
            in_node_id: self.in_node_id,
            in_node_link_idx: self.in_node_link_idx,
            ty: self.ty.clone(),
        }
    }
}

/// The flat six-field form of a link record, in on-disk order.
pub open spec fn tuple_of_link(l: LinkItemV) -> (usize, usize, usize, usize, usize, Seq<char>) {
    (l.link, l.out_node_id, l.out_node_link_idx, l.in_node_id, l.in_node_link_idx, l.ty)
}

/// The link record named by a flat six-field form, positionally.
pub open spec fn link_of_tuple(t: (usize, usize, usize, usize, usize, Seq<char>)) -> LinkItemV {
    LinkItemV {
        link: t.0,
        out_node_id: t.1,
        out_node_link_idx: t.2,
        in_node_id: t.3,
        in_node_link_idx: t.4,
        ty: t.5,
    }
}

impl LinkItem {
    /// The link id reserved by the consuming node's input.
    pub fn link(&self) -> (r: usize)
        ensures
            r == self@.link,
    {
        self.link
    }

    /// The producing node's id.
    pub fn out_node_id(&self) -> (r: usize)
        ensures
            r == self@.out_node_id,
    {
        self.out_node_id
    }

    /// The producing node's output slot index.
    pub fn out_node_link_idx(&self) -> (r: usize)
        ensures
            r == self@.out_node_link_idx,
    {
        self.out_node_link_idx
    }

    /// The consuming node's id.
    pub fn in_node_id(&self) -> (r: usize)
        ensures
            r == self@.in_node_id,
    {
        self.in_node_id
    }

    /// The consuming node's input slot index.
    pub fn in_node_link_idx(&self) -> (r: usize)
        ensures
            r == self@.in_node_link_idx,
    {
        self.in_node_link_idx
    }

    /// The slot type carried over the link.
    pub fn ty(&self) -> (r: String)
        ensures
            r@ == self@.ty,
    {
        self.ty.clone()
    }

    /// Serializes this record into its flat six-field order.
    pub fn to_tuple(&self) -> (r: (usize, usize, usize, usize, usize, String))
        ensures
            (r.0, r.1, r.2, r.3, r.4, r.5@) == tuple_of_link(self@),
    {
        (
            self.link,
            self.out_node_id,
            self.out_node_link_idx,
            self.in_node_id,
            self.in_node_link_idx,
            self.ty.clone(),
        )
    }

    /// Deserializes a record from its flat six-field order.
    pub fn from_tuple(t: (usize, usize, usize, usize, usize, String)) -> (r: LinkItem)
        ensures
            r@ == link_of_tuple((t.0, t.1, t.2, t.3, t.4, t.5@)),
    {
        LinkItem {
            link: t.0,
            out_node_id: t.1,
            out_node_link_idx: t.2,
            in_node_id: t.3,
            in_node_link_idx: t.4,
            ty: t.5,
        }
    }
}

/// Each direction of the six-field bridge undoes the other: a link record
/// written as a flat tuple and read back is the same record, and a tuple
/// decoded into a record and written again is the same tuple.
pub proof fn lemma_link_tuple_round_trip(
    l: LinkItemV,
    t: (usize, usize, usize, usize, usize, Seq<char>),
)
    ensures
        link_of_tuple(tuple_of_link(l)) == l,
        tuple_of_link(link_of_tuple(t)) == t,
{
}

/// The whole document: the two monotone counters, the node records, the
/// link records, and the format version.
#[derive(PartialEq, Eq, Debug)]
pub struct Workflow {
    pub last_node_id: usize,
    pub last_link_id: usize,
    pub nodes: Vec<WorkflowNode>,
    pub links: Vec<LinkItem>,
    pub version: Real,
}

/// Mathematical model of a document.
#[verifier::ext_equal]
pub struct WorkflowV {
    pub last_node_id: usize,
    pub last_link_id: usize,
    pub nodes: Seq<WfNodeV>,
    pub links: Seq<LinkItemV>,
    pub version: Real,
}

impl View for Workflow {
    type V = WorkflowV;

    open spec fn view(&self) -> WorkflowV {
        WorkflowV {
            last_node_id: self.last_node_id,
            last_link_id: self.last_link_id,
            nodes: self.nodes@.map_values(|n: WorkflowNode| n@),
            links: self.links@.map_values(|l: LinkItem| l@),
            version: self.version,
        }
    }
}

/// `a + b`, stopped at the largest representable value.
pub open spec fn sat_add(a: usize, b: usize) -> usize {
    if a + b <= usize::MAX {
        (a + b) as usize
    } else {
        usize::MAX
    }
}

fn sat_add_exec(a: usize, b: usize) -> (r: usize)
    ensures
        r == sat_add(a, b),
{
    if a <= usize::MAX - b {
        a + b
    } else {
        usize::MAX
    }
}

/// The inputs of a node record renumbered for insertion: input `k` takes
/// link id `base + k`, stopped at the representable limit.
pub open spec fn renumber_inputs(inputs: Seq<WfInputV>, base: usize) -> Seq<WfInputV> {
    Seq::new(
        inputs.len(),
        |k: int| WfInputV { link: sat_add(base, k as usize), ..inputs[k] },
    )
}

/// The document after one node record was added: the node takes id
/// `last_node_id + 1`, its inputs take the freshly reserved link ids, and
/// both counters advance. The counters stop at the representable limit
/// rather than wrap.
pub open spec fn add_node_spec(w: WorkflowV, node: WfNodeV) -> WorkflowV {
    WorkflowV {
        last_node_id: sat_add(w.last_node_id, 1),
        last_link_id: sat_add(w.last_link_id, node.inputs.len() as usize),
        nodes: w.nodes.push(
            WfNodeV {
                id: sat_add(w.last_node_id, 1),
                inputs: renumber_inputs(node.inputs, w.last_link_id),
                ..node
            },
        ),
        links: w.links,
        version: w.version,
    }
}

/// The position of the first node record with the given id.
pub open spec fn wf_find(nodes: Seq<WfNodeV>, id: usize) -> Option<int>
    decreases nodes.len(),
{
    if nodes.len() == 0 {
        None
    } else if nodes[0].id == id {
        Some(0int)
    } else {
        match wf_find(nodes.drop_first(), id) {
            Some(i) => Some(i + 1),
            None => None,
        }
    }
}

/// The document after a link was recorded from node `onode`'s output
/// `output` to node `inode`'s input `input`: the link record takes the id
/// and slot type reserved by the consumer's input, and the consumer's id is
/// noted on the producer's output. `None` when either endpoint does not
/// resolve; the document is then unchanged.
pub open spec fn link_spec(
    w: WorkflowV,
    onode: usize,
    inode: usize,
    output: usize,
    input: usize,
) -> Option<WorkflowV> {
    match wf_find(w.nodes, inode) {
        Some(i_idx) => if input < w.nodes[i_idx].inputs.len() {
            match wf_find(w.nodes, onode) {
                Some(o_idx) => if output < w.nodes[o_idx].outputs.len() {
                    let item = LinkItemV {
                        link: w.nodes[i_idx].inputs[input as int].link,
                        out_node_id: onode,
                        out_node_link_idx: output,
                        in_node_id: inode,
                        in_node_link_idx: input,
                        ty: w.nodes[i_idx].inputs[input as int].ty,
                    };
                    let out_node = w.nodes[o_idx];
                    let new_out = WfOutputV {
                        links: out_node.outputs[output as int].links.push(inode),
                        ..out_node.outputs[output as int]
                    };
                    Some(
                        WorkflowV {
                            links: w.links.push(item),
                            nodes: w.nodes.update(
                                o_idx,
                                WfNodeV {
                                    outputs: out_node.outputs.update(output as int, new_out),
                                    ..out_node
                                },
                            ),
                            ..w
                        },
                    )
                } else {
                    None
                },
                None => None,
            }
        } else {
            None
        },
        None => None,
    }
}

impl Workflow {
    /// An empty document at the current format version.
    pub fn new() -> (r: Workflow)
        ensures
            r@.last_node_id == 0,
            r@.last_link_id == 0,
            r@.nodes == Seq::<WfNodeV>::empty(),
            r@.links == Seq::<LinkItemV>::empty(),
            r@.version == (Real { bits: VERSION_BITS }),
    {
        let r = Workflow {
            last_node_id: 0,
            last_link_id: 0,
            nodes: Vec::new(),
            links: Vec::new(),
            version: Real { bits: VERSION_BITS },
        };
        proof {
            assert(r@.nodes =~= Seq::<WfNodeV>::empty());
            assert(r@.links =~= Seq::<LinkItemV>::empty());
        }
        r
    }

    /// Adds a node record: it takes the next node id, and one link id is
    /// reserved per declared input. Returns the assigned id.
    pub fn add_node(&mut self, node: WorkflowNode) -> (r: usize)
        ensures
            final(self)@ == add_node_spec(old(self)@, node@),
            r == sat_add(old(self)@.last_node_id, 1),
    {
        let ghost node_v = node@;
        let ghost prev = self@;
        let base = self.last_link_id;
        self.last_link_id = sat_add_exec(self.last_link_id, node.inputs.len());
        self.last_node_id = sat_add_exec(self.last_node_id, 1);
        let new_id = self.last_node_id;
        let mut inputs: Vec<WorkflowNodeInput> = Vec::new();
        let mut rest = node.inputs;
        let mut k: usize = 0;
        let n = rest.len();
        proof {
            assert(rest@.map_values(|i: WorkflowNodeInput| i@) == node_v.inputs);
        }
        while k < n
            invariant
                k <= n,
                n == rest@.len(),
                rest@.map_values(|i: WorkflowNodeInput| i@) == node_v.inputs,
                inputs@.len() == k,
                forall|j: int|
                    #![trigger inputs@[j]]
                    0 <= j < k ==> inputs@[j]@ == (WfInputV {
                        link: sat_add(base, j as usize),
                        ..node_v.inputs[j]
                    }),
            decreases n - k,
        {
            let ghost prev_inputs = inputs@;
            let link_id = sat_add_exec(base, k);
            inputs.push(
                WorkflowNodeInput {
                    name: rest[k].name.clone(),
                    ty: rest[k].ty.clone(),
                    link: link_id,
                },
            );
            proof {
                assert(node_v.inputs[k as int] == rest@[k as int]@);
                assert(inputs@[k as int]@ == (WfInputV {
                    link: sat_add(base, k),
                    ..node_v.inputs[k as int]
                }));
                assert(forall|j: int| 0 <= j < k ==> inputs@[j] == prev_inputs[j]);
            }
            k = k + 1;
        }
        let stored = WorkflowNode {
            id: new_id,
            ty: node.ty,
            pos: node.pos,
            order: node.order,
            mode: node.mode,
            inputs,
            outputs: node.outputs,
            properties: node.properties,
            widgets_values: node.widgets_values,
        };
        proof {
            assert(stored@.inputs =~= renumber_inputs(node_v.inputs, base));
            assert(stored@.outputs == node_v.outputs);
            assert(stored@.properties == node_v.properties);
            assert(stored@.widgets_values == node_v.widgets_values);
        }
        let ghost nodes_prev = self.nodes@;
        self.nodes.push(stored);
        proof {
            assert(self@.nodes =~= prev.nodes.push(self.nodes@.last()@));
            assert(self@ =~= add_node_spec(prev, node_v));
        }
        new_id
    }

    /// A read reference to the node record with the given id.
    pub fn get_node(&self, id: usize) -> (r: Option<&WorkflowNode>)
        ensures
            match r {
                Some(n) => {
                    &&& wf_find(self@.nodes, id) is Some
                    &&& n@ == self@.nodes[wf_find(self@.nodes, id)->0]
                },
                None => wf_find(self@.nodes, id) is None,
            },
    {
        let mut i: usize = 0;
        proof {
            assert(self@.nodes.skip(0int) =~= self@.nodes);
        }
        while i < self.nodes.len()
            invariant
                i <= self.nodes@.len(),
                self@.nodes.len() == self.nodes@.len(),
                match wf_find(self@.nodes.skip(i as int), id) {
                    Some(j) => wf_find(self@.nodes, id) == Some(j + i),
                    None => wf_find(self@.nodes, id) is None,
                },
            decreases self.nodes@.len() - i,
        {
            proof {
                assert(self@.nodes.skip(i as int)[0] == self@.nodes[i as int]);
                assert(self@.nodes.skip(i as int).drop_first() =~= self@.nodes.skip(i as int + 1));
            }
            if self.nodes[i].id == id {
                return Some(&self.nodes[i]);
            }
            i = i + 1;
        }
        None
    }

    /// Records a link from node `onode`'s output slot `output` to node
    /// `inode`'s input slot `input`, as `link_spec` describes. Returns
    /// `Some(())` exactly when both endpoints resolve; otherwise nothing
    /// changes.
    pub fn link(&mut self, onode: usize, inode: usize, output: usize, input: usize) -> (r: Option<
        (),
    >)
        ensures
            match link_spec(old(self)@, onode, inode, output, input) {
                Some(w2) => r is Some && final(self)@ == w2,
                None => r is None && final(self)@ == old(self)@,
            },
    {
        let ghost prev = self@;
        let (link_id, ty, i_ok) = match self.find_index(inode) {
            Some(i_idx) => {
                if input < self.nodes[i_idx].inputs.len() {
                    (
                        self.nodes[i_idx].inputs[input].link,
                        self.nodes[i_idx].inputs[input].ty.clone(),
                        true,
                    )
                } else {
                    (0, String::new(), false)
                }
            },
            None => (0, String::new(), false),
        };
        if !i_ok {
            return None;
        }
        let o_idx = match self.find_index(onode) {
            Some(o_idx) => {
                if output < self.nodes[o_idx].outputs.len() {
                    o_idx
                } else {
                    return None;
                }
            },
            None => {
                return None;
            },
        };
        let item = LinkItem {
            link: link_id,
            out_node_id: onode,
            out_node_link_idx: output,
            in_node_id: inode,
            in_node_link_idx: input,
            ty,
        };
        let ghost links_prev = self.links@;
        self.links.push(item);
        proof {
            assert(self@.links =~= prev.links.push(self.links@.last()@));
        }
        let ghost nodes_prev = self.nodes@;
        let mut tmp = WorkflowNode {
            id: 0,
            ty: String::new(),
            pos: (0, 0),
            order: 0,
            mode: 0,
            inputs: Vec::new(),
            outputs: Vec::new(),
            properties: Vec::new(),
            widgets_values: Vec::new(),
        };
        self.nodes.set_and_swap(o_idx, &mut tmp);
        let mut out_tmp = WorkflowNodeOutput {
            name: String::new(),
            ty: String::new(),
            links: Vec::new(),
            slot_index: 0,
        };
        tmp.outputs.set_and_swap(output, &mut out_tmp);
        let ghost out_prev = out_tmp@;
        out_tmp.links.push(inode);
        tmp.outputs.set_and_swap(output, &mut out_tmp);
        proof {
            assert(tmp@.outputs =~= nodes_prev[o_idx as int]@.outputs.update(
                output as int,
                tmp.outputs@[output as int]@,
            ));
            assert(tmp.outputs@[output as int]@ == (WfOutputV {
                links: out_prev.links.push(inode),
                ..out_prev
            }));
        }
        self.nodes.set_and_swap(o_idx, &mut tmp);
        proof {
            assert(self@.nodes =~= prev.nodes.update(o_idx as int, self.nodes@[o_idx as int]@));
            assert(link_spec(prev, onode, inode, output, input) is Some);
            assert(self@ =~= link_spec(prev, onode, inode, output, input)->0);
        }
        Some(())
    }

    /// The position of the first node record with the given id.
    fn find_index(&self, id: usize) -> (r: Option<usize>)
        ensures
            match r {
                Some(j) => {
                    &&& j < self@.nodes.len()
                    &&& wf_find(self@.nodes, id) == Some(j as int)
                    &&& self@.nodes[j as int].id == id
                },
                None => wf_find(self@.nodes, id) is None,
            },
    {
        let mut i: usize = 0;
        proof {
            assert(self@.nodes.skip(0int) =~= self@.nodes);
        }
        while i < self.nodes.len()
            invariant
                i <= self.nodes@.len(),
                self@.nodes.len() == self.nodes@.len(),
                match wf_find(self@.nodes.skip(i as int), id) {
                    Some(j) => wf_find(self@.nodes, id) == Some(j + i),
                    None => wf_find(self@.nodes, id) is None,
                },
            decreases self.nodes@.len() - i,
        {
            proof {
                assert(self@.nodes.skip(i as int)[0] == self@.nodes[i as int]);
                assert(self@.nodes.skip(i as int).drop_first() =~= self@.nodes.skip(i as int + 1));
            }
            if self.nodes[i].id == id {
                return Some(i);
            }
            i = i + 1;
        }
        None
    }
}

} // verus!
